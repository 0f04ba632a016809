//! Types that the models share.

use vstd::prelude::*;

verus! {

/// The number of rows on one page of a list.
pub const PAGE_SIZE: u32 = 32;

/// The query of a list request.
#[derive(Clone, Copy, Debug, PartialEq, Eq, Structural)]
pub struct ListInput {
    pub page: u32,
}

/// A value that is stored as JSON text.
#[derive(Clone, Debug, Default)]
pub struct JsonStr<T>(pub T);

impl ListInput {
    /// The number of rows that stand before the page; `None` where that
    /// number is beyond what the query can hold.
    pub open spec fn spec_offset(self) -> Option<u32> {
        if self.page * PAGE_SIZE <= u32::MAX {
            Some((self.page * PAGE_SIZE) as u32)
        } else {
            None
        }
    }

    /// The number of rows to skip for this page.
    pub fn offset(&self) -> (r: Option<u32>)
        ensures
            r == self.spec_offset(),
    {
        self.page.checked_mul(PAGE_SIZE)
    }
}

impl<T> JsonStr<T> {
    /// The value.
    pub fn get(&self) -> (r: &T)
        ensures
            *r == self.0,
    {
        &self.0
    }

    /// The value, taken out.
    pub fn into_inner(self) -> (r: T)
        ensures
            r == self.0,
    {
        self.0
    }
}

} // verus!
