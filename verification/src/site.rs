//! The sites that report to the collector, and what a dump does to one.

use crate::common::JsonStr;
use crate::config::{lemma_alphabets, Config};
use crate::error::{AppErr, Reply};
use crate::stats::{keyed, Bucket, Dump, Status, Window};
use crate::table::Table;
use crate::text::{contains_byte, str_eq};
use crate::user::{Authorization, Claim};
use crate::utils::{cut, get_random_string, now, spelled, CutOff};
use vstd::prelude::*;
use vstd::string::{StringExecFns, StringSliceAdditionalSpecFns};

verus! {

/// A site and the totals of everything it has reported.
#[derive(Clone, Debug)]
pub struct Site {
    pub id: i64,
    pub name: String,
    pub timestamp: i64,
    pub latest_request: i64,
    pub latest_ping: i64,
    pub total_requests: i64,
    pub total_requests_time: i64,
    pub requests_max_time: i64,
    pub requests_min_time: i64,
    pub status: JsonStr<Table<Status>>,
    pub token: Option<String>,
    pub online: bool,
    pub latest_message_timestamp: i64,
    pub latest_dump_timestamp: i64,
}

/// A message that a site has sent.
#[derive(Clone, Debug)]
pub struct SiteMessage {
    pub id: i64,
    pub site: i64,
    pub timestamp: i64,
    pub text: String,
    pub tag: String,
}

/// One window of statistics as a site reports it.
#[derive(Clone, Debug)]
pub struct SiteDump {
    pub total: i64,
    pub total_time: i64,
    pub max_time: i64,
    pub min_time: i64,
    pub status: Table<Status>,
}

/// The longest name of a site, in bytes.
pub const NAME_MAX: usize = 100;

/// The longest text of a message, in bytes.
pub const TEXT_MAX: usize = 2048;

/// The longest tag of a message, in bytes.
pub const TAG_MAX: usize = 255;

/// The number of characters of a site's token.
pub const TOKEN_LEN: usize = 41;

/// Whether a text can be a site's token: `TOKEN_LEN` characters of the
/// alphabet of site tokens.
pub open spec fn is_site_token(token: Seq<char>) -> bool {
    exists|picks: Seq<usize>|
        {
            &&& picks.len() == TOKEN_LEN
            &&& forall|i: int|
                0 <= i < TOKEN_LEN ==> (#[trigger] picks[i])
                    < Config::SITE_TOKEN_ABC.spec_bytes().len()
            &&& token == spelled(Config::SITE_TOKEN_ABC.spec_bytes(), picks)
        }
}

/// Whether a request with the claim `claim` may speak for the site that is
/// kept under the number it names.
pub open spec fn is_let_in(claim: Claim, site: Option<&Site>, online_only: bool) -> bool {
    &&& claim matches Claim::Site { token, .. }
    &&& site matches Some(found)
    &&& found.admits(token, online_only)
}

/// The note that is sent out about a message of a site.
pub open spec fn notice(name: Seq<char>, tag: Seq<char>, text: Seq<char>) -> Seq<char> {
    "site: "@ + name + "\ntag: "@ + tag + "\n\n"@ + text
}

/// The note that is sent out about a message of a site.
pub fn notification(name: &str, tag: &str, text: &str) -> (r: String)
    ensures
        r@ == notice(name@, tag@, text@),
{
    let mut note = String::from_str("site: ");
    note.append(name);
    note.append("\ntag: ");
    note.append(tag);
    note.append("\n\n");
    note.append(text);
    note
}

/// Lets a request speak for a site: the request must claim to be a site,
/// `site` is what is kept under the number it names, and the site must
/// accept the token. Whatever is amiss, the answer is the same.
pub fn let_in(auth: &Authorization, site: Option<&Site>, online_only: bool) -> (r: Result<
    (),
    AppErr,
>)
    ensures
        r is Ok <==> is_let_in(auth@, site, online_only),
        r matches Err(e) ==> e@ == Reply::not_found("no site was found"@),
{
    let accepted = match (auth.site(), site) {
        (Some(claim), Some(found)) => found.accepts(claim.1, online_only),
        _ => false,
    };
    if accepted {
        Ok(())
    } else {
        Err(AppErr::not_found("no site was found"))
    }
}

/// The buckets of a table as their models.
pub open spec fn buckets(status: Map<Seq<char>, Status>) -> Map<Seq<char>, Bucket> {
    status.map_values(|s: Status| s@)
}

/// The buckets of a site after a dump: a bucket that both have is merged,
/// every other one is taken as it is.
pub open spec fn merged(old: Map<Seq<char>, Status>, new: Map<Seq<char>, Status>) -> Map<
    Seq<char>,
    Bucket,
> {
    Map::new(
        |key: Seq<char>| old.contains_key(key) || new.contains_key(key),
        |key: Seq<char>|
            if old.contains_key(key) && new.contains_key(key) {
                old[key]@.merge(new[key]@)
            } else if old.contains_key(key) {
                old[key]@
            } else {
                new[key]@
            },
    )
}

/// Whether the buckets of `new` can be added to those of `old` without a
/// counter running over.
pub open spec fn mergeable(old: Map<Seq<char>, Status>, new: Map<Seq<char>, Status>) -> bool {
    forall|key: Seq<char>|
        old.contains_key(key) && #[trigger] new.contains_key(key) ==> old[key]@.merge(
            new[key]@,
        ).fits()
}

/// Whether a name is neither empty nor longer than `NAME_MAX` bytes.
pub open spec fn name_length_ok(name: &str) -> bool {
    0 < name.spec_bytes().len() <= NAME_MAX
}

/// Whether every character of a name is in the alphabet of names. A
/// character is judged by the low byte of its code.
pub open spec fn name_chars_ok(name: Seq<char>) -> bool {
    forall|i: int|
        0 <= i < name.len() ==> Config::SITE_NAME_ABC.spec_bytes().contains(
            #[verifier::truncate] ((#[trigger] name[i]) as u8),
        )
}

/// What is wrong with a name, if anything. The length is judged before the
/// characters.
pub open spec fn name_fault(name: &str) -> Option<Reply> {
    if !name_length_ok(name) {
        Some(Reply::bad_request("invalid name length > 0 && < 100"@))
    } else if !name_chars_ok(name@) {
        Some(Reply::bad_request("invalid name characters"@))
    } else {
        None
    }
}

/// What holds of one key while tables are merged, once the first `done`
/// keys of `new_keys` are through.
spec fn merged_so_far(
    old: Map<Seq<char>, Status>,
    new: Map<Seq<char>, Status>,
    new_keys: Seq<Seq<char>>,
    done: int,
    now: Map<Seq<char>, Status>,
    key: Seq<char>,
) -> bool {
    let through = new_keys.take(done).contains(key);
    &&& now.contains_key(key) <==> old.contains_key(key) || through
    &&& now.contains_key(key) ==> now[key]@ == if old.contains_key(key) && through {
        old[key]@.merge(new[key]@)
    } else if old.contains_key(key) {
        old[key]@
    } else {
        new[key]@
    }
}

/// Whether the buckets of `from` can be added to those of `into`.
pub fn can_merge_statuses(into: &Table<Status>, from: &Table<Status>) -> (r: bool)
    requires
        into.wf(),
        from.wf(),
    ensures
        r == mergeable(into@, from@),
{
    proof {
        from.lemma_places();
    }
    let count = from.len();
    let mut at: usize = 0;
    while at < count
        invariant
            into.wf(),
            from.wf(),
            count == from.key_texts().len(),
            at <= count,
            forall|j: int|
                0 <= j < at && into@.contains_key(#[trigger] from.key_texts()[j])
                    ==> into@[from.key_texts()[j]]@.merge(from@[from.key_texts()[j]]@).fits(),
        decreases count - at,
    {
        let key = from.key_at(at);
        let new = from.value_at(at);
        match into.get(key) {
            Some(old) => {
                if !old.can_merge(new) {
                    proof {
                        from.lemma_places();
                        assert(from@.contains_key(key@));
                    }
                    return false;
                }
            },
            None => {},
        }
        at = at + 1;
    }
    proof {
        from.lemma_places();
        assert forall|key: Seq<char>|
            into@.contains_key(key) && #[trigger] from@.contains_key(key) implies into@[key]@.merge(
            from@[key]@,
        ).fits() by {
            let j = from.key_texts().index_of(key);
            assert(from.key_texts().contains(key));
            assert(from.key_texts()[j] == key);
        }
    }
    true
}

/// Adds the buckets of `from` to those of `into`: a bucket that both have
/// is merged, every other one of `from` is taken over.
pub fn merge_statuses(into: &mut Table<Status>, from: &Table<Status>)
    requires
        old(into).wf(),
        from.wf(),
        mergeable(old(into)@, from@),
    ensures
        final(into).wf(),
        buckets(final(into)@) == merged(old(into)@, from@),
{
    proof {
        from.lemma_places();
    }
    let ghost before = into@;
    let ghost keys = from.key_texts();
    let count = from.len();
    let mut at: usize = 0;
    while at < count
        invariant
            into.wf(),
            from.wf(),
            mergeable(before, from@),
            keys == from.key_texts(),
            keys.no_duplicates(),
            count == keys.len(),
            at <= count,
            forall|j: int| 0 <= j < keys.len() ==> from@.contains_key(#[trigger] keys[j]),
            forall|key: Seq<char>| #[trigger]
                merged_so_far(before, from@, keys, at as int, into@, key),
        decreases count - at,
    {
        let key = from.key_at(at);
        let new = *from.value_at(at);
        let ghost previous = into@;
        proof {
            assert(merged_so_far(before, from@, keys, at as int, previous, key@));
            assert(!keys.take(at as int).contains(key@)) by {
                if keys.take(at as int).contains(key@) {
                    let j = keys.take(at as int).index_of(key@);
                    assert(keys[j] == keys[at as int]);
                }
            }
            assert(from@.contains_key(keys[at as int]));
        }
        let next = match into.get(key) {
            Some(old) => {
                let mut sum = *old;
                sum.merge(&new);
                sum
            },
            None => new,
        };
        into.insert(key.to_string(), next);
        proof {
            assert forall|k: Seq<char>| #[trigger]
                merged_so_far(before, from@, keys, at + 1, into@, k) by {
                assert(merged_so_far(before, from@, keys, at as int, previous, k));
                let earlier = keys.take(at as int);
                let through = keys.take(at + 1);
                if k == key@ {
                    assert(through[at as int] == k);
                } else {
                    if through.contains(k) {
                        let j = through.index_of(k);
                        assert(earlier[j] == k);
                    }
                    if earlier.contains(k) {
                        let j = earlier.index_of(k);
                        assert(through[j] == k);
                    }
                }
            }
        }
        at = at + 1;
    }
    proof {
        from.lemma_places();
        assert(keys.take(at as int) =~= keys);
        let got = buckets(into@);
        let want = merged(before, from@);
        assert forall|k: Seq<char>| got.dom().contains(k) == want.dom().contains(k) by {
            assert(merged_so_far(before, from@, keys, at as int, into@, k));
        }
        assert forall|k: Seq<char>| #[trigger] got.dom().contains(k) implies got[k] == want[k] by {
            assert(merged_so_far(before, from@, keys, at as int, into@, k));
        }
        assert(got.dom() =~= want.dom());
        assert(buckets(into@) =~= merged(before, from@));
    }
}

impl SiteDump {
    /// The table of buckets is in order.
    pub open spec fn wf(&self) -> bool {
        self.status.wf()
    }

    /// Whether the totals of a window fit the numbers of a report.
    pub open spec fn fits(window: Window) -> bool {
        &&& window.total <= i64::MAX
        &&& window.total_time <= i64::MAX
        &&& window.max_time <= i64::MAX
        &&& window.min_time <= i64::MAX
    }

    /// A window of the daemon as the report that the collector takes: the
    /// same totals, and each bucket under its code in decimal. There is no
    /// report of a window whose totals are beyond what a report can hold.
    pub fn of_window(dump: &Dump) -> (r: Option<SiteDump>)
        ensures
            r is Some <==> Self::fits(dump@),
            r matches Some(report) ==> {
                &&& report.wf()
                &&& report.total == dump@.total
                &&& report.total_time == dump@.total_time
                &&& report.max_time == dump@.max_time
                &&& report.min_time == dump@.min_time
                &&& buckets(report.status@) == keyed(dump@.status)
            },
    {
        let limit: u64 = 0x7fff_ffff_ffff_ffff;
        if dump.total() > limit || dump.total_time() > limit || dump.max_time() > limit
            || dump.min_time() > limit {
            return None;
        }
        Some(
            SiteDump {
                total: dump.total() as i64,
                total_time: dump.total_time() as i64,
                max_time: dump.max_time() as i64,
                min_time: dump.min_time() as i64,
                status: dump.keyed(),
            },
        )
    }
}

impl Site {
    /// The table of buckets is in order.
    pub open spec fn wf(&self) -> bool {
        self.status.0.wf()
    }

    /// Accepts the names of one to `NAME_MAX` bytes whose characters are all
    /// in the alphabet of names.
    pub fn verify_name(name: &str) -> (r: Result<(), AppErr>)
        ensures
            match (r, name_fault(name)) {
                (Ok(_), None) => true,
                (Err(e), Some(fault)) => e@ == fault,
                _ => false,
            },
    {
        let length = name.as_bytes().len();
        if length == 0 || length > NAME_MAX {
            return Err(AppErr::bad_request("invalid name length > 0 && < 100"));
        }
        let abc = Config::SITE_NAME_ABC.as_bytes();
        for c in it: name.chars()
            invariant
                it.seq() == name@,
                name_length_ok(name),
                abc@ == Config::SITE_NAME_ABC.spec_bytes(),
                forall|i: int|
                    0 <= i < it.index() ==> abc@.contains(
                        #[verifier::truncate] ((#[trigger] name@[i]) as u8),
                    ),
        {
            if !contains_byte(abc, #[verifier::truncate] (c as u8)) {
                assert(name@[it.index() as int] == c);
                return Err(AppErr::bad_request("invalid name characters"));
            }
        }
        Ok(())
    }

    /// A site that has reported nothing yet.
    pub fn new(id: i64, name: String, now: i64) -> (r: Site)
        ensures
            r.wf(),
            r.id == id,
            r.name == name,
            r.timestamp == now,
            r.latest_request == 0,
            r.latest_ping == 0,
            r.total_requests == 0,
            r.total_requests_time == 0,
            r.requests_max_time == 0,
            r.requests_min_time == 0,
            r.status.0@ == Map::<Seq<char>, Status>::empty(),
            r.token is None,
            !r.online,
            r.latest_message_timestamp == 0,
            r.latest_dump_timestamp == 0,
    {
        Site {
            id,
            name,
            timestamp: now,
            latest_request: 0,
            latest_ping: 0,
            total_requests: 0,
            total_requests_time: 0,
            requests_max_time: 0,
            requests_min_time: 0,
            status: JsonStr(Table::new()),
            token: None,
            online: false,
            latest_message_timestamp: 0,
            latest_dump_timestamp: 0,
        }
    }

    /// Whether a request that shows `token` may speak for this site.
    pub open spec fn admits(&self, token: Seq<char>, online_only: bool) -> bool {
        &&& self.token matches Some(own)
        &&& own@ == token
        &&& online_only ==> self.online
    }

    /// Whether a request that shows `token` may speak for this site: the
    /// token is the site's own, and the site is online where that is asked.
    pub fn accepts(&self, token: &str, online_only: bool) -> (r: bool)
        ensures
            r == self.admits(token@, online_only),
    {
        match &self.token {
            Some(own) => str_eq(own.as_str(), token) && (!online_only || self.online),
            None => false,
        }
    }

    /// Whether the site can take `dump` without a counter running over.
    pub open spec fn can_take(&self, dump: &SiteDump) -> bool {
        &&& i64::MIN <= self.total_requests + dump.total <= i64::MAX
        &&& i64::MIN <= self.total_requests_time + dump.total_time <= i64::MAX
        &&& mergeable(self.status.0@, dump.status@)
    }

    /// Whether `apply_dump` may be called with `dump`.
    pub fn can_apply(&self, dump: &SiteDump) -> (r: bool)
        requires
            self.wf(),
            dump.wf(),
        ensures
            r == self.can_take(dump),
    {
        self.total_requests.checked_add(dump.total).is_some()
            && self.total_requests_time.checked_add(dump.total_time).is_some()
            && can_merge_statuses(&self.status.0, &dump.status)
    }

    /// Adds one reported window to the totals of the site. The handler
    /// began at `begun`; the dump is applied at `now`. A minimum of zero
    /// counts as not yet known.
    pub fn apply_dump(&mut self, dump: &SiteDump, begun: i64, now: i64)
        requires
            old(self).wf(),
            dump.wf(),
            old(self).can_take(dump),
        ensures
            final(self).wf(),
            buckets(final(self).status.0@) == merged(old(self).status.0@, dump.status@),
            *final(self) == (Site {
                latest_dump_timestamp: begun,
                total_requests: (old(self).total_requests + dump.total) as i64,
                total_requests_time: (old(self).total_requests_time + dump.total_time) as i64,
                requests_max_time: if dump.max_time >= old(self).requests_max_time {
                    dump.max_time
                } else {
                    old(self).requests_max_time
                },
                requests_min_time: if dump.min_time < old(self).requests_min_time || old(
                    self,
                ).requests_min_time == 0 {
                    dump.min_time
                } else {
                    old(self).requests_min_time
                },
                latest_request: now,
                status: final(self).status,
                ..*old(self)
            }),
    {
        self.latest_dump_timestamp = begun;
        self.total_requests = self.total_requests + dump.total;
        self.total_requests_time = self.total_requests_time + dump.total_time;
        if dump.max_time >= self.requests_max_time {
            self.requests_max_time = dump.max_time;
        }
        if dump.min_time < self.requests_min_time || self.requests_min_time == 0 {
            self.requests_min_time = dump.min_time;
        }
        self.latest_request = now;
        merge_statuses(&mut self.status.0, &dump.status);
    }

    /// Adds one reported window to the totals of the site, as `apply_dump`
    /// does; the time of the latest request is read from the clock.
    pub fn take_dump(&mut self, dump: &SiteDump, begun: i64)
        requires
            old(self).wf(),
            dump.wf(),
            old(self).can_take(dump),
        ensures
            final(self).wf(),
            buckets(final(self).status.0@) == merged(old(self).status.0@, dump.status@),
            *final(self) == (Site {
                latest_dump_timestamp: begun,
                total_requests: (old(self).total_requests + dump.total) as i64,
                total_requests_time: (old(self).total_requests_time + dump.total_time) as i64,
                requests_max_time: if dump.max_time >= old(self).requests_max_time {
                    dump.max_time
                } else {
                    old(self).requests_max_time
                },
                requests_min_time: if dump.min_time < old(self).requests_min_time || old(
                    self,
                ).requests_min_time == 0 {
                    dump.min_time
                } else {
                    old(self).requests_min_time
                },
                latest_request: final(self).latest_request,
                status: final(self).status,
                ..*old(self)
            }),
    {
        let applied = now();
        self.apply_dump(dump, begun, applied);
    }

    /// Takes a message of the site at `now`. Text and tag are cut to
    /// `TEXT_MAX` and `TAG_MAX` bytes.
    pub fn message(&mut self, text: &str, tag: &str, now: i64) -> (r: SiteMessage)
        ensures
            *final(self) == (Site { latest_message_timestamp: now, ..*old(self) }),
            r.id == 0,
            r.site == old(self).id,
            r.timestamp == now,
            r.text@ == cut(text@, TEXT_MAX as int),
            r.tag@ == cut(tag@, TAG_MAX as int),
    {
        let mut text = text.to_string();
        let mut tag = tag.to_string();
        text.cut_off(TEXT_MAX);
        tag.cut_off(TAG_MAX);
        self.latest_message_timestamp = now;
        SiteMessage { id: 0, site: self.id, timestamp: now, text, tag }
    }

    /// A new token for a site.
    pub fn fresh_token() -> (r: String)
        ensures
            is_site_token(r@),
    {
        proof {
            lemma_alphabets();
        }
        get_random_string(Config::SITE_TOKEN_ABC.as_bytes(), TOKEN_LEN)
    }

    /// Changes the name and whether the site is online; `token` is the new
    /// token if the site gets one. A name that is none is refused, and
    /// nothing changes.
    pub fn update(&mut self, name: &str, online: bool, token: Option<String>) -> (r: Result<
        (),
        AppErr,
    >)
        ensures
            match name_fault(name) {
                Some(fault) => r matches Err(e) && e@ == fault && *final(self) == *old(self),
                None => r is Ok && final(self).name@ == name@ && *final(self) == (Site {
                    name: final(self).name,
                    online,
                    token: match token {
                        Some(new) => Some(new),
                        None => old(self).token,
                    },
                    ..*old(self)
                }),
            },
    {
        match Site::verify_name(name) {
            Err(e) => {
                return Err(e);
            },
            Ok(_) => {},
        }
        self.online = online;
        self.name = name.to_string();
        if let Some(new) = token {
            self.token = Some(new);
        }
        Ok(())
    }

    /// Notes that the site was alive at `now`.
    pub fn ping(&mut self, now: i64)
        ensures
            *final(self) == (Site { latest_ping: now, ..*old(self) }),
    {
        self.latest_ping = now;
    }

    /// Forgets the totals; the site starts anew at `now`.
    pub fn reset(&mut self, now: i64)
        ensures
            final(self).wf(),
            final(self).status.0@ == Map::<Seq<char>, Status>::empty(),
            *final(self) == (Site {
                total_requests: 0,
                total_requests_time: 0,
                requests_max_time: 0,
                requests_min_time: 0,
                status: final(self).status,
                timestamp: now,
                ..*old(self)
            }),
    {
        self.total_requests = 0;
        self.total_requests_time = 0;
        self.requests_max_time = 0;
        self.requests_min_time = 0;
        self.status.0.clear();
        self.timestamp = now;
    }
}

} // verus!
