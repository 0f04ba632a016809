//! Verification codes: a code is sent to a phone, and whoever answers with
//! it in time has shown that the phone is theirs.

use crate::config::{lemma_alphabets, Config};
use crate::error::{AppErr, Reply};
use crate::table::Table;
use crate::text::str_eq;
use crate::utils::{get_random_string, phone_fault, phone_validator, spelled};
use vstd::prelude::*;
use vstd::string::StringSliceAdditionalSpecFns;

verus! {

/// How long a code is good for, in seconds.
pub const CODE_LIFETIME: i64 = 180;

/// The number of characters of a code.
pub const CODE_LEN: usize = 5;

/// The number of wrong answers after which the answer says so.
pub const MAX_TRIES: u8 = 2;

/// What a code is asked for.
#[derive(Clone, Copy, Debug, PartialEq, Eq, Structural)]
pub enum Action {
    Login,
    Delete,
}

/// A code that was sent and waits for its answer.
#[derive(Debug)]
pub struct VerifyData {
    pub action: Action,
    pub code: String,
    pub expires: i64,
    pub tries: u8,
}

/// What the one who asked for a code is told.
#[derive(Clone, Copy, Debug, PartialEq, Eq, Structural)]
pub struct VerificationResponse {
    /// The seconds for which the code is still good.
    pub expires: i64,
    pub action: Action,
}

/// What asking for a code brings: the answer for the one who asked, and the
/// code that is to be sent to the phone, if a new one was made.
#[derive(Clone, Debug)]
pub struct Issued {
    pub response: VerificationResponse,
    pub code: Option<String>,
}

/// The codes that wait for their answers, by phone number.
#[derive(Debug)]
pub struct VerifyState {
    entries: Table<VerifyData>,
}

/// The codes that wait, as a map from the phone number.
pub type Waiting = Map<Seq<char>, VerifyData>;

/// Whether `now` is a time that codes can be reckoned from.
pub open spec fn is_time(now: i64) -> bool {
    0 <= now <= i64::MAX - CODE_LIFETIME
}

/// Whether a code is still good at `now`.
pub open spec fn is_live(data: VerifyData, now: i64) -> bool {
    data.expires - now > 0
}

/// The codes that are still good at `now`.
pub open spec fn live(waiting: Waiting, now: i64) -> Waiting {
    Map::new(
        |phone: Seq<char>| waiting.contains_key(phone) && is_live(waiting[phone], now),
        |phone: Seq<char>| waiting[phone],
    )
}

/// What is told about the code that waits for `phone`, if one is still
/// good at `now`.
pub open spec fn waiting_for(waiting: Waiting, phone: Seq<char>, now: i64) -> Option<
    VerificationResponse,
> {
    if waiting.contains_key(phone) && is_live(waiting[phone], now) {
        Some(
            VerificationResponse {
                expires: (waiting[phone].expires - now) as i64,
                action: waiting[phone].action,
            },
        )
    } else {
        None
    }
}

/// The codes that wait after `code` was sent to `phone` at `now`: those
/// that were still good, and the new one.
pub open spec fn started(
    waiting: Waiting,
    phone: Seq<char>,
    action: Action,
    code: String,
    now: i64,
) -> Waiting {
    live(waiting, now).insert(
        phone,
        VerifyData { action, code, expires: (now + CODE_LIFETIME) as i64, tries: 0 },
    )
}

/// One more try, as far as tries are counted.
pub open spec fn one_more(tries: u8) -> u8 {
    if tries < u8::MAX {
        (tries + 1) as u8
    } else {
        tries
    }
}

/// The answer to `code` for `phone` and `action` at `now`, among the codes
/// that are still good.
pub open spec fn answer(
    waiting: Waiting,
    phone: Seq<char>,
    code: Seq<char>,
    action: Action,
    now: i64,
) -> Result<(), Reply> {
    let good = live(waiting, now);
    if !good.contains_key(phone) {
        Err(Reply::bad_request("bad verification"@))
    } else if good[phone].action != action {
        Err(Reply::bad_request("invalid action"@))
    } else if good[phone].code@ != code {
        if one_more(good[phone].tries) > MAX_TRIES {
            Err(Reply::bad_request("too many tries"@))
        } else {
            Err(Reply::bad_request("invalid code"@))
        }
    } else {
        Ok(())
    }
}

/// The codes that wait after that answer: the code is used up by the right
/// answer, and every other answer to a code that is still good counts as a
/// try.
pub open spec fn answered(
    waiting: Waiting,
    phone: Seq<char>,
    code: Seq<char>,
    action: Action,
    now: i64,
) -> Waiting {
    let good = live(waiting, now);
    if !good.contains_key(phone) {
        good
    } else if answer(waiting, phone, code, action, now) is Ok {
        good.remove(phone)
    } else {
        good.insert(
            phone,
            VerifyData {
                action: good[phone].action,
                code: good[phone].code,
                expires: good[phone].expires,
                tries: one_more(good[phone].tries),
            },
        )
    }
}

impl View for VerifyState {
    type V = Waiting;

    closed spec fn view(&self) -> Waiting {
        self.entries@
    }
}

impl VerifyState {
    /// The table is in order, and no code expires before the start of time.
    pub closed spec fn wf(&self) -> bool {
        &&& self.entries.wf()
        &&& forall|phone: Seq<char>| #[trigger]
            self.entries@.contains_key(phone) ==> self.entries@[phone].expires >= 0
    }

    /// No code waits.
    pub fn new() -> (r: VerifyState)
        ensures
            r.wf(),
            r@ == Map::<Seq<char>, VerifyData>::empty(),
    {
        VerifyState { entries: Table::new() }
    }

    /// The number of codes that wait, those that have expired included.
    pub fn len(&self) -> (r: usize)
        requires
            self.wf(),
        ensures
            r == self@.len(),
    {
        self.entries.len()
    }

    /// Forgets the codes that have expired at `now`.
    pub fn retain_live(&mut self, now: i64)
        requires
            old(self).wf(),
            now >= 0,
        ensures
            final(self).wf(),
            final(self)@ == live(old(self)@, now),
    {
        let mut kept: Table<VerifyData> = Table::new();
        let count = self.entries.len();
        let ghost keys = self.entries.key_texts();
        let ghost before = self.entries@;
        proof {
            self.entries.lemma_places();
        }
        let mut at: usize = 0;
        while at < count
            invariant
                self.wf(),
                self.entries@ == before,
                keys == self.entries.key_texts(),
                keys.no_duplicates(),
                count == keys.len(),
                at <= count,
                now >= 0,
                kept.wf(),
                forall|j: int| 0 <= j < keys.len() ==> before.contains_key(#[trigger] keys[j]),
                forall|phone: Seq<char>| #[trigger]
                    kept@.contains_key(phone) <==> keys.take(at as int).contains(phone)
                        && is_live(before[phone], now),
                forall|phone: Seq<char>| #[trigger]
                    kept@.contains_key(phone) ==> kept@[phone] == before[phone],
            decreases count - at,
        {
            let phone = self.entries.key_at(at);
            let data = self.entries.value_at(at);
            proof {
                assert(before.contains_key(keys[at as int]));
                assert(!keys.take(at as int).contains(phone@)) by {
                    if keys.take(at as int).contains(phone@) {
                        let j = keys.take(at as int).index_of(phone@);
                        assert(keys[j] == keys[at as int]);
                    }
                }
            }
            if data.expires > now {
                let copy = VerifyData {
                    action: data.action,
                    code: data.code.clone(),
                    expires: data.expires,
                    tries: data.tries,
                };
                kept.insert(phone.to_string(), copy);
            }
            proof {
                let earlier = keys.take(at as int);
                let through = keys.take(at + 1);
                assert(through[at as int] == phone@);
                assert forall|p: Seq<char>| #[trigger]
                    kept@.contains_key(p) <==> through.contains(p) && is_live(before[p], now) by {
                    if p != phone@ {
                        if through.contains(p) {
                            let j = through.index_of(p);
                            assert(earlier[j] == p);
                        }
                        if earlier.contains(p) {
                            let j = earlier.index_of(p);
                            assert(through[j] == p);
                        }
                    }
                }
            }
            at = at + 1;
        }
        proof {
            self.entries.lemma_places();
            assert(keys.take(at as int) =~= keys);
            assert(kept@ =~= live(before, now));
        }
        self.entries = kept;
    }

    /// What is told about the code that waits for `phone`, if one is still
    /// good at `now`.
    pub fn pending(&self, phone: &str, now: i64) -> (r: Option<VerificationResponse>)
        requires
            self.wf(),
            now >= 0,
        ensures
            r == waiting_for(self@, phone@, now),
    {
        match self.entries.get(phone) {
            Some(data) => {
                if data.expires > now {
                    Some(VerificationResponse { expires: data.expires - now, action: data.action })
                } else {
                    None
                }
            },
            None => None,
        }
    }

    /// Notes that `code` was sent to `phone` at `now`. The codes that have
    /// expired are forgotten on the way.
    pub fn start(&mut self, phone: &str, action: Action, code: String, now: i64) -> (r:
        VerificationResponse)
        requires
            old(self).wf(),
            is_time(now),
        ensures
            final(self).wf(),
            final(self)@ == started(old(self)@, phone@, action, code, now),
            r == (VerificationResponse { expires: CODE_LIFETIME, action }),
    {
        self.retain_live(now);
        self.entries.insert(
            phone.to_string(),
            VerifyData { action, code, expires: now + CODE_LIFETIME, tries: 0 },
        );
        VerificationResponse { expires: CODE_LIFETIME, action }
    }

    /// Asks for a code for `phone`. A phone number that is none is refused.
    /// While a code for the phone is still good no other one is made, and
    /// the answer says how long it is good for. Otherwise a new code of
    /// `CODE_LEN` digits is drawn, handed out to be sent, and waits for
    /// `CODE_LIFETIME` seconds.
    pub fn verification(&mut self, phone: &str, action: Action, now: i64) -> (r: Result<
        Issued,
        AppErr,
    >)
        requires
            old(self).wf(),
            is_time(now),
        ensures
            final(self).wf(),
            match phone_fault(phone) {
                Some(fault) => r matches Err(e) && e@ == fault && final(self)@ == old(self)@,
                None => match waiting_for(old(self)@, phone@, now) {
                    Some(told) => r matches Ok(issued) && issued.response == told
                        && issued.code is None && final(self)@ == old(self)@,
                    None => {
                        &&& r matches Ok(issued)
                        &&& issued.response == (VerificationResponse {
                            expires: CODE_LIFETIME,
                            action,
                        })
                        &&& issued.code matches Some(code)
                        &&& is_code(code@)
                        &&& final(self)@ == started(old(self)@, phone@, action, code, now)
                    },
                },
            },
    {
        match phone_validator(phone) {
            Err(e) => {
                return Err(e);
            },
            Ok(_) => {},
        }
        if let Some(told) = self.pending(phone, now) {
            return Ok(Issued { response: told, code: None });
        }
        proof {
            lemma_alphabets();
        }
        let code = get_random_string(Config::CODE_ABC.as_bytes(), CODE_LEN);
        proof {
            assert(is_code(code@));
        }
        let sent = code.clone();
        let response = self.start(phone, action, code, now);
        Ok(Issued { response, code: Some(sent) })
    }

    /// Judges the answer `code` for `phone` and `action` at `now`. The
    /// codes that have expired are forgotten on the way.
    pub fn verify(&mut self, phone: &str, code: &str, action: Action, now: i64) -> (r: Result<
        (),
        AppErr,
    >)
        requires
            old(self).wf(),
            now >= 0,
        ensures
            final(self).wf(),
            final(self)@ == answered(old(self)@, phone@, code@, action, now),
            match (r, answer(old(self)@, phone@, code@, action, now)) {
                (Ok(_), Ok(_)) => true,
                (Err(e), Err(reply)) => e@ == reply,
                _ => false,
            },
    {
        self.retain_live(now);
        let (kept_action, same_code, expires, tries, kept_code) = match self.entries.get(phone) {
            None => {
                return Err(AppErr::bad_request("bad verification"));
            },
            Some(data) => (
                data.action,
                str_eq(data.code.as_str(), code),
                data.expires,
                if data.tries < u8::MAX {
                    data.tries + 1
                } else {
                    data.tries
                },
                data.code.clone(),
            ),
        };
        let same_action = kept_action == action;
        if same_action && same_code {
            self.entries.remove(phone);
            return Ok(());
        }
        self.entries.insert(
            phone.to_string(),
            VerifyData { action: kept_action, code: kept_code, expires, tries },
        );
        if !same_action {
            return Err(AppErr::bad_request("invalid action"));
        }
        if tries > MAX_TRIES {
            return Err(AppErr::bad_request("too many tries"));
        }
        Err(AppErr::bad_request("invalid code"))
    }
}

/// Whether a text can be a verification code: `CODE_LEN` characters of the
/// alphabet of codes.
pub open spec fn is_code(code: Seq<char>) -> bool {
    exists|picks: Seq<usize>|
        {
            &&& picks.len() == CODE_LEN
            &&& forall|i: int|
                0 <= i < CODE_LEN ==> (#[trigger] picks[i]) < Config::CODE_ABC.spec_bytes().len()
            &&& code == spelled(Config::CODE_ABC.spec_bytes(), picks)
        }
}

} // verus!
