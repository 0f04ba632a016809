//! Deploys: who may ask for one, and which one runs next.
//!
//! At most one deploy of a repository runs at a time, and at most one more
//! waits behind it.

use crate::config::Config;
use crate::error::{AppErr, Reply};
use crate::text::{contains_bytes, from_utf8, occurs, str_eq};
use vstd::prelude::*;
use vstd::string::StringSliceAdditionalSpecFns;
use vstd::utf8::{decode_utf8, encode_utf8, valid_utf8};

verus! {

/// How far a deploy has come.
#[derive(Clone, Copy, Debug, PartialEq, Eq, Structural)]
pub enum DeployStatus {
    Pending,
    Running,
    Failed,
    Success,
}

/// One deploy of a repository.
#[derive(Clone, Debug)]
pub struct Deploy {
    pub id: i64,
    pub repo: String,
    pub actor: String,
    pub sender: Option<String>,
    pub begin: i64,
    pub finish: i64,
    pub status: DeployStatus,
}

/// One commit of a push, as far as it matters here.
#[derive(Clone, Debug)]
pub struct Commit {
    pub message: String,
    pub author: String,
}

/// Who asks for a deploy.
#[derive(Clone, Copy, Debug, PartialEq, Eq, Structural)]
pub enum Actor {
    /// A push hook; the sender is the author of the release commit.
    Github,
    /// A person who is known by name; the sender is the actor.
    Named,
}

/// The unfinished deploys of a repository: whether one runs, and the first
/// one that waits.
#[derive(Clone, Copy, Debug, PartialEq, Eq, Structural)]
pub struct Queue {
    pub running: bool,
    /// The place of the first waiting deploy in the list.
    pub pending: Option<usize>,
}

/// What to do once the new deploy is written down.
#[derive(Clone, Copy, Debug, PartialEq, Eq, Structural)]
pub enum Launch {
    /// A deploy runs; the new one waits.
    Wait,
    /// Run the deploy that has been waiting.
    RunPending,
    /// The deploy that has been waiting cannot run: mark it as failed, and
    /// run the new one.
    FailPendingRunNew,
    /// Run the new deploy.
    RunNew,
}

/// How a deploy script ended.
#[derive(Clone, Debug)]
pub struct Outcome {
    pub status: DeployStatus,
    pub stdout: Option<String>,
    pub stderr: Option<String>,
}

/// The word that marks a commit as a release.
pub open spec fn release_mark() -> Seq<u8> {
    "release".spec_bytes()
}

impl DeployStatus {
    /// The number under which a status is stored.
    pub open spec fn number(self) -> i32 {
        match self {
            DeployStatus::Pending => 0,
            DeployStatus::Running => 1,
            DeployStatus::Failed => 2,
            DeployStatus::Success => 3,
        }
    }

    /// The status that a stored number stands for; a number that stands for
    /// none is read as `Pending`.
    pub open spec fn of_number(value: i64) -> DeployStatus {
        if value == 1 {
            DeployStatus::Running
        } else if value == 2 {
            DeployStatus::Failed
        } else if value == 3 {
            DeployStatus::Success
        } else {
            DeployStatus::Pending
        }
    }

    /// The number under which the status is stored.
    pub fn to_i32(&self) -> (r: i32)
        ensures
            r == self.number(),
    {
        match self {
            DeployStatus::Pending => 0,
            DeployStatus::Running => 1,
            DeployStatus::Failed => 2,
            DeployStatus::Success => 3,
        }
    }

    /// The status that a stored number stands for.
    pub fn from_i64(value: i64) -> (r: DeployStatus)
        ensures
            r == Self::of_number(value),
    {
        if value == 1 {
            DeployStatus::Running
        } else if value == 2 {
            DeployStatus::Failed
        } else if value == 3 {
            DeployStatus::Success
        } else {
            DeployStatus::Pending
        }
    }

    /// A status that is stored and read again is the same status.
    pub proof fn lemma_stored(self)
        ensures
            Self::of_number(self.number() as i64) == self,
    {
    }
}

impl Queue {
    /// Whether `at` is the place of the first deploy of `deploys` with
    /// `status`.
    pub open spec fn is_first(deploys: Seq<Deploy>, status: DeployStatus, at: int) -> bool {
        &&& 0 <= at < deploys.len()
        &&& deploys[at].status == status
        &&& forall|j: int| 0 <= j < at ==> deploys[j].status != status
    }

    /// Whether this is the queue of `deploys`.
    pub open spec fn is_of(self, deploys: Seq<Deploy>) -> bool {
        &&& self.running <==> exists|j: int|
            0 <= j < deploys.len() && (#[trigger] deploys[j]).status == DeployStatus::Running
        &&& match self.pending {
            Some(at) => Self::is_first(deploys, DeployStatus::Pending, at as int),
            None => forall|j: int|
                0 <= j < deploys.len() ==> (#[trigger] deploys[j]).status
                    != DeployStatus::Pending,
        }
    }

    /// Whether one deploy runs and one waits, so that no other is taken.
    pub open spec fn is_full(self) -> bool {
        self.running && self.pending is Some
    }

    /// What to do once the new deploy is written down, given whether the
    /// script of the waiting deploy is known.
    pub open spec fn launch(self, pending_known: bool) -> Launch {
        if self.running {
            Launch::Wait
        } else if self.pending is Some {
            if pending_known {
                Launch::RunPending
            } else {
                Launch::FailPendingRunNew
            }
        } else {
            Launch::RunNew
        }
    }

    /// The queue of the unfinished deploys of a repository.
    pub fn of(deploys: &[Deploy]) -> (r: Queue)
        ensures
            r.is_of(deploys@),
    {
        let mut queue = Queue { running: false, pending: None };
        let mut at: usize = 0;
        while at < deploys.len()
            invariant
                at <= deploys@.len(),
                queue.is_of(deploys@.take(at as int)),
            decreases deploys@.len() - at,
        {
            let ghost seen = deploys@.take(at as int);
            let ghost next = deploys@.take(at + 1);
            let ghost before = queue;
            match deploys[at].status {
                DeployStatus::Running => {
                    queue.running = true;
                },
                DeployStatus::Pending => {
                    if queue.pending.is_none() {
                        queue.pending = Some(at);
                    }
                },
                _ => {},
            }
            proof {
                assert(next[at as int] == deploys@[at as int]);
                assert forall|j: int| 0 <= j < at implies next[j] == seen[j] by {}
                if before.running {
                    let j = choose|j: int|
                        0 <= j < seen.len() && (#[trigger] seen[j]).status
                            == DeployStatus::Running;
                    assert(next[j].status == DeployStatus::Running);
                }
                if queue.running && !before.running {
                    assert(next[at as int].status == DeployStatus::Running);
                }
                if !queue.running {
                    assert forall|j: int| 0 <= j < next.len() implies (#[trigger] next[j]).status
                        != DeployStatus::Running by {
                        if j < at {
                            assert(seen[j].status != DeployStatus::Running);
                        }
                    }
                }
                match queue.pending {
                    Some(first) => {
                        assert forall|j: int| 0 <= j < first implies next[j].status
                            != DeployStatus::Pending by {
                            assert(seen[j].status != DeployStatus::Pending);
                        }
                    },
                    None => {
                        assert forall|j: int| 0 <= j < next.len() implies (
                        #[trigger] next[j]).status != DeployStatus::Pending by {
                            if j < at {
                                assert(seen[j].status != DeployStatus::Pending);
                            }
                        }
                    },
                }
            }
            at = at + 1;
        }
        proof {
            assert(deploys@.take(at as int) =~= deploys@);
        }
        queue
    }

    /// Whether one deploy runs and one waits.
    pub fn full(&self) -> (r: bool)
        ensures
            r == self.is_full(),
    {
        self.running && self.pending.is_some()
    }

    /// What to do once the new deploy is written down.
    pub fn next(&self, pending_known: bool) -> (r: Launch)
        ensures
            r == self.launch(pending_known),
    {
        if self.running {
            Launch::Wait
        } else if self.pending.is_some() {
            if pending_known {
                Launch::RunPending
            } else {
                Launch::FailPendingRunNew
            }
        } else {
            Launch::RunNew
        }
    }
}

impl Config {
    /// The table of deploy scripts is in order.
    pub open spec fn wf(&self) -> bool {
        self.deploy_repo.wf()
    }

    /// The script of `repo`, if it may be deployed and `pass` is the key.
    /// An unknown repository goes before a wrong key.
    pub fn deploy_script(&self, repo: &str, pass: &str) -> (r: Result<&str, AppErr>)
        requires
            self.wf(),
        ensures
            match r {
                Ok(script) => self.deploy_repo@.contains_key(repo@) && self.deploy_key@ == pass@
                    && script@ == self.deploy_repo@[repo@]@,
                Err(e) => if !self.deploy_repo@.contains_key(repo@) {
                    e@ == Reply::not_found("repo not found"@)
                } else {
                    self.deploy_key@ != pass@ && e@ == Reply::forbidden("invalid password"@)
                },
            },
    {
        let script = match self.deploy_repo.get(repo) {
            Some(script) => script,
            None => {
                return Err(AppErr::not_found("repo not found"));
            },
        };
        if !str_eq(self.deploy_key.as_str(), pass) {
            return Err(AppErr::forbidden("invalid password"));
        }
        Ok(script.as_str())
    }
}

/// Who `actor` is, or why a deploy is not taken from them. A push hook
/// must bring the event `push`; `event` is the name of the event that the
/// request brings, if it brings one that is text.
pub open spec fn actor_of(actor: Seq<char>, event: Option<Seq<char>>) -> Result<Actor, Reply> {
    if actor == "github"@ {
        if event == Some("push"@) {
            Ok(Actor::Github)
        } else {
            Err(Reply::bad_request("bad github event. only push"@))
        }
    } else if actor == "sadra"@ || actor == "007"@ {
        Ok(Actor::Named)
    } else {
        Err(Reply::forbidden("unknown actor"@))
    }
}

/// Who `actor` is, or why a deploy is not taken from them.
pub fn actor_kind(actor: &str, event: Option<&str>) -> (r: Result<Actor, AppErr>)
    ensures
        match (r, actor_of(
            actor@,
            match event {
                Some(name) => Some(name@),
                None => None,
            },
        )) {
            (Ok(found), Ok(wanted)) => found == wanted,
            (Err(e), Err(reply)) => e@ == reply,
            _ => false,
        },
{
    if str_eq(actor, "github") {
        let pushed = match event {
            Some(name) => str_eq(name, "push"),
            None => false,
        };
        if pushed {
            Ok(Actor::Github)
        } else {
            Err(AppErr::bad_request("bad github event. only push"))
        }
    } else if str_eq(actor, "sadra") || str_eq(actor, "007") {
        Ok(Actor::Named)
    } else {
        Err(AppErr::forbidden("unknown actor"))
    }
}

/// Whether a commit is a release: its message holds the word `release`.
pub open spec fn is_release(commit: Commit) -> bool {
    occurs(encode_utf8(commit.message@), release_mark())
}

/// The place of the last release among the commits of a push.
pub fn last_release(commits: &[Commit]) -> (r: Option<usize>)
    ensures
        match r {
            Some(at) => at < commits@.len() && is_release(commits@[at as int]) && forall|j: int|
                at < j < commits@.len() ==> !is_release(#[trigger] commits@[j]),
            None => forall|j: int| 0 <= j < commits@.len() ==> !is_release(#[trigger] commits@[j]),
        },
{
    let mut at: usize = commits.len();
    while at > 0
        invariant
            at <= commits@.len(),
            forall|j: int| at <= j < commits@.len() ==> !is_release(#[trigger] commits@[j]),
        decreases at,
    {
        at = at - 1;
        if contains_bytes(commits[at].message.as_str().as_bytes(), "release".as_bytes()) {
            return Some(at);
        }
    }
    None
}

impl Outcome {
    /// The text of what a script wrote; nothing where it is no UTF-8.
    pub open spec fn text_of(output: Seq<u8>) -> Seq<char> {
        if valid_utf8(output) {
            decode_utf8(output)
        } else {
            Seq::empty()
        }
    }

    /// The outcome of a script that ran, whatever it returned.
    pub fn of_output(stdout: &[u8], stderr: &[u8]) -> (r: Outcome)
        ensures
            r.status == DeployStatus::Success,
            r.stdout matches Some(text) && text@ == Self::text_of(stdout@),
            r.stderr matches Some(text) && text@ == Self::text_of(stderr@),
    {
        let out = match from_utf8(stdout) {
            Some(text) => text.to_string(),
            None => String::new(),
        };
        let err = match from_utf8(stderr) {
            Some(text) => text.to_string(),
            None => String::new(),
        };
        Outcome { status: DeployStatus::Success, stdout: Some(out), stderr: Some(err) }
    }

    /// The outcome of a script that could not be run, for the reason
    /// `message`.
    pub fn of_error(message: &str) -> (r: Outcome)
        ensures
            r.status == DeployStatus::Failed,
            r.stdout is None,
            r.stderr matches Some(text) && text@ == message@,
    {
        Outcome { status: DeployStatus::Failed, stdout: None, stderr: Some(message.to_string()) }
    }
}

} // verus!
