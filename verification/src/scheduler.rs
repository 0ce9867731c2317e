//! The poll orchestrator: it owns the credentials and the retry budget,
//! decides when a cycle is due, and applies the outer retry policy around
//! transient request failures.
//!
//! One cycle is authenticate, fetch both datasets, parse, record. The
//! caller performs the outside work of a cycle and hands its outcome here;
//! the decisions — retry, deliver, or give up — are made and proved here.

use vstd::prelude::*;

use crate::types::{records_model, Credentials, Error, Record};

verus! {

/// How many additional times a failed cycle is retried before the failure
/// is escalated.
pub const CYCLE_RETRIES: u8 = 3;

/// How long the caller waits, in seconds, between schedule checks.
pub const POLL_GRANULARITY_SECS: u64 = 1;

/// Run one cycle and stop, or run a cycle every `interval` seconds.
#[derive(Clone, Copy, Debug, PartialEq, Eq, Structural, Default)]
pub enum RepeatMode {
    #[default]
    Once,
    Repeat(u64),
}

/// Current seconds since the Unix epoch.
/// Relies on chrono::Utc::now and chrono::DateTime::timestamp.
#[verifier::external_body]
fn now_seconds() -> (r: i64) {
    chrono::Utc::now().timestamp()
}

/// The poll orchestrator's state: the configuration it owns, and when a
/// cycle last ran.
pub struct Scheduler {
    pub mode: RepeatMode,
    pub max_retries: u8,
    pub file_path: String,
    pub creds: Credentials,
    pub last_update: i64,
}

/// What one cycle outcome means for the load in progress: hand the records
/// on, retry the whole cycle, or give up.
pub enum LoadStep {
    Deliver(Vec<Record>),
    Retry(u8),
    Fatal(Error),
    Fail(Error),
}

/// Where a whole load ends, over a given sequence of cycle outcomes.
pub enum LoadRun {
    Loaded(Seq<(Seq<u8>, Seq<u8>)>),
    Fatal(Error),
    Failed(Error),
    Exhausted,
}

/// The mathematical content of one cycle outcome.
pub open spec fn cycle_model(o: Result<Vec<Record>, Error>) -> Result<
    Seq<(Seq<u8>, Seq<u8>)>,
    Error,
> {
    match o {
        Ok(v) => Ok(records_model(v@)),
        Err(e) => Err(e),
    }
}

/// The models of a sequence of cycle outcomes.
pub open spec fn cycles_model(os: Seq<Result<Vec<Record>, Error>>) -> Seq<
    Result<Seq<(Seq<u8>, Seq<u8>)>, Error>,
> {
    os.map_values(|o: Result<Vec<Record>, Error>| cycle_model(o))
}

/// The outer retry policy over a sequence of cycle outcomes, with
/// `attempts` retries already made: the first success delivers; a
/// request-class failure is retried until the budget is spent, and is then
/// fatal; any other failure is passed on at once.
pub open spec fn load_run(
    outcomes: Seq<Result<Seq<(Seq<u8>, Seq<u8>)>, Error>>,
    attempts: int,
) -> LoadRun
    decreases outcomes.len(),
{
    if outcomes.len() == 0 {
        LoadRun::Exhausted
    } else {
        match outcomes[0] {
            Ok(data) => LoadRun::Loaded(data),
            Err(e) => {
                if e.is_request_class() {
                    if attempts >= CYCLE_RETRIES {
                        LoadRun::Fatal(e)
                    } else {
                        load_run(outcomes.drop_first(), attempts + 1)
                    }
                } else {
                    LoadRun::Failed(e)
                }
            },
        }
    }
}

/// Decide what one cycle outcome means, with `attempts` retries already
/// made.
pub fn load_step(attempts: u8, outcome: Result<Vec<Record>, Error>) -> (r: LoadStep)
    requires
        attempts <= CYCLE_RETRIES,
    ensures
        match outcome {
            Ok(data) => r matches LoadStep::Deliver(d) && d@ == data@,
            Err(e) => {
                if e.is_request_class() {
                    if attempts >= CYCLE_RETRIES {
                        r == LoadStep::Fatal(e)
                    } else {
                        r == LoadStep::Retry((attempts + 1) as u8)
                    }
                } else {
                    r == LoadStep::Fail(e)
                }
            },
        },
{
    match outcome {
        Ok(data) => LoadStep::Deliver(data),
        Err(e) => {
            if e == Error::IOError {
                LoadStep::Fail(e)
            } else if attempts >= CYCLE_RETRIES {
                LoadStep::Fatal(e)
            } else {
                LoadStep::Retry(attempts + 1)
            }
        },
    }
}

/// How an executed load over a given outcome sequence ended.
pub enum LoadEnd {
    Loaded(Vec<Record>),
    Fatal(Error),
    Failed(Error),
    Exhausted,
}

impl View for LoadEnd {
    type V = LoadRun;

    open spec fn view(&self) -> LoadRun {
        match self {
            LoadEnd::Loaded(v) => LoadRun::Loaded(records_model(v@)),
            LoadEnd::Fatal(e) => LoadRun::Fatal(*e),
            LoadEnd::Failed(e) => LoadRun::Failed(*e),
            LoadEnd::Exhausted => LoadRun::Exhausted,
        }
    }
}

/// What a cycle that still fails after the outer retries means for the
/// process: in `Once` mode it aborts, in `Repeat` mode the tick is skipped
/// and the loop goes on.
#[derive(Clone, Copy, Debug, PartialEq, Eq, Structural)]
pub enum CyclePolicy {
    Abort,
    SkipTick,
}

impl Scheduler {
    pub fn new(mode: RepeatMode, max_retries: u8, file_path: String, creds: Credentials) -> (r:
        Self)
        ensures
            r.mode == mode,
            r.max_retries == max_retries,
            r.file_path == file_path,
            r.creds == creds,
    {
        let last_update = now_seconds();
        Self { mode, max_retries, file_path, creds, last_update }
    }

    /// Apply the outer retry policy to a sequence of cycle outcomes, first
    /// to last.
    pub fn load_data(&self, outcomes: Vec<Result<Vec<Record>, Error>>) -> (r: LoadEnd)
        ensures
            r@ == load_run(cycles_model(outcomes@), 0),
    {
        let ghost all = cycles_model(outcomes@);
        let mut rest = outcomes;
        let mut attempts: u8 = 0;
        #[verifier::loop_isolation(false)]
        loop
            invariant
                attempts <= CYCLE_RETRIES,
                load_run(cycles_model(rest@), attempts as int) == load_run(all, 0),
            decreases rest@.len(),
        {
            if rest.len() == 0 {
                return LoadEnd::Exhausted;
            }
            let ghost before = cycles_model(rest@);
            let o = rest.remove(0);
            proof {
                assert(cycles_model(rest@) =~= before.drop_first());
                assert(before[0] == cycle_model(o));
            }
            match load_step(attempts, o) {
                LoadStep::Deliver(d) => {
                    return LoadEnd::Loaded(d);
                },
                LoadStep::Retry(next) => {
                    attempts = next;
                },
                LoadStep::Fatal(e) => {
                    return LoadEnd::Fatal(e);
                },
                LoadStep::Fail(e) => {
                    return LoadEnd::Failed(e);
                },
            }
        }
    }

    /// Is a new cycle due at time `now`, for a repeat interval of
    /// `interval` seconds?
    pub fn due(&self, now: i64, interval: u64) -> (r: bool)
        ensures
            r == (self.last_update + interval <= now),
    {
        (self.last_update as i128) + (interval as i128) <= (now as i128)
    }

    /// Record that a cycle ran, starting at time `started`.
    pub fn mark_ran(&mut self, started: i64)
        ensures
            final(self).last_update == started,
            final(self).mode == old(self).mode,
            final(self).max_retries == old(self).max_retries,
            final(self).file_path == old(self).file_path,
            final(self).creds == old(self).creds,
    {
        self.last_update = started;
    }

    /// The terminal policy for a cycle that failed even after the outer
    /// retries: abort the process in `Once` mode, skip the tick in `Repeat`
    /// mode.
    pub fn after_failed_cycle(&self) -> (r: CyclePolicy)
        ensures
            self.mode == RepeatMode::Once ==> r == CyclePolicy::Abort,
            (self.mode matches RepeatMode::Repeat(_)) ==> r == CyclePolicy::SkipTick,
    {
        match self.mode {
            RepeatMode::Once => CyclePolicy::Abort,
            RepeatMode::Repeat(_) => CyclePolicy::SkipTick,
        }
    }
}

/// Law: four consecutive request-class cycle failures spend the whole
/// outer retry budget and end fatally, with the last failure's error.
pub proof fn lemma_load_fatal_after_four(outcomes: Seq<Result<Seq<(Seq<u8>, Seq<u8>)>, Error>>)
    requires
        outcomes.len() >= CYCLE_RETRIES + 1,
        forall|i: int|
            0 <= i <= CYCLE_RETRIES ==> ((#[trigger] outcomes[i]) matches Err(e)
                && e.is_request_class()),
    ensures
        load_run(outcomes, 0) matches LoadRun::Fatal(e) && outcomes[CYCLE_RETRIES as int]
            == Err::<Seq<(Seq<u8>, Seq<u8>)>, Error>(e),
{
    lemma_load_fatal_from(outcomes, 0);
}

proof fn lemma_load_fatal_from(
    outcomes: Seq<Result<Seq<(Seq<u8>, Seq<u8>)>, Error>>,
    attempts: int,
)
    requires
        0 <= attempts <= CYCLE_RETRIES,
        outcomes.len() >= CYCLE_RETRIES - attempts + 1,
        forall|i: int|
            0 <= i <= CYCLE_RETRIES - attempts ==> ((#[trigger] outcomes[i]) matches Err(e)
                && e.is_request_class()),
    ensures
        load_run(outcomes, attempts) matches LoadRun::Fatal(e) && outcomes[CYCLE_RETRIES
            - attempts] == Err::<Seq<(Seq<u8>, Seq<u8>)>, Error>(e),
    decreases CYCLE_RETRIES - attempts,
{
    if attempts < CYCLE_RETRIES {
        lemma_load_fatal_from(outcomes.drop_first(), attempts + 1);
    }
}

} // verus!
