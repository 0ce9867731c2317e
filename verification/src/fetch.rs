//! The retrying fetcher's decision logic.
//!
//! Each data request is one multipart POST carrying the dataset code and
//! the session token; the caller performs it and hands the outcome here.
//! An empty body is the one retryable condition: the caller waits a fixed
//! delay and reissues, up to the retry budget. A request that cannot be
//! sent, or a non-success status, fails immediately.

use vstd::prelude::*;

use crate::types::Error;

verus! {

/// How long the caller waits, in seconds, before reissuing a request whose
/// body came back empty.
pub const RETRY_DELAY_SECS: u64 = 3;

/// How one data request ended: not sent, a non-success status, or a body.
pub enum AttemptOutcome {
    NotSent,
    BadStatus(u16),
    Body(Vec<u8>),
}

/// The mathematical content of an attempt outcome.
pub enum AttemptModel {
    NotSent,
    BadStatus(u16),
    Body(Seq<u8>),
}

impl View for AttemptOutcome {
    type V = AttemptModel;

    open spec fn view(&self) -> AttemptModel {
        match self {
            AttemptOutcome::NotSent => AttemptModel::NotSent,
            AttemptOutcome::BadStatus(s) => AttemptModel::BadStatus(*s),
            AttemptOutcome::Body(b) => AttemptModel::Body(b@),
        }
    }
}

/// What to do after one attempt: stop with the payload and the number of
/// retries used, stop with an error, or wait and reissue.
pub enum FetchStep {
    Success(Vec<u8>, u8),
    Failed(Error),
    RetryAfterDelay(u8),
}

/// Decide what one attempt outcome means for the fetch in progress.
/// `retries` counts the empty-body reissues made so far.
pub fn fetch_step(retries: u8, max_retries: u8, outcome: AttemptOutcome) -> (r: FetchStep)
    requires
        retries <= max_retries,
    ensures
        match outcome@ {
            AttemptModel::NotSent => r == FetchStep::Failed(Error::TransportError),
            AttemptModel::BadStatus(s) => r == FetchStep::Failed(Error::ServerError(s)),
            AttemptModel::Body(b) => {
                if b.len() > 0 {
                    r matches FetchStep::Success(d, used) && d@ == b && used == retries
                } else if retries < max_retries {
                    r == FetchStep::RetryAfterDelay((retries + 1) as u8)
                } else {
                    r == FetchStep::Failed(Error::MaxRetriesExceeded)
                }
            },
        },
{
    match outcome {
        AttemptOutcome::NotSent => FetchStep::Failed(Error::TransportError),
        AttemptOutcome::BadStatus(s) => FetchStep::Failed(Error::ServerError(s)),
        AttemptOutcome::Body(b) => {
            if b.len() > 0 {
                FetchStep::Success(b, retries)
            } else if retries < max_retries {
                FetchStep::RetryAfterDelay(retries + 1)
            } else {
                FetchStep::Failed(Error::MaxRetriesExceeded)
            }
        },
    }
}

/// Where a whole fetch ends, over a given sequence of attempt outcomes:
/// success with the payload and the retries used, a failure, or the
/// sequence running out before either.
pub enum FetchRun {
    Success(Seq<u8>, int),
    Failed(Error),
    Exhausted,
}

/// The fetch policy over a sequence of attempt outcomes, starting with
/// `retries` reissues already made: the first attempt that is not an empty
/// body settles it; an empty body beyond the budget fails.
pub open spec fn fetch_run(outcomes: Seq<AttemptModel>, retries: int, max: int) -> FetchRun
    decreases outcomes.len(),
{
    if outcomes.len() == 0 {
        FetchRun::Exhausted
    } else {
        match outcomes[0] {
            AttemptModel::NotSent => FetchRun::Failed(Error::TransportError),
            AttemptModel::BadStatus(s) => FetchRun::Failed(Error::ServerError(s)),
            AttemptModel::Body(b) => {
                if b.len() > 0 {
                    FetchRun::Success(b, retries)
                } else if retries < max {
                    fetch_run(outcomes.drop_first(), retries + 1, max)
                } else {
                    FetchRun::Failed(Error::MaxRetriesExceeded)
                }
            },
        }
    }
}

/// The models of a sequence of attempt outcomes.
pub open spec fn outcomes_model(outcomes: Seq<AttemptOutcome>) -> Seq<AttemptModel> {
    outcomes.map_values(|o: AttemptOutcome| o@)
}

/// How an executed fetch over a given outcome sequence ended.
pub enum FetchRunEnd {
    Success(Vec<u8>, u8),
    Failed(Error),
    Exhausted,
}

impl View for FetchRunEnd {
    type V = FetchRun;

    open spec fn view(&self) -> FetchRun {
        match self {
            FetchRunEnd::Success(d, used) => FetchRun::Success(d@, *used as int),
            FetchRunEnd::Failed(e) => FetchRun::Failed(*e),
            FetchRunEnd::Exhausted => FetchRun::Exhausted,
        }
    }
}

/// Run the fetch policy over a sequence of attempt outcomes, first to last.
pub fn run_fetch(outcomes: Vec<AttemptOutcome>, max_retries: u8) -> (r: FetchRunEnd)
    ensures
        r@ == fetch_run(outcomes_model(outcomes@), 0, max_retries as int),
{
    let ghost all = outcomes_model(outcomes@);
    let mut rest = outcomes;
    let mut retries: u8 = 0;
    #[verifier::loop_isolation(false)]
    loop
        invariant
            retries <= max_retries,
            fetch_run(outcomes_model(rest@), retries as int, max_retries as int) == fetch_run(
                all,
                0,
                max_retries as int,
            ),
        decreases rest@.len(),
    {
        if rest.len() == 0 {
            proof {
                assert(outcomes_model(rest@).len() == 0);
                assert(fetch_run(outcomes_model(rest@), retries as int, max_retries as int)
                    == FetchRun::Exhausted);
            }
            return FetchRunEnd::Exhausted;
        }
        let ghost before = outcomes_model(rest@);
        let o = rest.remove(0);
        proof {
            assert(outcomes_model(rest@) =~= before.drop_first());
            assert(before[0] == o@);
        }
        proof {
            assert(before.len() > 0);
        }
        match fetch_step(retries, max_retries, o) {
            FetchStep::Success(d, used) => {
                proof {
                    assert(o@ matches AttemptModel::Body(b) && b.len() > 0 && d@ == b);
                    assert(fetch_run(before, retries as int, max_retries as int)
                        == FetchRun::Success(d@, retries as int));
                }
                return FetchRunEnd::Success(d, used);
            },
            FetchStep::Failed(e) => {
                proof {
                    assert(fetch_run(before, retries as int, max_retries as int)
                        == FetchRun::Failed(e));
                }
                return FetchRunEnd::Failed(e);
            },
            FetchStep::RetryAfterDelay(next) => {
                proof {
                    assert(fetch_run(before, retries as int, max_retries as int) == fetch_run(
                        outcomes_model(rest@),
                        next as int,
                        max_retries as int,
                    ));
                }
                retries = next;
            },
        }
    }
}

/// Law: when the first `max + 1` attempt outcomes are all empty bodies, the
/// fetch uses up its whole retry budget and fails with `MaxRetriesExceeded`.
pub proof fn lemma_fetch_empty_bodies_fail(outcomes: Seq<AttemptModel>, max: int)
    requires
        0 <= max,
        outcomes.len() >= max + 1,
        forall|i: int|
            0 <= i <= max ==> ((#[trigger] outcomes[i]) matches AttemptModel::Body(b)
                && b.len() == 0),
    ensures
        fetch_run(outcomes, 0, max) == FetchRun::Failed(Error::MaxRetriesExceeded),
{
    lemma_fetch_empty_bodies_fail_from(outcomes, 0, max);
}

proof fn lemma_fetch_empty_bodies_fail_from(outcomes: Seq<AttemptModel>, retries: int, max: int)
    requires
        0 <= retries <= max,
        outcomes.len() >= max - retries + 1,
        forall|i: int|
            0 <= i <= max - retries ==> ((#[trigger] outcomes[i]) matches AttemptModel::Body(b)
                && b.len() == 0),
    ensures
        fetch_run(outcomes, retries, max) == FetchRun::Failed(Error::MaxRetriesExceeded),
    decreases max - retries,
{
    if retries < max {
        lemma_fetch_empty_bodies_fail_from(outcomes.drop_first(), retries + 1, max);
    }
}

/// Law: when the first `k - 1` attempt outcomes are empty bodies and the
/// `k`-th is a non-empty body, with `k` within the budget of `max + 1`
/// total attempts, the fetch succeeds with that body after `k - 1` retries.
pub proof fn lemma_fetch_succeeds_at(outcomes: Seq<AttemptModel>, max: int, k: int)
    requires
        1 <= k <= max + 1,
        outcomes.len() >= k,
        forall|i: int|
            0 <= i < k - 1 ==> ((#[trigger] outcomes[i]) matches AttemptModel::Body(b)
                && b.len() == 0),
        outcomes[k - 1] matches AttemptModel::Body(b) && b.len() > 0,
    ensures
        fetch_run(outcomes, 0, max) matches FetchRun::Success(b, used) && AttemptModel::Body(b)
            == outcomes[k - 1] && used == k - 1,
{
    lemma_fetch_succeeds_from(outcomes, 0, max, k);
}

proof fn lemma_fetch_succeeds_from(outcomes: Seq<AttemptModel>, retries: int, max: int, k: int)
    requires
        0 <= retries <= max,
        1 <= k,
        k - 1 <= max - retries,
        outcomes.len() >= k,
        forall|i: int|
            0 <= i < k - 1 ==> ((#[trigger] outcomes[i]) matches AttemptModel::Body(b)
                && b.len() == 0),
        outcomes[k - 1] matches AttemptModel::Body(b) && b.len() > 0,
    ensures
        fetch_run(outcomes, retries, max) matches FetchRun::Success(b, used)
            && AttemptModel::Body(b) == outcomes[k - 1] && used == retries + k - 1,
    decreases k,
{
    if k > 1 {
        lemma_fetch_succeeds_from(outcomes.drop_first(), retries + 1, max, k - 1);
    }
}

} // verus!
