//! The upload retry policy: how the publisher reacts to each attempt's
//! outcome, with transient server-side failures retried a bounded number of
//! times and everything else treated as final.

use vstd::prelude::*;

verus! {

/// How many times an upload is attempted before giving up.
pub const MAX_UPLOAD_ATTEMPTS: u64 = 3;

/// Fixed part of the delay before a retry, in milliseconds.
pub const BASE_RETRY_DELAY_MS: u64 = 2000;

/// The observable result of one upload attempt: an HTTP status code, or a
/// transport-level failure with no response at all.
#[derive(Clone, Copy, PartialEq, Eq, Structural, Debug)]
pub enum AttemptOutcome {
    /// A response arrived with this status code.
    Status(u16),
    /// The request itself failed (connection error and the like).
    TransportError,
}

/// What one outcome means for the retry policy.
#[derive(Clone, Copy, PartialEq, Eq, Structural, Debug)]
pub enum AttemptClass {
    /// A 2xx response: the upload went through.
    Success,
    /// A non-2xx, non-5xx response: final, never retried.
    Fatal,
    /// A 5xx response or a transport error: worth retrying.
    Retryable,
}

/// What the retry loop does next.
#[derive(Clone, Copy, PartialEq, Eq, Structural, Debug)]
pub enum UploadAction {
    /// Report success.
    Succeed,
    /// Report failure, with no further attempt.
    Fail,
    /// Wait and attempt again.
    Retry,
}

/// How a simulated upload ended.
#[derive(Clone, Copy, PartialEq, Eq, Structural, Debug)]
pub enum UploadVerdict {
    /// A 2xx response arrived within the attempt bound.
    Uploaded,
    /// A non-retryable failure arrived.
    FatalFailure,
    /// Every allowed attempt came back retryable.
    RetriesExhausted,
    /// The supplied outcomes ran out before the policy finished.
    Unresolved,
}

/// Classification of one attempt's outcome.
pub open spec fn spec_classify(o: AttemptOutcome) -> AttemptClass {
    match o {
        AttemptOutcome::Status(c) => if 200 <= c < 300 {
            AttemptClass::Success
        } else if 500 <= c < 600 {
            AttemptClass::Retryable
        } else {
            AttemptClass::Fatal
        },
        AttemptOutcome::TransportError => AttemptClass::Retryable,
    }
}

/// Classifies one attempt's outcome.
pub fn classify(o: &AttemptOutcome) -> (r: AttemptClass)
    ensures
        r == spec_classify(*o),
{
    match o {
        AttemptOutcome::Status(c) => {
            if 200 <= *c && *c < 300 {
                AttemptClass::Success
            } else if 500 <= *c && *c < 600 {
                AttemptClass::Retryable
            } else {
                AttemptClass::Fatal
            }
        },
        AttemptOutcome::TransportError => AttemptClass::Retryable,
    }
}

/// The action after an attempt: `attempts_made` counts the attempt whose
/// outcome this is. A retryable outcome leads to another attempt only while
/// the bound has not been reached.
pub open spec fn spec_decide(attempts_made: int, o: AttemptOutcome) -> UploadAction {
    match spec_classify(o) {
        AttemptClass::Success => UploadAction::Succeed,
        AttemptClass::Fatal => UploadAction::Fail,
        AttemptClass::Retryable => if attempts_made < MAX_UPLOAD_ATTEMPTS {
            UploadAction::Retry
        } else {
            UploadAction::Fail
        },
    }
}

/// Decides what the retry loop does after one attempt.
pub fn decide_after_attempt(attempts_made: u64, o: &AttemptOutcome) -> (r: UploadAction)
    ensures
        r == spec_decide(attempts_made as int, *o),
{
    match classify(o) {
        AttemptClass::Success => UploadAction::Succeed,
        AttemptClass::Fatal => UploadAction::Fail,
        AttemptClass::Retryable => {
            if attempts_made < MAX_UPLOAD_ATTEMPTS {
                UploadAction::Retry
            } else {
                UploadAction::Fail
            }
        },
    }
}

/// The whole retry loop over a given sequence of outcomes, having already
/// made `made` attempts: the total number of attempts and the verdict.
pub open spec fn spec_simulate(outcomes: Seq<AttemptOutcome>, made: int) -> (int, UploadVerdict)
    decreases outcomes.len(),
{
    if made >= MAX_UPLOAD_ATTEMPTS {
        (made, UploadVerdict::RetriesExhausted)
    } else if outcomes.len() == 0 {
        (made, UploadVerdict::Unresolved)
    } else {
        match spec_classify(outcomes[0]) {
            AttemptClass::Success => (made + 1, UploadVerdict::Uploaded),
            AttemptClass::Fatal => (made + 1, UploadVerdict::FatalFailure),
            AttemptClass::Retryable => spec_simulate(outcomes.drop_first(), made + 1),
        }
    }
}

/// The result of driving the retry policy over simulated outcomes.
pub struct UploadReport {
    /// How many attempts were made.
    pub attempts: u64,
    /// How the run ended.
    pub verdict: UploadVerdict,
}

/// Drives the retry policy over the given outcomes, consumed in order, and
/// reports how many attempts were made and how the run ended.
pub fn simulate_upload(outcomes: &Vec<AttemptOutcome>) -> (r: UploadReport)
    ensures
        (r.attempts as int, r.verdict) == spec_simulate(outcomes@, 0),
        r.attempts <= MAX_UPLOAD_ATTEMPTS,
{
    proof {
        lemma_retry_bound(outcomes@, 0);
        assert(outcomes@.skip(0) =~= outcomes@);
    }
    let n = outcomes.len();
    let mut attempts: u64 = 0;
    let mut i: usize = 0;
    while i < n
        invariant
            n == outcomes@.len(),
            0 <= i <= n,
            attempts == i,
            attempts <= MAX_UPLOAD_ATTEMPTS,
            spec_simulate(outcomes@, 0) == spec_simulate(outcomes@.skip(i as int), attempts as int),
            attempts < MAX_UPLOAD_ATTEMPTS || i == 0,
        decreases n - i,
    {
        let outcome = outcomes[i];
        attempts = attempts + 1;
        proof {
            assert(outcomes@.skip(i as int)[0] == outcomes@[i as int]);
            assert(outcomes@.skip(i as int).drop_first() =~= outcomes@.skip(i + 1));
        }
        match decide_after_attempt(attempts, &outcome) {
            UploadAction::Succeed => {
                return UploadReport { attempts, verdict: UploadVerdict::Uploaded };
            },
            UploadAction::Fail => {
                match classify(&outcome) {
                    AttemptClass::Retryable => {
                        proof {
                            assert(spec_simulate(outcomes@.skip(i + 1), attempts as int) == (
                                attempts as int,
                                UploadVerdict::RetriesExhausted,
                            ));
                        }
                        return UploadReport { attempts, verdict: UploadVerdict::RetriesExhausted };
                    },
                    _ => {
                        return UploadReport { attempts, verdict: UploadVerdict::FatalFailure };
                    },
                }
            },
            UploadAction::Retry => {},
        }
        i += 1;
    }
    if attempts >= MAX_UPLOAD_ATTEMPTS {
        UploadReport { attempts, verdict: UploadVerdict::RetriesExhausted }
    } else {
        UploadReport { attempts, verdict: UploadVerdict::Unresolved }
    }
}

/// The policy's attempt bound: a run never makes more than
/// `MAX_UPLOAD_ATTEMPTS` attempts in total, never fewer than it had already
/// made, and never more attempts than outcomes were offered.
pub proof fn lemma_retry_bound(outcomes: Seq<AttemptOutcome>, made: int)
    requires
        0 <= made <= MAX_UPLOAD_ATTEMPTS,
    ensures
        made <= spec_simulate(outcomes, made).0 <= MAX_UPLOAD_ATTEMPTS,
        spec_simulate(outcomes, made).0 - made <= outcomes.len(),
    decreases outcomes.len(),
{
    if made < MAX_UPLOAD_ATTEMPTS && outcomes.len() > 0 {
        match spec_classify(outcomes[0]) {
            AttemptClass::Retryable => {
                lemma_retry_bound(outcomes.drop_first(), made + 1);
            },
            _ => {},
        }
    }
}

/// Relies on `rand::random`: a uniformly drawn 64-bit value; nothing is
/// promised of the result.
#[verifier::external_body]
fn random_u64() -> u64 {
    rand::random()
}

/// The jitter added to the base delay, computed from a random draw: the
/// draw reduced below one second.
pub fn retry_jitter_ms(draw: u64) -> (j: u64)
    ensures
        j == draw % 1000,
{
    draw % 1000
}

/// The delay before a retry: the fixed base plus random jitter below one
/// second.
pub fn retry_delay_ms() -> (d: u64)
    ensures
        BASE_RETRY_DELAY_MS <= d < BASE_RETRY_DELAY_MS + 1000,
{
    let j = retry_jitter_ms(random_u64());
    BASE_RETRY_DELAY_MS + j
}

} // verus!
