//! The retry policy of the metadata request: a fixed number of attempts with
//! a fixed pause between them, as a state machine.

use vstd::prelude::*;

verus! {

/// Attempts made at most for one metadata request.
pub const MAX_RETRY: u32 = 3;

/// Seconds to wait between two attempts.
pub const RETRY_DELAY_SECS: u64 = 1;

/// Where a retried request stands.
#[derive(PartialEq, Eq, Structural, Clone, Copy, Debug)]
pub enum RetryState {
    /// Attempt number `n` (from 1) is under way.
    Attempt(u32),
    Success,
    Failed,
}

/// The state after the attempt under way in `s` ended (`ok` when it
/// succeeded), and whether to pause before the next attempt.
pub open spec fn retry_step(s: RetryState, ok: bool) -> (RetryState, bool) {
    match s {
        RetryState::Attempt(n) => {
            if ok {
                (RetryState::Success, false)
            } else if n < MAX_RETRY {
                (RetryState::Attempt((n + 1) as u32), true)
            } else {
                (RetryState::Failed, false)
            }
        },
        _ => (s, false),
    }
}

/// The final state, and the number of attempts made, when the attempts end
/// as `results` says, one entry per attempt.
pub open spec fn retry_run(s: RetryState, results: Seq<bool>) -> (RetryState, nat)
    decreases results.len(),
{
    if results.len() == 0 {
        (s, 0)
    } else if s is Attempt {
        let next = retry_step(s, results[0]).0;
        let rest = retry_run(next, results.drop_first());
        (rest.0, rest.1 + 1)
    } else {
        (s, 0)
    }
}

impl RetryState {
    /// The first attempt.
    pub fn start() -> (r: RetryState)
        ensures
            r == RetryState::Attempt(1),
    {
        RetryState::Attempt(1)
    }

    /// Moves on once the attempt under way has ended; the flag asks for a
    /// pause of `RETRY_DELAY_SECS` before the next attempt.
    pub fn on_result(self, ok: bool) -> (r: (RetryState, bool))
        requires
            self matches RetryState::Attempt(n) && 1 <= n <= MAX_RETRY,
        ensures
            r == retry_step(self, ok),
            r.0 matches RetryState::Attempt(m) ==> 1 <= m <= MAX_RETRY,
    {
        match self {
            RetryState::Attempt(n) => {
                if ok {
                    (RetryState::Success, false)
                } else if n < MAX_RETRY {
                    (RetryState::Attempt(n + 1), true)
                } else {
                    (RetryState::Failed, false)
                }
            },
            _ => (self, false),
        }
    }
}

/// Whatever the attempts report, the request makes at most `MAX_RETRY`
/// attempts. It succeeds exactly when one of the first `MAX_RETRY` attempts
/// succeeds, and then after as many attempts as it took to reach the first
/// success; otherwise it fails after `MAX_RETRY` attempts.
pub proof fn lemma_retry_budget(results: Seq<bool>)
    requires
        results.len() >= MAX_RETRY,
    ensures
        retry_run(RetryState::Attempt(1), results).1 <= MAX_RETRY,
        results[0] ==> retry_run(RetryState::Attempt(1), results) == (RetryState::Success, 1nat),
        !results[0] && results[1] ==> retry_run(RetryState::Attempt(1), results) == (
            RetryState::Success,
            2nat,
        ),
        !results[0] && !results[1] && results[2] ==> retry_run(RetryState::Attempt(1), results)
            == (RetryState::Success, 3nat),
        !results[0] && !results[1] && !results[2] ==> retry_run(RetryState::Attempt(1), results)
            == (RetryState::Failed, 3nat),
{
    let r1 = results.drop_first();
    let r2 = r1.drop_first();
    let r3 = r2.drop_first();
    assert(r1[0] == results[1]);
    assert(r2[0] == results[2]);
    assert(retry_run(RetryState::Success, r1) == (RetryState::Success, 0nat));
    assert(retry_run(RetryState::Success, r2) == (RetryState::Success, 0nat));
    assert(retry_run(RetryState::Success, r3) == (RetryState::Success, 0nat));
    assert(retry_run(RetryState::Failed, r3) == (RetryState::Failed, 0nat));
    let a3 = retry_run(RetryState::Attempt(3), r2);
    assert(a3 == (if results[2] { RetryState::Success } else { RetryState::Failed }, 1nat));
    let a2 = retry_run(RetryState::Attempt(2), r1);
    assert(a2 == (if results[1] { (RetryState::Success, 1nat) } else { (a3.0, 2nat) }));
    let a1 = retry_run(RetryState::Attempt(1), results);
    assert(a1 == (if results[0] { (RetryState::Success, 1nat) } else { (a2.0, a2.1 + 1) }));
}

} // verus!
