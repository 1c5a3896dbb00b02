//! What happens when a job cannot be handed to a worker.
//!
//! Workers in the pool can be in a bad state that shows only when a job is sent
//! to them, so picking a worker and sending the job is attempted several times.

use vstd::prelude::*;

verus! {

/// Number of attempts before we start slowing down the retry.
pub const MAX_FAST_ATTEMPTS: usize = 5;

/// Total number of attempts.
pub const MAX_ATTEMPTS: usize = MAX_FAST_ATTEMPTS * 2;

/// Seconds between two attempts once the retry has slowed down.
pub const SLOW_RETRY_SECONDS: u64 = 1;

/// What to do after a failed attempt.
#[derive(Debug, PartialEq, Eq)]
pub enum RetryPolicy<E> {
    /// Make another attempt immediately.
    Repeat,
    /// Wait for a number of seconds and make another attempt then.
    WaitRetry(u64),
    /// Give up and pass the error on.
    ForwardError(E),
}

/// The policy after the failure of attempt number `attempt`, counted from one.
pub open spec fn policy_after<E>(attempt: int, err: E) -> RetryPolicy<E> {
    if attempt >= MAX_ATTEMPTS {
        RetryPolicy::ForwardError(err)
    } else if attempt >= MAX_FAST_ATTEMPTS {
        RetryPolicy::WaitRetry(SLOW_RETRY_SECONDS)
    } else {
        RetryPolicy::Repeat
    }
}

/// Decides what follows a failure to hand a job to a worker of the pool.
#[derive(Debug)]
pub struct PoolErrorHandler;

impl PoolErrorHandler {
    /// The policy after attempt number `attempt` failed with `err`.
    pub fn handle<E>(&mut self, attempt: usize, err: E) -> (policy: RetryPolicy<E>)
        ensures
            policy == policy_after(attempt as int, err),
            policy is Repeat <==> attempt < 5,
            policy is WaitRetry <==> 5 <= attempt < 10,
            policy matches RetryPolicy::WaitRetry(seconds) ==> seconds == 1,
            policy is ForwardError <==> attempt >= 10,
            policy matches RetryPolicy::ForwardError(forwarded) ==> forwarded == err,
    {
        if attempt >= MAX_ATTEMPTS {
            RetryPolicy::ForwardError(err)
        } else if attempt >= MAX_FAST_ATTEMPTS {
            RetryPolicy::WaitRetry(SLOW_RETRY_SECONDS)
        } else {
            RetryPolicy::Repeat
        }
    }
}

/// How a sequence of attempts ends, when attempt number `attempt` has the first
/// of the given outcomes: with the first success, with the error that the policy
/// forwards, or not yet.
pub open spec fn retried<T, E>(attempt: int, outcomes: Seq<Result<T, E>>) -> Option<
    Result<(T, int), (E, int)>,
>
    decreases outcomes.len(),
{
    if outcomes.len() == 0 {
        None
    } else {
        match outcomes[0] {
            Ok(value) => Some(Ok((value, attempt))),
            Err(err) => match policy_after(attempt, err) {
                RetryPolicy::ForwardError(e) => Some(Err((e, attempt))),
                _ => retried(attempt + 1, outcomes.drop_first()),
            },
        }
    }
}

/// Seconds that are spent waiting between attempts, when every attempt from
/// number `attempt` on fails.
pub open spec fn seconds_waited(attempt: int) -> int
    decreases MAX_ATTEMPTS - attempt,
{
    match policy_after(attempt, ()) {
        RetryPolicy::ForwardError(_) => 0,
        RetryPolicy::WaitRetry(seconds) => seconds + seconds_waited(attempt + 1),
        RetryPolicy::Repeat => seconds_waited(attempt + 1),
    }
}

proof fn lemma_retried_from<T, E>(attempt: int, outcomes: Seq<Result<T, E>>, k: int)
    requires
        1 <= attempt,
        0 <= k < outcomes.len(),
        attempt + k <= MAX_ATTEMPTS,
        forall|i: int| 0 <= i < k ==> #[trigger] outcomes[i] is Err,
        outcomes[k] is Ok || attempt + k == MAX_ATTEMPTS,
    ensures
        retried(attempt, outcomes) == Some(
            match outcomes[k] {
                Ok(value) => Ok::<(T, int), (E, int)>((value, attempt + k)),
                Err(err) => Err((err, attempt + k)),
            },
        ),
    decreases k,
{
    if k > 0 {
        assert(outcomes[0] is Err);
        let rest = outcomes.drop_first();
        assert forall|i: int| 0 <= i < k - 1 implies #[trigger] rest[i] is Err by {
            assert(rest[i] == outcomes[i + 1]);
        }
        lemma_retried_from(attempt + 1, rest, k - 1);
    }
}

proof fn lemma_retried_pending<T, E>(attempt: int, outcomes: Seq<Result<T, E>>)
    requires
        1 <= attempt,
        attempt + outcomes.len() <= MAX_ATTEMPTS,
        forall|i: int| 0 <= i < outcomes.len() ==> #[trigger] outcomes[i] is Err,
    ensures
        retried(attempt, outcomes) is None,
    decreases outcomes.len(),
{
    if outcomes.len() > 0 {
        assert(outcomes[0] is Err);
        let rest = outcomes.drop_first();
        assert forall|i: int| 0 <= i < rest.len() implies #[trigger] rest[i] is Err by {
            assert(rest[i] == outcomes[i + 1]);
        }
        lemma_retried_pending(attempt + 1, rest);
    }
}

/// The first success among the attempts that are made is the outcome, together
/// with the number of that attempt.
pub proof fn law_first_success_is_the_outcome<T, E>(outcomes: Seq<Result<T, E>>, k: int)
    requires
        0 <= k < outcomes.len(),
        k < MAX_ATTEMPTS,
        outcomes[k] is Ok,
        forall|i: int| 0 <= i < k ==> #[trigger] outcomes[i] is Err,
    ensures
        retried(1, outcomes) == Some(Ok::<(T, int), (E, int)>((outcomes[k]->Ok_0, k + 1))),
{
    lemma_retried_from(1, outcomes, k);
}

/// When every attempt fails, exactly `MAX_ATTEMPTS` attempts are made, and the
/// error of the last one is passed on.
pub proof fn law_gives_up_after_max_attempts<T, E>(outcomes: Seq<Result<T, E>>)
    requires
        forall|i: int| 0 <= i < outcomes.len() ==> #[trigger] outcomes[i] is Err,
    ensures
        outcomes.len() < MAX_ATTEMPTS ==> retried(1, outcomes) is None,
        outcomes.len() >= MAX_ATTEMPTS ==> retried(1, outcomes) == Some(
            Err::<(T, int), (E, int)>((outcomes[MAX_ATTEMPTS - 1]->Err_0, MAX_ATTEMPTS as int)),
        ),
{
    if outcomes.len() < MAX_ATTEMPTS {
        lemma_retried_pending(1, outcomes);
    } else {
        lemma_retried_from(1, outcomes, MAX_ATTEMPTS - 1);
    }
}

/// The retry only ever slows down: an immediate repetition never follows a
/// pause, and nothing follows giving up.
pub proof fn law_retry_only_slows_down<E>(earlier: int, later: int, err: E)
    requires
        earlier <= later,
    ensures
        policy_after(earlier, err) is WaitRetry ==> !(policy_after(later, err) is Repeat),
        policy_after(earlier, err) is ForwardError ==> policy_after(later, err) is ForwardError,
{
}

/// From attempt number `attempt` on, each attempt that is neither fast nor the
/// last one costs one pause; starting with the first attempt, that makes five
/// pauses of one second.
pub proof fn law_total_pause(attempt: int)
    ensures
        seconds_waited(attempt) == if attempt >= MAX_ATTEMPTS {
            0
        } else if attempt >= MAX_FAST_ATTEMPTS {
            (MAX_ATTEMPTS - attempt) * SLOW_RETRY_SECONDS
        } else {
            (MAX_ATTEMPTS - MAX_FAST_ATTEMPTS) * SLOW_RETRY_SECONDS
        },
    decreases MAX_ATTEMPTS - attempt,
{
    if attempt < MAX_ATTEMPTS {
        law_total_pause(attempt + 1);
    }
}

/// Four failures are answered at once, the next five after a second each, and the
/// tenth with its own error, whatever the errors are.
pub proof fn law_policy_of_each_attempt<E>(attempt: int, err: E)
    ensures
        policy_after(attempt, err) is Repeat <==> attempt < 5,
        policy_after(attempt, err) is WaitRetry <==> 5 <= attempt < 10,
        policy_after(attempt, err) matches RetryPolicy::WaitRetry(seconds) ==> seconds == 1,
        policy_after(attempt, err) is ForwardError <==> attempt >= 10,
        policy_after(attempt, err) matches RetryPolicy::ForwardError(forwarded) ==> forwarded
            == err,
{
}

/// When all attempts fail, the tenth is the last one, its error is passed on, and
/// five seconds were spent on pauses.
pub proof fn law_ten_attempts_and_five_seconds<T, E>(outcomes: Seq<Result<T, E>>)
    requires
        outcomes.len() >= 10,
        forall|i: int| 0 <= i < outcomes.len() ==> #[trigger] outcomes[i] is Err,
    ensures
        retried(1, outcomes) == Some(Err::<(T, int), (E, int)>((outcomes[9]->Err_0, 10))),
        seconds_waited(1) == 5,
{
    law_gives_up_after_max_attempts(outcomes);
    law_total_pause(1);
}

} // verus!
