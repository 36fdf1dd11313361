use vstd::prelude::*;

use crate::text::{decimal, decimal_string};

verus! {

/// Seconds to wait after a failed attempt, before the next one or before giving up.
pub const RETRY_SECS: u64 = 2;

/// What to do after an attempt at a download.
#[derive(Debug, PartialEq, Eq)]
pub enum AfterAttempt<E> {
    /// The file is downloaded.
    Succeeded,
    /// Wait `RETRY_SECS`, then attempt again.
    Retry,
    /// Wait `RETRY_SECS`, then report this error, the last one.
    GiveUp(E),
}

/// The step that follows an attempt's outcome when `tries_left` attempts
/// (this one included) were allowed.
pub open spec fn next_step<E>(tries_left: nat, outcome: Result<(), E>) -> AfterAttempt<E> {
    match outcome {
        Ok(_) => AfterAttempt::Succeeded,
        Err(e) => if tries_left <= 1 {
            AfterAttempt::GiveUp(e)
        } else {
            AfterAttempt::Retry
        },
    }
}

/// The retry budget of one download.
pub struct RetryState {
    tries_left: u64,
}

impl RetryState {
    /// The attempts still allowed.
    pub closed spec fn remaining(&self) -> nat {
        self.tries_left as nat
    }

    /// A budget of `tries` attempts. With no attempt at all a download would
    /// have no error to report, so at least one is needed.
    pub fn new(tries: u64) -> (res: Self)
        requires
            tries > 0,
        ensures
            res.remaining() == tries,
    {
        RetryState { tries_left: tries }
    }

    /// The attempts still allowed.
    pub fn tries_left(&self) -> (res: u64)
        ensures
            res == self.remaining(),
    {
        self.tries_left
    }

    /// Records the outcome of an attempt and says what comes next.
    pub fn record<E>(&mut self, outcome: Result<(), E>) -> (res: AfterAttempt<E>)
        requires
            old(self).remaining() > 0,
        ensures
            res == next_step(old(self).remaining(), outcome),
            final(self).remaining() == if outcome is Ok {
                old(self).remaining()
            } else {
                (old(self).remaining() - 1) as nat
            },
    {
        match outcome {
            Ok(()) => AfterAttempt::Succeeded,
            Err(e) => {
                self.tries_left = self.tries_left - 1;
                if self.tries_left == 0 {
                    AfterAttempt::GiveUp(e)
                } else {
                    AfterAttempt::Retry
                }
            },
        }
    }
}

/// The text shown after a failed attempt, given the attempts still allowed.
pub open spec fn failure_notice_text(tries_left: nat) -> Seq<char> {
    if tries_left > 0 {
        "Retrying... "@ + decimal(tries_left) + " left"@
    } else {
        "No more retries left"@
    }
}

/// The text shown after a failed attempt.
pub fn failure_notice(tries_left: u64) -> (res: String)
    ensures
        res@ == failure_notice_text(tries_left as nat),
{
    if tries_left > 0 {
        let mut s = String::from_str("Retrying... ");
        let n = decimal_string(tries_left);
        s.append(n.as_str());
        s.append(" left");
        s
    } else {
        String::from_str("No more retries left")
    }
}

/// How a download ends when its attempts have the given outcomes, one after
/// the other: the number of attempts made and the result, or `None` when
/// the outcomes run out first.
pub open spec fn run_outcome<E>(tries: nat, outcomes: Seq<Result<(), E>>) -> Option<
    (nat, Result<(), E>),
>
    decreases outcomes.len(),
{
    if outcomes.len() == 0 || tries == 0 {
        None
    } else {
        match next_step(tries, outcomes[0]) {
            AfterAttempt::Succeeded => Some((1, Ok(()))),
            AfterAttempt::GiveUp(e) => Some((1, Err(e))),
            AfterAttempt::Retry => match run_outcome((tries - 1) as nat, outcomes.drop_first()) {
                Some((n, r)) => Some((n + 1, r)),
                None => None,
            },
        }
    }
}

/// A download with a budget of `tries` attempts stops at the first attempt
/// that succeeds, and succeeds; when the first `tries` attempts all fail, it
/// stops after them and reports the error of the last one.
pub proof fn retries_end_as_promised<E>(tries: nat, outcomes: Seq<Result<(), E>>)
    requires
        tries > 0,
        outcomes.len() >= tries,
    ensures
        (forall|i: int| 0 <= i < tries ==> #[trigger] outcomes[i] is Err) ==> run_outcome(
            tries,
            outcomes,
        ) == Some((tries, Err::<(), E>(outcomes[tries - 1]->Err_0))),
        forall|k: int|
            0 <= k < tries && #[trigger] outcomes[k] is Ok && (forall|i: int|
                0 <= i < k ==> #[trigger] outcomes[i] is Err) ==> run_outcome(tries, outcomes)
                == Some(((k + 1) as nat, Ok::<(), E>(()))),
    decreases tries,
{
    let rest = outcomes.drop_first();
    if tries > 1 {
        retries_end_as_promised((tries - 1) as nat, rest);
        assert forall|i: int| 0 <= i < rest.len() implies #[trigger] rest[i] == outcomes[i + 1] by {}
        if forall|i: int| 0 <= i < tries ==> #[trigger] outcomes[i] is Err {
            assert(outcomes[0] is Err);
            assert forall|i: int| 0 <= i < tries - 1 implies #[trigger] rest[i] is Err by {
                assert(outcomes[i + 1] is Err);
            }
        }
        assert forall|k: int|
            0 <= k < tries && #[trigger] outcomes[k] is Ok && (forall|i: int|
                0 <= i < k ==> #[trigger] outcomes[i] is Err) implies run_outcome(tries, outcomes)
            == Some(((k + 1) as nat, Ok::<(), E>(()))) by {
            if k > 0 {
                assert(outcomes[0] is Err);
                assert(rest[k - 1] is Ok);
                assert forall|i: int| 0 <= i < k - 1 implies #[trigger] rest[i] is Err by {
                    assert(outcomes[i + 1] is Err);
                }
            }
        }
    }
}

} // verus!
