//! The decisions of the retrying request executor.
//!
//! A request is attempted until an attempt succeeds or the attempts run out.
//! The caller makes each attempt: it races the operation against the timeout
//! that [`RequestState::timeout`] gives, and reports how the attempt ended to
//! [`RequestState::record`], which says what to do next.

use crate::config::RequestConfig;
use crate::error::RequestError;
use crate::timeout::{timeout, updated_estimate, TimeoutState};
use vstd::prelude::*;

verus! {

/// How one attempt of a request ended.
#[derive(Clone, Debug, PartialEq, Eq)]
pub enum Outcome<E> {
    /// The operation, of `size` bytes, completed after `elapsed`
    /// microseconds, before the timeout.
    Success { size: u64, elapsed: u64 },
    /// The timeout elapsed first. The operation was discarded.
    TimedOut,
    /// The store answered with an error before the timeout.
    Failed(E),
    /// The operation could not be made, for a reason that will not go away.
    Rejected(E),
}

/// How far a request has got.
pub enum Progress<E> {
    /// Attempt number `attempt` (from 0) is due.
    Running { attempt: nat },
    Succeeded,
    GivenUp(RequestError<E>),
}

/// A request and the speed estimate that its attempts feed.
pub struct Execution<E> {
    pub progress: Progress<E>,
    pub estimate: u64,
}

/// The execution after the attempt that is due ended in `outcome`, where at
/// most `n_retries` attempts follow the first.
///
/// Only a success changes the speed estimate. A timeout or an error of the
/// store leads to the next attempt while one is left, and ends the request
/// else. A rejection ends the request at once.
pub open spec fn step<E>(
    cfg: RequestConfig,
    n_retries: nat,
    before: Execution<E>,
    outcome: Outcome<E>,
) -> Execution<E> {
    match before.progress {
        Progress::Running { attempt } => match outcome {
            Outcome::Success { size, elapsed } => Execution {
                progress: Progress::Succeeded,
                estimate: updated_estimate(cfg, before.estimate, size, elapsed) as u64,
            },
            Outcome::TimedOut => Execution {
                progress: if attempt < n_retries {
                    Progress::Running { attempt: attempt + 1 }
                } else {
                    Progress::GivenUp(RequestError::Timeout { attempts: (attempt + 1) as usize })
                },
                estimate: before.estimate,
            },
            Outcome::Failed(cause) => Execution {
                progress: if attempt < n_retries {
                    Progress::Running { attempt: attempt + 1 }
                } else {
                    Progress::GivenUp(
                        RequestError::Failed { attempts: (attempt + 1) as usize, cause },
                    )
                },
                estimate: before.estimate,
            },
            Outcome::Rejected(cause) => Execution {
                progress: Progress::GivenUp(RequestError::Rejected { cause }),
                estimate: before.estimate,
            },
        },
        _ => before,
    }
}

/// The execution of a request whose attempts end in `outcomes`, one after the
/// other, starting from the speed estimate `estimate`. Outcomes behind the
/// one that ends the request count for nothing.
pub open spec fn run<E>(
    cfg: RequestConfig,
    n_retries: nat,
    estimate: u64,
    outcomes: Seq<Outcome<E>>,
) -> Execution<E>
    decreases outcomes.len(),
{
    if outcomes.len() == 0 {
        Execution { progress: Progress::Running { attempt: 0 }, estimate }
    } else {
        step(cfg, n_retries, run(cfg, n_retries, estimate, outcomes.drop_last()), outcomes.last())
    }
}

/// Whether the attempt failed in a way that another attempt may mend.
pub open spec fn retryable<E>(outcome: Outcome<E>) -> bool {
    outcome is TimedOut || outcome is Failed
}

/// While failed attempts do not outnumber the retries, the request goes on,
/// and the speed estimate stays as it was.
pub proof fn lemma_run_failures<E>(
    cfg: RequestConfig,
    n_retries: nat,
    estimate: u64,
    failures: Seq<Outcome<E>>,
)
    requires
        failures.len() <= n_retries,
        forall|i: int| 0 <= i < failures.len() ==> retryable(#[trigger] failures[i]),
    ensures
        run(cfg, n_retries, estimate, failures) == (Execution::<E> {
            progress: Progress::Running { attempt: failures.len() },
            estimate,
        }),
    decreases failures.len(),
{
    if failures.len() > 0 {
        lemma_run_failures(cfg, n_retries, estimate, failures.drop_last());
    }
}

/// A request whose operation fails `k` times and then succeeds, with at least
/// `k` retries allowed, succeeds, and the speed estimate takes in the
/// successful attempt and nothing else.
pub proof fn lemma_success_after_failures<E>(
    cfg: RequestConfig,
    n_retries: nat,
    estimate: u64,
    failures: Seq<Outcome<E>>,
    size: u64,
    elapsed: u64,
)
    requires
        failures.len() <= n_retries,
        forall|i: int| 0 <= i < failures.len() ==> retryable(#[trigger] failures[i]),
    ensures
        run(cfg, n_retries, estimate, failures.push(Outcome::Success { size, elapsed })) == (
        Execution::<E> {
            progress: Progress::Succeeded,
            estimate: updated_estimate(cfg, estimate, size, elapsed) as u64,
        }),
{
    lemma_run_failures(cfg, n_retries, estimate, failures);
    assert(failures.push(Outcome::Success { size, elapsed }).drop_last() =~= failures);
}

/// A request whose operation always times out is attempted `n_retries + 1`
/// times, no fewer and no more, and then given up with a timeout error that
/// carries that number.
pub proof fn lemma_always_timed_out<E>(
    cfg: RequestConfig,
    n_retries: nat,
    estimate: u64,
    outcomes: Seq<Outcome<E>>,
)
    requires
        n_retries < usize::MAX,
        forall|i: int| 0 <= i < outcomes.len() ==> #[trigger] outcomes[i] is TimedOut,
    ensures
        outcomes.len() <= n_retries ==> run(cfg, n_retries, estimate, outcomes) == (Execution::<
            E,
        > { progress: Progress::Running { attempt: outcomes.len() }, estimate }),
        outcomes.len() > n_retries ==> run(cfg, n_retries, estimate, outcomes) == (Execution::<
            E,
        > {
            progress: Progress::GivenUp(
                RequestError::Timeout { attempts: (n_retries + 1) as usize },
            ),
            estimate,
        }),
    decreases outcomes.len(),
{
    if outcomes.len() > 0 {
        lemma_always_timed_out(cfg, n_retries, estimate, outcomes.drop_last());
    }
}

/// A request that is being attempted: how many attempts failed so far, and
/// how many may follow the first.
#[derive(Clone, Copy, Debug, PartialEq, Eq)]
pub struct RequestState {
    n_retries: usize,
    attempts: usize,
}

/// What to do after an attempt.
#[derive(Clone, Debug, PartialEq, Eq)]
pub enum Step<E> {
    /// The request is done.
    Done,
    /// Make the next attempt, from a fresh operation.
    Retry(RequestState),
    /// The request is given up.
    GiveUp(RequestError<E>),
}

impl<E> Step<E> {
    /// How far the request has got with this step.
    pub open spec fn progress(self) -> Progress<E> {
        match self {
            Step::Done => Progress::Succeeded,
            Step::Retry(state) => Progress::Running { attempt: state.attempt() as nat },
            Step::GiveUp(error) => Progress::GivenUp(error),
        }
    }
}

impl RequestState {
    #[verifier::type_invariant]
    spec fn inv(self) -> bool {
        self.attempts <= self.n_retries < usize::MAX
    }

    /// The number, from 0, of the attempt that is due.
    pub closed spec fn attempt(&self) -> usize {
        self.attempts
    }

    /// How many attempts may follow the first.
    pub closed spec fn n_retries(&self) -> usize {
        self.n_retries
    }

    /// A request of which the first attempt is due, and that is retried up to
    /// `n_retries` times.
    pub fn new(n_retries: usize) -> (state: RequestState)
        requires
            n_retries < usize::MAX,
        ensures
            state.attempt() == 0,
            state.n_retries() == n_retries,
    {
        RequestState { n_retries, attempts: 0 }
    }

    /// The number, from 0, of the attempt that is due.
    pub fn get_attempt(&self) -> (attempt: usize)
        ensures
            attempt == self.attempt(),
            attempt <= self.n_retries(),
    {
        proof {
            use_type_invariant(self);
        }
        self.attempts
    }

    /// The timeout in microseconds of the attempt that is due, where its
    /// operation is of `size` bytes.
    pub fn timeout(&self, speed: &TimeoutState, size: u64) -> (t: u64)
        ensures
            t == timeout(speed.config(), speed.estimate(), size, self.attempt() as nat),
    {
        speed.get_timeout(size, self.attempts)
    }

    /// Takes in how the attempt that was due ended, and says what to do next.
    /// A successful attempt goes into the speed estimate.
    pub fn record<E>(self, speed: &mut TimeoutState, outcome: Outcome<E>) -> (next: Step<E>)
        ensures
            final(speed).config() == old(speed).config(),
            (Execution { progress: next.progress(), estimate: final(speed).estimate() }) == step(
                old(speed).config(),
                self.n_retries() as nat,
                Execution {
                    progress: Progress::Running { attempt: self.attempt() as nat },
                    estimate: old(speed).estimate(),
                },
                outcome,
            ),
            next matches Step::Retry(state) ==> state.n_retries() == self.n_retries(),
    {
        proof {
            use_type_invariant(self);
        }
        match outcome {
            Outcome::Success { size, elapsed } => {
                speed.update(size, elapsed);
                Step::Done
            },
            Outcome::TimedOut => {
                if self.attempts < self.n_retries {
                    Step::Retry(
                        RequestState { n_retries: self.n_retries, attempts: self.attempts + 1 },
                    )
                } else {
                    Step::GiveUp(RequestError::Timeout { attempts: self.attempts + 1 })
                }
            },
            Outcome::Failed(cause) => {
                if self.attempts < self.n_retries {
                    Step::Retry(
                        RequestState { n_retries: self.n_retries, attempts: self.attempts + 1 },
                    )
                } else {
                    Step::GiveUp(RequestError::Failed { attempts: self.attempts + 1, cause })
                }
            },
            Outcome::Rejected(cause) => Step::GiveUp(RequestError::Rejected { cause }),
        }
    }
}

} // verus!
