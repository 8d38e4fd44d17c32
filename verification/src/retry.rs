//! The retry policy of a fetch under resource pressure.
//!
//! When too many fetches run at once, requests fail for want of descriptors,
//! and retrying at once would make it worse. A worker whose request failed
//! looks at the number of workers that are active. Under pressure, and while
//! it has attempts left, it gives up its slot, sleeps for a randomised time
//! that grows exponentially with the number of its attempt, and tries again
//! only once the number of active workers has fallen under half of what it
//! saw. Otherwise the failure is final; and so it is where the pressure
//! outlasts the longest sleep, so that no worker waits without end.

use vstd::arithmetic::power2::{
    lemma2_to64, lemma_pow2_adds, lemma_pow2_pos, lemma_pow2_strictly_increases, pow2,
};
use vstd::bits::lemma_u64_shl_is_mul;
use vstd::prelude::*;

verus! {

/// The default bound on the attempts of one fetch.
pub const MAX_ATTEMPTS: u32 = 8;

/// The default number of active workers from which a failure counts as a
/// sign of pressure.
pub const PRESSURE_THRESHOLD: usize = 2;

/// The largest backoff round whose longest delay still fits in 64 bits of
/// milliseconds.
pub const MAX_BACKOFF_ROUND: u32 = 56;

/// What a worker does after a failed request.
#[derive(Clone, Copy, Debug, PartialEq, Eq, Structural)]
pub enum RetryDecision {
    /// The failure is final and is reported as the outcome.
    GiveUp,
    /// The worker releases its slot, sleeps, and tries again.
    BackOff,
}

/// The bounds of the retry policy.
#[derive(Clone, Copy, Debug, PartialEq, Eq, Structural)]
pub struct RetryPolicy {
    /// No fetch makes more attempts than this (but always one).
    pub max_attempts: u32,
    /// With fewer active workers than this, a failure is not put down to
    /// pressure and is final.
    pub pressure: usize,
}

/// The number of active workers has fallen under half of `observed`.
pub open spec fn relieved(active: int, observed: int) -> bool {
    active * 2 < observed
}

/// The delay of a backoff round in milliseconds: two to the power of the
/// round, times the jitter.
pub open spec fn backoff_millis(round: nat, jitter: nat) -> nat {
    pow2(round) * jitter
}

impl RetryPolicy {
    /// The decision after the failure of attempt number `attempts` (the first
    /// attempt is number 1), with `active` workers running.
    pub open spec fn decision(self, attempts: int, active: int) -> RetryDecision {
        if attempts < self.max_attempts && active >= self.pressure {
            RetryDecision::BackOff
        } else {
            RetryDecision::GiveUp
        }
    }

    /// The default policy: at most eight attempts, pressure from two active
    /// workers on.
    pub fn standard() -> (policy: RetryPolicy)
        ensures
            policy.max_attempts == MAX_ATTEMPTS,
            policy.pressure == PRESSURE_THRESHOLD,
    {
        RetryPolicy { max_attempts: MAX_ATTEMPTS, pressure: PRESSURE_THRESHOLD }
    }

    /// Decides what follows the failure of attempt number `attempts`, with
    /// `active` workers running: another attempt after a backoff while
    /// attempts are left and the pressure is there, and the end otherwise.
    pub fn after_failure(&self, attempts: u32, active: usize) -> (decision: RetryDecision)
        ensures
            decision == self.decision(attempts as int, active as int),
    {
        if attempts < self.max_attempts && active >= self.pressure {
            RetryDecision::BackOff
        } else {
            RetryDecision::GiveUp
        }
    }
}

/// Whether a worker that backed off may try again: the number of active
/// workers, `active`, has fallen under half of the number it saw when its
/// request failed, `observed`.
pub fn may_resume(active: usize, observed: usize) -> (go: bool)
    ensures
        go == relieved(active as int, observed as int),
{
    observed > 0 && active <= (observed - 1) / 2
}

/// The delay of backoff round `round` for the random byte `jitter`, in
/// milliseconds.
pub fn backoff(round: u32, jitter: u8) -> (delay: u64)
    requires
        round <= MAX_BACKOFF_ROUND,
    ensures
        delay == backoff_millis(round as nat, jitter as nat),
{
    proof {
        lemma_backoff_fits(round as nat, jitter as nat);
        assert((jitter as u64) * pow2(round as nat) == pow2(round as nat) * (jitter as nat))
            by (nonlinear_arith);
        lemma_u64_shl_is_mul(jitter as u64, round as u64);
    }
    (jitter as u64) << (round as u64)
}

/// Up to the largest round, no delay overflows 64 bits.
pub proof fn lemma_backoff_fits(round: nat, jitter: nat)
    requires
        round <= MAX_BACKOFF_ROUND,
        jitter <= u8::MAX,
    ensures
        backoff_millis(round, jitter) <= u64::MAX,
{
    lemma2_to64();
    lemma_pow2_pos(round);
    lemma_pow2_adds(round, 8);
    if round + 8 < 64 {
        lemma_pow2_strictly_increases(round + 8, 64);
    }
    assert(pow2(round) * jitter <= pow2(round) * 255) by (nonlinear_arith)
        requires
            jitter <= 255,
    ;
    assert(pow2(round) * 255 < pow2(round) * 256) by (nonlinear_arith)
        requires
            pow2(round) > 0,
    ;
}

/// Calls `rand::random::<u8>()`, which draws a byte from the thread's random
/// number generator. Trusted; nothing is claimed of the byte but its type. The
/// generator panics if the operating system gives it no seed, when the thread
/// draws for the first time or when the generator seeds itself anew.
#[verifier::external_body]
fn random_byte() -> u8 {
    rand::random::<u8>()
}

/// The delay of backoff round `round` with a jitter drawn at random: some
/// multiple of two to the power of the round, from none of it to 255 times.
pub fn jittered_backoff(round: u32) -> (delay: u64)
    requires
        round <= MAX_BACKOFF_ROUND,
    ensures
        exists|jitter: u8| delay == #[trigger] backoff_millis(round as nat, jitter as nat),
{
    let jitter = random_byte();
    backoff(round, jitter)
}

/// What a worker does next about its request.
#[derive(Clone, Copy, Debug, PartialEq, Eq, Structural)]
pub enum RetryStep {
    /// Give up the slot, read the number of active workers, sleep for
    /// `millis` milliseconds, and report that number with `on_wake`.
    Sleep { millis: u64 },
    /// Take a slot again and send the request again.
    Request,
    /// Report the failure as the outcome.
    Fail,
}

/// A backoff under way: the number of active workers read when the request
/// failed, and the round of the sleep that was last ordered.
#[derive(Clone, Copy, Debug, PartialEq, Eq, Structural)]
pub struct Backoff {
    pub observed: usize,
    pub round: u32,
}

/// The attempts of one worker at its request, as a mathematical value.
pub struct Attempts {
    pub policy: RetryPolicy,
    /// The number of the attempt that is under way or failed last; the first
    /// attempt is number 1.
    pub attempts: int,
    /// The backoff under way, if the worker is in one.
    pub backoff: Option<Backoff>,
}

impl Attempts {
    /// A worker makes at least one attempt and no more than its policy
    /// allows, and backs off only while it has an attempt left.
    pub open spec fn wf(self) -> bool {
        &&& 1 <= self.attempts
        &&& self.attempts <= self.policy.max_attempts || self.attempts == 1
        &&& self.backoff is Some ==> self.attempts < self.policy.max_attempts
    }

    /// A worker at its first attempt.
    pub open spec fn first(policy: RetryPolicy) -> Attempts {
        Attempts { policy, attempts: 1, backoff: None }
    }

    /// The state and the step after the attempt under way failed with
    /// `active` workers running, for the random byte `jitter`. The first sleep
    /// of a backoff has the round of the failed attempt's number: after the
    /// third attempt it lasts eight times the jitter.
    pub open spec fn on_failure(self, active: usize, jitter: u8) -> (Attempts, RetryStep) {
        match self.policy.decision(self.attempts, active as int) {
            RetryDecision::GiveUp => (Attempts { backoff: None, ..self }, RetryStep::Fail),
            RetryDecision::BackOff => {
                let round = self.attempts as u32;
                (
                    Attempts { backoff: Some(Backoff { observed: active, round }), ..self },
                    RetryStep::Sleep { millis: backoff_millis(round as nat, jitter as nat) as u64 },
                )
            },
        }
    }

    /// The state and the step after a sleep before which `active` workers
    /// were running, for the random byte `jitter`: the next attempt where the
    /// pressure is relieved, and else a sleep of the next round. Where the
    /// pressure lasts beyond the largest round, the wait ends and the failure
    /// is final: no worker waits without end.
    pub open spec fn on_wake(self, active: usize, jitter: u8) -> (Attempts, RetryStep) {
        match self.backoff {
            Some(backoff) => {
                if relieved(active as int, backoff.observed as int) {
                    (
                        Attempts { attempts: self.attempts + 1, backoff: None, ..self },
                        RetryStep::Request,
                    )
                } else if backoff.round < MAX_BACKOFF_ROUND {
                    let round = (backoff.round + 1) as u32;
                    (
                        Attempts { backoff: Some(Backoff { round, ..backoff }), ..self },
                        RetryStep::Sleep {
                            millis: backoff_millis(round as nat, jitter as nat) as u64,
                        },
                    )
                } else {
                    (Attempts { backoff: None, ..self }, RetryStep::Fail)
                }
            },
            None => (self, RetryStep::Request),
        }
    }

    /// Both steps keep `wf`: no sequence of failures and sleeps brings a
    /// worker beyond the attempts that its policy allows.
    pub proof fn lemma_steps_wf(self, active: usize, jitter: u8)
        requires
            self.wf(),
        ensures
            self.on_failure(active, jitter).0.wf(),
            self.on_wake(active, jitter).0.wf(),
            self.on_failure(active, jitter).0.attempts == self.attempts,
            self.on_wake(active, jitter).0.attempts <= self.attempts + 1,
            self.attempts >= self.policy.max_attempts ==> self.on_failure(active, jitter).1
                == RetryStep::Fail,
    {
    }

    /// What a worker whose every request fails still goes through, from this
    /// state on: the number of its last attempt, and the number of sleeps it
    /// takes before it reports the failure. The worker reads
    /// `readings(event)` active workers and draws `jitters(event)` at its
    /// event number `event`, where every failed request and every sleep is
    /// an event. A worker that is in no backoff has a request under way,
    /// which fails; a worker in a backoff wakes from its sleep.
    pub open spec fn failing_run(
        self,
        readings: spec_fn(nat) -> usize,
        jitters: spec_fn(nat) -> u8,
        event: nat,
    ) -> (int, int)
        decreases self.policy.max_attempts - self.attempts, self.phase(),
    {
        if !self.wf() {
            (self.attempts, 0)
        } else {
            let (next, step) = if self.backoff is None {
                self.on_failure(readings(event), jitters(event))
            } else {
                self.on_wake(readings(event), jitters(event))
            };
            match step {
                RetryStep::Fail => (self.attempts, 0),
                RetryStep::Sleep { .. } => {
                    let (last, sleeps) = next.failing_run(readings, jitters, event + 1);
                    (last, sleeps + 1)
                },
                RetryStep::Request => next.failing_run(readings, jitters, event + 1),
            }
        }
    }

    /// How far a worker is from the end of its backoff: the rounds that are
    /// left to it, and more than any of these while it is in no backoff.
    pub open spec fn phase(self) -> int {
        match self.backoff {
            None => MAX_BACKOFF_ROUND + 2,
            Some(backoff) => if backoff.round <= MAX_BACKOFF_ROUND {
                MAX_BACKOFF_ROUND + 1 - backoff.round
            } else {
                0
            },
        }
    }

    /// The most sleeps that a worker can still take: those left in the
    /// backoff it is in, and a whole backoff for every attempt that it has
    /// left after that.
    pub open spec fn sleeps_left(self) -> int {
        match self.backoff {
            None => if self.attempts < self.policy.max_attempts {
                (self.policy.max_attempts - self.attempts) * MAX_BACKOFF_ROUND
            } else {
                0
            },
            Some(backoff) => (if backoff.round < MAX_BACKOFF_ROUND {
                MAX_BACKOFF_ROUND - backoff.round
            } else {
                0
            }) + (self.policy.max_attempts - self.attempts - 1) * MAX_BACKOFF_ROUND,
        }
    }

    /// A worker whose every request fails ends with the failure, whatever it
    /// reads of the active workers and whatever jitter it draws: it makes no
    /// attempt beyond the bound of its policy, and it takes no more sleeps
    /// than `sleeps_left`. It neither tries nor waits without end.
    pub proof fn lemma_failing_run_ends(
        self,
        readings: spec_fn(nat) -> usize,
        jitters: spec_fn(nat) -> u8,
        event: nat,
    )
        requires
            self.wf(),
        ensures
            self.attempts <= self.failing_run(readings, jitters, event).0,
            self.failing_run(readings, jitters, event).0 <= self.policy.max_attempts
                || self.failing_run(readings, jitters, event).0 == 1,
            0 <= self.failing_run(readings, jitters, event).1 <= self.sleeps_left(),
        decreases self.policy.max_attempts - self.attempts, self.phase(),
    {
        self.lemma_steps_wf(readings(event), jitters(event));
        let (next, step) = if self.backoff is None {
            self.on_failure(readings(event), jitters(event))
        } else {
            self.on_wake(readings(event), jitters(event))
        };
        match step {
            RetryStep::Fail => {},
            RetryStep::Sleep { .. } => {
                next.lemma_failing_run_ends(readings, jitters, event + 1);
            },
            RetryStep::Request => {
                next.lemma_failing_run_ends(readings, jitters, event + 1);
            },
        }
    }

    /// A worker whose every request fails, from its first attempt on: it
    /// sends no more requests than its policy allows (but always one), and
    /// between them it sleeps no more often than that many backoffs of the
    /// largest length.
    pub proof fn lemma_retry_bound(
        policy: RetryPolicy,
        readings: spec_fn(nat) -> usize,
        jitters: spec_fn(nat) -> u8,
    )
        ensures
            1 <= Attempts::first(policy).failing_run(readings, jitters, 0).0,
            Attempts::first(policy).failing_run(readings, jitters, 0).0 <= policy.max_attempts
                || Attempts::first(policy).failing_run(readings, jitters, 0).0 == 1,
            0 <= Attempts::first(policy).failing_run(readings, jitters, 0).1
                <= policy.max_attempts * MAX_BACKOFF_ROUND,
    {
        Attempts::first(policy).lemma_failing_run_ends(readings, jitters, 0);
    }
}

/// The attempts of one worker at its request: the state of its retry loop.
#[derive(Clone, Copy, Debug)]
pub struct FetchAttempts {
    policy: RetryPolicy,
    attempts: u32,
    backoff: Option<Backoff>,
}

impl View for FetchAttempts {
    type V = Attempts;

    closed spec fn view(&self) -> Attempts {
        Attempts { policy: self.policy, attempts: self.attempts as int, backoff: self.backoff }
    }
}

impl FetchAttempts {
    #[verifier::type_invariant]
    spec fn inv(self) -> bool {
        self@.wf()
    }

    /// A worker that is about to make its first attempt.
    pub fn first(policy: RetryPolicy) -> (state: FetchAttempts)
        ensures
            state@ == Attempts::first(policy),
            state@.wf(),
    {
        FetchAttempts { policy, attempts: 1, backoff: None }
    }

    /// The policy that the worker follows.
    pub fn policy(&self) -> (policy: RetryPolicy)
        ensures
            policy == self@.policy,
    {
        self.policy
    }

    /// The number of the attempt that is under way or failed last.
    pub fn attempts(&self) -> (attempts: u32)
        ensures
            attempts == self@.attempts,
            1 <= attempts,
            attempts <= self@.policy.max_attempts || attempts == 1,
    {
        proof {
            use_type_invariant(self);
        }
        self.attempts
    }

    /// The round of the sleep that was last ordered, if the worker backs off.
    pub fn round(&self) -> (round: Option<u32>)
        ensures
            round == match self@.backoff {
                Some(backoff) => Some(backoff.round),
                None => None,
            },
    {
        match self.backoff {
            Some(backoff) => Some(backoff.round),
            None => None,
        }
    }

    /// The attempt under way failed with `active` workers running: decides
    /// between a backoff and the end, for the random byte `jitter`. Where a
    /// backoff begins, the delay of its first round must fit: the number of
    /// the failed attempt is no more than the largest round.
    pub fn on_failure_with(&mut self, active: usize, jitter: u8) -> (step: RetryStep)
        requires
            old(self)@.policy.decision(old(self)@.attempts, active as int)
                == RetryDecision::BackOff ==> old(self)@.attempts <= MAX_BACKOFF_ROUND,
        ensures
            (final(self)@, step) == old(self)@.on_failure(active, jitter),
            final(self)@.wf(),
    {
        proof {
            use_type_invariant(&*self);
            self@.lemma_steps_wf(active, jitter);
        }
        match self.policy.after_failure(self.attempts, active) {
            RetryDecision::GiveUp => {
                *self = FetchAttempts { policy: self.policy, attempts: self.attempts, backoff: None };
                RetryStep::Fail
            },
            RetryDecision::BackOff => {
                let round = self.attempts;
                let millis = backoff(round, jitter);
                *self = FetchAttempts {
                    policy: self.policy,
                    attempts: self.attempts,
                    backoff: Some(Backoff { observed: active, round }),
                };
                RetryStep::Sleep { millis }
            },
        }
    }

    /// A sleep is over, before which `active` workers were running: decides
    /// between the next attempt, a further sleep, and, where the pressure
    /// has lasted through the largest round, the end, for the random byte
    /// `jitter`.
    pub fn on_wake_with(&mut self, active: usize, jitter: u8) -> (step: RetryStep)
        ensures
            (final(self)@, step) == old(self)@.on_wake(active, jitter),
            final(self)@.wf(),
    {
        proof {
            use_type_invariant(&*self);
            self@.lemma_steps_wf(active, jitter);
        }
        match self.backoff {
            Some(backoff_state) => {
                if may_resume(active, backoff_state.observed) {
                    *self = FetchAttempts {
                        policy: self.policy,
                        attempts: self.attempts + 1,
                        backoff: None,
                    };
                    RetryStep::Request
                } else if backoff_state.round < MAX_BACKOFF_ROUND {
                    let round = backoff_state.round + 1;
                    let millis = backoff(round, jitter);
                    *self = FetchAttempts {
                        policy: self.policy,
                        attempts: self.attempts,
                        backoff: Some(Backoff { observed: backoff_state.observed, round }),
                    };
                    RetryStep::Sleep { millis }
                } else {
                    *self = FetchAttempts {
                        policy: self.policy,
                        attempts: self.attempts,
                        backoff: None,
                    };
                    RetryStep::Fail
                }
            },
            None => RetryStep::Request,
        }
    }

    /// `on_failure_with` for a jitter drawn at random.
    pub fn on_failure(&mut self, active: usize) -> (step: RetryStep)
        requires
            old(self)@.policy.decision(old(self)@.attempts, active as int)
                == RetryDecision::BackOff ==> old(self)@.attempts <= MAX_BACKOFF_ROUND,
        ensures
            exists|jitter: u8| (final(self)@, step) == #[trigger] old(self)@.on_failure(active, jitter),
            final(self)@.wf(),
    {
        let jitter = random_byte();
        self.on_failure_with(active, jitter)
    }

    /// `on_wake_with` for a jitter drawn at random.
    pub fn on_wake(&mut self, active: usize) -> (step: RetryStep)
        ensures
            exists|jitter: u8| (final(self)@, step) == #[trigger] old(self)@.on_wake(active, jitter),
            final(self)@.wf(),
    {
        let jitter = random_byte();
        self.on_wake_with(active, jitter)
    }
}

} // verus!
