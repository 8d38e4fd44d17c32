//! The batch scheduler: how many fetch workers the next wave may start.
//!
//! The ceiling on useful concurrency (open descriptors, remote rate limits) is
//! not known in advance. The scheduler finds it by growing the wave while the
//! waves stay healthy and halving it as soon as more than a quarter of a wave
//! fails, once the wave is large enough for that ratio to mean something.

use vstd::prelude::*;

verus! {

/// The smallest wave size at which the error ratio is acted upon: a wave
/// shrinks only while its size is above this.
pub const MEANINGFUL_SIZE: usize = 8;

/// The growth regime of the scheduler.
#[derive(Clone, Copy, Debug, PartialEq, Eq, Structural)]
pub enum BatchState {
    /// Conservative ramp: one more worker after every healthy wave.
    Incrementing,
    /// Aggressive ramp: twice the workers after every healthy wave.
    Doubling,
    /// A bracket around a working size; the size is held while in it.
    Tuning { min: usize, max: usize },
    /// A settled size; the size is held while in it.
    Stable(usize),
}

/// The scheduler's control state: the regime and the current wave size.
#[derive(Clone, Copy, Debug, PartialEq, Eq, Structural)]
pub struct Batch {
    pub state: BatchState,
    pub size: usize,
}

/// More than a quarter of the wave's workers ended in an error.
pub open spec fn unhealthy(handles_len: int, error_count: int) -> bool {
    error_count * 4 > handles_len
}

/// The wave size that follows a wave of `handles_len` workers of which
/// `error_count` failed, for a scheduler in regime `state` at size `size`.
pub open spec fn next_size(state: BatchState, size: int, handles_len: int, error_count: int) -> int {
    if size > MEANINGFUL_SIZE && unhealthy(handles_len, error_count) {
        size / 2
    } else {
        match state {
            BatchState::Doubling => size * 2,
            BatchState::Incrementing => size + 1,
            BatchState::Tuning { .. } => size,
            BatchState::Stable(_) => size,
        }
    }
}

impl Batch {
    /// The size after the next wave, as a mathematical integer.
    pub open spec fn size_after(self, handles_len: int, error_count: int) -> int {
        next_size(self.state, self.size as int, handles_len, error_count)
    }

    /// The initial scheduler: a conservative ramp that starts with one worker.
    pub fn new() -> (batch: Batch)
        ensures
            batch.state == BatchState::Incrementing,
            batch.size == 1,
    {
        Batch { state: BatchState::Incrementing, size: 1 }
    }

    /// The same wave size under another regime. The scheduler never changes
    /// its regime by itself; the caller decides when to leave the ramp.
    pub fn with_state(self, state: BatchState) -> (batch: Batch)
        ensures
            batch.state == state,
            batch.size == self.size,
    {
        Batch { state, size: self.size }
    }

    /// Whether the wave just finished calls for a smaller wave.
    pub fn must_shrink(&self, handles_len: usize, error_count: usize) -> (shrink: bool)
        ensures
            shrink == (self.size > MEANINGFUL_SIZE && unhealthy(handles_len as int, error_count as int)),
    {
        self.size > MEANINGFUL_SIZE && error_count > handles_len / 4
    }

    /// The scheduler after a wave of `handles_len` workers of which
    /// `error_count` failed. The regime is kept; the size is halved after an
    /// unhealthy wave above the meaningful size, and otherwise doubled,
    /// incremented or held as the regime says.
    pub fn after_wave(self, handles_len: usize, error_count: usize) -> (next: Batch)
        requires
            self.size_after(handles_len as int, error_count as int) <= usize::MAX,
        ensures
            next.state == self.state,
            next.size == self.size_after(handles_len as int, error_count as int),
    {
        let size: usize = if self.must_shrink(handles_len, error_count) {
            self.size / 2
        } else {
            match self.state {
                BatchState::Doubling => self.size * 2,
                BatchState::Incrementing => self.size + 1,
                BatchState::Tuning { .. } => self.size,
                BatchState::Stable(_) => self.size,
            }
        };
        Batch { state: self.state, size }
    }

    /// `after_wave` where the grown size still fits the machine word, and
    /// `None` where it does not.
    pub fn checked_after_wave(self, handles_len: usize, error_count: usize) -> (next: Option<Batch>)
        ensures
            next is Some <==> self.size_after(handles_len as int, error_count as int)
                <= usize::MAX,
            next matches Some(batch) ==> batch.state == self.state && batch.size
                == self.size_after(handles_len as int, error_count as int),
    {
        let fits = self.must_shrink(handles_len, error_count) || match self.state {
            BatchState::Doubling => self.size <= usize::MAX / 2,
            BatchState::Incrementing => self.size < usize::MAX,
            BatchState::Tuning { .. } => true,
            BatchState::Stable(_) => true,
        };
        if fits {
            Some(self.after_wave(handles_len, error_count))
        } else {
            None
        }
    }
}

} // verus!
