//! The pair of task counts that decides whether a hive has work.

use vstd::prelude::*;

verus! {

/// Why an operation on a [`DualCounter`] was refused. A refused operation changes nothing.
#[derive(Debug, Clone, Copy, PartialEq, Eq, Structural)]
pub enum CounterError {
    /// The left count would pass `u64::MAX`.
    LeftOverflow,
    /// The right count would pass `u64::MAX`.
    RightOverflow,
    /// The left count is smaller than the amount to take from it.
    LeftUnderflow,
    /// The right count is smaller than the amount to take from it.
    RightUnderflow,
}

/// Two counts that are read and changed together: on the left the tasks that wait to be
/// run (queued), on the right the tasks that a worker is running (active).
#[derive(Debug, Clone, Copy, PartialEq, Eq)]
pub struct DualCounter {
    left: u64,
    right: u64,
}

impl DualCounter {
    /// The left count.
    pub closed spec fn left(&self) -> nat {
        self.left as nat
    }

    /// The right count.
    pub closed spec fn right(&self) -> nat {
        self.right as nat
    }

    /// Every count fits in a `u64`.
    pub proof fn lemma_bounded(&self)
        ensures
            self.left() <= u64::MAX,
            self.right() <= u64::MAX,
    {
    }

    /// A counter with both counts at zero.
    pub fn new() -> (c: Self)
        ensures
            c.left() == 0,
            c.right() == 0,
    {
        DualCounter { left: 0, right: 0 }
    }

    /// Both counts, as of one moment: `(left, right)`.
    pub fn get(&self) -> (pair: (u64, u64))
        ensures
            pair.0 == self.left(),
            pair.1 == self.right(),
    {
        (self.left, self.right)
    }

    /// Adds `n` to the left count, unless the sum would pass `u64::MAX`.
    pub fn increment_left(&mut self, n: u64) -> (r: Result<(), CounterError>)
        ensures
            old(self).left() + n <= u64::MAX ==> r is Ok && final(self).left() == old(self).left()
                + n,
            old(self).left() + n > u64::MAX ==> r == Err::<(), _>(CounterError::LeftOverflow)
                && final(self).left() == old(self).left(),
            final(self).right() == old(self).right(),
    {
        match self.left.checked_add(n) {
            Some(sum) => {
                self.left = sum;
                Ok(())
            },
            None => Err(CounterError::LeftOverflow),
        }
    }

    /// Takes `n` from the right count, unless the count is smaller than `n`.
    pub fn decrement_right(&mut self, n: u64) -> (r: Result<(), CounterError>)
        ensures
            old(self).right() >= n ==> r is Ok && final(self).right() == old(self).right() - n,
            old(self).right() < n ==> r == Err::<(), _>(CounterError::RightUnderflow)
                && final(self).right() == old(self).right(),
            final(self).left() == old(self).left(),
    {
        match self.right.checked_sub(n) {
            Some(rest) => {
                self.right = rest;
                Ok(())
            },
            None => Err(CounterError::RightUnderflow),
        }
    }

    /// Moves `n` from the left count to the right count in one step. It is refused with
    /// `LeftUnderflow` where the left count is smaller than `n`, and otherwise with
    /// `RightOverflow` where the right count would pass `u64::MAX`.
    pub fn transfer(&mut self, n: u64) -> (r: Result<(), CounterError>)
        ensures
            r == transfer_verdict(old(self).left(), old(self).right(), n),
            r is Ok ==> final(self).left() == old(self).left() - n && final(self).right() == old(
                self,
            ).right() + n,
            r is Err ==> final(self).left() == old(self).left() && final(self).right() == old(
                self,
            ).right(),
    {
        match self.left.checked_sub(n) {
            None => Err(CounterError::LeftUnderflow),
            Some(rest) => match self.right.checked_add(n) {
                None => Err(CounterError::RightOverflow),
                Some(sum) => {
                    self.left = rest;
                    self.right = sum;
                    Ok(())
                },
            },
        }
    }
}

/// Whether `n` can be moved from a left count `left` to a right count `right`, and the
/// error if it cannot.
pub open spec fn transfer_verdict(left: nat, right: nat, n: u64) -> Result<(), CounterError> {
    if left < n {
        Err(CounterError::LeftUnderflow)
    } else if right + n > u64::MAX {
        Err(CounterError::RightOverflow)
    } else {
        Ok(())
    }
}

impl Default for DualCounter {
    fn default() -> (c: Self)
        ensures
            c.left() == 0,
            c.right() == 0,
    {
        DualCounter::new()
    }
}

} // verus!
