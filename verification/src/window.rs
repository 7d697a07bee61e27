//! Flow control for data received from a forwarding target: a window that shrinks as
//! data is taken and is refilled by what was taken once it runs low.
use vstd::prelude::*;
use crate::error::SshError;

verus! {

/// A flow-control window. What has been taken since the last refill and what is left
/// always add up to the initial size.
pub struct WindowController {
    initial_size: u32,
    current_size: u32,
    consumed: u32,
    refill_threshold: u32,
}

impl WindowController {
    #[verifier::type_invariant]
    spec fn conserved(self) -> bool {
        self.current_size + self.consumed == self.initial_size
    }

    /// The size the window starts at.
    pub closed spec fn initial(&self) -> u32 {
        self.initial_size
    }

    /// What is left in the window.
    pub closed spec fn current(&self) -> u32 {
        self.current_size
    }

    /// What has been taken since the last refill.
    pub closed spec fn taken(&self) -> u32 {
        self.consumed
    }

    /// The refill threshold, a percentage of the initial size.
    pub closed spec fn threshold(&self) -> u32 {
        self.refill_threshold
    }

    /// The level at or below which the window is refilled.
    pub open spec fn refill_level(&self) -> int {
        (self.initial() * self.threshold()) / 100
    }

    /// A full window of `initial_size`, refilled at `refill_threshold` percent.
    pub fn new(initial_size: u32, refill_threshold: u32) -> (w: WindowController)
        ensures
            w.initial() == initial_size,
            w.current() == initial_size,
            w.taken() == 0,
            w.threshold() == refill_threshold,
    {
        WindowController {
            initial_size,
            current_size: initial_size,
            consumed: 0,
            refill_threshold,
        }
    }

    /// Whether the refill level can be computed in 32 bits: the initial size times the
    /// threshold percentage fits.
    pub fn refill_level_fits(&self) -> (r: bool)
        ensures
            r == (self.initial() * self.threshold() <= u32::MAX),
    {
        let a: u64 = self.initial_size as u64;
        let b: u64 = self.refill_threshold as u64;
        assert(a * b <= u32::MAX * u32::MAX) by (nonlinear_arith)
            requires
                a <= u32::MAX,
                b <= u32::MAX,
        ;
        let product: u64 = a * b;
        product <= u32::MAX as u64
    }

    /// What is left in the window.
    pub fn current_size(&self) -> (n: u32)
        ensures
            n == self.current(),
            self.current() + self.taken() == self.initial(),
    {
        proof {
            use_type_invariant(self);
        }
        self.current_size
    }

    /// Whether `bytes` fit in what is left.
    pub fn has_space(&self, bytes: u32) -> (r: bool)
        ensures
            r == (self.current() >= bytes),
    {
        self.current_size >= bytes
    }

    /// Takes `bytes` from the window; refused, with nothing changed, when they do not fit.
    pub fn consume(&mut self, bytes: u32) -> (r: Result<(), SshError>)
        ensures
            final(self).initial() == old(self).initial(),
            final(self).threshold() == old(self).threshold(),
            final(self).current() + final(self).taken() == final(self).initial(),
            bytes > old(self).current() ==> r == Err::<(), SshError>(SshError::WindowOverflow)
                && *final(self) == *old(self),
            bytes <= old(self).current() ==> r is Ok && final(self).current() == old(self).current()
                - bytes && final(self).taken() == old(self).taken() + bytes,
    {
        proof {
            use_type_invariant(&*self);
        }
        if bytes > self.current_size {
            return Err(SshError::WindowOverflow);
        }
        *self = WindowController {
            initial_size: self.initial_size,
            current_size: self.current_size - bytes,
            consumed: self.consumed + bytes,
            refill_threshold: self.refill_threshold,
        };
        Ok(())
    }

    /// Once the window is at or below the refill level and something has been taken,
    /// gives back all that was taken and returns that amount; else changes nothing.
    pub fn check_refill(&mut self) -> (r: Option<u32>)
        requires
            old(self).initial() * old(self).threshold() <= u32::MAX,
        ensures
            final(self).initial() == old(self).initial(),
            final(self).threshold() == old(self).threshold(),
            final(self).current() + final(self).taken() == final(self).initial(),
            (old(self).current() <= old(self).refill_level() && old(self).taken() > 0) ==> r == Some(
                old(self).taken(),
            ) && final(self).current() == old(self).initial() && final(self).taken() == 0,
            !(old(self).current() <= old(self).refill_level() && old(self).taken() > 0) ==> r is None
                && final(self).current() == old(self).current() && final(self).taken() == old(
                self,
            ).taken(),
    {
        proof {
            use_type_invariant(&*self);
        }
        let threshold = (self.initial_size * self.refill_threshold) / 100;
        if self.current_size <= threshold && self.consumed > 0 {
            let refill_amount = self.consumed;
            *self = WindowController {
                initial_size: self.initial_size,
                current_size: self.current_size + refill_amount,
                consumed: 0,
                refill_threshold: self.refill_threshold,
            };
            Some(refill_amount)
        } else {
            None
        }
    }

    /// Gives back all that was taken and returns that amount (0 when nothing was taken).
    pub fn force_refill(&mut self) -> (r: u32)
        ensures
            final(self).initial() == old(self).initial(),
            final(self).threshold() == old(self).threshold(),
            r == old(self).taken(),
            final(self).current() == old(self).initial(),
            final(self).taken() == 0,
    {
        proof {
            use_type_invariant(&*self);
        }
        if self.consumed > 0 {
            let refill_amount = self.consumed;
            *self = WindowController {
                initial_size: self.initial_size,
                current_size: self.current_size + refill_amount,
                consumed: 0,
                refill_threshold: self.refill_threshold,
            };
            refill_amount
        } else {
            0
        }
    }

    /// Back to a full window with nothing taken.
    pub fn reset(&mut self)
        ensures
            final(self).initial() == old(self).initial(),
            final(self).threshold() == old(self).threshold(),
            final(self).current() == old(self).initial(),
            final(self).taken() == 0,
    {
        *self = WindowController {
            initial_size: self.initial_size,
            current_size: self.initial_size,
            consumed: 0,
            refill_threshold: self.refill_threshold,
        };
    }
}

} // verus!
