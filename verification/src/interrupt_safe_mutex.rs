//! The interrupt-safe lock.
//!
//! The kernel's only concurrency primitive: a spinlock that also masks
//! interrupts while held, protecting singletons reachable from both ordinary
//! control flow and interrupt handlers. The hardware side — the atomic
//! compare-and-exchange spin and the interrupt flag — lives at the
//! unverified edge of the kernel, which drives the protocol step by step:
//! record whether interrupts are enabled, disable them, spin until `lock`
//! succeeds, run the critical section on the value, `unlock`, and re-enable
//! interrupts only if they were enabled on entry. Re-entrant locking
//! deadlocks and is ruled out by `lock`'s precondition.

use vstd::prelude::*;

verus! {

/// A value guarded by a lock flag. The flag models the atomic word the
/// unverified spin loop operates on: a caller may enter the critical
/// section exactly when it has moved the flag from free to held.
pub struct InterruptSafeMutex<T> {
    pub locked: bool,
    pub value: T,
}

impl<T> InterruptSafeMutex<T> {
    /// A new, unheld lock around `value`.
    pub fn new(value: T) -> (result: Self)
        ensures
            !result.locked,
            result.value == value,
    {
        InterruptSafeMutex { locked: false, value }
    }

    /// Consumes the lock and yields the protected value.
    pub fn into_inner(self) -> (result: T)
        ensures
            result == self.value,
    {
        self.value
    }

    /// Direct access to the protected value. Exclusive access to the whole
    /// lock makes the flag irrelevant, so no locking is needed.
    pub fn get_mut(&mut self) -> (result: &mut T)
        ensures
            *result == old(self).value,
            final(self).value == *final(result),
            final(self).locked == old(self).locked,
    {
        &mut self.value
    }

    /// Takes the lock: the step the spin loop performs when the
    /// compare-and-exchange moves the flag from free to held. Taking a lock
    /// that is already held would spin forever on a single core, so it is
    /// ruled out here.
    pub fn lock(&mut self)
        requires
            !old(self).locked,
        ensures
            final(self).locked,
            final(self).value == old(self).value,
    {
        self.locked = true;
    }

    /// Releases the lock after a critical section.
    pub fn unlock(&mut self)
        requires
            old(self).locked,
        ensures
            !final(self).locked,
            final(self).value == old(self).value,
    {
        self.locked = false;
    }

    /// Replaces the protected value while the lock is held; how the
    /// critical section of `with` acts on the value.
    pub fn store(&mut self, value: T) -> (previous: T)
        requires
            old(self).locked,
        ensures
            final(self).locked,
            final(self).value == value,
            previous == old(self).value,
    {
        let mut value = value;
        core::mem::swap(&mut self.value, &mut value);
        value
    }
}

/// Whether the interrupt-enable bit is set in a saved flags word: bit 9 of
/// the processor's flag register, recorded on entry to a critical section
/// and consulted on exit before re-enabling interrupts.
pub fn interrupts_enabled_in_flags(flags: u64) -> (result: bool)
    ensures
        result == (flags & (1u64 << 9) != 0),
{
    flags & (1u64 << 9) != 0
}

} // verus!
