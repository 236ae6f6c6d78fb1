//! The version generator: a counter that hands out snapshot identifiers.
//!
//! A version is an opaque number that is only ever compared for inequality.
//! Every component that stamps its state takes the generator by `&mut`, so
//! the identifiers of one generator are handed out in increasing order.

use vstd::prelude::*;

verus! {

/// Source of version identifiers, injected into whatever needs one.
pub struct VersionGen {
    next: u64,
}

impl VersionGen {
    /// The identifier that the next call of `next_version` returns.
    pub closed spec fn peek(&self) -> u64 {
        self.next
    }

    /// A generator whose first identifier is zero.
    pub fn new() -> (g: Self)
        ensures
            g.peek() == 0,
    {
        VersionGen { next: 0 }
    }

    /// A generator whose first identifier is `first`.
    pub fn starting_at(first: u64) -> (g: Self)
        ensures
            g.peek() == first,
    {
        VersionGen { next: first }
    }

    /// The identifier that the next call of `next_version` returns.
    pub fn current(&self) -> (v: u64)
        ensures
            v == self.peek(),
    {
        self.next
    }
}

/// What the counter holds after one more identifier was handed out: one more,
/// or zero once the largest identifier has been used.
pub open spec fn bumped(v: u64) -> u64 {
    if v == u64::MAX {
        0
    } else {
        (v + 1) as u64
    }
}

/// Hands out the next identifier and advances the generator.
pub fn next_version(gen: &mut VersionGen) -> (v: u64)
    ensures
        v == old(gen).peek(),
        final(gen).peek() == bumped(old(gen).peek()),
{
    let v: u64 = gen.next;
    gen.next = gen.next.wrapping_add(1);
    v
}

/// Until the counter wraps, every identifier is larger than the one before.
pub proof fn lemma_versions_increase(v: u64)
    requires
        v < u64::MAX,
    ensures
        bumped(v) > v,
{
}

/// The version that a component at version `current` takes when its state
/// changes and the generator hands out `next`: the generator's, where that
/// is larger than its own, as it is for a component that has its versions
/// from this generator; else the one after its own, so that no change takes
/// the version back or leaves it. Only a component at the largest version of
/// all has no larger one to take.
pub open spec fn stamped(current: u64, next: u64) -> u64 {
    if next > current || current == u64::MAX {
        next
    } else {
        (current + 1) as u64
    }
}

/// Every change raises the version: whatever the generator hands out, the
/// version that a component takes is larger than the one it had, for every
/// component but one at the largest version of all.
pub proof fn lemma_write_raises_version(current: u64, next: u64)
    requires
        current < u64::MAX,
    ensures
        stamped(current, next) > current,
{
}

/// Hands out the version that a component at version `current` takes when
/// its state changes, and advances the generator.
pub fn version_after(gen: &mut VersionGen, current: u64) -> (v: u64)
    ensures
        v == stamped(current, old(gen).peek()),
        final(gen).peek() == bumped(old(gen).peek()),
{
    let next: u64 = next_version(gen);
    if next > current || current == u64::MAX {
        next
    } else {
        current + 1
    }
}

} // verus!
