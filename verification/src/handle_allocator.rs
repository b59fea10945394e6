//! Deterministic handle-number allocation.
//!
//! DWG handles are monotonic `u64` keys. The write pipeline mints
//! fresh handles that collide neither with reserved fixed handles
//! (layer 0, block record 1, ...) nor with any handle the caller
//! writes explicitly: reserve the taken values first, then allocate.
//! This follows AutoCAD's convention when saving a new drawing.
use vstd::prelude::*;

use std::collections::HashSet;

verus! {

broadcast use vstd::std_specs::hash::group_hash_axioms;

/// Stateful allocator for DWG object handles.
#[derive(Debug)]
pub struct HandleAllocator {
    /// The next candidate handle `allocate` considers.
    next: u64,
    /// Handles already spoken for: reserved by the caller or returned
    /// by `allocate`.
    known: HashSet<u64>,
}

impl HandleAllocator {
    /// The taken handles form a finite set.
    #[verifier::type_invariant]
    spec fn taken_finite(self) -> bool {
        self.known@.finite()
    }
}

impl View for HandleAllocator {
    /// `(next candidate, taken handles)`.
    type V = (u64, Set<u64>);

    closed spec fn view(&self) -> (u64, Set<u64>) {
        (self.next, self.known@)
    }
}

/// `h` is the handle an allocator in state `before` returns, and
/// `after` its state afterwards: the smallest free value at or above
/// the candidate, then taken, with the candidate moved just past it.
pub open spec fn allocation(before: (u64, Set<u64>), h: u64, after: (u64, Set<u64>)) -> bool {
    &&& before.0 <= h
    &&& !before.1.contains(h)
    &&& forall|k: u64| before.0 <= k < h ==> before.1.contains(k)
    &&& after.1 == before.1.insert(h)
    &&& after.0 == (if h == u64::MAX { u64::MAX } else { (h + 1) as u64 })
}

/// Some value at or above the candidate is still free, so `allocate`
/// terminates.
pub open spec fn can_allocate(state: (u64, Set<u64>)) -> bool {
    exists|h: u64| h >= state.0 && !state.1.contains(h)
}

impl HandleAllocator {
    /// A fresh allocator; the first handle returned is `1` (handle 0
    /// is the null-handle sentinel).
    pub fn new() -> (r: Self)
        ensures
            r@ == (1u64, Set::<u64>::empty()),
            r@.1.finite(),
    {
        HandleAllocator { next: 1, known: HashSet::new() }
    }

    /// An allocator whose counter starts at `start` (0 is clamped to 1).
    pub fn starting_at(start: u64) -> (r: Self)
        ensures
            r@ == (if start == 0 { 1u64 } else { start }, Set::<u64>::empty()),
            r@.1.finite(),
    {
        HandleAllocator { next: if start > 1 { start } else { 1 }, known: HashSet::new() }
    }

    /// Return a fresh handle: the smallest value at or above the
    /// candidate that was never reserved or allocated.
    pub fn allocate(&mut self) -> (h: u64)
        requires
            can_allocate(old(self)@),
        ensures
            allocation(old(self)@, h, final(self)@),
            final(self)@.1.finite(),
            final(self)@.1.len() == old(self)@.1.len() + 1,
    {
        proof {
            use_type_invariant(&*self);
        }
        let ghost w = choose|h: u64| h >= self.next && !self.known@.contains(h);
        while self.known.contains(&self.next)
            invariant
                self.known@ == old(self)@.1,
                self.known@.finite(),
                old(self)@.0 <= self.next <= w,
                !self.known@.contains(w),
                forall|k: u64| old(self)@.0 <= k < self.next ==> self.known@.contains(k),
            decreases w - self.next,
        {
            self.next = self.next.saturating_add(1);
        }
        let h = self.next;
        self.take_handle(h);
        self.next = self.next.saturating_add(1);
        h
    }

    /// Mark `h` as taken so that no later `allocate` returns it.
    /// Idempotent.
    pub fn reserve(&mut self, h: u64)
        ensures
            final(self)@ == (old(self)@.0, old(self)@.1.insert(h)),
            final(self)@.1.finite(),
            final(self)@.1.len() == old(self)@.1.len() + (if old(self)@.1.contains(h) { 0int } else { 1int }),
    {
        proof {
            use_type_invariant(&*self);
        }
        self.take_handle(h);
    }

    /// Add `h` to the taken set.
    fn take_handle(&mut self, h: u64)
        ensures
            final(self)@ == (old(self)@.0, old(self)@.1.insert(h)),
    {
        proof {
            use_type_invariant(&*self);
        }
        let mut known: HashSet<u64> = HashSet::new();
        std::mem::swap(&mut known, &mut self.known);
        known.insert(h);
        self.known = known;
    }

    /// Number of distinct handles reserved or allocated so far.
    pub fn allocated_count(&self) -> (n: usize)
        ensures
            n == self@.1.len(),
            self@.1.finite(),
    {
        proof {
            use_type_invariant(self);
        }
        self.known.len()
    }

    /// True when `h` has been reserved or allocated.
    pub fn contains(&self, h: u64) -> (b: bool)
        ensures
            b == self@.1.contains(h),
    {
        self.known.contains(&h)
    }

    /// The value the next `allocate` considers first.
    pub fn next_candidate(&self) -> (h: u64)
        ensures
            h == self@.0,
    {
        self.next
    }
}

impl Default for HandleAllocator {
    fn default() -> (r: Self)
        ensures
            r@ == (0u64, Set::<u64>::empty()),
            r@.1.finite(),
    {
        HandleAllocator { next: 0, known: HashSet::new() }
    }
}

/// An allocated handle is never one already taken, is taken
/// afterwards, and two successive allocations never return the same
/// handle.
pub proof fn lemma_allocations_distinct(
    s0: (u64, Set<u64>),
    h1: u64,
    s1: (u64, Set<u64>),
    h2: u64,
    s2: (u64, Set<u64>),
)
    requires
        allocation(s0, h1, s1),
        allocation(s1, h2, s2),
    ensures
        !s0.1.contains(h1),
        s1.1.contains(h1),
        s2.1.contains(h1),
        s2.1.contains(h2),
        h1 != h2,
{
}

/// Reserving a handle that was already taken changes nothing.
pub proof fn lemma_reserve_idempotent(s: (u64, Set<u64>), h: u64)
    requires
        s.1.contains(h),
    ensures
        s.1.insert(h) == s.1,
{
    assert(s.1.insert(h) =~= s.1);
}

/// Counting the taken handles: an allocation adds exactly one handle
/// to a finite taken set, and reserving a handle adds one exactly when
/// it was not taken before.
pub proof fn lemma_taken_count(
    s0: (u64, Set<u64>),
    h: u64,
    s1: (u64, Set<u64>),
    r: u64,
)
    requires
        s0.1.finite(),
        allocation(s0, h, s1),
    ensures
        s1.1.finite(),
        s1.1.len() == s0.1.len() + 1,
        s0.1.insert(r).len() == s0.1.len() + (if s0.1.contains(r) { 0int } else { 1int }),
{
    if s0.1.contains(r) {
        assert(s0.1.insert(r) =~= s0.1);
    }
}

} // verus!
