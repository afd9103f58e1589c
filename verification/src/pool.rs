//! The receive buffer pool: a fixed count of kernel-registered buffers, each
//! either *available* (the kernel may pick it for an incoming receive) or
//! *leased* (a completion delivered it and the application owns it until it
//! is returned).
//!
//! The pool tracks availability only; the backing memory itself is owned by
//! the caller, which registers it with the kernel once at startup. A buffer
//! can only be leased while available and only returned while leased, so no
//! buffer is ever leased to two completions at once nor returned twice.

use vstd::prelude::*;

verus! {

/// How many entries of a sequence of flags are set.
pub open spec fn count_true(s: Seq<bool>) -> nat
    decreases s.len(),
{
    if s.len() == 0 {
        0
    } else {
        count_true(s.drop_last()) + if s.last() {
            1nat
        } else {
            0nat
        }
    }
}

/// Law: a sequence whose flags are all set has as many set entries as it is
/// long.
pub proof fn lemma_count_true_all(s: Seq<bool>)
    requires
        forall|i: int| 0 <= i < s.len() ==> s[i],
    ensures
        count_true(s) == s.len(),
    decreases s.len(),
{
    if s.len() > 0 {
        lemma_count_true_all(s.drop_last());
    }
}

/// How many flags of `v` are set, counted at run time.
pub fn count_set(v: &Vec<bool>) -> (n: usize)
    ensures
        n == count_true(v@),
{
    let mut n: usize = 0;
    let mut i: usize = 0;
    while i < v.len()
        invariant
            i <= v@.len(),
            n == count_true(v@.take(i as int)),
            n <= i,
        decreases v@.len() - i,
    {
        proof {
            assert(v@.take(i + 1).drop_last() =~= v@.take(i as int));
            assert(v@.take(i + 1).last() == v@[i as int]);
        }
        if v[i] {
            n = n + 1;
        }
        i = i + 1;
    }
    proof {
        assert(v@.take(v@.len() as int) =~= v@);
    }
    n
}

/// Availability of each buffer id, indexed by id; `true` means available to
/// the kernel, `false` means leased to the application.
pub struct BufferPool {
    avail: Vec<bool>,
}

impl View for BufferPool {
    type V = Seq<bool>;

    closed spec fn view(&self) -> Seq<bool> {
        self.avail@
    }
}

impl BufferPool {
    /// A pool of `count` buffers, all available: the caller has just
    /// registered the whole backing array with the kernel.
    pub fn new(count: u16) -> (pool: BufferPool)
        ensures
            pool@.len() == count,
            forall|i: int| 0 <= i < count ==> pool@[i],
    {
        let mut avail: Vec<bool> = Vec::new();
        let mut i: u16 = 0;
        while i < count
            invariant
                i <= count,
                avail@.len() == i,
                forall|j: int| 0 <= j < i ==> avail@[j],
            decreases count - i,
        {
            avail.push(true);
            i = i + 1;
        }
        BufferPool { avail }
    }

    /// The number of buffer ids the pool was created with.
    pub fn len(&self) -> (n: usize)
        ensures
            n == self@.len(),
    {
        self.avail.len()
    }

    /// Whether buffer `bid` is currently available to the kernel.
    pub fn is_available(&self, bid: u16) -> (r: bool)
        requires
            bid < self@.len(),
        ensures
            r == self@[bid as int],
    {
        self.avail[bid as usize]
    }

    /// Marks buffer `bid` leased: a completion delivered it and the
    /// application now owns its contents.
    pub fn lease(&mut self, bid: u16)
        requires
            bid < old(self)@.len(),
            old(self)@[bid as int],
        ensures
            final(self)@ == old(self)@.update(bid as int, false),
    {
        self.avail.set(bid as usize, false);
    }

    /// Marks buffer `bid` available again: the application has finished with
    /// its contents and re-registers it with the kernel.
    pub fn return_buffer(&mut self, bid: u16)
        requires
            bid < old(self)@.len(),
            !old(self)@[bid as int],
        ensures
            final(self)@ == old(self)@.update(bid as int, true),
    {
        self.avail.set(bid as usize, true);
    }

    /// How many buffers are currently available to the kernel.
    pub fn available_count(&self) -> (n: usize)
        ensures
            n == count_true(self@),
    {
        count_set(&self.avail)
    }
}

} // verus!
