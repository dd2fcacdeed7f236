//! The bounded reservation pool for ports and RCON ports.

use bit_set::BitSet;
use std::ops::Range;
use vstd::prelude::*;

use crate::model::Error;

verus! {

/// A `bit_set::BitSet` held opaquely; Verus refuses a declaration of the
/// outside type because its parameter is bound by an outside trait.
#[verifier::external_body]
pub struct Bits {
    set: BitSet,
}

/// The values held by a `Bits`.
pub uninterp spec fn bits_of(s: Bits) -> Set<nat>;

/// Relies on `BitSet::new`: a new set holds no value.
#[verifier::external_body]
fn bitset_new() -> (r: Bits)
    ensures
        bits_of(r) == Set::<nat>::empty(),
{
    Bits { set: BitSet::new() }
}

/// Relies on `BitSet::contains`: true exactly when the value is held.
#[verifier::external_body]
fn bitset_contains(s: &Bits, value: usize) -> (r: bool)
    ensures
        r == bits_of(*s).contains(value as nat),
{
    s.set.contains(value)
}

/// Relies on `BitSet::insert`: adds the value, which grows the set's
/// storage up to that value (bounded here so that growth cannot overflow).
#[verifier::external_body]
fn bitset_insert(s: &mut Bits, value: usize) -> (r: bool)
    requires
        value <= u16::MAX,
    ensures
        bits_of(*final(s)) == bits_of(*old(s)).insert(value as nat),
        r == !bits_of(*old(s)).contains(value as nat),
{
    s.set.insert(value)
}

/// Relies on `BitSet::remove`: takes the value out of the set.
#[verifier::external_body]
fn bitset_remove(s: &mut Bits, value: usize) -> (r: bool)
    ensures
        bits_of(*final(s)) == bits_of(*old(s)).remove(value as nat),
        r == bits_of(*old(s)).contains(value as nat),
{
    s.set.remove(value)
}

/// Relies on `BitSet::iter`: every held value once, in ascending order.
#[verifier::external_body]
fn bitset_values(s: &Bits) -> (r: Vec<usize>)
    ensures
        forall|i: int| 0 <= i < r@.len() ==> bits_of(*s).contains(#[trigger] r@[i] as nat),
        forall|n: nat| bits_of(*s).contains(n) ==> exists|i: int| 0 <= i < r@.len() && r@[i] as nat == n,
        forall|i: int, j: int| 0 <= i < j < r@.len() ==> r@[i] < r@[j],
{
    s.set.iter().collect()
}

/// What an allocator holds: its half-open range and the reserved values.
pub struct PoolView {
    pub start: u16,
    pub end: u16,
    pub taken: Set<u16>,
}

impl PoolView {
    pub open spec fn in_range(self, value: u16) -> bool {
        self.start <= value && value < self.end
    }
}

/// The outcome of `take(value)` on a pool.
pub open spec fn take_outcome(p: PoolView, value: u16) -> Result<(), Error> {
    if !p.in_range(value) {
        Err(Error::OutOfRange)
    } else if p.taken.contains(value) {
        Err(Error::AlreadyTaken)
    } else {
        Ok(())
    }
}

/// The pool after `take(value)`: unchanged unless the call succeeds.
pub open spec fn after_take(p: PoolView, value: u16) -> PoolView {
    if take_outcome(p, value) is Ok {
        PoolView { taken: p.taken.insert(value), ..p }
    } else {
        p
    }
}

/// The outcome of `free(value)` on a pool.
pub open spec fn free_outcome(p: PoolView, value: u16) -> Result<(), Error> {
    if !p.in_range(value) {
        Err(Error::OutOfRange)
    } else if !p.taken.contains(value) {
        Err(Error::NotTaken)
    } else {
        Ok(())
    }
}

/// The pool after `free(value)`: unchanged unless the call succeeds.
pub open spec fn after_free(p: PoolView, value: u16) -> PoolView {
    if free_outcome(p, value) is Ok {
        PoolView { taken: p.taken.remove(value), ..p }
    } else {
        p
    }
}

/// A configured half-open range of `u16` values and the set of those reserved.
pub struct Indices {
    start: u16,
    end: u16,
    bits: Bits,
}

impl View for Indices {
    type V = PoolView;

    closed spec fn view(&self) -> PoolView {
        PoolView {
            start: self.start,
            end: self.end,
            taken: Set::new(|v: u16| bits_of(self.bits).contains(v as nat)),
        }
    }
}

impl Indices {
    /// Every reserved value lies in the range.
    pub closed spec fn wf(&self) -> bool {
        forall|n: nat| #[trigger]
            bits_of(self.bits).contains(n) ==> self.start <= n && n < self.end
    }

    /// Every reserved value lies in the range.
    pub proof fn lemma_taken_in_range(&self)
        requires
            self.wf(),
        ensures
            forall|v: u16| #[trigger] self@.taken.contains(v) ==> self@.in_range(v),
    {
        assert forall|v: u16| #[trigger] self@.taken.contains(v) implies self@.in_range(v) by {
            assert(bits_of(self.bits).contains(v as nat));
        }
    }

    /// An allocator over `r` with nothing reserved.
    pub fn new(r: Range<u16>) -> (s: Self)
        ensures
            s.wf(),
            s@ == (PoolView { start: r.start, end: r.end, taken: Set::empty() }),
    {
        let s = Indices { start: r.start, end: r.end, bits: bitset_new() };
        assert(s@.taken =~= Set::empty());
        s
    }

    /// The configured range.
    pub fn range(&self) -> (r: Range<u16>)
        ensures
            r.start == self@.start,
            r.end == self@.end,
    {
        Range { start: self.start, end: self.end }
    }

    /// Reserves `idx`.
    pub fn try_take(&mut self, idx: u16) -> (r: Result<(), Error>)
        requires
            old(self).wf(),
        ensures
            final(self).wf(),
            r == take_outcome(old(self)@, idx),
            final(self)@ == after_take(old(self)@, idx),
    {
        if !(self.start <= idx && idx < self.end) {
            return Err(Error::OutOfRange);
        }
        if bitset_contains(&self.bits, idx as usize) {
            return Err(Error::AlreadyTaken);
        }
        let ghost pre = self@;
        bitset_insert(&mut self.bits, idx as usize);
        assert(self@.taken =~= pre.taken.insert(idx));
        Ok(())
    }

    /// Releases `idx`.
    pub fn free(&mut self, idx: u16) -> (r: Result<(), Error>)
        requires
            old(self).wf(),
        ensures
            final(self).wf(),
            r == free_outcome(old(self)@, idx),
            final(self)@ == after_free(old(self)@, idx),
    {
        if !(self.start <= idx && idx < self.end) {
            return Err(Error::OutOfRange);
        }
        if !bitset_contains(&self.bits, idx as usize) {
            return Err(Error::NotTaken);
        }
        let ghost pre = self@;
        bitset_remove(&mut self.bits, idx as usize);
        assert(self@.taken =~= pre.taken.remove(idx));
        Ok(())
    }

    /// The reserved values, each once, in ascending order.
    pub fn taken(&self) -> (r: Vec<u16>)
        requires
            self.wf(),
        ensures
            r@.to_set() == self@.taken,
            r@.no_duplicates(),
            forall|i: int, j: int| 0 <= i < j < r@.len() ==> r@[i] < r@[j],
    {
        let vals = bitset_values(&self.bits);
        let mut out: Vec<u16> = Vec::new();
        let mut k: usize = 0;
        while k < vals.len()
            invariant
                k <= vals@.len(),
                out@.len() == k,
                forall|i: int| 0 <= i < k ==> out@[i] as int == vals@[i] as int,
                forall|i: int| 0 <= i < vals@.len() ==> bits_of(self.bits).contains(#[trigger] vals@[i] as nat),
                forall|i: int, j: int| 0 <= i < j < vals@.len() ==> vals@[i] < vals@[j],
                self.wf(),
            decreases vals@.len() - k,
        {
            let v = vals[k];
            assert(bits_of(self.bits).contains(vals@[k as int] as nat));
            out.push(v as u16);
            k += 1;
        }
        assert forall|x: u16| #[trigger] out@.to_set().contains(x) == self@.taken.contains(x) by {
            if self@.taken.contains(x) {
                let i = choose|i: int| 0 <= i < vals@.len() && vals@[i] as nat == x as nat;
                assert(out@[i] == x);
            }
            if out@.to_set().contains(x) {
                let i = choose|i: int| 0 <= i < out@.len() && out@[i] == x;
                assert(bits_of(self.bits).contains(vals@[i] as nat));
            }
        }
        assert(out@.to_set() =~= self@.taken);
        out
    }
}

/// A second `take` of the same in-range value, with no `free` between,
/// fails with `AlreadyTaken` and changes nothing.
pub proof fn lemma_take_twice(p: PoolView, value: u16)
    requires
        p.in_range(value),
    ensures
        take_outcome(after_take(p, value), value) == Err::<(), Error>(Error::AlreadyTaken),
        after_take(after_take(p, value), value) == after_take(p, value),
{
}

/// A `free` of an in-range value that no successful `take` reserved fails
/// with `NotTaken` and changes nothing.
pub proof fn lemma_free_untaken(p: PoolView, value: u16)
    requires
        p.in_range(value),
        !p.taken.contains(value),
    ensures
        free_outcome(p, value) == Err::<(), Error>(Error::NotTaken),
        after_free(p, value) == p,
{
}

} // verus!
