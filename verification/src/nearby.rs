//! Where a trampoline may be placed: the search for executable memory within
//! reach of a `jmp rel32` from the target.
//!
//! Mapping and unmapping memory is the caller's work; [`NearSearch`] decides
//! which address to ask for next and whether a mapping the system handed out
//! is kept, given back, or ends the search.
use vstd::prelude::*;
use crate::error::Error;

verus! {

/// The farthest a trampoline may lie from its target.
pub const MAX_DELTA: usize = 0x7FFF_0000;

/// The granularity in which candidate addresses are probed.
pub const STEP: usize = 0x10000;

/// How many steps away from the target the search goes, in each direction.
pub const ROUNDS: usize = 0x7FFF;

/// How many candidate addresses the search probes at most.
pub const PROBES: usize = 0xFFFE;

/// The distance between two addresses.
pub open spec fn distance(a: usize, b: usize) -> nat {
    if a > b { (a - b) as nat } else { (b - a) as nat }
}

/// `addr` lies within `MAX_DELTA` bytes of `target`, in either direction.
pub fn within_range(addr: usize, target: usize) -> (r: bool)
    ensures
        r == (distance(addr, target) <= MAX_DELTA),
{
    let delta = if addr > target { addr - target } else { target - addr };
    delta <= MAX_DELTA
}

/// `a` is a power of two.
pub open spec fn is_pow2(a: usize) -> bool {
    a != 0 && a & ((a - 1) as usize) == 0
}

/// The smallest multiple of `align` that is at least `val`.
pub open spec fn align_up(val: int, align: int) -> int {
    ((val + align - 1) / align) * align
}

proof fn lemma_low_mask_is_mod(x: usize, a: usize)
    requires
        is_pow2(a),
    ensures
        x & ((a - 1) as usize) == x % a,
    decreases a,
{
    let m = (a - 1) as usize;
    if a == 1 {
        assert(x & 0usize == 0) by (bit_vector);
    } else {
        let h = a / 2;
        let hm = (h - 1) as usize;
        assert(h != 0 && h & hm == 0 && m / 2 == hm && m % 2 == 1) by (bit_vector)
            requires
                a != 0,
                a != 1,
                m == a - 1,
                a & m == 0,
                h == a / 2,
                hm == h - 1,
        ;
        lemma_low_mask_is_mod(x / 2, h);
        assert(x & m == ((x / 2) & (m / 2)) * 2 + ((x % 2) & (m % 2))) by (bit_vector);
        assert((x % 2) & 1usize == x % 2) by (bit_vector);
        vstd::arithmetic::div_mod::lemma_mod_breakdown(x as int, 2, h as int);
    }
}

pub(crate) proof fn lemma_mask_rounds_down(x: usize, a: usize)
    requires
        is_pow2(a),
    ensures
        x & !((a - 1) as usize) == x - x % a,
{
    lemma_low_mask_is_mod(x, a);
    let m = (a - 1) as usize;
    assert(x & !m == x - (x & m)) by (bit_vector);
}

/// Rounds `val` up to a multiple of `align` by masking; for a power of two
/// `align` (a page size, the probe step) this is the next multiple of `align`.
pub fn round_up(val: usize, align: usize) -> (r: usize)
    requires
        align >= 1,
        val + align - 1 <= usize::MAX,
    ensures
        r == ((val + align - 1) as usize) & !((align - 1) as usize),
        is_pow2(align) ==> r == align_up(val as int, align as int),
        is_pow2(align) ==> r % align == 0 && val <= r < val + align,
{
    let x = val + (align - 1);
    let r = x & !(align - 1);
    proof {
        if is_pow2(align) {
            lemma_mask_rounds_down(x, align);
            vstd::arithmetic::div_mod::lemma_fundamental_div_mod(x as int, align as int);
            assert(x - x % align == (x / align) * align) by (nonlinear_arith)
                requires x == align * (x / align) + x % align;
            vstd::arithmetic::div_mod::lemma_mod_multiples_basic((x / align) as int, align as int);
        }
    }
    r
}

/// The `k`-th address that the search probes around `base`: `k / 2 + 1` steps
/// above `base` for even `k`, as many below for odd `k`, wrapping around the
/// address space.
pub open spec fn probe_address(base: usize, k: int) -> usize {
    let off = ((k / 2 + 1) * STEP) as usize;
    if k % 2 == 0 {
        vstd::wrapping::usize_specs::wrapping_add(base, off)
    } else {
        vstd::wrapping::usize_specs::wrapping_sub(base, off)
    }
}

/// For each distance of `i` steps within `MAX_DELTA`, the search probes the
/// address `i * STEP` above the base (probe `2i - 2`) and the one as far
/// below it (probe `2i - 1`), each taken modulo the size of the address space.
pub proof fn lemma_probes_cover_each_step(base: usize, i: int)
    requires
        1 <= i <= ROUNDS,
    ensures
        probe_address(base, 2 * i - 2) as int == (base + i * STEP) % (usize::MAX + 1),
        probe_address(base, 2 * i - 1) as int == (base - i * STEP) % (usize::MAX + 1),
        i * STEP <= MAX_DELTA,
{
    let m = usize::MAX + 1;
    let off = i * STEP;
    assert((2 * i - 2) / 2 + 1 == i);
    assert((2 * i - 1) / 2 + 1 == i);
    assert((2 * i - 2) % 2 == 0);
    assert((2 * i - 1) % 2 == 1);
    assert(0 < off <= 0x7FFF_0000);
    let up = base + off;
    if up > usize::MAX {
        assert(up % m == up - m);
    } else {
        assert(up % m == up);
    }
    let down = base - off;
    if down < 0 {
        assert(down % m == down + m);
    } else {
        assert(down % m == down);
    }
}

/// No address is probed twice.
pub proof fn lemma_probes_distinct(base: usize, j: int, k: int)
    requires
        0 <= j < k < PROBES,
    ensures
        probe_address(base, j) != probe_address(base, k),
{
    let oj = (j / 2 + 1) * STEP;
    let ok = (k / 2 + 1) * STEP;
    assert(0 < oj <= 0x7FFF_0000);
    assert(0 < ok <= 0x7FFF_0000);
    assert(j % 2 == k % 2 ==> j / 2 != k / 2);
}

/// The first probe at or after `k` whose address is not null, or `PROBES`.
pub open spec fn next_probe(base: usize, k: int) -> int
    decreases PROBES - k,
{
    if k >= PROBES {
        PROBES as int
    } else if probe_address(base, k) != 0 {
        k
    } else {
        next_probe(base, k + 1)
    }
}

proof fn lemma_next_probe_bounds(base: usize, k: int)
    requires
        0 <= k,
    ensures
        k <= next_probe(base, k) <= PROBES || (k > PROBES && next_probe(base, k) == PROBES),
        next_probe(base, k) < PROBES ==> probe_address(base, next_probe(base, k)) != 0,
        forall|i: int| k <= i < next_probe(base, k) ==> probe_address(base, i) == 0,
    decreases PROBES - k,
{
    if k < PROBES && probe_address(base, k) == 0 {
        lemma_next_probe_bounds(base, k + 1);
    }
}

/// After probe `k`, the search asks for the first later candidate that is
/// not null, skipping only null ones, and gives up with `TrampolineAlloc`
/// only when every remaining candidate is null.
pub proof fn lemma_next_action_is_first_nonnull(base: usize, k: int)
    requires
        0 <= k <= PROBES,
    ensures
        NearSearch::next_action(base, k) is MapAt || NearSearch::next_action(base, k)
            == NearAction::Done(Err(Error::TrampolineAlloc)),
        NearSearch::next_action(base, k) is MapAt ==> exists|j: int|
            k <= j < PROBES && NearSearch::next_action(base, k) == NearAction::MapAt(
                #[trigger] probe_address(base, j),
            ) && probe_address(base, j) != 0 && forall|i: int|
                k <= i < j ==> probe_address(base, i) == 0,
        NearSearch::next_action(base, k) is Done ==> forall|i: int|
            k <= i < PROBES ==> probe_address(base, i) == 0,
{
    lemma_next_probe_bounds(base, k);
    let j = next_probe(base, k);
    if j < PROBES {
        assert(NearSearch::next_action(base, k) == NearAction::MapAt(probe_address(base, j)));
    }
}

/// What the search asks of its caller.
#[derive(Debug, Clone, Copy, PartialEq, Eq)]
pub enum NearAction {
    /// Map executable memory, asking for the given address.
    MapAt(usize),
    /// Unmap the mapping at the given address (it lies too far from the target).
    UnmapAt(usize),
    /// The search is over.
    Done(Result<usize, Error>),
}

/// The state of a search for memory near a target.
pub struct NearSearch {
    target: usize,
    base: usize,
    next: usize,
}

/// The abstract state of a [`NearSearch`].
pub struct NearSearchState {
    /// The address the memory must lie near.
    pub target: usize,
    /// The target rounded down to a multiple of `STEP`.
    pub base: usize,
    /// The index of the next probe to consider.
    pub next: usize,
}

impl NearSearch {
    /// The search never runs past its last probe.
    #[verifier::type_invariant]
    spec fn within_probes(&self) -> bool {
        self.next <= PROBES
    }
}

impl View for NearSearch {
    type V = NearSearchState;

    closed spec fn view(&self) -> NearSearchState {
        NearSearchState { target: self.target, base: self.base, next: self.next }
    }
}

impl NearSearch {
    /// The action after probe `k` was dealt with: map the next non-null
    /// candidate, or give up when none is left.
    pub open spec fn next_action(base: usize, k: int) -> NearAction {
        let j = next_probe(base, k);
        if j < PROBES {
            NearAction::MapAt(probe_address(base, j))
        } else {
            NearAction::Done(Err(Error::TrampolineAlloc))
        }
    }

    /// Where the search stands after probe `k` was dealt with: just past the
    /// next non-null candidate, or at the end.
    pub open spec fn next_index(base: usize, k: int) -> int {
        let j = next_probe(base, k);
        if j < PROBES { j + 1 } else { PROBES as int }
    }

    /// Starts a search for memory near `target`.
    pub fn new(target: usize) -> (s: Self)
        ensures
            s@.target == target,
            s@.base == target - target % STEP,
            s@.next == 0,
    {
        let base = target & !(STEP - 1);
        assert(target & !0xFFFFusize == target - target % 0x10000) by (bit_vector);
        NearSearch { target, base, next: 0 }
    }

    fn advance(&mut self) -> (a: NearAction)
        ensures
            final(self)@.target == old(self)@.target,
            final(self)@.base == old(self)@.base,
            a == Self::next_action(old(self)@.base, old(self)@.next as int),
            final(self)@.next == Self::next_index(old(self)@.base, old(self)@.next as int),
    {
        proof {
            use_type_invariant(&*self);
        }
        while self.next < PROBES
            invariant
                self.target == old(self).target,
                self.base == old(self).base,
                old(self).next <= self.next <= PROBES,
                next_probe(self.base, self.next as int) == next_probe(
                    self.base,
                    old(self).next as int,
                ),
            decreases PROBES - self.next,
        {
            let k = self.next;
            let off = (k / 2 + 1) * STEP;
            let addr = if k % 2 == 0 {
                self.base.wrapping_add(off)
            } else {
                self.base.wrapping_sub(off)
            };
            assert(addr == probe_address(self.base, k as int));
            self.next = k + 1;
            if addr != 0 {
                return NearAction::MapAt(addr);
            }
        }
        NearAction::Done(Err(Error::TrampolineAlloc))
    }

    /// The first action of the search.
    pub fn start(&mut self) -> (a: NearAction)
        ensures
            final(self)@.target == old(self)@.target,
            final(self)@.base == old(self)@.base,
            a == Self::next_action(old(self)@.base, old(self)@.next as int),
            final(self)@.next == Self::next_index(old(self)@.base, old(self)@.next as int),
            final(self)@.next <= PROBES,
            old(self)@.next < PROBES ==> final(self)@.next > old(self)@.next,
            a matches NearAction::MapAt(hint) ==> hint != 0,
    {
        proof {
            use_type_invariant(&*self);
            lemma_next_probe_bounds(self.base, self.next as int);
        }
        self.advance()
    }

    /// The action after the mapping the caller was asked for came back:
    /// `None` when the system refused it, else the address it was placed at.
    pub fn on_mapped(&mut self, mapped: Option<usize>) -> (a: NearAction)
        ensures
            final(self)@.target == old(self)@.target,
            final(self)@.base == old(self)@.base,
            final(self)@.next <= PROBES,
            a == match mapped {
                Some(p) if p != 0 && distance(p, old(self)@.target) <= MAX_DELTA => NearAction::Done(
                    Ok(p),
                ),
                Some(p) if p != 0 => NearAction::UnmapAt(p),
                _ => Self::next_action(old(self)@.base, old(self)@.next as int),
            },
            a matches NearAction::Done(Ok(p)) ==> p != 0 && distance(p, old(self)@.target)
                <= MAX_DELTA,
            (a is MapAt && old(self)@.next < PROBES) ==> final(self)@.next > old(self)@.next,
            a matches NearAction::MapAt(hint) ==> hint != 0,
            match mapped {
                Some(p) if p != 0 => final(self)@ == old(self)@,
                _ => final(self)@.next == Self::next_index(old(self)@.base, old(self)@.next as int),
            },
    {
        proof {
            use_type_invariant(&*self);
        }
        match mapped {
            Some(p) if p != 0 => {
                if within_range(p, self.target) {
                    NearAction::Done(Ok(p))
                } else {
                    NearAction::UnmapAt(p)
                }
            },
            _ => self.start(),
        }
    }

    /// The action after the caller unmapped a mapping it was asked to give back.
    pub fn on_unmapped(&mut self) -> (a: NearAction)
        ensures
            final(self)@.target == old(self)@.target,
            final(self)@.base == old(self)@.base,
            a == Self::next_action(old(self)@.base, old(self)@.next as int),
            final(self)@.next == Self::next_index(old(self)@.base, old(self)@.next as int),
            final(self)@.next <= PROBES,
            old(self)@.next < PROBES ==> final(self)@.next > old(self)@.next,
            a matches NearAction::MapAt(hint) ==> hint != 0,
    {
        self.start()
    }
}

} // verus!
