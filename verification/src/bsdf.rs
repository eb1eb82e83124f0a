//! Bookkeeping of the scattering functions at a surface point: the lobe
//! type flags, the fixed set of lobe slots of a BSDF and which lobes take
//! part in sampling and evaluation, the no-op Fresnel term and the
//! transport mode.
use rand::seq::IndexedRandom;
use vstd::prelude::*;

verus! {

/// Flags describing a scattering lobe.
#[derive(Debug, Clone, Copy, PartialEq, Eq, Structural)]
pub struct BXDFTYPES {
    pub bits: u32,
}

/// All bits that name a flag.
pub const BXDF_FLAG_BITS: u32 = 63;

impl BXDFTYPES {
    /// No flag.
    pub fn none() -> (f: BXDFTYPES)
        ensures
            f.bits == 0,
    {
        BXDFTYPES { bits: 0 }
    }

    pub fn reflection() -> (f: BXDFTYPES)
        ensures
            f.bits == 1,
    {
        BXDFTYPES { bits: 1 }
    }

    pub fn refraction() -> (f: BXDFTYPES)
        ensures
            f.bits == 2,
    {
        BXDFTYPES { bits: 2 }
    }

    pub fn diffuse() -> (f: BXDFTYPES)
        ensures
            f.bits == 4,
    {
        BXDFTYPES { bits: 4 }
    }

    pub fn specular() -> (f: BXDFTYPES)
        ensures
            f.bits == 8,
    {
        BXDFTYPES { bits: 8 }
    }

    pub fn transmission() -> (f: BXDFTYPES)
        ensures
            f.bits == 16,
    {
        BXDFTYPES { bits: 16 }
    }

    pub fn glossy() -> (f: BXDFTYPES)
        ensures
            f.bits == 32,
    {
        BXDFTYPES { bits: 32 }
    }

    /// The lobe kinds that the integrator samples by default: reflection,
    /// refraction, diffuse and specular (neither transmission nor glossy).
    pub fn all() -> (f: BXDFTYPES)
        ensures
            f.bits == 15,
    {
        BXDFTYPES { bits: 15 }
    }

    pub fn bits(&self) -> (b: u32)
        ensures
            b == self.bits,
    {
        self.bits
    }

    /// The flags whose bits are given; bits that name no flag are dropped.
    pub fn from_bits_truncate(bits: u32) -> (f: BXDFTYPES)
        ensures
            f.bits == bits & BXDF_FLAG_BITS,
    {
        BXDFTYPES { bits: bits & BXDF_FLAG_BITS }
    }

    pub open spec fn spec_contains(self, other: BXDFTYPES) -> bool {
        self.bits & other.bits == other.bits
    }

    pub open spec fn spec_intersects(self, other: BXDFTYPES) -> bool {
        self.bits & other.bits != 0
    }

    /// Every flag of `other` is set in `self`.
    pub fn contains(&self, other: BXDFTYPES) -> (r: bool)
        ensures
            r == self.spec_contains(other),
    {
        self.bits & other.bits == other.bits
    }

    /// Some flag is set in both.
    pub fn intersects(&self, other: BXDFTYPES) -> (r: bool)
        ensures
            r == self.spec_intersects(other),
    {
        self.bits & other.bits != 0
    }

    /// The flags set in either.
    pub fn union(self, other: BXDFTYPES) -> (r: BXDFTYPES)
        ensures
            r.bits == self.bits | other.bits,
    {
        BXDFTYPES { bits: self.bits | other.bits }
    }

    /// The flags set in both.
    pub fn intersection(self, other: BXDFTYPES) -> (r: BXDFTYPES)
        ensures
            r.bits == self.bits & other.bits,
    {
        BXDFTYPES { bits: self.bits & other.bits }
    }

    /// The flags that are not set (among the flags that exist).
    pub fn complement(self) -> (r: BXDFTYPES)
        ensures
            r.bits == !self.bits & BXDF_FLAG_BITS,
    {
        BXDFTYPES { bits: !self.bits & BXDF_FLAG_BITS }
    }

    /// The flags of `self` that are not in `other`.
    pub fn difference(self, other: BXDFTYPES) -> (r: BXDFTYPES)
        ensures
            r.bits == self.bits & !other.bits,
    {
        BXDFTYPES { bits: self.bits & !other.bits }
    }
}

/// Removing flags leaves none of them: the lobes selected by
/// `flags.difference(removed)` (as the integrator selects the non-specular
/// lobes) share no flag with `removed`, while everything else of `flags`
/// stays selected.
pub proof fn lemma_difference_excludes(flags: BXDFTYPES, removed: BXDFTYPES, lobe: BXDFTYPES)
    ensures
        lobe.spec_contains(removed) && removed.bits != 0 ==> !(BXDFTYPES {
            bits: flags.bits & !removed.bits,
        }).spec_contains(removed),
        (lobe.bits & removed.bits) == 0 ==> ((BXDFTYPES {
            bits: flags.bits & !removed.bits,
        }).spec_intersects(lobe) <==> flags.spec_intersects(lobe)),
{
    let f = flags.bits;
    let r = removed.bits;
    let l = lobe.bits;
    assert(r != 0 ==> (f & !r) & r != r) by (bit_vector);
    assert((l & r) == 0 ==> (((f & !r) & l) != 0 <==> (f & l) != 0)) by (bit_vector);
}

/// A non-empty flag set that holds another one also meets it.
pub proof fn lemma_contains_implies_intersects(a: BXDFTYPES, b: BXDFTYPES)
    ensures
        a.spec_contains(b) && b.bits != 0 ==> a.spec_intersects(b),
        a.spec_contains(BXDFTYPES { bits: 0 }),
{
    let x = a.bits;
    let y = b.bits;
    assert((x & y) == y && y != 0 ==> (x & y) != 0) by (bit_vector);
    assert(x & 0u32 == 0u32) by (bit_vector);
}

/// How many lobes a BSDF can hold.
pub const MAX_BXDF_COUNT: usize = 5;

/// Whether a lobe of type `types` takes part when the caller asks for the
/// lobes of type `flags` that are also of type `must_match`.
pub open spec fn selects(types: BXDFTYPES, flags: BXDFTYPES, must_match: BXDFTYPES) -> bool {
    types.spec_intersects(flags) && types.spec_contains(must_match)
}

/// The slots among the first `n` lobes of `entries` that `selects` takes,
/// in slot order.
pub open spec fn selected_slots<T>(
    entries: Seq<(BXDFTYPES, T)>,
    flags: BXDFTYPES,
    must_match: BXDFTYPES,
    n: int,
) -> Seq<usize>
    decreases n,
{
    if n <= 0 {
        Seq::empty()
    } else if selects(entries[n - 1].0, flags, must_match) {
        selected_slots(entries, flags, must_match, n - 1).push((n - 1) as usize)
    } else {
        selected_slots(entries, flags, must_match, n - 1)
    }
}

proof fn lemma_selected_slots<T>(
    entries: Seq<(BXDFTYPES, T)>,
    flags: BXDFTYPES,
    must_match: BXDFTYPES,
    n: int,
)
    requires
        0 <= n <= entries.len(),
        entries.len() <= usize::MAX,
    ensures
        forall|p: int|
            0 <= p < selected_slots(entries, flags, must_match, n).len() ==> {
                let i = #[trigger] selected_slots(entries, flags, must_match, n)[p];
                i < n && selects(entries[i as int].0, flags, must_match)
            },
        forall|p1: int, p2: int|
            0 <= p1 < p2 < selected_slots(entries, flags, must_match, n).len() ==> #[trigger] selected_slots(
                entries,
                flags,
                must_match,
                n,
            )[p1] < #[trigger] selected_slots(entries, flags, must_match, n)[p2],
        forall|i: int|
            0 <= i < n && selects(entries[i].0, flags, must_match) ==> exists|p: int|
                0 <= p < selected_slots(entries, flags, must_match, n).len() && #[trigger] selected_slots(
                    entries,
                    flags,
                    must_match,
                    n,
                )[p] == i,
    decreases n,
{
    if n > 0 {
        lemma_selected_slots(entries, flags, must_match, n - 1);
        let prev = selected_slots(entries, flags, must_match, n - 1);
        let cur = selected_slots(entries, flags, must_match, n);
        assert forall|i: int|
            0 <= i < n && selects(entries[i].0, flags, must_match) implies exists|p: int|
                0 <= p < cur.len() && #[trigger] cur[p] == i by {
            if i < n - 1 {
                let p = choose|p: int| 0 <= p < prev.len() && #[trigger] prev[p] == i;
                assert(cur[p] == prev[p]);
            } else {
                assert(cur[cur.len() - 1] == i);
            }
        }
    }
}

/// The lobe slots of a BSDF: up to `MAX_BXDF_COUNT` lobes, each kept with
/// its type flags, filled from the first slot on.
#[derive(Debug, Clone)]
pub struct BxdfSlots<T> {
    slots: Vec<Option<(BXDFTYPES, T)>>,
    count: usize,
}

impl<T> BxdfSlots<T> {
    /// The lobes held, in slot order.
    pub closed spec fn entries(self) -> Seq<(BXDFTYPES, T)> {
        Seq::new(self.count as nat, |i: int| self.slots@[i]->0)
    }

    pub closed spec fn wf(self) -> bool {
        &&& self.slots@.len() == MAX_BXDF_COUNT
        &&& self.count <= MAX_BXDF_COUNT
        &&& forall|i: int| 0 <= i < self.count ==> self.slots@[i] is Some
        &&& forall|i: int| self.count <= i < MAX_BXDF_COUNT ==> self.slots@[i] is None
    }

    /// A BSDF without lobes.
    pub fn new() -> (s: BxdfSlots<T>)
        ensures
            s.wf(),
            s.entries() == Seq::<(BXDFTYPES, T)>::empty(),
    {
        let mut slots: Vec<Option<(BXDFTYPES, T)>> = Vec::new();
        let mut i: usize = 0;
        while i < MAX_BXDF_COUNT
            invariant
                i <= MAX_BXDF_COUNT,
                slots@.len() == i,
                forall|k: int| 0 <= k < i ==> slots@[k] is None,
            decreases MAX_BXDF_COUNT - i,
        {
            slots.push(None);
            i = i + 1;
        }
        let s = BxdfSlots { slots, count: 0 };
        assert(s.entries() =~= Seq::<(BXDFTYPES, T)>::empty());
        s
    }

    /// Number of lobes held.
    pub fn len(&self) -> (n: usize)
        requires
            self.wf(),
        ensures
            n == self.entries().len(),
            n <= MAX_BXDF_COUNT,
    {
        self.count
    }

    /// Puts a lobe into the first free slot. The BSDF must have room.
    pub fn add(&mut self, types: BXDFTYPES, bxdf: T)
        requires
            old(self).wf(),
            old(self).entries().len() < MAX_BXDF_COUNT,
        ensures
            final(self).wf(),
            final(self).entries() == old(self).entries().push((types, bxdf)),
    {
        let ghost old_entries = self.entries();
        let mut i: usize = 0;
        while i < MAX_BXDF_COUNT && self.slots[i].is_some()
            invariant
                self.wf(),
                self.count < MAX_BXDF_COUNT,
                i <= MAX_BXDF_COUNT,
                forall|k: int| 0 <= k < i ==> self.slots@[k] is Some,
            decreases MAX_BXDF_COUNT - i,
        {
            i = i + 1;
        }
        // the first free slot is the one after the filled ones
        if i < self.count {
            assert(self.slots@[i as int] is Some);
        }
        if i > self.count {
            assert(self.slots@[self.count as int] is Some);
            assert(self.slots@[self.count as int] is None);
        }
        self.slots.set(i, Some((types, bxdf)));
        self.count = self.count + 1;
        assert(self.entries() =~= old_entries.push((types, bxdf)));
    }

    /// The type flags of lobe `i`.
    pub fn types(&self, i: usize) -> (t: BXDFTYPES)
        requires
            self.wf(),
            i < self.entries().len(),
        ensures
            t == self.entries()[i as int].0,
    {
        match &self.slots[i] {
            Some(entry) => entry.0,
            None => BXDFTYPES::none(),
        }
    }

    /// Lobe `i`.
    pub fn get(&self, i: usize) -> (b: &T)
        requires
            self.wf(),
            i < self.entries().len(),
        ensures
            *b == self.entries()[i as int].1,
    {
        let entry = self.slots[i].as_ref().unwrap();
        &entry.1
    }

    fn select(&self, flags: BXDFTYPES, must_match: BXDFTYPES) -> (r: Vec<usize>)
        requires
            self.wf(),
        ensures
            forall|k: int|
                0 <= k < r.len() ==> #[trigger] r@[k] < self.entries().len() && selects(
                    self.entries()[r@[k] as int].0,
                    flags,
                    must_match,
                ),
            forall|k1: int, k2: int| 0 <= k1 < k2 < r.len() ==> r@[k1] < r@[k2],
            forall|i: usize|
                i < self.entries().len() && selects(self.entries()[i as int].0, flags, must_match)
                    ==> #[trigger] r@.contains(i),
            r@ == selected_slots(self.entries(), flags, must_match, self.entries().len() as int),
    {
        let mut r: Vec<usize> = Vec::new();
        let mut i: usize = 0;
        while i < self.count
            invariant
                self.wf(),
                i <= self.count,
                forall|k: int|
                    0 <= k < r.len() ==> #[trigger] r@[k] < i && selects(
                        self.entries()[r@[k] as int].0,
                        flags,
                        must_match,
                    ),
                forall|k1: int, k2: int| 0 <= k1 < k2 < r.len() ==> r@[k1] < r@[k2],
                forall|j: usize|
                    j < i && selects(self.entries()[j as int].0, flags, must_match)
                        ==> #[trigger] r@.contains(j),
                r@ == selected_slots(self.entries(), flags, must_match, i as int),
            decreases self.count - i,
        {
            let t = self.types(i);
            if t.intersects(flags) && t.contains(must_match) {
                let ghost before = r@;
                r.push(i);
                assert forall|k: int|
                    0 <= k < r.len() implies #[trigger] r@[k] < i + 1 && selects(
                        self.entries()[r@[k] as int].0,
                        flags,
                        must_match,
                    ) by {
                    if k < before.len() {
                        assert(before[k] == r@[k]);
                    } else {
                        assert(r@[k] == i);
                        assert(t == self.entries()[i as int].0);
                        assert(selects(t, flags, must_match));
                    }
                }
                assert forall|j: usize|
                    j < i + 1 && selects(self.entries()[j as int].0, flags, must_match)
                        implies #[trigger] r@.contains(j) by {
                    if j < i {
                        assert(before.contains(j));
                        let w = choose|w: int| 0 <= w < before.len() && before[w] == j;
                        assert(r@[w] == j);
                    } else {
                        assert(r@[before.len() as int] == i);
                    }
                }
            }
            i = i + 1;
        }
        r
    }

    /// The slots of the lobes that share a flag with `flags`, in slot order.
    pub open spec fn matching_slots(self, flags: BXDFTYPES) -> Seq<usize> {
        selected_slots(self.entries(), flags, BXDFTYPES { bits: 0 }, self.entries().len() as int)
    }

    /// The lobes that may be sampled for a request of type `flags`: those
    /// sharing a flag with it, in slot order.
    pub fn matching(&self, flags: BXDFTYPES) -> (r: Vec<usize>)
        requires
            self.wf(),
        ensures
            forall|k: int|
                0 <= k < r.len() ==> #[trigger] r@[k] < self.entries().len()
                    && self.entries()[r@[k] as int].0.spec_intersects(flags),
            forall|k1: int, k2: int| 0 <= k1 < k2 < r.len() ==> r@[k1] < r@[k2],
            forall|i: usize|
                i < self.entries().len() && self.entries()[i as int].0.spec_intersects(flags)
                    ==> #[trigger] r@.contains(i),
            r@ == self.matching_slots(flags),
    {
        proof {
            assert forall|t: BXDFTYPES| #[trigger] t.spec_contains(BXDFTYPES { bits: 0 }) by {
                lemma_contains_implies_intersects(t, t);
            }
        }
        let none = BXDFTYPES::none();
        assert(none == BXDFTYPES { bits: 0 });
        self.select(flags, none)
    }

    /// The lobes that contribute to an evaluation of type `flags` in the
    /// hemisphere configuration `must_match` (reflection or transmission),
    /// in slot order.
    pub fn contributing(&self, flags: BXDFTYPES, must_match: BXDFTYPES) -> (r: Vec<usize>)
        requires
            self.wf(),
        ensures
            forall|k: int|
                0 <= k < r.len() ==> #[trigger] r@[k] < self.entries().len() && selects(
                    self.entries()[r@[k] as int].0,
                    flags,
                    must_match,
                ),
            forall|k1: int, k2: int| 0 <= k1 < k2 < r.len() ==> r@[k1] < r@[k2],
            forall|i: usize|
                i < self.entries().len() && selects(self.entries()[i as int].0, flags, must_match)
                    ==> #[trigger] r@.contains(i),
    {
        self.select(flags, must_match)
    }
}

/// Picks one of `candidates` with `rand`'s `IndexedRandom::choose` on the
/// thread-local generator. Trusted: `choose` returns `None` exactly for an
/// empty slice and otherwise an element of the slice (picked uniformly,
/// which is not stated).
#[verifier::external_body]
fn choose_candidate(candidates: &Vec<usize>) -> (r: Option<usize>)
    ensures
        r is None <==> candidates.len() == 0,
        r matches Some(i) ==> candidates@.contains(i),
{
    candidates.as_slice().choose(&mut rand::rng()).copied()
}

impl<T> BxdfSlots<T> {
    /// The lobe that a draw of `position` selects for a request of type
    /// `flags`: the matching lobe at that position in slot order, or `None`
    /// past the last matching lobe.
    pub fn pick_matching(&self, flags: BXDFTYPES, position: usize) -> (r: Option<usize>)
        requires
            self.wf(),
        ensures
            r == (if position < self.matching_slots(flags).len() {
                Some(self.matching_slots(flags)[position as int])
            } else {
                None::<usize>
            }),
    {
        let m = self.matching(flags);
        if position < m.len() {
            Some(m[position])
        } else {
            None
        }
    }

    /// Picks at random the lobe to sample for a request of type `flags`:
    /// `None` when no lobe shares a flag with the request, else the lobe
    /// that a random position among the matching lobes selects
    /// (`pick_matching`).
    pub fn choose_matching(&self, flags: BXDFTYPES) -> (r: Option<usize>)
        requires
            self.wf(),
        ensures
            r is None <==> forall|i: int|
                0 <= i < self.entries().len() ==> !(#[trigger] self.entries()[i].0).spec_intersects(
                    flags,
                ),
            r matches Some(i) ==> i < self.entries().len() && self.entries()[i as int].0.spec_intersects(
                flags,
            ),
    {
        let candidates = self.matching(flags);
        let n = candidates.len();
        let mut positions: Vec<usize> = Vec::new();
        let mut k: usize = 0;
        while k < n
            invariant
                k <= n,
                positions@.len() == k,
                forall|j: int| 0 <= j < k ==> #[trigger] positions@[j] == j,
            decreases n - k,
        {
            positions.push(k);
            k = k + 1;
        }
        let draw = choose_candidate(&positions);
        proof {
            if n > 0 {
                let i0 = candidates@[0];
                assert(self.entries()[i0 as int].0.spec_intersects(flags));
            } else {
                assert forall|i: int|
                    0 <= i < self.entries().len() implies !(#[trigger] self.entries()[i].0).spec_intersects(
                        flags,
                    ) by {
                    if self.entries()[i].0.spec_intersects(flags) {
                        assert(candidates@.contains(i as usize));
                    }
                }
            }
        }
        match draw {
            None => None,
            Some(p) => {
                proof {
                    let j = choose|j: int| 0 <= j < positions.len() && positions@[j] == p;
                    assert(positions@[j] == j);
                    assert(candidates@[p as int] == self.matching_slots(flags)[p as int]);
                }
                self.pick_matching(flags, p)
            },
        }
    }
}

/// Drawing a position among the matching lobes reaches every lobe that
/// matches the request, each through exactly one position, and nothing
/// else: a uniform draw of the position is a uniform pick of the lobe.
pub proof fn lemma_each_matching_lobe_has_one_draw<T>(slots: BxdfSlots<T>, flags: BXDFTYPES)
    requires
        slots.wf(),
    ensures
        forall|p: int|
            0 <= p < slots.matching_slots(flags).len() ==> {
                let i = #[trigger] slots.matching_slots(flags)[p];
                i < slots.entries().len() && slots.entries()[i as int].0.spec_intersects(flags)
            },
        forall|i: int|
            0 <= i < slots.entries().len() && slots.entries()[i].0.spec_intersects(flags) ==> exists|
                p: int,
            |
                0 <= p < slots.matching_slots(flags).len() && #[trigger] slots.matching_slots(
                    flags,
                )[p] == i,
        forall|p1: int, p2: int|
            0 <= p1 < slots.matching_slots(flags).len() && 0 <= p2 < slots.matching_slots(
                flags,
            ).len() && p1 != p2 ==> #[trigger] slots.matching_slots(flags)[p1]
                != #[trigger] slots.matching_slots(flags)[p2],
{
    let none = BXDFTYPES { bits: 0 };
    let e = slots.entries();
    assert forall|t: BXDFTYPES| #[trigger] t.spec_contains(none) by {
        lemma_contains_implies_intersects(t, t);
    }
    lemma_selected_slots(e, flags, none, e.len() as int);
    let ms = slots.matching_slots(flags);
    assert forall|p1: int, p2: int|
        0 <= p1 < ms.len() && 0 <= p2 < ms.len() && p1 != p2 implies #[trigger] ms[p1]
        != #[trigger] ms[p2] by {
        if p1 < p2 {
            assert(ms[p1] < ms[p2]);
        } else {
            assert(ms[p2] < ms[p1]);
        }
    }
}

/// A Fresnel term that lets all light through (used by perfect mirrors).
#[derive(Debug, Clone, Copy, PartialEq, Eq, Structural)]
pub struct FresnelNoop {}

impl FresnelNoop {
    pub fn new() -> (f: FresnelNoop)
        ensures
            f == (FresnelNoop {}),
    {
        FresnelNoop {}
    }
}

/// Whether a path carries radiance (from the camera) or importance.
#[derive(Debug, Clone, Copy, PartialEq, Eq, Structural)]
pub enum TransportMode {
    Radiance,
    Other,
}

} // verus!
