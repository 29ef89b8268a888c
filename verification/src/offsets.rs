use vstd::math::abs;
use vstd::prelude::*;

verus! {

/// Number of positions that a subdivision looks at: three along each axis.
pub const POSITION_COUNT: usize = 27;

/// Number of positions that a subdivision keeps.
pub const CHILD_COUNT: usize = 20;

/// A position in the three by three by three arrangement of a subdivided
/// cube, relative to the middle: each component is `-1`, `0` or `1`.
pub struct Offset {
    pub x: int,
    pub y: int,
    pub z: int,
}

impl Offset {
    /// Each component is `-1`, `0` or `1`.
    pub open spec fn in_range(self) -> bool {
        -1 <= self.x <= 1 && -1 <= self.y <= 1 && -1 <= self.z <= 1
    }

    /// The Manhattan norm: the sum of the absolute values of the components.
    pub open spec fn manhattan(self) -> nat {
        abs(self.x) + abs(self.y) + abs(self.z)
    }

    /// The keep rule: a position holds a child when its Manhattan norm is
    /// more than one. The middle and the six face centres are left empty.
    pub open spec fn is_kept(self) -> bool {
        self.manhattan() > 1
    }

    /// A position at a corner of the cube: no component is zero.
    pub open spec fn is_corner(self) -> bool {
        self.in_range() && self.manhattan() == 3
    }

    /// A position at the middle of an edge of the cube: one component is zero.
    pub open spec fn is_edge(self) -> bool {
        self.in_range() && self.manhattan() == 2
    }
}

/// The position visited at step `k`, where x changes slowest and z fastest.
pub open spec fn nth_offset(k: int) -> Offset {
    Offset { x: k / 9 - 1, y: (k / 3) % 3 - 1, z: k % 3 - 1 }
}

/// All positions in the order in which they are visited.
pub open spec fn all_offsets() -> Seq<Offset> {
    Seq::new(POSITION_COUNT as nat, |k: int| nth_offset(k))
}

/// The keep rule as a predicate.
pub open spec fn kept() -> spec_fn(Offset) -> bool {
    |o: Offset| o.is_kept()
}

/// The kept positions among the first `k` that are visited, in that order.
pub open spec fn kept_before(k: int) -> Seq<Offset> {
    all_offsets().take(k).filter(kept())
}

/// The kept positions, in the order in which they are visited.
pub open spec fn kept_offsets() -> Seq<Offset> {
    all_offsets().filter(kept())
}

/// Decides the keep rule for one position.
pub fn keep(x: i64, y: i64, z: i64) -> (kept: bool)
    ensures
        kept == (Offset { x: x as int, y: y as int, z: z as int }).is_kept(),
{
    let ax: i128 = if x < 0 {
        -(x as i128)
    } else {
        x as i128
    };
    let ay: i128 = if y < 0 {
        -(y as i128)
    } else {
        y as i128
    };
    let az: i128 = if z < 0 {
        -(z as i128)
    } else {
        z as i128
    };
    ax + ay + az > 1
}

/// Filtering one element more of a sequence appends that element when the
/// predicate holds of it, and changes nothing otherwise.
proof fn lemma_filter_step(s: Seq<Offset>, pred: spec_fn(Offset) -> bool, k: int)
    requires
        0 <= k < s.len(),
    ensures
        s.take(k + 1).filter(pred) == if pred(s[k]) {
            s.take(k).filter(pred).push(s[k])
        } else {
            s.take(k).filter(pred)
        },
{
    assert(s.take(k + 1).drop_last() =~= s.take(k));
    assert(s.take(k + 1).last() == s[k]);
    reveal(Seq::filter);
}

/// Visiting one more position appends it to the kept ones when the rule keeps
/// it, and changes nothing otherwise.
pub proof fn lemma_kept_before_step(k: int)
    requires
        0 <= k < POSITION_COUNT,
    ensures
        kept_before(k + 1) == if nth_offset(k).is_kept() {
            kept_before(k).push(nth_offset(k))
        } else {
            kept_before(k)
        },
{
    lemma_filter_step(all_offsets(), kept(), k);
}

/// Before any position is visited nothing is kept; after all of them, the
/// kept ones are `kept_offsets()`.
pub proof fn lemma_kept_before_ends()
    ensures
        kept_before(0) == Seq::<Offset>::empty(),
        kept_before(POSITION_COUNT as int) == kept_offsets(),
{
    reveal(Seq::filter);
    assert(all_offsets().take(0) =~= Seq::<Offset>::empty());
    assert(all_offsets().take(POSITION_COUNT as int) =~= all_offsets());
}

/// The twenty kept positions, written out in order.
pub proof fn lemma_kept_offsets_listed()
    ensures
        kept_offsets() == seq![
            Offset { x: -1, y: -1, z: -1 },
            Offset { x: -1, y: -1, z: 0 },
            Offset { x: -1, y: -1, z: 1 },
            Offset { x: -1, y: 0, z: -1 },
            Offset { x: -1, y: 0, z: 1 },
            Offset { x: -1, y: 1, z: -1 },
            Offset { x: -1, y: 1, z: 0 },
            Offset { x: -1, y: 1, z: 1 },
            Offset { x: 0, y: -1, z: -1 },
            Offset { x: 0, y: -1, z: 1 },
            Offset { x: 0, y: 1, z: -1 },
            Offset { x: 0, y: 1, z: 1 },
            Offset { x: 1, y: -1, z: -1 },
            Offset { x: 1, y: -1, z: 0 },
            Offset { x: 1, y: -1, z: 1 },
            Offset { x: 1, y: 0, z: -1 },
            Offset { x: 1, y: 0, z: 1 },
            Offset { x: 1, y: 1, z: -1 },
            Offset { x: 1, y: 1, z: 0 },
            Offset { x: 1, y: 1, z: 1 },
        ],
{
    lemma_kept_before_ends();
    lemma_kept_before_step(0);
    lemma_kept_before_step(1);
    lemma_kept_before_step(2);
    lemma_kept_before_step(3);
    lemma_kept_before_step(4);
    lemma_kept_before_step(5);
    lemma_kept_before_step(6);
    lemma_kept_before_step(7);
    lemma_kept_before_step(8);
    assert(kept_before(9).len() == 8);
    lemma_kept_before_step(9);
    lemma_kept_before_step(10);
    lemma_kept_before_step(11);
    lemma_kept_before_step(12);
    lemma_kept_before_step(13);
    lemma_kept_before_step(14);
    lemma_kept_before_step(15);
    lemma_kept_before_step(16);
    lemma_kept_before_step(17);
    assert(kept_before(18).len() == 12);
    lemma_kept_before_step(18);
    lemma_kept_before_step(19);
    lemma_kept_before_step(20);
    lemma_kept_before_step(21);
    lemma_kept_before_step(22);
    lemma_kept_before_step(23);
    lemma_kept_before_step(24);
    lemma_kept_before_step(25);
    lemma_kept_before_step(26);
    assert(kept_before(27).len() == 20);
}

/// Every subdivision keeps `CHILD_COUNT` positions.
pub proof fn lemma_kept_offsets_count()
    ensures
        kept_offsets().len() == CHILD_COUNT,
{
    lemma_kept_offsets_listed();
}

/// The kept positions are the positions of Manhattan norm more than one,
/// each taken once: as a multiset, `kept_offsets()` holds every such position
/// one time and nothing else.
pub proof fn lemma_kept_offsets_exact()
    ensures
        kept_offsets().no_duplicates(),
        forall|o: Offset|
            #[trigger] kept_offsets().to_multiset().count(o) == if o.in_range() && o.is_kept() {
                1nat
            } else {
                0nat
            },
{
    let s = kept_offsets();
    lemma_kept_offsets_listed();
    assert(s.no_duplicates());
    s.to_multiset_ensures();
    s.lemma_multiset_has_no_duplicates();
    assert forall|o: Offset| s.contains(o) <==> o.in_range() && o.is_kept() by {
        if o.in_range() && o.is_kept() {
            let k = 9 * (o.x + 1) + 3 * (o.y + 1) + (o.z + 1);
            assert(all_offsets()[k] == o);
            all_offsets().lemma_filter_contains(kept(), k);
        }
    }
    assert forall|o: Offset|
        #[trigger] s.to_multiset().count(o) == if o.in_range() && o.is_kept() {
            1nat
        } else {
            0nat
        } by {
        if s.contains(o) {
            assert(s.to_multiset().contains(o));
        }
    }
}

/// Being a corner, as a predicate.
pub open spec fn corner() -> spec_fn(Offset) -> bool {
    |o: Offset| o.is_corner()
}

/// Being the middle of an edge, as a predicate.
pub open spec fn edge() -> spec_fn(Offset) -> bool {
    |o: Offset| o.is_edge()
}

/// The kept positions are those of one step of a Menger sponge: of the
/// twenty-seven cells the eight corners and the twelve edge middles stay, the
/// six face centres and the middle go.
pub proof fn lemma_menger_pattern()
    ensures
        forall|o: Offset| o.in_range() ==> (o.is_kept() <==> o.is_corner() || o.is_edge()),
        kept_offsets().filter(corner()).len() == 8,
        kept_offsets().filter(edge()).len() == 12,
{
    let s = kept_offsets();
    lemma_kept_offsets_listed();
    assert(s.take(0) =~= Seq::<Offset>::empty());
    assert(s.take(20) =~= s);
    assert(s.take(0).filter(corner()).len() == 0 && s.take(0).filter(edge()).len() == 0) by {
        reveal(Seq::filter);
    }
    lemma_filter_step(s, corner(), 0);
    lemma_filter_step(s, corner(), 1);
    lemma_filter_step(s, corner(), 2);
    lemma_filter_step(s, corner(), 3);
    lemma_filter_step(s, corner(), 4);
    lemma_filter_step(s, corner(), 5);
    lemma_filter_step(s, corner(), 6);
    lemma_filter_step(s, corner(), 7);
    lemma_filter_step(s, corner(), 8);
    lemma_filter_step(s, corner(), 9);
    assert(s.take(10).filter(corner()).len() == 4);
    lemma_filter_step(s, corner(), 10);
    lemma_filter_step(s, corner(), 11);
    lemma_filter_step(s, corner(), 12);
    lemma_filter_step(s, corner(), 13);
    lemma_filter_step(s, corner(), 14);
    lemma_filter_step(s, corner(), 15);
    lemma_filter_step(s, corner(), 16);
    lemma_filter_step(s, corner(), 17);
    lemma_filter_step(s, corner(), 18);
    lemma_filter_step(s, corner(), 19);
    lemma_filter_step(s, edge(), 0);
    lemma_filter_step(s, edge(), 1);
    lemma_filter_step(s, edge(), 2);
    lemma_filter_step(s, edge(), 3);
    lemma_filter_step(s, edge(), 4);
    lemma_filter_step(s, edge(), 5);
    lemma_filter_step(s, edge(), 6);
    lemma_filter_step(s, edge(), 7);
    lemma_filter_step(s, edge(), 8);
    lemma_filter_step(s, edge(), 9);
    assert(s.take(10).filter(edge()).len() == 6);
    lemma_filter_step(s, edge(), 10);
    lemma_filter_step(s, edge(), 11);
    lemma_filter_step(s, edge(), 12);
    lemma_filter_step(s, edge(), 13);
    lemma_filter_step(s, edge(), 14);
    lemma_filter_step(s, edge(), 15);
    lemma_filter_step(s, edge(), 16);
    lemma_filter_step(s, edge(), 17);
    lemma_filter_step(s, edge(), 18);
    lemma_filter_step(s, edge(), 19);
}

/// A visited position that the rule keeps is among the kept positions: the
/// result is a place at which it stands.
pub proof fn lemma_kept_position(k: int) -> (i: int)
    requires
        0 <= k < POSITION_COUNT,
        nth_offset(k).is_kept(),
    ensures
        0 <= i < kept_offsets().len(),
        kept_offsets()[i] == nth_offset(k),
{
    all_offsets().lemma_filter_contains(kept(), k);
    assert(all_offsets()[k] == nth_offset(k));
    assert(kept_offsets().contains(nth_offset(k)));
    choose|i: int| 0 <= i < kept_offsets().len() && kept_offsets()[i] == nth_offset(k)
}

} // verus!
