use crate::cuboid::{fits_i64, units, BoxModel};
use crate::error::GeometryError;
use crate::model::{cube_box, cube_model, generation_models, Cube, CubeModel};
use crate::offsets::{
    kept_offsets, lemma_kept_offsets_count, lemma_kept_offsets_listed, Offset, CHILD_COUNT,
};
use crate::utils::{lemma_signed_extent, lemma_wireframe_fits_exactly, wireframe_fits, WIRE_WIDTH};
use vstd::prelude::*;

verus! {

/// By how much an edge shrinks from a cube to its children.
pub const DIVISOR: i64 = 3;

/// What is added to every coordinate of a child's centre, in units.
pub const BIAS: i64 = 10;

/// A coordinate of a child's centre, in steps of the child's lattice: the
/// parent's coordinate, moved by a child's edge length to the side that
/// `sign` names, plus the bias.
pub open spec fn child_coordinate(center: int, len: int, scale: int, sign: int) -> int {
    DIVISOR * center + sign * len + DIVISOR * BIAS * scale
}

/// The box of the child of `p` at position `o`. It lives on the lattice
/// `DIVISOR` times as fine as that of `p`, on which a third of an edge is a
/// whole number of steps.
pub open spec fn child_box(p: CubeModel, o: Offset) -> BoxModel {
    cube_box(
        child_coordinate(p.x, p.len, p.scale(), o.x),
        child_coordinate(p.y, p.len, p.scale(), o.y),
        child_coordinate(p.z, p.len, p.scale(), o.z),
        p.len,
        DIVISOR * p.scale(),
    )
}

/// The child of `p` at position `o`.
pub open spec fn child(p: CubeModel, o: Offset) -> CubeModel {
    cube_model(
        child_coordinate(p.x, p.len, p.scale(), o.x),
        child_coordinate(p.y, p.len, p.scale(), o.y),
        child_coordinate(p.z, p.len, p.scale(), o.z),
        p.len,
        DIVISOR * p.scale(),
    )
}

/// In units, `c` is the child of `p` at position `o`: its edge is a third of
/// the edge of `p`, and its centre is that of `p`, moved along each axis by
/// the child's edge length as `o` says, plus the bias.
pub open spec fn is_child_at(c: CubeModel, p: CubeModel, o: Offset) -> bool {
    &&& c.length() == p.length() / DIVISOR as real
    &&& c.center_x() == p.center_x() + o.x as real * c.length() + BIAS as real
    &&& c.center_y() == p.center_y() + o.y as real * c.length() + BIAS as real
    &&& c.center_z() == p.center_z() + o.z as real * c.length() + BIAS as real
}

/// The children of `p`: one at each kept position, in the order in which
/// the positions are visited.
pub open spec fn children(p: CubeModel) -> Seq<CubeModel> {
    Seq::new(kept_offsets().len(), |i: int| child(p, kept_offsets()[i]))
}

/// Every child of `p` can be held in a `Cube`, wireframe included.
pub open spec fn children_fit(p: CubeModel) -> bool {
    forall|i: int|
        0 <= i < kept_offsets().len() ==> wireframe_fits(
            #[trigger] child_box(p, kept_offsets()[i]),
        )
}

/// What `generate` answers for a cube with model `p`.
pub open spec fn generate_outcome(p: CubeModel) -> Result<Seq<CubeModel>, GeometryError> {
    if p.len <= 0 {
        Err(GeometryError::NonPositiveExtent)
    } else if !children_fit(p) {
        Err(GeometryError::Overflow)
    } else {
        Ok(children(p))
    }
}

/// What `next_generation` answers for cubes with models `cubes`: the
/// children of each cube, cube after cube, or the error of the first cube that
/// cannot be subdivided.
pub open spec fn next_generation_outcome(cubes: Seq<CubeModel>) -> Result<
    Seq<CubeModel>,
    GeometryError,
>
    decreases cubes.len(),
{
    if cubes.len() == 0 {
        Ok(Seq::empty())
    } else {
        match next_generation_outcome(cubes.drop_last()) {
            Err(e) => Err(e),
            Ok(earlier) => match generate_outcome(cubes.last()) {
                Err(e) => Err(e),
                Ok(children) => Ok(earlier + children),
            },
        }
    }
}

/// A length that is a positive number of steps is positive in units.
proof fn lemma_units_positive(steps: int, scale: int)
    requires
        steps > 0,
        scale > 0,
    ensures
        units(steps, scale) > 0real,
{
    assert(steps as real / scale as real > 0real) by (nonlinear_arith)
        requires
            steps > 0,
            scale > 0,
    ;
}

/// On the lattice `DIVISOR` times as fine, a child's coordinate is the
/// parent's, moved by a third of the parent's length, plus the bias; and the
/// same number of steps is a third as long.
proof fn lemma_child_coordinate_units(center: int, len: int, scale: int, sign: int)
    requires
        scale > 0,
    ensures
        units(child_coordinate(center, len, scale, sign), DIVISOR * scale) == units(center, scale)
            + sign as real * (units(len, scale) / DIVISOR as real) + BIAS as real,
        units(len, DIVISOR * scale) == units(len, scale) / DIVISOR as real,
{
    assert((DIVISOR * center + sign * len + DIVISOR * BIAS * scale) as real / (DIVISOR
        * scale) as real == center as real / scale as real + sign as real * ((len as real
        / scale as real) / DIVISOR as real) + BIAS as real) by (nonlinear_arith)
        requires
            scale > 0,
            DIVISOR == 3,
    ;
    assert(len as real / (DIVISOR * scale) as real == (len as real / scale as real)
        / DIVISOR as real) by (nonlinear_arith)
        requires
            scale > 0,
            DIVISOR == 3,
    ;
}

/// The child at a position has a third of its parent's edge length and is
/// centred where the position says, plus the bias; it is in step with its
/// own box.
pub proof fn lemma_child_geometry(p: CubeModel, o: Offset)
    requires
        p.scale() > 0,
    ensures
        is_child_at(child(p, o), p, o),
        child(p, o).in_sync(),
        child(p, o).cuboid == child_box(p, o),
{
    lemma_child_coordinate_units(p.x, p.len, p.scale(), o.x);
    lemma_child_coordinate_units(p.y, p.len, p.scale(), o.y);
    lemma_child_coordinate_units(p.z, p.len, p.scale(), o.z);
}

/// When the children fit, in numbers: the outermost faces of the children
/// and the wire width, all counted on the lattice on which the children's
/// wireframes live, are within `i64`.
pub proof fn lemma_children_fit_exactly(p: CubeModel)
    requires
        p.len > 0,
        p.scale() > 0,
    ensures
        children_fit(p) <==> {
            &&& fits_i64(2 * child_coordinate(p.x, p.len, p.scale(), -1) - p.len)
            &&& fits_i64(2 * child_coordinate(p.x, p.len, p.scale(), 1) + p.len)
            &&& fits_i64(2 * child_coordinate(p.y, p.len, p.scale(), -1) - p.len)
            &&& fits_i64(2 * child_coordinate(p.y, p.len, p.scale(), 1) + p.len)
            &&& fits_i64(2 * child_coordinate(p.z, p.len, p.scale(), -1) - p.len)
            &&& fits_i64(2 * child_coordinate(p.z, p.len, p.scale(), 1) + p.len)
            &&& fits_i64(2 * WIRE_WIDTH * DIVISOR * p.scale())
        },
{
    lemma_kept_offsets_listed();
    lemma_signed_extent(-1, p.len);
    lemma_signed_extent(1, p.len);
    assert(2 * WIRE_WIDTH * (DIVISOR * p.scale()) == 2 * WIRE_WIDTH * DIVISOR * p.scale())
        by (nonlinear_arith);
    assert forall|i: int| 0 <= i < kept_offsets().len() implies {
        &&& -p.len <= (#[trigger] kept_offsets()[i]).x * p.len <= p.len
        &&& -p.len <= kept_offsets()[i].y * p.len <= p.len
        &&& -p.len <= kept_offsets()[i].z * p.len <= p.len
    } by {
        lemma_signed_extent(kept_offsets()[i].x, p.len);
        lemma_signed_extent(kept_offsets()[i].y, p.len);
        lemma_signed_extent(kept_offsets()[i].z, p.len);
    }
    assert forall|i: int| 0 <= i < kept_offsets().len() implies (wireframe_fits(
        #[trigger] child_box(p, kept_offsets()[i]),
    ) <==> {
        let c = child_box(p, kept_offsets()[i]);
        &&& fits_i64(2 * c.x - c.w)
        &&& fits_i64(2 * c.x + c.w)
        &&& fits_i64(2 * c.y - c.h)
        &&& fits_i64(2 * c.y + c.h)
        &&& fits_i64(2 * c.z - c.d)
        &&& fits_i64(2 * c.z + c.d)
        &&& fits_i64(2 * c.w)
        &&& fits_i64(2 * c.h)
        &&& fits_i64(2 * c.d)
        &&& fits_i64(2 * WIRE_WIDTH * c.scale)
    }) by {
        lemma_wireframe_fits_exactly(child_box(p, kept_offsets()[i]));
    }
    if children_fit(p) {
        assert(wireframe_fits(child_box(p, kept_offsets()[0])));
        assert(wireframe_fits(child_box(p, kept_offsets()[19])));
    }
}

/// Along one axis, a third of a segment, placed at the low end, in the middle
/// or at the high end, lies within the segment.
proof fn lemma_third_within(middle: real, length: real, sign: int)
    requires
        length > 0real,
        -1 <= sign <= 1,
    ensures
        middle - length / 2real <= middle + sign as real * (length / 3real) - (length / 3real)
            / 2real,
        middle + sign as real * (length / 3real) + (length / 3real) / 2real <= middle + length
            / 2real,
{
    assert(middle - length / 2real <= middle + sign as real * (length / 3real) - (length / 3real)
        / 2real && middle + sign as real * (length / 3real) + (length / 3real) / 2real <= middle
        + length / 2real) by (nonlinear_arith)
        requires
            length > 0real,
            -1 <= sign <= 1,
    ;
}

/// Along one axis, two thirds of a segment at different places do not
/// overlap: the lower one ends where the higher one begins, or before.
proof fn lemma_thirds_apart(middle: real, length: real, low: int, high: int)
    requires
        length > 0real,
        low < high,
    ensures
        middle + low as real * (length / 3real) + (length / 3real) / 2real <= middle
            + high as real * (length / 3real) - (length / 3real) / 2real,
{
    assert(middle + low as real * (length / 3real) + (length / 3real) / 2real <= middle
        + high as real * (length / 3real) - (length / 3real) / 2real) by (nonlinear_arith)
        requires
            length > 0real,
            low < high,
    ;
}

/// `c`, taken back by the bias, lies within `p`.
pub open spec fn within_unbiased(c: CubeModel, p: CubeModel) -> bool {
    &&& p.low_x() <= c.low_x() - BIAS as real
    &&& c.high_x() - BIAS as real <= p.high_x()
    &&& p.low_y() <= c.low_y() - BIAS as real
    &&& c.high_y() - BIAS as real <= p.high_y()
    &&& p.low_z() <= c.low_z() - BIAS as real
    &&& c.high_z() - BIAS as real <= p.high_z()
}

/// `a` and `b` share no inner point: along some axis one ends where the
/// other begins, or before.
pub open spec fn apart(a: CubeModel, b: CubeModel) -> bool {
    ||| a.high_x() <= b.low_x()
    ||| b.high_x() <= a.low_x()
    ||| a.high_y() <= b.low_y()
    ||| b.high_y() <= a.low_y()
    ||| a.high_z() <= b.low_z()
    ||| b.high_z() <= a.low_z()
}

/// Apart from the bias, the children fill cells of the three by three by
/// three partition of their parent, as one step of a Menger sponge does: each
/// child, taken back by the bias, lies within the parent, and children at
/// different positions share no inner point.
pub proof fn lemma_children_tile(p: CubeModel, a: Offset, b: Offset)
    requires
        p.scale() > 0,
        p.len > 0,
        a.in_range(),
        b.in_range(),
    ensures
        within_unbiased(child(p, a), p),
        a != b ==> apart(child(p, a), child(p, b)),
{
    let l = p.length();
    lemma_units_positive(p.len, p.scale());
    lemma_child_geometry(p, a);
    lemma_child_geometry(p, b);
    lemma_third_within(p.center_x(), l, a.x);
    lemma_third_within(p.center_y(), l, a.y);
    lemma_third_within(p.center_z(), l, a.z);
    if a.x < b.x {
        lemma_thirds_apart(p.center_x(), l, a.x, b.x);
    } else if b.x < a.x {
        lemma_thirds_apart(p.center_x(), l, b.x, a.x);
    } else if a.y < b.y {
        lemma_thirds_apart(p.center_y(), l, a.y, b.y);
    } else if b.y < a.y {
        lemma_thirds_apart(p.center_y(), l, b.y, a.y);
    } else if a.z < b.z {
        lemma_thirds_apart(p.center_z(), l, a.z, b.z);
    } else if b.z < a.z {
        lemma_thirds_apart(p.center_z(), l, b.z, a.z);
    }
}

/// Subdividing has no hidden state: for cubes with the same model,
/// whatever `generate` answers for one it answers for the other.
pub proof fn lemma_generate_deterministic(
    a: Cube,
    b: Cube,
    of_a: Result<Vec<Cube>, GeometryError>,
    of_b: Result<Vec<Cube>, GeometryError>,
)
    requires
        a@ == b@,
        generation_models(of_a) == generate_outcome(a@),
        generation_models(of_b) == generate_outcome(b@),
    ensures
        generation_models(of_a) == generation_models(of_b),
{
}

/// Once a cube cannot be subdivided, no longer run of cubes can be either,
/// and the error stays that of the first such cube.
pub proof fn lemma_next_generation_fails(cubes: Seq<CubeModel>, i: int)
    requires
        0 <= i < cubes.len(),
        next_generation_outcome(cubes.take(i)) is Ok,
        generate_outcome(cubes[i]) is Err,
    ensures
        next_generation_outcome(cubes) == Err::<Seq<CubeModel>, GeometryError>(
            generate_outcome(cubes[i])->Err_0,
        ),
    decreases cubes.len(),
{
    if i == cubes.len() - 1 {
        assert(cubes.drop_last() =~= cubes.take(i));
    } else {
        assert(cubes.drop_last().take(i) =~= cubes.take(i));
        lemma_next_generation_fails(cubes.drop_last(), i);
    }
}

/// A generation that can be subdivided has `CHILD_COUNT` times as many
/// cubes in the next one: child `j` of cube `i` stands at `CHILD_COUNT * i + j`.
pub proof fn lemma_next_generation_shape(cubes: Seq<CubeModel>)
    requires
        next_generation_outcome(cubes) is Ok,
    ensures
        next_generation_outcome(cubes)->Ok_0.len() == CHILD_COUNT * cubes.len(),
        forall|i: int| 0 <= i < cubes.len() ==> (#[trigger] generate_outcome(cubes[i])) is Ok,
        forall|i: int, j: int|
            0 <= i < cubes.len() && 0 <= j < CHILD_COUNT ==> next_generation_outcome(
                cubes,
            )->Ok_0[CHILD_COUNT * i + j] == #[trigger] child(cubes[i], kept_offsets()[j]),
    decreases cubes.len(),
{
    lemma_kept_offsets_count();
    if cubes.len() > 0 {
        let earlier = cubes.drop_last();
        lemma_next_generation_shape(earlier);
        let next = next_generation_outcome(cubes)->Ok_0;
        let before = next_generation_outcome(earlier)->Ok_0;
        let last = generate_outcome(cubes.last())->Ok_0;
        assert(next == before + last);
        assert forall|i: int, j: int|
            0 <= i < cubes.len() && 0 <= j < CHILD_COUNT implies next[CHILD_COUNT * i + j]
            == #[trigger] child(cubes[i], kept_offsets()[j]) by {
            if i < cubes.len() - 1 {
                assert(earlier[i] == cubes[i]);
                assert(before[CHILD_COUNT * i + j] == child(earlier[i], kept_offsets()[j]));
            } else {
                assert(last[j] == child(cubes[i], kept_offsets()[j]));
            }
        }
        assert forall|i: int| 0 <= i < cubes.len() implies (#[trigger] generate_outcome(
            cubes[i],
        )) is Ok by {
            if i < cubes.len() - 1 {
                assert(earlier[i] == cubes[i]);
            }
        }
    }
}

/// Subdividing a cube twice gives `CHILD_COUNT * CHILD_COUNT` cubes, each
/// with a ninth of the edge length.
pub proof fn lemma_second_generation(p: CubeModel)
    requires
        p.scale() > 0,
        generate_outcome(p) is Ok,
        next_generation_outcome(generate_outcome(p)->Ok_0) is Ok,
    ensures
        next_generation_outcome(generate_outcome(p)->Ok_0)->Ok_0.len() == CHILD_COUNT
            * CHILD_COUNT,
        forall|k: int|
            0 <= k < CHILD_COUNT * CHILD_COUNT ==> (#[trigger] next_generation_outcome(
                generate_outcome(p)->Ok_0,
            )->Ok_0[k]).length() == p.length() / (DIVISOR * DIVISOR) as real,
{
    let first = generate_outcome(p)->Ok_0;
    let second = next_generation_outcome(first)->Ok_0;
    lemma_kept_offsets_count();
    lemma_next_generation_shape(first);
    assert forall|k: int| 0 <= k < CHILD_COUNT * CHILD_COUNT implies (#[trigger] second[k]).length()
        == p.length() / (DIVISOR * DIVISOR) as real by {
        let i = k / (CHILD_COUNT as int);
        let j = k % (CHILD_COUNT as int);
        assert(second[CHILD_COUNT * i + j] == child(first[i], kept_offsets()[j]));
        assert(first[i] == child(p, kept_offsets()[i]));
        lemma_child_geometry(p, kept_offsets()[i]);
        lemma_child_geometry(first[i], kept_offsets()[j]);
        let third = p.length() / DIVISOR as real;
        assert(third / DIVISOR as real == p.length() / (DIVISOR * DIVISOR) as real)
            by (nonlinear_arith)
            requires
                third == p.length() / DIVISOR as real,
                DIVISOR == 3,
        ;
    }
}

} // verus!
