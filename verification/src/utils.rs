use crate::cuboid::{fits_i64, models, narrowed, units, BoxModel, Cuboid};
use crate::error::GeometryError;
use crate::offsets::Offset;
use vstd::prelude::*;

verus! {

/// Number of edges of a box, and of boxes in a wireframe.
pub const EDGE_COUNT: usize = 12;

/// Thickness of a wireframe box across its edge, in units.
pub const WIRE_WIDTH: i64 = 1;

/// Where edge `i` lies on its box: for each axis, `-1` or `1` for the low or
/// the high face, and `0` for the axis the edge runs along.
///
/// Edges 0 to 3 go round the top face, 4 to 7 round the bottom face, 8 to 11
/// are the uprights between them.
pub open spec fn edge_position(i: int) -> Offset {
    if i == 0 {
        Offset { x: -1, y: 1, z: 0 }
    } else if i == 1 {
        Offset { x: 0, y: 1, z: 1 }
    } else if i == 2 {
        Offset { x: 1, y: 1, z: 0 }
    } else if i == 3 {
        Offset { x: 0, y: 1, z: -1 }
    } else if i == 4 {
        Offset { x: -1, y: -1, z: 0 }
    } else if i == 5 {
        Offset { x: 0, y: -1, z: 1 }
    } else if i == 6 {
        Offset { x: 1, y: -1, z: 0 }
    } else if i == 7 {
        Offset { x: 0, y: -1, z: -1 }
    } else if i == 8 {
        Offset { x: -1, y: 0, z: -1 }
    } else if i == 9 {
        Offset { x: -1, y: 0, z: 1 }
    } else if i == 10 {
        Offset { x: 1, y: 0, z: 1 }
    } else {
        Offset { x: 1, y: 0, z: -1 }
    }
}

/// Centre coordinate of a wireframe box along one axis, in steps of the
/// lattice twice as fine as the box's own: the box's centre, moved by half its
/// extent to the side that `sign` names.
pub open spec fn edge_center(center: int, extent: int, sign: int) -> int {
    2 * center + sign * extent
}

/// Extent of a wireframe box along one axis, in steps of the lattice twice as
/// fine as the box's own: the box's extent along the edge, the wire width
/// across it.
pub open spec fn edge_extent(extent: int, scale: int, sign: int) -> int {
    if sign == 0 {
        2 * extent
    } else {
        2 * WIRE_WIDTH * scale
    }
}

/// The box that stands for edge `i` of `b`. It lives on the lattice twice as
/// fine as that of `b`, on which the midpoints of the edges are lattice points.
pub open spec fn wire_edge(b: BoxModel, i: int) -> BoxModel {
    let at = edge_position(i);
    BoxModel {
        x: edge_center(b.x, b.w, at.x),
        y: edge_center(b.y, b.h, at.y),
        z: edge_center(b.z, b.d, at.z),
        w: edge_extent(b.w, b.scale, at.x),
        h: edge_extent(b.h, b.scale, at.y),
        d: edge_extent(b.d, b.scale, at.z),
        scale: 2 * b.scale,
    }
}

/// The wireframe of `b`: its twelve edge boxes in order.
pub open spec fn wireframe(b: BoxModel) -> Seq<BoxModel> {
    Seq::new(EDGE_COUNT as nat, |i: int| wire_edge(b, i))
}

/// Every box of the wireframe of `b` can be held in a `Cuboid`.
pub open spec fn wireframe_fits(b: BoxModel) -> bool {
    forall|i: int| 0 <= i < EDGE_COUNT ==> (#[trigger] wire_edge(b, i)).representable()
}

/// What `create_wireframe` answers for a box with model `b`. The first case
/// is there for models that no `Cuboid` has.
pub open spec fn wireframe_outcome(b: BoxModel) -> Result<Seq<BoxModel>, GeometryError> {
    if b.scale <= 0 {
        Err(GeometryError::NonPositiveScale)
    } else if !b.has_positive_extents() {
        Err(GeometryError::NonPositiveExtent)
    } else if !wireframe_fits(b) {
        Err(GeometryError::Overflow)
    } else {
        Ok(wireframe(b))
    }
}

/// The outcome of a construction of boxes, with models in place of the boxes.
pub open spec fn outcome_models(res: Result<Vec<Cuboid>, GeometryError>) -> Result<
    Seq<BoxModel>,
    GeometryError,
> {
    match res {
        Ok(boxes) => Ok(models(boxes@)),
        Err(e) => Err(e),
    }
}

/// In units, `e` is the wireframe box of `b` at the position `at`: centred
/// at the midpoint of that edge, as long as the edge, and `WIRE_WIDTH` thick
/// across it.
pub open spec fn lies_along_edge(e: BoxModel, b: BoxModel, at: Offset) -> bool {
    &&& e.center_x() == b.center_x() + at.x as real * (b.width() / 2real)
    &&& e.center_y() == b.center_y() + at.y as real * (b.height() / 2real)
    &&& e.center_z() == b.center_z() + at.z as real * (b.depth() / 2real)
    &&& e.width() == if at.x == 0 {
        b.width()
    } else {
        WIRE_WIDTH as real
    }
    &&& e.height() == if at.y == 0 {
        b.height()
    } else {
        WIRE_WIDTH as real
    }
    &&& e.depth() == if at.z == 0 {
        b.depth()
    } else {
        WIRE_WIDTH as real
    }
}

/// On the lattice twice as fine, the centre of an edge box is the centre of
/// the box moved by half the box's extent.
proof fn lemma_edge_center_units(center: int, extent: int, scale: int, sign: int)
    requires
        scale > 0,
    ensures
        units(edge_center(center, extent, sign), 2 * scale) == units(center, scale) + sign as real
            * (units(extent, scale) / 2real),
{
    assert((2 * center + sign * extent) as real / (2 * scale) as real == center as real
        / scale as real + sign as real * ((extent as real / scale as real) / 2real))
        by (nonlinear_arith)
        requires
            scale > 0,
    ;
}

/// On the lattice twice as fine, an edge box is as long as the box along its
/// edge and `WIRE_WIDTH` thick across it.
proof fn lemma_edge_extent_units(extent: int, scale: int, sign: int)
    requires
        scale > 0,
    ensures
        units(edge_extent(extent, scale, sign), 2 * scale) == if sign == 0 {
            units(extent, scale)
        } else {
            WIRE_WIDTH as real
        },
{
    assert((2 * extent) as real / (2 * scale) as real == extent as real / scale as real)
        by (nonlinear_arith)
        requires
            scale > 0,
    ;
    assert((2 * WIRE_WIDTH * scale) as real / (2 * scale) as real == WIRE_WIDTH as real)
        by (nonlinear_arith)
        requires
            scale > 0,
    ;
}

/// Each box of a wireframe lies along its edge: its centre is the midpoint
/// of the edge, which is the centre of the box moved by half an extent along
/// the two axes across the edge; it spans the box along the edge and is
/// `WIRE_WIDTH` thick across it.
pub proof fn lemma_wire_edge_geometry(b: BoxModel, i: int)
    requires
        b.scale > 0,
    ensures
        lies_along_edge(wire_edge(b, i), b, edge_position(i)),
{
    let at = edge_position(i);
    lemma_edge_center_units(b.x, b.w, b.scale, at.x);
    lemma_edge_center_units(b.y, b.h, b.scale, at.y);
    lemma_edge_center_units(b.z, b.d, b.scale, at.z);
    lemma_edge_extent_units(b.w, b.scale, at.x);
    lemma_edge_extent_units(b.h, b.scale, at.y);
    lemma_edge_extent_units(b.d, b.scale, at.z);
}

/// The twelve edge positions are the twelve edges of a box, each once: the
/// positions with exactly one component zero. The first four lie in the top
/// face, the next four in the bottom face, the last four run upright.
pub proof fn lemma_edge_positions()
    ensures
        forall|i: int| 0 <= i < EDGE_COUNT ==> (#[trigger] edge_position(i)).is_edge(),
        forall|i: int, j: int|
            0 <= i < j < EDGE_COUNT ==> #[trigger] edge_position(i) != #[trigger] edge_position(j),
        forall|at: Offset|
            at.is_edge() ==> exists|i: int| 0 <= i < EDGE_COUNT && #[trigger] edge_position(i) == at,
        forall|i: int| 0 <= i < 4 ==> (#[trigger] edge_position(i)).y == 1,
        forall|i: int| 4 <= i < 8 ==> (#[trigger] edge_position(i)).y == -1,
        forall|i: int| 8 <= i < EDGE_COUNT ==> (#[trigger] edge_position(i)).y == 0,
{
    assert forall|at: Offset| at.is_edge() implies exists|i: int|
        0 <= i < EDGE_COUNT && #[trigger] edge_position(i) == at by {
        let i: int = if at.y == 1 {
            if at.x == -1 {
                0
            } else if at.x == 1 {
                2
            } else if at.z == 1 {
                1
            } else {
                3
            }
        } else if at.y == -1 {
            if at.x == -1 {
                4
            } else if at.x == 1 {
                6
            } else if at.z == 1 {
                5
            } else {
                7
            }
        } else if at.x == -1 {
            if at.z == -1 {
                8
            } else {
                9
            }
        } else if at.z == 1 {
            10
        } else {
            11
        };
        assert(edge_position(i) == at);
    }
}

/// A length taken with a sign stays between the length and its negative.
pub proof fn lemma_signed_extent(sign: int, extent: int)
    requires
        -1 <= sign <= 1,
        extent > 0,
    ensures
        -extent <= sign * extent <= extent,
        sign == 0 ==> sign * extent == 0,
        sign == 1 ==> sign * extent == extent,
        sign == -1 ==> sign * extent == -extent,
{
    assert(-extent <= sign * extent <= extent && (sign == 0 ==> sign * extent == 0) && (sign == 1
        ==> sign * extent == extent) && (sign == -1 ==> sign * extent == -extent))
        by (nonlinear_arith)
        requires
            -1 <= sign <= 1,
            extent > 0,
    ;
}

/// When a wireframe fits, in numbers: the faces of the box, its extents and
/// the wire width, all counted on the lattice twice as fine, are within
/// `i64`.
pub proof fn lemma_wireframe_fits_exactly(b: BoxModel)
    requires
        b.has_positive_extents(),
        b.scale > 0,
    ensures
        wireframe_fits(b) <==> {
            &&& fits_i64(2 * b.x - b.w)
            &&& fits_i64(2 * b.x + b.w)
            &&& fits_i64(2 * b.y - b.h)
            &&& fits_i64(2 * b.y + b.h)
            &&& fits_i64(2 * b.z - b.d)
            &&& fits_i64(2 * b.z + b.d)
            &&& fits_i64(2 * b.w)
            &&& fits_i64(2 * b.h)
            &&& fits_i64(2 * b.d)
            &&& fits_i64(2 * WIRE_WIDTH * b.scale)
        },
{
    assert forall|i: int| 0 <= i < EDGE_COUNT implies {
        &&& -b.w <= (#[trigger] edge_position(i)).x * b.w <= b.w
        &&& -b.h <= edge_position(i).y * b.h <= b.h
        &&& -b.d <= edge_position(i).z * b.d <= b.d
    } by {
        lemma_signed_extent(edge_position(i).x, b.w);
        lemma_signed_extent(edge_position(i).y, b.h);
        lemma_signed_extent(edge_position(i).z, b.d);
    }
    if wireframe_fits(b) {
        lemma_signed_extent(-1, b.w);
        lemma_signed_extent(1, b.w);
        lemma_signed_extent(-1, b.h);
        lemma_signed_extent(1, b.h);
        lemma_signed_extent(-1, b.d);
        lemma_signed_extent(1, b.d);
        assert(wire_edge(b, 0).representable());
        assert(wire_edge(b, 1).representable());
        assert(wire_edge(b, 2).representable());
        assert(wire_edge(b, 3).representable());
        assert(wire_edge(b, 4).representable());
        assert(wire_edge(b, 8).representable());
    }
}

/// A box with a wireframe that fits can itself be held in a `Cuboid`.
pub proof fn lemma_wireframe_fits_box(b: BoxModel)
    requires
        b.has_positive_extents(),
        b.scale > 0,
        wireframe_fits(b),
    ensures
        b.representable(),
{
    lemma_wireframe_fits_exactly(b);
    assert(2 * WIRE_WIDTH * b.scale == 2 * b.scale) by (nonlinear_arith)
        requires
            WIRE_WIDTH == 1,
    ;
}

fn position_of_edge(i: usize) -> (at: (i64, i64, i64))
    requires
        i < EDGE_COUNT,
    ensures
        (Offset { x: at.0 as int, y: at.1 as int, z: at.2 as int }) == edge_position(i as int),
{
    match i {
        0 => (-1, 1, 0),
        1 => (0, 1, 1),
        2 => (1, 1, 0),
        3 => (0, 1, -1),
        4 => (-1, -1, 0),
        5 => (0, -1, 1),
        6 => (1, -1, 0),
        7 => (0, -1, -1),
        8 => (-1, 0, -1),
        9 => (-1, 0, 1),
        10 => (1, 0, 1),
        _ => (1, 0, -1),
    }
}

fn center_of_edge(center: i64, extent: i64, sign: i64) -> (r: Option<i64>)
    requires
        -1 <= sign <= 1,
    ensures
        r == if fits_i64(edge_center(center as int, extent as int, sign as int)) {
            Some(edge_center(center as int, extent as int, sign as int) as i64)
        } else {
            None
        },
{
    let shift: i128 = if sign < 0 {
        -(extent as i128)
    } else if sign == 0 {
        0
    } else {
        extent as i128
    };
    assert(shift == sign * extent) by (nonlinear_arith)
        requires
            -1 <= sign <= 1,
            shift == if sign < 0 {
                -extent
            } else if sign == 0 {
                0
            } else {
                extent as int
            },
    ;
    narrowed(2 * (center as i128) + shift)
}

fn extent_of_edge(extent: i64, scale: i64, sign: i64) -> (r: Option<i64>)
    ensures
        r == if fits_i64(edge_extent(extent as int, scale as int, sign as int)) {
            Some(edge_extent(extent as int, scale as int, sign as int) as i64)
        } else {
            None
        },
{
    if sign == 0 {
        narrowed(2 * (extent as i128))
    } else {
        let thin: i128 = 2 * (WIRE_WIDTH as i128);
        assert(thin * scale == 2 * WIRE_WIDTH * scale) by (nonlinear_arith)
            requires
                thin == 2 * WIRE_WIDTH,
        ;
        assert(2 * i64::MIN <= thin * scale <= 2 * i64::MAX) by (nonlinear_arith)
            requires
                thin == 2,
                i64::MIN <= scale <= i64::MAX,
        ;
        narrowed(thin * (scale as i128))
    }
}

/// Edge `i` of `cuboid`, or `Overflow` when it has a coordinate beyond `i64`.
fn edge_of(cuboid: &Cuboid, i: usize) -> (res: Result<Cuboid, GeometryError>)
    requires
        i < EDGE_COUNT,
    ensures
        match res {
            Ok(edge) => edge@ == wire_edge(cuboid@, i as int) && edge@.representable(),
            Err(e) => e == GeometryError::Overflow && !wire_edge(cuboid@, i as int).representable(),
        },
{
    let scale = cuboid.scale();
    let (sx, sy, sz) = position_of_edge(i);
    let x = center_of_edge(cuboid.x(), cuboid.w(), sx);
    let y = center_of_edge(cuboid.y(), cuboid.h(), sy);
    let z = center_of_edge(cuboid.z(), cuboid.d(), sz);
    let w = extent_of_edge(cuboid.w(), scale, sx);
    let h = extent_of_edge(cuboid.h(), scale, sy);
    let d = extent_of_edge(cuboid.d(), scale, sz);
    let fine = narrowed(2 * (scale as i128));
    match (x, y, z, w, h, d, fine) {
        (Some(x), Some(y), Some(z), Some(w), Some(h), Some(d), Some(fine)) => Cuboid::with_scale(
            x,
            y,
            z,
            w,
            h,
            d,
            fine,
        ),
        _ => Err(GeometryError::Overflow),
    }
}

/// Builds the wireframe of a box: twelve thin boxes, one along each edge,
/// each centred at the midpoint of its edge, as long as the edge and
/// `WIRE_WIDTH` thick. The first four go round the top face, the next four
/// round the bottom face, the last four are the uprights.
///
/// The result lives on the lattice twice as fine as that of `cuboid`. A box
/// with an extent that is not positive is refused, and so is one whose
/// wireframe has a coordinate beyond `i64`.
pub fn create_wireframe(cuboid: &Cuboid) -> (res: Result<Vec<Cuboid>, GeometryError>)
    ensures
        outcome_models(res) == wireframe_outcome(cuboid@),
        res matches Ok(edges) ==> edges@.len() == EDGE_COUNT && forall|i: int|
            0 <= i < EDGE_COUNT ==> (#[trigger] edges@[i])@ == wire_edge(cuboid@, i)
                && lies_along_edge(edges@[i]@, cuboid@, edge_position(i)),
{
    let ghost b = cuboid@;
    let scale = cuboid.scale();
    if cuboid.w() <= 0 || cuboid.h() <= 0 || cuboid.d() <= 0 {
        return Err(GeometryError::NonPositiveExtent);
    }
    let mut edges: Vec<Cuboid> = Vec::new();
    let mut i: usize = 0;
    while i < EDGE_COUNT
        invariant
            i <= EDGE_COUNT,
            b == cuboid@,
            b.scale > 0,
            b.has_positive_extents(),
            edges@.len() == i,
            forall|j: int| 0 <= j < i ==> (#[trigger] edges@[j])@ == wire_edge(b, j),
            forall|j: int| 0 <= j < i ==> (#[trigger] wire_edge(b, j)).representable(),
        decreases EDGE_COUNT - i,
    {
        let edge = edge_of(cuboid, i)?;
        edges.push(edge);
        i += 1;
    }
    proof {
        assert(models(edges@) =~= wireframe(b));
        assert forall|i: int| 0 <= i < EDGE_COUNT implies lies_along_edge(
            (#[trigger] edges@[i])@,
            b,
            edge_position(i),
        ) by {
            lemma_wire_edge_geometry(b, i);
        }
    }
    Ok(edges)
}

} // verus!
