use crate::cuboid::{fits_i64, models, narrowed, units, BoxModel, Cuboid};
use crate::error::GeometryError;
use crate::offsets::{
    keep, kept_before, kept_offsets, lemma_kept_before_ends, lemma_kept_before_step,
    lemma_kept_offsets_count, lemma_kept_position, nth_offset, Offset, CHILD_COUNT,
};
use crate::subdivision::{
    child, child_box, child_coordinate, children, generate_outcome, is_child_at,
    lemma_child_geometry, lemma_next_generation_fails, next_generation_outcome, BIAS, DIVISOR,
};
use crate::utils::{
    create_wireframe, lemma_wireframe_fits_box, wireframe, wireframe_fits, wireframe_outcome,
};
use vstd::prelude::*;

verus! {

/// Mathematical model of a cube of the fractal.
///
/// `x`, `y`, `z` and `len` count steps of the lattice of `cuboid`. The box and
/// the wireframe are made when the cube is; changing a coordinate or the
/// length afterwards leaves them as they were.
pub struct CubeModel {
    pub x: int,
    pub y: int,
    pub z: int,
    pub len: int,
    pub cuboid: BoxModel,
    pub wireframe: Seq<BoxModel>,
}

impl CubeModel {
    /// How many lattice steps make one unit.
    pub open spec fn scale(self) -> int {
        self.cuboid.scale
    }

    /// The x coordinate of the centre, in units.
    pub open spec fn center_x(self) -> real {
        units(self.x, self.scale())
    }

    /// The y coordinate of the centre, in units.
    pub open spec fn center_y(self) -> real {
        units(self.y, self.scale())
    }

    /// The z coordinate of the centre, in units.
    pub open spec fn center_z(self) -> real {
        units(self.z, self.scale())
    }

    /// The edge length, in units.
    pub open spec fn length(self) -> real {
        units(self.len, self.scale())
    }

    /// The face of the cube with the least x, in units.
    pub open spec fn low_x(self) -> real {
        self.center_x() - self.length() / 2real
    }

    /// The face of the cube with the greatest x, in units.
    pub open spec fn high_x(self) -> real {
        self.center_x() + self.length() / 2real
    }

    /// The face of the cube with the least y, in units.
    pub open spec fn low_y(self) -> real {
        self.center_y() - self.length() / 2real
    }

    /// The face of the cube with the greatest y, in units.
    pub open spec fn high_y(self) -> real {
        self.center_y() + self.length() / 2real
    }

    /// The face of the cube with the least z, in units.
    pub open spec fn low_z(self) -> real {
        self.center_z() - self.length() / 2real
    }

    /// The face of the cube with the greatest z, in units.
    pub open spec fn high_z(self) -> real {
        self.center_z() + self.length() / 2real
    }

    /// What holds of every cube: its wireframe is that of its box. With it,
    /// the scale and the extents of the box are positive.
    pub open spec fn well_formed(self) -> bool {
        wireframe_outcome(self.cuboid) == Ok::<Seq<BoxModel>, GeometryError>(self.wireframe)
    }

    /// The box is the one that the coordinates and the length describe. This
    /// holds of a cube as it is made.
    pub open spec fn in_sync(self) -> bool {
        self.cuboid == cube_box(self.x, self.y, self.z, self.len, self.scale())
    }
}

/// The box of a cube: centred where the cube is, `len` along every axis.
pub open spec fn cube_box(x: int, y: int, z: int, len: int, scale: int) -> BoxModel {
    BoxModel { x, y, z, w: len, h: len, d: len, scale }
}

/// The cube made from a centre, an edge length and a scale.
pub open spec fn cube_model(x: int, y: int, z: int, len: int, scale: int) -> CubeModel {
    CubeModel {
        x,
        y,
        z,
        len,
        cuboid: cube_box(x, y, z, len, scale),
        wireframe: wireframe(cube_box(x, y, z, len, scale)),
    }
}

/// What making a cube answers.
pub open spec fn cube_outcome(x: int, y: int, z: int, len: int, scale: int) -> Result<
    CubeModel,
    GeometryError,
> {
    if scale <= 0 {
        Err(GeometryError::NonPositiveScale)
    } else if len <= 0 {
        Err(GeometryError::NonPositiveExtent)
    } else if !wireframe_fits(cube_box(x, y, z, len, scale)) {
        Err(GeometryError::Overflow)
    } else {
        Ok(cube_model(x, y, z, len, scale))
    }
}

/// The outcome of a construction of cubes, with models in place of the cubes.
pub open spec fn generation_models(res: Result<Vec<Cube>, GeometryError>) -> Result<
    Seq<CubeModel>,
    GeometryError,
> {
    match res {
        Ok(cubes) => Ok(cube_models(cubes@)),
        Err(e) => Err(e),
    }
}

/// The first `k` positions have been visited and `cubes` holds the children
/// at the kept ones, all of which fit.
spec fn visited(p: CubeModel, cubes: Seq<Cube>, k: int) -> bool {
    &&& cubes.len() == kept_before(k).len()
    &&& forall|j: int|
        0 <= j < cubes.len() ==> (#[trigger] cubes[j])@ == child(p, kept_before(k)[j])
    &&& forall|j: int|
        0 <= j < kept_before(k).len() ==> wireframe_fits(
            #[trigger] child_box(p, kept_before(k)[j]),
        )
}

/// The models of a sequence of cubes, in the same order.
pub open spec fn cube_models(cubes: Seq<Cube>) -> Seq<CubeModel> {
    cubes.map_values(|c: Cube| c@)
}

/// A box together with its wireframe, which is made with the box and never
/// changed.
#[derive(Debug)]
struct Frame {
    cuboid: Cuboid,
    wireframe: Vec<Cuboid>,
}

impl Frame {
    #[verifier::type_invariant]
    spec fn valid(self) -> bool {
        wireframe_outcome(self.cuboid@) == Ok::<Seq<BoxModel>, GeometryError>(
            models(self.wireframe@),
        )
    }

    /// Makes the wireframe of `cuboid` and keeps it with the box.
    fn new(cuboid: Cuboid) -> (res: Result<Frame, GeometryError>)
        ensures
            match res {
                Ok(frame) => frame.cuboid == cuboid && wireframe_outcome(cuboid@) == Ok::<
                    Seq<BoxModel>,
                    GeometryError,
                >(models(frame.wireframe@)),
                Err(e) => wireframe_outcome(cuboid@) == Err::<Seq<BoxModel>, GeometryError>(e),
            },
    {
        let wireframe = create_wireframe(&cuboid)?;
        Ok(Frame { cuboid, wireframe })
    }
}

/// One cell of the fractal: a cube with exact coordinates, together with its
/// box and the wireframe of that box.
#[derive(Debug)]
pub struct Cube {
    x: i64,
    y: i64,
    z: i64,
    len: i64,
    frame: Frame,
}

impl View for Cube {
    type V = CubeModel;

    closed spec fn view(&self) -> CubeModel {
        CubeModel {
            x: self.x as int,
            y: self.y as int,
            z: self.z as int,
            len: self.len as int,
            cuboid: self.frame.cuboid@,
            wireframe: models(self.frame.wireframe@),
        }
    }
}

/// The outcome of making a cube, with the model in place of the cube.
pub open spec fn cube_outcome_model(res: Result<Cube, GeometryError>) -> Result<
    CubeModel,
    GeometryError,
> {
    match res {
        Ok(cube) => Ok(cube@),
        Err(e) => Err(e),
    }
}

impl Cube {
    /// A cube on the unit lattice, centred at `(x, y, z)` with edges of
    /// length `len`, with its box and wireframe.
    pub fn new(x: i64, y: i64, z: i64, len: i64) -> (res: Result<Cube, GeometryError>)
        ensures
            cube_outcome_model(res) == cube_outcome(x as int, y as int, z as int, len as int, 1),
            res matches Ok(cube) ==> cube@.well_formed() && cube@.in_sync(),
    {
        Cube::with_scale(x, y, z, len, 1)
    }

    /// A cube on the lattice of `scale` steps per unit, centred at
    /// `(x, y, z)` with edges of `len`, all in steps.
    ///
    /// A scale or a length that is not positive is refused, and so is a cube
    /// whose wireframe has a coordinate beyond `i64`.
    pub fn with_scale(x: i64, y: i64, z: i64, len: i64, scale: i64) -> (res: Result<
        Cube,
        GeometryError,
    >)
        ensures
            cube_outcome_model(res) == cube_outcome(
                x as int,
                y as int,
                z as int,
                len as int,
                scale as int,
            ),
            res matches Ok(cube) ==> cube@.well_formed() && cube@.in_sync(),
    {
        let cuboid = Cuboid::with_scale(x, y, z, len, len, len, scale)?;
        let frame = Frame::new(cuboid)?;
        Ok(Cube { x, y, z, len, frame })
    }

    /// One coordinate of a child's centre, or `None` when it does not fit.
    fn coordinate_of_child(center: i64, len: i64, scale: i64, sign: i64) -> (r: Option<i64>)
        requires
            -1 <= sign <= 1,
        ensures
            r == if fits_i64(child_coordinate(center as int, len as int, scale as int, sign as int)) {
                Some(
                    child_coordinate(center as int, len as int, scale as int, sign as int) as i64,
                )
            } else {
                None
            },
    {
        let shift: i128 = if sign < 0 {
            -(len as i128)
        } else if sign == 0 {
            0
        } else {
            len as i128
        };
        assert(shift == sign * len) by (nonlinear_arith)
            requires
                -1 <= sign <= 1,
                shift == if sign < 0 {
                    -len
                } else if sign == 0 {
                    0
                } else {
                    len as int
                },
        ;
        let bias: i128 = (DIVISOR as i128) * (BIAS as i128);
        assert(bias * scale == DIVISOR * BIAS * scale) by (nonlinear_arith)
            requires
                bias == DIVISOR * BIAS,
        ;
        assert(30 * i64::MIN <= bias * scale <= 30 * i64::MAX) by (nonlinear_arith)
            requires
                bias == 30,
                i64::MIN <= scale <= i64::MAX,
        ;
        narrowed((DIVISOR as i128) * (center as i128) + shift + bias * (scale as i128))
    }

    /// The child at position `(ox, oy, oz)`, or `Overflow` when it does not
    /// fit.
    fn child_at(&self, ox: i64, oy: i64, oz: i64) -> (res: Result<Cube, GeometryError>)
        requires
            -1 <= ox <= 1,
            -1 <= oy <= 1,
            -1 <= oz <= 1,
            self@.len > 0,
        ensures
            cube_outcome_model(res) == if wireframe_fits(
                child_box(self@, Offset { x: ox as int, y: oy as int, z: oz as int }),
            ) {
                Ok::<CubeModel, GeometryError>(
                    child(self@, Offset { x: ox as int, y: oy as int, z: oz as int }),
                )
            } else {
                Err::<CubeModel, GeometryError>(GeometryError::Overflow)
            },
    {
        let ghost b = child_box(self@, Offset { x: ox as int, y: oy as int, z: oz as int });
        let scale = self.scale();
        proof {
            if wireframe_fits(b) {
                lemma_wireframe_fits_box(b);
            }
        }
        let x = Cube::coordinate_of_child(self.x, self.len, scale, ox);
        let y = Cube::coordinate_of_child(self.y, self.len, scale, oy);
        let z = Cube::coordinate_of_child(self.z, self.len, scale, oz);
        let fine = scale.checked_mul(DIVISOR);
        match (x, y, z, fine) {
            (Some(x), Some(y), Some(z), Some(fine)) => Cube::with_scale(x, y, z, self.len, fine),
            _ => Err(GeometryError::Overflow),
        }
    }

    /// The next generation of this cube: its twenty children.
    ///
    /// The positions `(ox, oy, oz)` with each component in `-1..=1` are
    /// visited with x changing slowest and z fastest. Where the Manhattan norm
    /// of the position is more than one, a child is made: its edge is a third
    /// of this cube's, and its centre is this cube's, moved by the child's
    /// edge length along each axis as the position says, plus `BIAS` on every
    /// axis. The children live on the lattice three times as fine.
    ///
    /// A cube whose length is not positive is refused, and so is one with a
    /// child that has a coordinate beyond `i64`.
    pub fn generate(&self) -> (res: Result<Vec<Cube>, GeometryError>)
        ensures
            generation_models(res) == generate_outcome(self@),
            res matches Ok(cubes) ==> cubes@.len() == CHILD_COUNT && forall|i: int|
                0 <= i < CHILD_COUNT ==> (#[trigger] cubes@[i])@ == child(self@, kept_offsets()[i])
                    && is_child_at(cubes@[i]@, self@, kept_offsets()[i]),
    {
        let ghost p = self@;
        if self.len <= 0 {
            return Err(GeometryError::NonPositiveExtent);
        }
        let mut new_generation: Vec<Cube> = Vec::new();
        proof {
            use_type_invariant(&self.frame);
            lemma_kept_before_ends();
        }
        let mut ox: i64 = -1;
        while ox < 2
            invariant
                -1 <= ox <= 2,
                p == self@,
                p.len > 0,
                p.scale() > 0,
                visited(p, new_generation@, 9 * (ox + 1)),
            decreases 2 - ox,
        {
            let mut oy: i64 = -1;
            while oy < 2
                invariant
                    -1 <= ox < 2,
                    -1 <= oy <= 2,
                    p == self@,
                    p.len > 0,
                    visited(p, new_generation@, 9 * (ox + 1) + 3 * (oy + 1)),
                decreases 2 - oy,
            {
                let mut oz: i64 = -1;
                while oz < 2
                    invariant
                        -1 <= ox < 2,
                        -1 <= oy < 2,
                        -1 <= oz <= 2,
                        p == self@,
                        p.len > 0,
                        visited(p, new_generation@, 9 * (ox + 1) + 3 * (oy + 1) + (oz + 1)),
                    decreases 2 - oz,
                {
                    let ghost k = 9 * (ox + 1) + 3 * (oy + 1) + (oz + 1);
                    let ghost o = Offset { x: ox as int, y: oy as int, z: oz as int };
                    proof {
                        assert(nth_offset(k) == o);
                        lemma_kept_before_step(k);
                    }
                    if keep(ox, oy, oz) {
                        match self.child_at(ox, oy, oz) {
                            Ok(cube) => {
                                new_generation.push(cube);
                            },
                            Err(e) => {
                                proof {
                                    let i = lemma_kept_position(k);
                                    assert(!wireframe_fits(child_box(p, kept_offsets()[i])));
                                }
                                return Err(e);
                            },
                        }
                    }
                    oz += 1;
                }
                oy += 1;
            }
            ox += 1;
        }
        proof {
            lemma_kept_offsets_count();
            assert(cube_models(new_generation@) =~= children(p));
            assert forall|i: int| 0 <= i < CHILD_COUNT implies is_child_at(
                (#[trigger] new_generation@[i])@,
                p,
                kept_offsets()[i],
            ) by {
                lemma_child_geometry(p, kept_offsets()[i]);
            }
        }
        Ok(new_generation)
    }

    /// The centre's x coordinate, in steps.
    pub fn x(&self) -> (r: i64)
        ensures
            r == self@.x,
    {
        self.x
    }

    /// The centre's y coordinate, in steps.
    pub fn y(&self) -> (r: i64)
        ensures
            r == self@.y,
    {
        self.y
    }

    /// The centre's z coordinate, in steps.
    pub fn z(&self) -> (r: i64)
        ensures
            r == self@.z,
    {
        self.z
    }

    /// The edge length, in steps.
    pub fn len(&self) -> (r: i64)
        ensures
            r == self@.len,
    {
        self.len
    }

    /// How many steps make one unit. Always positive.
    pub fn scale(&self) -> (r: i64)
        ensures
            r == self@.scale(),
            r > 0,
    {
        self.frame.cuboid.scale()
    }

    /// The box made with the cube.
    pub fn cuboid(&self) -> (r: Cuboid)
        ensures
            r@ == self@.cuboid,
    {
        self.frame.cuboid
    }

    /// The centre's x coordinate, to be changed in place. The box and the wireframe stay as
    /// they are.
    pub fn x_mut(&mut self) -> (r: &mut i64)
        ensures
            *r == old(self)@.x,
            final(self)@ == (CubeModel { x: *final(r) as int, ..old(self)@ }),
    {
        &mut self.x
    }

    /// The centre's y coordinate, to be changed in place. The box and the wireframe stay as
    /// they are.
    pub fn y_mut(&mut self) -> (r: &mut i64)
        ensures
            *r == old(self)@.y,
            final(self)@ == (CubeModel { y: *final(r) as int, ..old(self)@ }),
    {
        &mut self.y
    }

    /// The centre's z coordinate, to be changed in place. The box and the wireframe stay as
    /// they are.
    pub fn z_mut(&mut self) -> (r: &mut i64)
        ensures
            *r == old(self)@.z,
            final(self)@ == (CubeModel { z: *final(r) as int, ..old(self)@ }),
    {
        &mut self.z
    }

    /// The edge length, to be changed in place. The box and the wireframe stay as
    /// they are.
    pub fn len_mut(&mut self) -> (r: &mut i64)
        ensures
            *r == old(self)@.len,
            final(self)@ == (CubeModel { len: *final(r) as int, ..old(self)@ }),
    {
        &mut self.len
    }

    /// Moves the centre along x. The box and the wireframe stay as they are.
    pub fn set_x(&mut self, x: i64)
        ensures
            final(self)@ == (CubeModel { x: x as int, ..old(self)@ }),
    {
        self.x = x;
    }

    /// Moves the centre along y. The box and the wireframe stay as they are.
    pub fn set_y(&mut self, y: i64)
        ensures
            final(self)@ == (CubeModel { y: y as int, ..old(self)@ }),
    {
        self.y = y;
    }

    /// Moves the centre along z. The box and the wireframe stay as they are.
    pub fn set_z(&mut self, z: i64)
        ensures
            final(self)@ == (CubeModel { z: z as int, ..old(self)@ }),
    {
        self.z = z;
    }

    /// Changes the edge length. The box and the wireframe stay as they are.
    pub fn set_len(&mut self, len: i64)
        ensures
            final(self)@ == (CubeModel { len: len as int, ..old(self)@ }),
    {
        self.len = len;
    }

    /// The wireframe made with the cube: the twelve edge boxes of its box.
    pub fn wireframe(&self) -> (r: &[Cuboid])
        ensures
            models(r@) == self@.wireframe,
            self@.well_formed(),
    {
        proof {
            use_type_invariant(&self.frame);
        }
        self.frame.wireframe.as_slice()
    }
}

impl Frame {
    /// The same box with a copy of its wireframe.
    fn duplicate(&self) -> (res: Frame)
        ensures
            res.cuboid == self.cuboid,
            models(res.wireframe@) == models(self.wireframe@),
    {
        proof {
            use_type_invariant(self);
        }
        let mut wireframe: Vec<Cuboid> = Vec::new();
        let mut i: usize = 0;
        while i < self.wireframe.len()
            invariant
                i <= self.wireframe@.len(),
                wireframe@ == self.wireframe@.take(i as int),
            decreases self.wireframe@.len() - i,
        {
            wireframe.push(self.wireframe[i]);
            assert(wireframe@ =~= self.wireframe@.take(i + 1));
            i += 1;
        }
        assert(wireframe@ =~= self.wireframe@);
        Frame { cuboid: self.cuboid, wireframe }
    }
}

impl Clone for Cube {
    /// A cube with the same model.
    fn clone(&self) -> (res: Cube)
        ensures
            res@ == self@,
    {
        Cube { x: self.x, y: self.y, z: self.z, len: self.len, frame: self.frame.duplicate() }
    }
}

/// A button of a pointing device.
#[derive(Clone, Copy, Debug, PartialEq, Eq, Structural)]
pub enum MouseButton {
    Left,
    Right,
    Middle,
    Other,
}

/// What the space is told of the outside world.
#[derive(Clone, Copy, Debug, PartialEq, Eq, Structural)]
pub enum Event {
    /// A button of the pointing device went down.
    MousePressed(MouseButton),
    /// Anything else.
    Other,
}

impl Event {
    /// The event that makes the space subdivide: the left button going down.
    pub open spec fn triggers_subdivision(self) -> bool {
        self == Event::MousePressed(MouseButton::Left)
    }
}

/// Subdivides every cube of a generation: the result holds the children of
/// the first cube, then those of the second, and so on. Where a cube cannot
/// be subdivided, the error of the first such cube is returned.
pub fn next_generation(cubes: &[Cube]) -> (res: Result<Vec<Cube>, GeometryError>)
    ensures
        generation_models(res) == next_generation_outcome(cube_models(cubes@)),
{
    let ghost all = cube_models(cubes@);
    let mut next: Vec<Cube> = Vec::new();
    let mut i: usize = 0;
    assert(cube_models(next@) =~= Seq::<CubeModel>::empty());
    assert(all.take(0) =~= Seq::<CubeModel>::empty());
    while i < cubes.len()
        invariant
            i <= cubes@.len(),
            all == cube_models(cubes@),
            next_generation_outcome(all.take(i as int)) == Ok::<Seq<CubeModel>, GeometryError>(
                cube_models(next@),
            ),
        decreases cubes@.len() - i,
    {
        let ghost earlier = cube_models(next@);
        proof {
            assert(all.take(i + 1).drop_last() =~= all.take(i as int));
            assert(all.take(i + 1).last() == cubes@[i as int]@);
        }
        match cubes[i].generate() {
            Ok(mut children) => {
                let ghost added = cube_models(children@);
                next.append(&mut children);
                assert(cube_models(next@) =~= earlier + added);
            },
            Err(e) => {
                proof {
                    lemma_next_generation_fails(all, i as int);
                }
                return Err(e);
            },
        }
        i += 1;
    }
    assert(all.take(i as int) =~= all);
    Ok(next)
}

/// The fractal as it stands: the cubes of the current generation.
#[derive(Debug)]
pub struct Space {
    cubes: Vec<Cube>,
}

impl View for Space {
    type V = Seq<CubeModel>;

    closed spec fn view(&self) -> Seq<CubeModel> {
        cube_models(self.cubes@)
    }
}

impl Space {
    /// A space that holds `cubes`.
    pub fn new(cubes: Vec<Cube>) -> (space: Space)
        ensures
            space@ == cube_models(cubes@),
    {
        Space { cubes }
    }

    /// The cubes of the current generation.
    pub fn cubes(&self) -> (r: &[Cube])
        ensures
            cube_models(r@) == self@,
    {
        self.cubes.as_slice()
    }

    /// The cubes of the current generation, to be changed in place.
    pub fn cubes_mut(&mut self) -> (r: &mut Vec<Cube>)
        ensures
            cube_models(r@) == old(self)@,
            final(self)@ == cube_models(final(r)@),
    {
        &mut self.cubes
    }

    /// Replaces the cubes.
    pub fn set_cubes(&mut self, cubes: Vec<Cube>)
        ensures
            final(self)@ == cube_models(cubes@),
    {
        self.cubes = cubes;
    }

    /// Takes note of an event. When the left button goes down, the cubes are
    /// replaced by their next generation; where that cannot be made, the
    /// error is returned and the cubes stay. Any other event changes nothing.
    pub fn event(&mut self, event: Event) -> (res: Result<(), GeometryError>)
        ensures
            !event.triggers_subdivision() ==> res is Ok && final(self)@ == old(self)@,
            event.triggers_subdivision() ==> match next_generation_outcome(old(self)@) {
                Ok(next) => res is Ok && final(self)@ == next,
                Err(e) => res == Err::<(), GeometryError>(e) && final(self)@ == old(self)@,
            },
    {
        if let Event::MousePressed(mouse_button) = event {
            if let MouseButton::Left = mouse_button {
                let cubes = next_generation(self.cubes())?;
                self.set_cubes(cubes);
            }
        }
        Ok(())
    }
}

} // verus!
