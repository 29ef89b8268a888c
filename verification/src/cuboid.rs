use crate::error::GeometryError;
use vstd::prelude::*;

verus! {

/// Mathematical model of an axis-aligned box on a lattice.
///
/// All six numbers count lattice steps, and `scale` steps make one unit of
/// length: the box is centred at `(x, y, z) / scale` and measures
/// `(w, h, d) / scale`.
pub struct BoxModel {
    pub x: int,
    pub y: int,
    pub z: int,
    pub w: int,
    pub h: int,
    pub d: int,
    pub scale: int,
}

/// `steps` lattice steps, on a lattice of `scale` steps per unit, as a length.
pub open spec fn units(steps: int, scale: int) -> real {
    steps as real / scale as real
}

/// Whether `v` can be held in an `i64`.
pub open spec fn fits_i64(v: int) -> bool {
    i64::MIN <= v <= i64::MAX
}

/// `v` as an `i64`, or `None` when it does not fit.
pub(crate) fn narrowed(v: i128) -> (r: Option<i64>)
    ensures
        r == if fits_i64(v as int) {
            Some(v as i64)
        } else {
            None
        },
{
    if v < i64::MIN as i128 || v > i64::MAX as i128 {
        None
    } else {
        Some(v as i64)
    }
}

impl BoxModel {
    /// The x coordinate of the centre, in units.
    pub open spec fn center_x(self) -> real {
        units(self.x, self.scale)
    }

    /// The y coordinate of the centre, in units.
    pub open spec fn center_y(self) -> real {
        units(self.y, self.scale)
    }

    /// The z coordinate of the centre, in units.
    pub open spec fn center_z(self) -> real {
        units(self.z, self.scale)
    }

    /// The extent along x, in units.
    pub open spec fn width(self) -> real {
        units(self.w, self.scale)
    }

    /// The extent along y, in units.
    pub open spec fn height(self) -> real {
        units(self.h, self.scale)
    }

    /// The extent along z, in units.
    pub open spec fn depth(self) -> real {
        units(self.d, self.scale)
    }

    /// All three extents are strictly positive.
    pub open spec fn has_positive_extents(self) -> bool {
        self.w > 0 && self.h > 0 && self.d > 0
    }

    /// Every number of the model can be held in an `i64`.
    pub open spec fn representable(self) -> bool {
        &&& fits_i64(self.x)
        &&& fits_i64(self.y)
        &&& fits_i64(self.z)
        &&& fits_i64(self.w)
        &&& fits_i64(self.h)
        &&& fits_i64(self.d)
        &&& fits_i64(self.scale)
    }
}

/// The models of a sequence of boxes, in the same order.
pub open spec fn models(boxes: Seq<Cuboid>) -> Seq<BoxModel> {
    boxes.map_values(|b: Cuboid| b@)
}

/// An axis-aligned box with exact coordinates.
///
/// Centre and extents are whole numbers of lattice steps; `scale` says how
/// many steps make one unit. The scale is always positive.
#[derive(Clone, Copy, Debug, PartialEq, Eq, Structural)]
pub struct Cuboid {
    x: i64,
    y: i64,
    z: i64,
    w: i64,
    h: i64,
    d: i64,
    scale: i64,
}

impl View for Cuboid {
    type V = BoxModel;

    closed spec fn view(&self) -> BoxModel {
        BoxModel {
            x: self.x as int,
            y: self.y as int,
            z: self.z as int,
            w: self.w as int,
            h: self.h as int,
            d: self.d as int,
            scale: self.scale as int,
        }
    }
}

impl Cuboid {
    #[verifier::type_invariant]
    spec fn positive_scale(self) -> bool {
        self.scale > 0
    }

    /// A box on the unit lattice, from its centre and its extents.
    pub fn from_x_y_z_w_h_d(x: i64, y: i64, z: i64, w: i64, h: i64, d: i64) -> (cuboid: Cuboid)
        ensures
            cuboid@ == (BoxModel { x: x as int, y: y as int, z: z as int, w: w as int, h: h as int, d: d as int, scale: 1 }),
    {
        Cuboid { x, y, z, w, h, d, scale: 1 }
    }

    /// A box on the lattice of `scale` steps per unit, from its centre and
    /// its extents in steps. Refused when `scale` is not positive.
    pub fn with_scale(x: i64, y: i64, z: i64, w: i64, h: i64, d: i64, scale: i64) -> (res: Result<
        Cuboid,
        GeometryError,
    >)
        ensures
            scale > 0 ==> res is Ok && res->Ok_0@ == (BoxModel {
                x: x as int,
                y: y as int,
                z: z as int,
                w: w as int,
                h: h as int,
                d: d as int,
                scale: scale as int,
            }),
            scale <= 0 ==> res == Err::<Cuboid, GeometryError>(GeometryError::NonPositiveScale),
    {
        if scale <= 0 {
            Err(GeometryError::NonPositiveScale)
        } else {
            Ok(Cuboid { x, y, z, w, h, d, scale })
        }
    }

    /// The centre's x coordinate, in steps.
    pub fn x(&self) -> (r: i64)
        ensures
            r == self@.x,
    {
        self.x
    }

    /// The centre's y coordinate, in steps.
    pub fn y(&self) -> (r: i64)
        ensures
            r == self@.y,
    {
        self.y
    }

    /// The centre's z coordinate, in steps.
    pub fn z(&self) -> (r: i64)
        ensures
            r == self@.z,
    {
        self.z
    }

    /// The extent along x, in steps.
    pub fn w(&self) -> (r: i64)
        ensures
            r == self@.w,
    {
        self.w
    }

    /// The extent along y, in steps.
    pub fn h(&self) -> (r: i64)
        ensures
            r == self@.h,
    {
        self.h
    }

    /// The extent along z, in steps.
    pub fn d(&self) -> (r: i64)
        ensures
            r == self@.d,
    {
        self.d
    }

    /// How many steps make one unit. Always positive.
    pub fn scale(&self) -> (r: i64)
        ensures
            r == self@.scale,
            r > 0,
    {
        proof {
            use_type_invariant(self);
        }
        self.scale
    }
}

} // verus!
