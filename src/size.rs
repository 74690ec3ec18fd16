use vstd::prelude::*;

verus! {

/// The two scales at which a splatter can be drawn.
#[derive(Clone, Copy, Debug, PartialEq, Eq, Structural)]
pub enum SplatterSize {
    Regular,
    Large,
}

/// Half of the drawn extent of a bitmap of the given size, in pixels.
pub open spec fn half_extent(size: SplatterSize) -> int {
    match size {
        SplatterSize::Regular => 120,
        SplatterSize::Large => 200,
    }
}

/// Position of a size variant among the frame sets of one effect.
pub open spec fn size_slot(size: SplatterSize) -> nat {
    match size {
        SplatterSize::Regular => 0,
        SplatterSize::Large => 1,
    }
}

/// One coordinate of the top-left corner at which a bitmap of `size` is
/// drawn so that it is centred on the whole-pixel coordinate `v`, held at
/// the least `i64` where it would fall below it.
pub open spec fn anchor_coord(v: int, size: SplatterSize) -> int {
    if v - half_extent(size) < i64::MIN {
        i64::MIN as int
    } else {
        v - half_extent(size)
    }
}

/// The top-left corner at which a bitmap of `size` is drawn centred on the
/// pixel `(x, y)`.
pub open spec fn anchor_of(x: int, y: int, size: SplatterSize) -> (int, int) {
    (anchor_coord(x, size), anchor_coord(y, size))
}

impl SplatterSize {
    /// The half extent of this size variant.
    pub fn half_extent(&self) -> (r: i64)
        ensures
            r == half_extent(*self),
    {
        match self {
            SplatterSize::Regular => 120,
            SplatterSize::Large => 200,
        }
    }
}

fn anchor_coord_of(v: i64, size: &SplatterSize) -> (r: i64)
    ensures
        r as int == anchor_coord(v as int, *size),
{
    let half = size.half_extent();
    if v < i64::MIN + half {
        i64::MIN
    } else {
        v - half
    }
}

/// Anchor for a target pixel: the target's coordinates, already floored to
/// whole pixels, less the half extent of the size variant, held at the least
/// `i64` as a saturating conversion from a float would be.
pub fn anchor(x: i64, y: i64, size: &SplatterSize) -> (r: (i64, i64))
    ensures
        (r.0 as int, r.1 as int) == anchor_of(x as int, y as int, *size),
{
    (anchor_coord_of(x, size), anchor_coord_of(y, size))
}

} // verus!
