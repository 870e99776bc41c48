use vstd::prelude::*;

verus! {

/// A point of glyph space with integer coordinates.
#[derive(Clone, Copy, Debug, PartialEq, Eq, Structural, Hash)]
pub struct IPoint {
    pub x: i64,
    pub y: i64,
}

/// The identity of one control point of an outline. It stays the same while
/// the point moves; two live points never share it.
#[derive(Clone, Copy, Debug, PartialEq, Eq, Structural, Hash)]
pub struct PointId(pub u128);

/// The coordinate of `p` on one axis: `x` when `x_axis` holds, else `y`.
pub open spec fn coord(p: IPoint, x_axis: bool) -> int {
    if x_axis {
        p.x as int
    } else {
        p.y as int
    }
}

/// The square of the Euclidean distance between `a` and `b`.
pub open spec fn dist2(a: IPoint, b: IPoint) -> int {
    (a.x - b.x) * (a.x - b.x) + (a.y - b.y) * (a.y - b.y)
}

/// `p` lies in the closed disc around `center`. A negative radius holds no
/// point at all.
pub open spec fn within_radius(p: IPoint, center: IPoint, radius: int) -> bool {
    radius >= 0 && dist2(p, center) <= radius * radius
}

/// The smaller of two numbers.
pub open spec fn min_int(a: int, b: int) -> int {
    if a <= b {
        a
    } else {
        b
    }
}

/// The greater of two numbers.
pub open spec fn max_int(a: int, b: int) -> int {
    if a <= b {
        b
    } else {
        a
    }
}

/// `p` lies in the axis-aligned rectangle spanned by the corners `a` and `b`,
/// borders included. Which corner is which does not matter.
pub open spec fn in_rectangle(p: IPoint, a: IPoint, b: IPoint) -> bool {
    &&& min_int(a.x as int, b.x as int) <= p.x <= max_int(a.x as int, b.x as int)
    &&& min_int(a.y as int, b.y as int) <= p.y <= max_int(a.y as int, b.y as int)
}

/// A point off by more than the radius on one axis is outside the disc.
pub proof fn lemma_far_on_axis_is_outside(p: IPoint, center: IPoint, radius: int, x_axis: bool)
    requires
        radius >= 0,
        coord(p, x_axis) - coord(center, x_axis) > radius || coord(center, x_axis) - coord(
            p,
            x_axis,
        ) > radius,
    ensures
        !within_radius(p, center, radius),
{
    let dx = p.x - center.x;
    let dy = p.y - center.y;
    assert(dx * dx >= 0) by (nonlinear_arith);
    assert(dy * dy >= 0) by (nonlinear_arith);
    if x_axis {
        assert(dx * dx > radius * radius) by (nonlinear_arith)
            requires
                radius >= 0,
                dx > radius || -dx > radius,
        ;
    } else {
        assert(dy * dy > radius * radius) by (nonlinear_arith)
            requires
                radius >= 0,
                dy > radius || -dy > radius,
        ;
    }
}

/// A disc of radius 0 holds its centre and nothing else.
pub proof fn lemma_zero_radius_is_the_centre(p: IPoint, center: IPoint)
    ensures
        within_radius(p, center, 0) <==> p == center,
{
    let dx = p.x - center.x;
    let dy = p.y - center.y;
    assert(dx * dx + dy * dy <= 0 <==> dx == 0 && dy == 0) by (nonlinear_arith);
}

impl IPoint {
    pub fn new(x: i64, y: i64) -> (p: Self)
        ensures
            p == (IPoint { x, y }),
    {
        IPoint { x, y }
    }

    /// The point moved by `(dx, dy)`, each coordinate held inside the range
    /// of `i64`.
    pub fn moved_by(self, dx: i64, dy: i64) -> (p: Self)
        ensures
            p == shifted(self, dx as int, dy as int),
    {
        IPoint { x: add_clamped(self.x, dx), y: add_clamped(self.y, dy) }
    }

    /// The squared distance from `self` to `center` where `self` lies within
    /// `radius` of it, and `None` where it does not.
    pub fn radial_distance(self, center: IPoint, radius: i64) -> (d: Option<u128>)
        ensures
            within_radius(self, center, radius as int) ==> d == Some(dist2(self, center) as u128),
            !within_radius(self, center, radius as int) ==> d.is_none(),
            d.is_some() ==> d.unwrap() as int == dist2(self, center),
    {
        if radius < 0 {
            return None;
        }
        let dx: i128 = self.x as i128 - center.x as i128;
        let dy: i128 = self.y as i128 - center.y as i128;
        let r: i128 = radius as i128;
        if dx > r || dx < -r {
            proof {
                lemma_far_on_axis_is_outside(self, center, radius as int, true);
            }
            return None;
        }
        if dy > r || dy < -r {
            proof {
                lemma_far_on_axis_is_outside(self, center, radius as int, false);
            }
            return None;
        }
        assert(0 <= dx * dx <= r * r && 0 <= dy * dy <= r * r && r * r
            <= 0x3fff_ffff_ffff_ffff_0000_0000_0000_0001) by (nonlinear_arith)
            requires
                -r <= dx <= r,
                -r <= dy <= r,
                0 <= r <= 0x7fff_ffff_ffff_ffff,
        ;
        let d2: i128 = dx * dx + dy * dy;
        if d2 <= r * r {
            Some(d2 as u128)
        } else {
            None
        }
    }

    /// Whether `self` lies in the rectangle spanned by `a` and `b`.
    pub fn is_in_rectangle(self, a: IPoint, b: IPoint) -> (inside: bool)
        ensures
            inside == in_rectangle(self, a, b),
    {
        let (lo_x, hi_x) = if a.x <= b.x {
            (a.x, b.x)
        } else {
            (b.x, a.x)
        };
        let (lo_y, hi_y) = if a.y <= b.y {
            (a.y, b.y)
        } else {
            (b.y, a.y)
        };
        lo_x <= self.x && self.x <= hi_x && lo_y <= self.y && self.y <= hi_y
    }
}

/// `v` held inside the range of `i64`.
pub open spec fn clamp_i64(v: int) -> int {
    if v < i64::MIN {
        i64::MIN as int
    } else if v > i64::MAX {
        i64::MAX as int
    } else {
        v
    }
}

/// `p` moved by `(dx, dy)`, each coordinate held inside the range of `i64`.
pub open spec fn shifted(p: IPoint, dx: int, dy: int) -> IPoint {
    IPoint { x: clamp_i64(p.x + dx) as i64, y: clamp_i64(p.y + dy) as i64 }
}

/// The sum of `a` and `b`, held inside the range of `i64`.
pub fn add_clamped(a: i64, b: i64) -> (s: i64)
    ensures
        s == clamp_i64(a + b),
{
    let wide: i128 = a as i128 + b as i128;
    if wide < i64::MIN as i128 {
        i64::MIN
    } else if wide > i64::MAX as i128 {
        i64::MAX
    } else {
        wide as i64
    }
}

/// The difference of `a` and `b`, held inside the range of `i64`.
pub fn sub_clamped(a: i64, b: i64) -> (s: i64)
    ensures
        s == clamp_i64(a - b),
{
    let wide: i128 = a as i128 - b as i128;
    if wide < i64::MIN as i128 {
        i64::MIN
    } else if wide > i64::MAX as i128 {
        i64::MAX
    } else {
        wide as i64
    }
}

} // verus!
