use crate::points::{IPoint, PointId};
use vstd::prelude::*;

verus! {

/// One point of a curve: its identity and where it is.
#[derive(Clone, Copy, Debug, PartialEq, Eq, Structural)]
pub struct CurvePoint {
    pub id: PointId,
    pub position: IPoint,
}

/// A straight segment (two points) or a Bézier segment (three points:
/// quadratic, four: cubic).
#[derive(Clone, Debug, PartialEq, Eq)]
pub struct Curve {
    pub points: Vec<CurvePoint>,
}

/// An ordered sequence of curves that forms one connected piece of an
/// outline.
#[derive(Clone, Debug, PartialEq, Eq)]
pub struct Contour {
    pub curves: Vec<Curve>,
}

impl View for Curve {
    type V = Seq<CurvePoint>;

    open spec fn view(&self) -> Seq<CurvePoint> {
        self.points@
    }
}

impl View for Contour {
    type V = Seq<Seq<CurvePoint>>;

    open spec fn view(&self) -> Seq<Seq<CurvePoint>> {
        self.curves@.map_values(|curve: Curve| curve@)
    }
}

/// An outline as plain data: contours, their curves, and the points of each.
pub open spec fn outline_model(contours: Seq<Contour>) -> Seq<Seq<Seq<CurvePoint>>> {
    contours.map_values(|contour: Contour| contour@)
}

/// The place `(c, v, k)` holds a control point: point `k` of curve `v` of
/// contour `c`, in a curve of at least two points. Shorter curves have no
/// control points.
pub open spec fn registered(o: Seq<Seq<Seq<CurvePoint>>>, c: int, v: int, k: int) -> bool {
    &&& 0 <= c < o.len()
    &&& 0 <= v < o[c].len()
    &&& 2 <= o[c][v].len()
    &&& 0 <= k < o[c][v].len()
}

/// No curve has more than four points.
pub open spec fn curves_supported(o: Seq<Seq<Seq<CurvePoint>>>) -> bool {
    forall|c: int, v: int| 0 <= c < o.len() && 0 <= v < o[c].len() ==> (#[trigger] o[c][v]).len() <= 4
}

/// No two control points share an identifier.
pub open spec fn ids_distinct(o: Seq<Seq<Seq<CurvePoint>>>) -> bool {
    forall|c1: int, v1: int, k1: int, c2: int, v2: int, k2: int|
        #[trigger] registered(o, c1, v1, k1) && #[trigger] registered(o, c2, v2, k2)
            && o[c1][v1][k1].id == o[c2][v2][k2].id ==> c1 == c2 && v1 == v2 && k1 == k2
}

/// The identifiers of the points of curve `v` of contour `c`, in their
/// order; none where the outline has no such curve.
pub open spec fn curve_ids(o: Seq<Seq<Seq<CurvePoint>>>, c: int, v: int) -> Seq<PointId> {
    if 0 <= c < o.len() && 0 <= v < o[c].len() {
        o[c][v].map_values(|p: CurvePoint| p.id)
    } else {
        Seq::empty()
    }
}

/// Whether no curve of the contour has more than four points.
pub fn contour_supported(contour: &Contour) -> (ok: bool)
    ensures
        ok == (forall|v: int| 0 <= v < contour@.len() ==> (#[trigger] contour@[v]).len() <= 4),
{
    let mut v: usize = 0;
    while v < contour.curves.len()
        invariant
            0 <= v <= contour.curves.len(),
            forall|v0: int| 0 <= v0 < v ==> (#[trigger] contour@[v0]).len() <= 4,
        decreases contour.curves.len() - v,
    {
        if contour.curves[v].points.len() > 4 {
            assert(contour@[v as int].len() > 4);
            return false;
        }
        v = v + 1;
    }
    true
}

/// Whether no curve of the outline has more than four points.
pub fn all_curves_supported(contours: &Vec<Contour>) -> (ok: bool)
    ensures
        ok == curves_supported(outline_model(contours@)),
{
    let ghost o = outline_model(contours@);
    let mut c: usize = 0;
    while c < contours.len()
        invariant
            0 <= c <= contours.len(),
            o == outline_model(contours@),
            forall|c0: int, v0: int|
                0 <= c0 < c && 0 <= v0 < o[c0].len() ==> (#[trigger] o[c0][v0]).len() <= 4,
        decreases contours.len() - c,
    {
        if !contour_supported(&contours[c]) {
            proof {
                let contour = contours@[c as int];
                let v = choose|v: int| 0 <= v < contour@.len() && (#[trigger] contour@[v]).len() > 4;
                assert(o[c as int][v].len() > 4);
            }
            return false;
        }
        assert(forall|v0: int|
            0 <= v0 < o[c as int].len() ==> (#[trigger] o[c as int][v0]).len() <= 4) by {
            assert(o[c as int] == contours@[c as int]@);
        }
        c = c + 1;
    }
    true
}

} // verus!
