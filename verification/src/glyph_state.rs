use crate::outline::{
    all_curves_supported, contour_supported, curve_ids, curves_supported, ids_distinct,
    outline_model, registered, Contour, Curve, CurvePoint,
};
use crate::placement::{
    lemma_place_none, lemma_place_one_more, lemma_targets_of_mapped, placed_index,
    placed_outline, placed_point, shifted_targets, targets_of, uniform_targets,
};
use crate::points::{
    add_clamped, clamp_i64, lemma_zero_radius_is_the_centre, shifted, IPoint, PointId,
};
use crate::range_query::{radius_hits, KdTree};
use crate::selection::{
    contains_id, lemma_take_one_more, push_unique, selection_after, SelectionModifier,
};
use std::collections::HashMap;
use vstd::prelude::*;

verus! {

broadcast use vstd::std_specs::hash::group_hash_axioms;

/// The role of a control point and the points it is linked to.
#[derive(Clone, Debug, PartialEq, Eq)]
pub enum ControlPointKind {
    /// An on-curve point, with the handle that belongs to it, if any.
    Endpoint { handle: Option<PointId> },
    /// An off-curve point, with the endpoints it pulls at.
    Handle { end_points: Vec<PointId> },
}

/// The role of a control point as contracts speak of it.
pub enum KindModel {
    Endpoint { handle: Option<PointId> },
    Handle { end_points: Seq<PointId> },
}

impl View for ControlPointKind {
    type V = KindModel;

    open spec fn view(&self) -> KindModel {
        match *self {
            ControlPointKind::Endpoint { handle } => KindModel::Endpoint { handle },
            ControlPointKind::Handle { end_points } => KindModel::Handle {
                end_points: end_points@,
            },
        }
    }
}

/// What the registry knows of one control point: the place of the point in
/// the outline, a copy of its position, and its role.
#[derive(Clone, Debug, PartialEq, Eq)]
pub struct ControlPoint {
    pub contour_index: usize,
    pub curve_index: usize,
    pub point_index: usize,
    pub position: IPoint,
    pub kind: ControlPointKind,
}

/// What the registry knows of one control point, as contracts speak of it.
pub struct ControlPointModel {
    pub contour_index: int,
    pub curve_index: int,
    pub point_index: int,
    pub position: IPoint,
    pub kind: KindModel,
}

impl View for ControlPoint {
    type V = ControlPointModel;

    open spec fn view(&self) -> ControlPointModel {
        ControlPointModel {
            contour_index: self.contour_index as int,
            curve_index: self.curve_index as int,
            point_index: self.point_index as int,
            position: self.position,
            kind: self.kind@,
        }
    }
}

/// An infinite reference line: a point it passes through and its angle, in
/// thousandths of a degree.
#[derive(Clone, Copy, Debug, PartialEq, Eq, Structural)]
pub struct Guideline {
    pub x: i64,
    pub y: i64,
    pub angle: i64,
}

/// What the registry refuses.
#[derive(Clone, Copy, Debug, PartialEq, Eq, Structural)]
pub enum RegistryError {
    /// A curve has more than four points.
    UnsupportedCurve,
    /// Two control points share an identifier.
    DuplicateIdentifier,
    /// An identifier names no control point.
    UnknownPoint,
}

/// Why an outline cannot be registered, if it cannot: a curve that is too
/// long is named before an identifier that occurs twice.
pub open spec fn outline_error(o: Seq<Seq<Seq<CurvePoint>>>) -> Option<RegistryError> {
    if !curves_supported(o) {
        Some(RegistryError::UnsupportedCurve)
    } else if !ids_distinct(o) {
        Some(RegistryError::DuplicateIdentifier)
    } else {
        None
    }
}

/// The role of point `k` of a curve. Two points: both are endpoints without
/// a handle. Three: the middle one is the handle of both ends. Four: the
/// second is the handle of the first, the third that of the last.
pub open spec fn kind_at(curve: Seq<CurvePoint>, k: int) -> KindModel {
    if curve.len() == 4 {
        if k == 0 {
            KindModel::Endpoint { handle: Some(curve[1].id) }
        } else if k == 1 {
            KindModel::Handle { end_points: seq![curve[0].id] }
        } else if k == 2 {
            KindModel::Handle { end_points: seq![curve[3].id] }
        } else {
            KindModel::Endpoint { handle: Some(curve[2].id) }
        }
    } else if curve.len() == 3 {
        if k == 1 {
            KindModel::Handle { end_points: seq![curve[0].id, curve[2].id] }
        } else {
            KindModel::Endpoint { handle: Some(curve[1].id) }
        }
    } else {
        KindModel::Endpoint { handle: None }
    }
}

/// What the registry holds for the control point at `(c, v, k)`.
pub open spec fn control_point_at(o: Seq<Seq<Seq<CurvePoint>>>, c: int, v: int, k: int) -> ControlPointModel {
    ControlPointModel {
        contour_index: c,
        curve_index: v,
        point_index: k,
        position: o[c][v][k].position,
        kind: kind_at(o[c][v], k),
    }
}

/// `(c, v, k)` comes before `(fc, fv, fk)` in the order in which an outline
/// is walked.
pub open spec fn earlier(c: int, v: int, k: int, fc: int, fv: int, fk: int) -> bool {
    c < fc || (c == fc && (v < fv || (v == fv && k < fk)))
}

/// The registry `points` and the index `index` hold exactly the control
/// points of `o` that come before `(fc, fv, fk)`, each with its place, its
/// position and its role.
pub open spec fn covers_upto(
    points: Map<u128, ControlPoint>,
    index: Map<PointId, IPoint>,
    o: Seq<Seq<Seq<CurvePoint>>>,
    fc: int,
    fv: int,
    fk: int,
) -> bool {
    &&& forall|id: u128| #[trigger]
        points.contains_key(id) ==> {
            let m = points[id]@;
            &&& registered(o, m.contour_index, m.curve_index, m.point_index)
            &&& earlier(m.contour_index, m.curve_index, m.point_index, fc, fv, fk)
            &&& o[m.contour_index][m.curve_index][m.point_index].id == PointId(id)
            &&& m == control_point_at(o, m.contour_index, m.curve_index, m.point_index)
        }
    &&& forall|c: int, v: int, k: int|
        #[trigger] registered(o, c, v, k) && earlier(c, v, k, fc, fv, fk) ==> {
            &&& points.contains_key(o[c][v][k].id.0)
            &&& points[o[c][v][k].id.0]@.contour_index == c
            &&& points[o[c][v][k].id.0]@.curve_index == v
            &&& points[o[c][v][k].id.0]@.point_index == k
        }
    &&& forall|id: PointId| #[trigger] index.contains_key(id) <==> points.contains_key(id.0)
    &&& forall|id: PointId| #[trigger]
        index.contains_key(id) ==> index[id] == points[id.0]@.position
}

/// The registry and the index hold exactly the control points of `o`.
pub open spec fn covers(
    points: Map<u128, ControlPoint>,
    index: Map<PointId, IPoint>,
    o: Seq<Seq<Seq<CurvePoint>>>,
) -> bool {
    covers_upto(points, index, o, o.len() as int, 0, 0)
}

/// The role of point `k` of `curve`.
fn kind_for(curve: &Curve, k: usize) -> (kind: ControlPointKind)
    requires
        2 <= curve@.len() <= 4,
        k < curve@.len(),
    ensures
        kind@ == kind_at(curve@, k as int),
{
    let n = curve.points.len();
    if n == 4 {
        if k == 0 {
            ControlPointKind::Endpoint { handle: Some(curve.points[1].id) }
        } else if k == 1 {
            let end_points = vec![curve.points[0].id];
            assert(end_points@ =~= seq![curve@[0].id]);
            ControlPointKind::Handle { end_points }
        } else if k == 2 {
            let end_points = vec![curve.points[3].id];
            assert(end_points@ =~= seq![curve@[3].id]);
            ControlPointKind::Handle { end_points }
        } else {
            ControlPointKind::Endpoint { handle: Some(curve.points[2].id) }
        }
    } else if n == 3 {
        if k == 1 {
            let end_points = vec![curve.points[0].id, curve.points[2].id];
            assert(end_points@ =~= seq![curve@[0].id, curve@[2].id]);
            ControlPointKind::Handle { end_points }
        } else {
            ControlPointKind::Endpoint { handle: Some(curve.points[1].id) }
        }
    } else {
        ControlPointKind::Endpoint { handle: None }
    }
}

/// Enters into `points` and `index` the control points of the outline from
/// contour `start` on, and says whether it could: it cannot where an
/// identifier occurs twice, and then leaves the two in no particular state.
fn register_from(
    points: &mut HashMap<u128, ControlPoint>,
    index: &mut KdTree,
    contours: &Vec<Contour>,
    start: usize,
) -> (ok: bool)
    requires
        start <= contours.len(),
        curves_supported(outline_model(contours@)),
        covers_upto(old(points)@, old(index)@, outline_model(contours@), start as int, 0, 0),
    ensures
        ok == ids_distinct(outline_model(contours@)),
        ok ==> covers(final(points)@, final(index)@, outline_model(contours@)),
{
    let ghost o = outline_model(contours@);
    let mut c: usize = start;
    while c < contours.len()
        invariant
            start <= c <= contours.len(),
            o == outline_model(contours@),
            curves_supported(o),
            covers_upto(points@, index@, o, c as int, 0, 0),
        decreases contours.len() - c,
    {
        let contour = &contours[c];
        let mut v: usize = 0;
        while v < contour.curves.len()
            invariant
                0 <= c < contours.len(),
                0 <= v <= contour.curves.len(),
                contour == contours@[c as int],
                o == outline_model(contours@),
                curves_supported(o),
                covers_upto(points@, index@, o, c as int, v as int, 0),
            decreases contour.curves.len() - v,
        {
            let curve = &contour.curves[v];
            let n = curve.points.len();
            assert(curve@ == o[c as int][v as int]);
            assert(n <= 4);
            if n >= 2 {
                let mut k: usize = 0;
                while k < n
                    invariant
                        0 <= c < contours.len(),
                        0 <= v < contour.curves.len(),
                        0 <= k <= n,
                        2 <= n <= 4,
                        n == curve@.len(),
                        contour == contours@[c as int],
                        curve == contour.curves@[v as int],
                        curve@ == o[c as int][v as int],
                        o == outline_model(contours@),
                        covers_upto(points@, index@, o, c as int, v as int, k as int),
                    decreases n - k,
                {
                    let p = curve.points[k];
                    assert(registered(o, c as int, v as int, k as int));
                    assert(o[c as int][v as int][k as int] == p);
                    if points.contains_key(&p.id.0) {
                        proof {
                            let m = points@[p.id.0]@;
                            assert(registered(o, m.contour_index, m.curve_index, m.point_index));
                            assert(!ids_distinct(o));
                        }
                        return false;
                    }
                    let kind = kind_for(curve, k);
                    let ghost old_points = points@;
                    let ghost old_index = index@;
                    let cp = ControlPoint {
                        contour_index: c,
                        curve_index: v,
                        point_index: k,
                        position: p.position,
                        kind,
                    };
                    assert(cp@ == control_point_at(o, c as int, v as int, k as int));
                    points.insert(p.id.0, cp);
                    assert(!old_index.contains_key(p.id));
                    index.insert(p.id, p.position);
                    proof {
                        assert forall|c0: int, v0: int, k0: int|
                            #[trigger] registered(o, c0, v0, k0) && earlier(
                                c0,
                                v0,
                                k0,
                                c as int,
                                v as int,
                                k + 1,
                            ) implies {
                            &&& points@.contains_key(o[c0][v0][k0].id.0)
                            &&& points@[o[c0][v0][k0].id.0]@.contour_index == c0
                            &&& points@[o[c0][v0][k0].id.0]@.curve_index == v0
                            &&& points@[o[c0][v0][k0].id.0]@.point_index == k0
                        } by {
                            if earlier(c0, v0, k0, c as int, v as int, k as int) {
                                assert(old_points.contains_key(o[c0][v0][k0].id.0));
                            }
                        }
                        assert(covers_upto(points@, index@, o, c as int, v as int, k + 1));
                    }
                    k = k + 1;
                }
            }
            proof {
                assert forall|id: u128| #[trigger] points@.contains_key(id) implies earlier(
                    points@[id]@.contour_index,
                    points@[id]@.curve_index,
                    points@[id]@.point_index,
                    c as int,
                    v + 1,
                    0,
                ) by {
                    let m = points@[id]@;
                    assert(registered(o, m.contour_index, m.curve_index, m.point_index));
                }
                assert(covers_upto(points@, index@, o, c as int, v + 1, 0));
            }
            v = v + 1;
        }
        proof {
            assert(o[c as int].len() == contour.curves@.len());
            assert forall|id: u128| #[trigger] points@.contains_key(id) implies earlier(
                points@[id]@.contour_index,
                points@[id]@.curve_index,
                points@[id]@.point_index,
                c + 1,
                0,
                0,
            ) by {
                let m = points@[id]@;
                assert(registered(o, m.contour_index, m.curve_index, m.point_index));
            }
            assert(covers_upto(points@, index@, o, c + 1, 0, 0));
        }
        c = c + 1;
    }
    proof {
        assert forall|c1: int, v1: int, k1: int, c2: int, v2: int, k2: int|
            #[trigger] registered(o, c1, v1, k1) && #[trigger] registered(o, c2, v2, k2)
                && o[c1][v1][k1].id == o[c2][v2][k2].id implies c1 == c2 && v1 == v2 && k1
            == k2 by {
            assert(points@.contains_key(o[c1][v1][k1].id.0));
        }
    }
    true
}

/// The editing state of one glyph: its outline, its guidelines and advance
/// width, the registry of its control points with the spatial index over
/// them, and the selection.
pub struct GlyphState {
    contours: Vec<Contour>,
    guidelines: Vec<Guideline>,
    width: Option<i64>,
    selection: Vec<PointId>,
    points: HashMap<u128, ControlPoint>,
    kd_tree: KdTree,
}

impl GlyphState {
    /// The outline: the authoritative position of every point.
    pub closed spec fn outline(&self) -> Seq<Seq<Seq<CurvePoint>>> {
        outline_model(self.contours@)
    }

    /// The registry as stored, keyed by the number of the identifier.
    pub closed spec fn entries(&self) -> Map<u128, ControlPoint> {
        self.points@
    }

    /// The registry: what is known of each control point.
    pub open spec fn registry(&self) -> Map<PointId, ControlPointModel> {
        Map::new(|id: PointId| self.entries().contains_key(id.0), |id: PointId| self.entries()[id.0]@)
    }

    /// The spatial index: the position stored for each control point.
    pub closed spec fn index(&self) -> Map<PointId, IPoint> {
        self.kd_tree@
    }

    /// The selected control points, each once.
    pub closed spec fn selected(&self) -> Seq<PointId> {
        self.selection@
    }

    /// The guidelines, in their order.
    pub closed spec fn guides(&self) -> Seq<Guideline> {
        self.guidelines@
    }

    /// The advance width, if the glyph has one.
    pub closed spec fn advance_width(&self) -> Option<i64> {
        self.width
    }

    /// The registry and the index hold exactly the control points of the
    /// outline, each at its position; the selection names control points,
    /// none twice.
    pub open spec fn wf(&self) -> bool {
        &&& curves_supported(self.outline())
        &&& covers(self.entries(), self.index(), self.outline())
        &&& self.selected().no_duplicates()
        &&& forall|i: int|
            0 <= i < self.selected().len() ==> self.entries().contains_key(
                (#[trigger] self.selected()[i]).0,
            )
    }

    /// The state of a glyph with the outline, guidelines and advance width
    /// given, and nothing selected.
    pub fn new(contours: Vec<Contour>, guidelines: Vec<Guideline>, width: Option<i64>) -> (made:
        Result<Self, RegistryError>)
        ensures
            match made {
                Ok(state) => {
                    &&& outline_error(outline_model(contours@)).is_none()
                    &&& state.wf()
                    &&& state.outline() == outline_model(contours@)
                    &&& state.guides() == guidelines@
                    &&& state.advance_width() == width
                    &&& state.selected() == Seq::<PointId>::empty()
                },
                Err(e) => outline_error(outline_model(contours@)) == Some(e),
            },
    {
        if !all_curves_supported(&contours) {
            return Err(RegistryError::UnsupportedCurve);
        }
        let mut points: HashMap<u128, ControlPoint> = HashMap::new();
        let mut kd_tree = KdTree::new();
        if !register_from(&mut points, &mut kd_tree, &contours, 0) {
            return Err(RegistryError::DuplicateIdentifier);
        }
        kd_tree.rebalance();
        Ok(GlyphState { contours, guidelines, width, selection: Vec::new(), points, kd_tree })
    }

    /// Forgets the registry, the index and the selection, and fills the
    /// first two again from `contours`, which becomes the outline. Where the
    /// outline cannot be registered nothing changes.
    pub fn rebuild_from_outline(&mut self, contours: Vec<Contour>) -> (done: Result<
        (),
        RegistryError,
    >)
        ensures
            match done {
                Ok(()) => {
                    &&& outline_error(outline_model(contours@)).is_none()
                    &&& final(self).wf()
                    &&& final(self).outline() == outline_model(contours@)
                    &&& final(self).selected() == Seq::<PointId>::empty()
                    &&& final(self).guides() == old(self).guides()
                    &&& final(self).advance_width() == old(self).advance_width()
                },
                Err(e) => outline_error(outline_model(contours@)) == Some(e) && *final(self)
                    == *old(self),
            },
    {
        if !all_curves_supported(&contours) {
            return Err(RegistryError::UnsupportedCurve);
        }
        let mut points: HashMap<u128, ControlPoint> = HashMap::new();
        let mut kd_tree = KdTree::new();
        if !register_from(&mut points, &mut kd_tree, &contours, 0) {
            return Err(RegistryError::DuplicateIdentifier);
        }
        kd_tree.rebalance();
        self.contours = contours;
        self.points = points;
        self.kd_tree = kd_tree;
        self.selection = Vec::new();
        Ok(())
    }

    /// What the registry knows of `id`, if it is a control point.
    pub fn get(&self, id: PointId) -> (found: Option<&ControlPoint>)
        ensures
            match found {
                Some(cp) => self.registry().contains_key(id) && cp@ == self.registry()[id],
                None => !self.registry().contains_key(id),
            },
    {
        self.points.get(&id.0)
    }

    /// The outline.
    pub fn contours(&self) -> (contours: &Vec<Contour>)
        ensures
            outline_model(contours@) == self.outline(),
    {
        &self.contours
    }

    /// The guidelines.
    pub fn guidelines(&self) -> (guidelines: &Vec<Guideline>)
        ensures
            guidelines@ == self.guides(),
    {
        &self.guidelines
    }

    /// The advance width.
    pub fn width(&self) -> (width: Option<i64>)
        ensures
            width == self.advance_width(),
    {
        self.width
    }

    /// The selected control points.
    pub fn get_selection(&self) -> (selection: &Vec<PointId>)
        ensures
            selection@ == self.selected(),
    {
        &self.selection
    }

    /// The spatial index.
    pub fn kd_tree(&self) -> (index: &KdTree)
        ensures
            index@ == self.index(),
    {
        &self.kd_tree
    }

    /// Adds a contour at the end of the outline and enters its control
    /// points into the registry and the index. Where it cannot be
    /// registered the state stays as it is.
    pub fn add_contour(&mut self, contour: Contour) -> (done: Result<(), RegistryError>)
        requires
            old(self).wf(),
        ensures
            final(self).wf(),
            final(self).selected() == old(self).selected(),
            final(self).guides() == old(self).guides(),
            final(self).advance_width() == old(self).advance_width(),
            match done {
                Ok(()) => {
                    &&& outline_error(old(self).outline().push(contour@)).is_none()
                    &&& final(self).outline() == old(self).outline().push(contour@)
                },
                Err(e) => {
                    &&& outline_error(old(self).outline().push(contour@)) == Some(e)
                    &&& final(self).outline() == old(self).outline()
                    &&& final(self).registry() == old(self).registry()
                    &&& final(self).index() == old(self).index()
                },
            },
    {
        let ghost o = self.outline();
        let ghost grown = o.push(contour@);
        let supported = contour_supported(&contour);
        proof {
            if supported {
                assert forall|c: int, v: int|
                    0 <= c < grown.len() && 0 <= v < grown[c].len() implies (
                #[trigger] grown[c][v]).len() <= 4 by {
                    if c < o.len() {
                        assert(grown[c] == o[c]);
                        assert(o[c][v].len() <= 4);
                    } else {
                        assert(contour@[v].len() <= 4);
                    }
                }
            } else {
                let v = choose|v: int| 0 <= v < contour@.len() && (#[trigger] contour@[v]).len() > 4;
                assert(grown[o.len() as int][v].len() > 4);
            }
        }
        if !supported {
            return Err(RegistryError::UnsupportedCurve);
        }
        let start = self.contours.len();
        let ghost old_contours = self.contours@;
        self.contours.push(contour);
        proof {
            assert(outline_model(self.contours@) =~= grown);
            assert forall|c: int, v: int, k: int| #[trigger]
                registered(grown, c, v, k) && c < start implies registered(o, c, v, k)
                && grown[c][v][k] == o[c][v][k] by {
                assert(grown[c] == o[c]);
            }
            assert forall|id: u128| #[trigger] self.points@.contains_key(id) implies {
                let m = self.points@[id]@;
                &&& registered(grown, m.contour_index, m.curve_index, m.point_index)
                &&& earlier(m.contour_index, m.curve_index, m.point_index, start as int, 0, 0)
                &&& grown[m.contour_index][m.curve_index][m.point_index].id == PointId(id)
                &&& m == control_point_at(grown, m.contour_index, m.curve_index, m.point_index)
            } by {
                let m = self.points@[id]@;
                assert(registered(o, m.contour_index, m.curve_index, m.point_index));
                assert(grown[m.contour_index] == o[m.contour_index]);
            }
            assert(covers_upto(self.points@, self.kd_tree@, grown, start as int, 0, 0));
        }
        let ok = register_from(&mut self.points, &mut self.kd_tree, &self.contours, start);
        if ok {
            proof {
                assert forall|i: int| 0 <= i < self.selected().len() implies self.entries().contains_key(
                    (#[trigger] self.selected()[i]).0,
                ) by {
                    let id = self.selected()[i];
                    assert(old(self).entries().contains_key(id.0));
                    let m = old(self).entries()[id.0]@;
                    assert(registered(o, m.contour_index, m.curve_index, m.point_index));
                    assert(grown[m.contour_index] == o[m.contour_index]);
                    assert(registered(grown, m.contour_index, m.curve_index, m.point_index));
                }
            }
            return Ok(());
        }
        self.contours.pop();
        self.points.clear();
        self.kd_tree.clear();
        proof {
            assert(self.contours@ =~= old_contours);
            lemma_ids_distinct_when_covered(old(self).entries(), old(self).index(), o);
        }
        let again = register_from(&mut self.points, &mut self.kd_tree, &self.contours, 0);
        proof {
            assert(again);
            lemma_covering_is_unique(
                old(self).entries(),
                old(self).index(),
                self.points@,
                self.kd_tree@,
                o,
            );
            assert(self.registry() =~= old(self).registry());
        }
        Err(RegistryError::DuplicateIdentifier)
    }

    /// Adds a guideline through `p` at `angle`, after those there are.
    pub fn new_guideline(&mut self, angle: i64, p: IPoint)
        ensures
            final(self).guides() == old(self).guides().push(Guideline { x: p.x, y: p.y, angle }),
            final(self).same_points_as(old(self)),
            final(self).advance_width() == old(self).advance_width(),
    {
        self.guidelines.push(Guideline { x: p.x, y: p.y, angle });
    }

    /// Puts a guideline back after those there are.
    pub fn restore_guideline(&mut self, guideline: Guideline)
        ensures
            final(self).guides() == old(self).guides().push(guideline),
            final(self).same_points_as(old(self)),
            final(self).advance_width() == old(self).advance_width(),
    {
        self.guidelines.push(guideline);
    }

    /// Takes the last guideline away and returns it.
    pub fn pop_guideline(&mut self) -> (last: Option<Guideline>)
        ensures
            old(self).guides().len() == 0 ==> last.is_none() && final(self).guides() == old(
                self,
            ).guides(),
            old(self).guides().len() > 0 ==> last == Some(old(self).guides().last())
                && final(self).guides() == old(self).guides().drop_last(),
            final(self).same_points_as(old(self)),
            final(self).advance_width() == old(self).advance_width(),
    {
        self.guidelines.pop()
    }

    /// Moves guideline `idx` so that it passes through `position`, and
    /// returns the point it passed through before. With no such guideline
    /// nothing changes.
    pub fn update_guideline(&mut self, idx: usize, position: IPoint) -> (prior: Option<IPoint>)
        ensures
            idx >= old(self).guides().len() ==> prior.is_none() && final(self).guides() == old(
                self,
            ).guides(),
            idx < old(self).guides().len() ==> prior == Some(
                IPoint { x: old(self).guides()[idx as int].x, y: old(self).guides()[idx as int].y },
            ) && final(self).guides() == old(self).guides().update(
                idx as int,
                Guideline {
                    x: position.x,
                    y: position.y,
                    angle: old(self).guides()[idx as int].angle,
                },
            ),
            final(self).same_points_as(old(self)),
            final(self).advance_width() == old(self).advance_width(),
    {
        if idx >= self.guidelines.len() {
            return None;
        }
        let g = self.guidelines[idx];
        self.guidelines[idx] = Guideline { x: position.x, y: position.y, angle: g.angle };
        Some(IPoint { x: g.x, y: g.y })
    }

    /// Puts `guideline` in the place of guideline `idx` and returns the one
    /// that stood there. With no such guideline nothing changes.
    pub fn set_guideline(&mut self, idx: usize, guideline: Guideline) -> (prior: Option<Guideline>)
        ensures
            idx >= old(self).guides().len() ==> prior.is_none() && final(self).guides() == old(
                self,
            ).guides(),
            idx < old(self).guides().len() ==> prior == Some(old(self).guides()[idx as int])
                && final(self).guides() == old(self).guides().update(idx as int, guideline),
            final(self).same_points_as(old(self)),
            final(self).advance_width() == old(self).advance_width(),
    {
        if idx >= self.guidelines.len() {
            return None;
        }
        let prior = self.guidelines[idx];
        self.guidelines[idx] = guideline;
        Some(prior)
    }

    /// Moves guideline `idx` by `(dx, dy)` and turns it by `turn`
    /// thousandths of a degree, each value held inside the range of `i64`.
    /// Says whether there is such a guideline; with none nothing changes.
    pub fn transform_guideline(&mut self, idx: usize, dx: i64, dy: i64, turn: i64) -> (found: bool)
        ensures
            found == (idx < old(self).guides().len()),
            !found ==> final(self).guides() == old(self).guides(),
            found ==> final(self).guides() == old(self).guides().update(
                idx as int,
                Guideline {
                    x: clamp_i64(old(self).guides()[idx as int].x + dx) as i64,
                    y: clamp_i64(old(self).guides()[idx as int].y + dy) as i64,
                    angle: clamp_i64(old(self).guides()[idx as int].angle + turn) as i64,
                },
            ),
            final(self).same_points_as(old(self)),
            final(self).advance_width() == old(self).advance_width(),
    {
        if idx >= self.guidelines.len() {
            return false;
        }
        let g = self.guidelines[idx];
        self.guidelines[idx] = Guideline {
            x: add_clamped(g.x, dx),
            y: add_clamped(g.y, dy),
            angle: add_clamped(g.angle, turn),
        };
        true
    }

    /// Takes guideline `idx` away and returns it. With no such guideline
    /// nothing changes.
    pub fn delete_guideline(&mut self, idx: usize) -> (removed: Option<Guideline>)
        ensures
            idx >= old(self).guides().len() ==> removed.is_none() && final(self).guides() == old(
                self,
            ).guides(),
            idx < old(self).guides().len() ==> removed == Some(old(self).guides()[idx as int])
                && final(self).guides() == old(self).guides().remove(idx as int),
            final(self).same_points_as(old(self)),
            final(self).advance_width() == old(self).advance_width(),
    {
        if idx >= self.guidelines.len() {
            return None;
        }
        Some(self.guidelines.remove(idx))
    }

    /// Selects nothing.
    pub fn clear_selection(&mut self)
        requires
            old(self).wf(),
        ensures
            final(self).wf(),
            final(self).selected() == Seq::<PointId>::empty(),
            final(self).outline() == old(self).outline(),
            final(self).entries() == old(self).entries(),
            final(self).index() == old(self).index(),
            final(self).guides() == old(self).guides(),
            final(self).advance_width() == old(self).advance_width(),
    {
        self.selection = Vec::new();
    }

    /// Sets the advance width.
    pub fn set_width(&mut self, width: Option<i64>)
        ensures
            final(self).advance_width() == width,
            final(self).same_points_as(old(self)),
            final(self).guides() == old(self).guides(),
    {
        self.width = width;
    }

    /// The identifiers of the points of curve `curve` of contour `contour`,
    /// in their order; none where there is no such curve.
    pub fn curve_point_ids(&self, contour: usize, curve: usize) -> (ids: Vec<PointId>)
        ensures
            ids@ == curve_ids(self.outline(), contour as int, curve as int),
    {
        let mut ids: Vec<PointId> = Vec::new();
        if contour < self.contours.len() && curve < self.contours[contour].curves.len() {
            let points = &self.contours[contour].curves[curve].points;
            let mut k: usize = 0;
            while k < points.len()
                invariant
                    0 <= k <= points.len(),
                    ids@.len() == k,
                    forall|j: int| 0 <= j < k ==> ids@[j] == (#[trigger] points@[j]).id,
                decreases points.len() - k,
            {
                ids.push(points[k].id);
                k = k + 1;
            }
            assert(ids@ =~= curve_ids(self.outline(), contour as int, curve as int));
        }
        ids
    }

    /// Everything but the guidelines and the advance width is as in `other`.
    pub open spec fn same_points_as(&self, other: &Self) -> bool {
        &&& self.outline() == other.outline()
        &&& self.entries() == other.entries()
        &&& self.index() == other.index()
        &&& self.selected() == other.selected()
    }

    /// Puts each control point named in `placements` at the position paired
    /// with it, and returns, entry for entry, where each was before the
    /// call: the record from which the move can be undone. Where an entry
    /// names no control point nothing is moved.
    pub fn place_points(&mut self, placements: &Vec<(PointId, IPoint)>) -> (done: Result<
        Vec<(PointId, IPoint)>,
        RegistryError,
    >)
        requires
            old(self).wf(),
        ensures
            done.is_ok() == (forall|i: int|
                0 <= i < placements@.len() ==> old(self).registry().contains_key(
                    (#[trigger] placements@[i]).0,
                )),
            match done {
                Ok(record) => {
                    &&& final(self).wf()
                    &&& final(self).index() == placed_index(
                        old(self).index(),
                        targets_of(placements@),
                    )
                    &&& final(self).outline() == placed_outline(
                        old(self).outline(),
                        targets_of(placements@),
                    )
                    &&& record@.len() == placements@.len()
                    &&& forall|i: int|
                        0 <= i < record@.len() ==> #[trigger] record@[i] == (
                            placements@[i].0,
                            old(self).index()[placements@[i].0],
                        )
                    &&& final(self).selected() == old(self).selected()
                    &&& final(self).guides() == old(self).guides()
                    &&& final(self).advance_width() == old(self).advance_width()
                },
                Err(e) => e == RegistryError::UnknownPoint && *final(self) == *old(self),
            },
    {
        let mut record: Vec<(PointId, IPoint)> = Vec::new();
        let mut i: usize = 0;
        while i < placements.len()
            invariant
                0 <= i <= placements.len(),
                *self == *old(self),
                self.wf(),
                record@.len() == i,
                forall|j: int|
                    0 <= j < i ==> self.entries().contains_key((#[trigger] placements@[j]).0.0),
                forall|j: int|
                    0 <= j < i ==> #[trigger] record@[j] == (
                        placements@[j].0,
                        self.index()[placements@[j].0],
                    ),
            decreases placements.len() - i,
        {
            let id = placements[i].0;
            match self.points.get(&id.0) {
                Some(cp) => {
                    assert(self.index().contains_key(id));
                    record.push((id, cp.position));
                },
                None => {
                    assert(!self.registry().contains_key(placements@[i as int].0));
                    return Err(RegistryError::UnknownPoint);
                },
            }
            i = i + 1;
        }
        let ghost o = self.outline();
        let ghost index = self.index();
        proof {
            lemma_place_none(o, index);
            assert(placements@.take(0) =~= Seq::<(PointId, IPoint)>::empty());
        }
        let mut i: usize = 0;
        while i < placements.len()
            invariant
                0 <= i <= placements.len(),
                self.wf(),
                o == old(self).outline(),
                index == old(self).index(),
                old(self).wf(),
                forall|k: u128|
                    self.entries().contains_key(k) == old(self).entries().contains_key(k),
                forall|j: int|
                    0 <= j < placements@.len() ==> old(self).entries().contains_key(
                        (#[trigger] placements@[j]).0.0,
                    ),
                self.index() == placed_index(index, targets_of(placements@.take(i as int))),
                self.outline() == placed_outline(o, targets_of(placements@.take(i as int))),
                self.selected() == old(self).selected(),
                self.guides() == old(self).guides(),
                self.advance_width() == old(self).advance_width(),
            decreases placements.len() - i,
        {
            let (id, target) = placements[i];
            proof {
                let upto = placements@.take(i as int);
                let next = placements@.take(i + 1);
                assert(next.drop_last() =~= upto);
                assert(next.last() == placements@[i as int]);
                assert(index.contains_key(id));
                lemma_place_one_more(o, index, targets_of(upto), id, target);
            }
            self.move_one(id, target);
            i = i + 1;
        }
        assert(placements@.take(placements@.len() as int) =~= placements@);
        Ok(record)
    }

    /// Moves each control point named in `ids` to `target`, an absolute
    /// position, and returns where each was before. Where an identifier
    /// names no control point nothing is moved.
    pub fn move_points(&mut self, ids: &Vec<PointId>, target: IPoint) -> (done: Result<
        Vec<(PointId, IPoint)>,
        RegistryError,
    >)
        requires
            old(self).wf(),
        ensures
            done.is_ok() == (forall|i: int|
                0 <= i < ids@.len() ==> old(self).registry().contains_key(#[trigger] ids@[i])),
            match done {
                Ok(record) => {
                    &&& final(self).wf()
                    &&& final(self).index() == placed_index(
                        old(self).index(),
                        uniform_targets(ids@.to_set(), target),
                    )
                    &&& final(self).outline() == placed_outline(
                        old(self).outline(),
                        uniform_targets(ids@.to_set(), target),
                    )
                    &&& record@.len() == ids@.len()
                    &&& forall|i: int|
                        0 <= i < record@.len() ==> #[trigger] record@[i] == (
                            ids@[i],
                            old(self).index()[ids@[i]],
                        )
                    &&& final(self).selected() == old(self).selected()
                    &&& final(self).guides() == old(self).guides()
                    &&& final(self).advance_width() == old(self).advance_width()
                },
                Err(e) => e == RegistryError::UnknownPoint && *final(self) == *old(self),
            },
    {
        let mut placements: Vec<(PointId, IPoint)> = Vec::new();
        let mut i: usize = 0;
        while i < ids.len()
            invariant
                0 <= i <= ids.len(),
                placements@.len() == i,
                forall|j: int| 0 <= j < i ==> #[trigger] placements@[j] == (ids@[j], target),
            decreases ids.len() - i,
        {
            placements.push((ids[i], target));
            i = i + 1;
        }
        proof {
            lemma_targets_of_mapped(placements@, ids@, |id: PointId| target);
            assert(targets_of(placements@) =~= uniform_targets(ids@.to_set(), target));
            assert forall|i: int| 0 <= i < ids@.len() implies placements@[i].0 == ids@[i] by {}
        }
        let done = self.place_points(&placements);
        proof {
            if done.is_ok() {
                assert forall|i: int| 0 <= i < ids@.len() implies old(self).registry().contains_key(
                    #[trigger] ids@[i],
                ) by {
                    assert(placements@[i].0 == ids@[i]);
                }
            } else {
                let i = choose|i: int|
                    0 <= i < placements@.len() && !old(self).registry().contains_key(
                        (#[trigger] placements@[i]).0,
                    );
                assert(placements@[i].0 == ids@[i]);
            }
        }
        done
    }

    /// Moves every selected point to `target` and returns where each was.
    pub fn update_positions(&mut self, target: IPoint) -> (record: Vec<(PointId, IPoint)>)
        requires
            old(self).wf(),
        ensures
            final(self).wf(),
            final(self).index() == placed_index(
                old(self).index(),
                uniform_targets(old(self).selected().to_set(), target),
            ),
            final(self).outline() == placed_outline(
                old(self).outline(),
                uniform_targets(old(self).selected().to_set(), target),
            ),
            record@.len() == old(self).selected().len(),
            forall|i: int|
                0 <= i < record@.len() ==> #[trigger] record@[i] == (
                    old(self).selected()[i],
                    old(self).index()[old(self).selected()[i]],
                ),
            final(self).selected() == old(self).selected(),
            final(self).guides() == old(self).guides(),
            final(self).advance_width() == old(self).advance_width(),
    {
        let mut ids: Vec<PointId> = Vec::new();
        let mut i: usize = 0;
        while i < self.selection.len()
            invariant
                0 <= i <= self.selection.len(),
                *self == *old(self),
                ids@ == self.selection@.take(i as int),
            decreases self.selection.len() - i,
        {
            ids.push(self.selection[i]);
            assert(ids@ =~= self.selection@.take(i + 1));
            i = i + 1;
        }
        assert(ids@ =~= self.selection@);
        match self.move_points(&ids, target) {
            Ok(record) => record,
            Err(_) => {
                proof {
                    let i = choose|i: int|
                        0 <= i < ids@.len() && !old(self).registry().contains_key(
                            #[trigger] ids@[i],
                        );
                    assert(old(self).entries().contains_key(old(self).selected()[i].0));
                }
                vstd::pervasive::unreached()
            },
        }
    }

    /// Moves every selected point by `(dx, dy)`, each coordinate held inside
    /// the range of `i64`, and returns where each was.
    pub fn transform_selection(&mut self, dx: i64, dy: i64) -> (record: Vec<(PointId, IPoint)>)
        requires
            old(self).wf(),
        ensures
            final(self).wf(),
            final(self).index() == placed_index(
                old(self).index(),
                shifted_targets(old(self).index(), old(self).selected(), dx as int, dy as int),
            ),
            final(self).outline() == placed_outline(
                old(self).outline(),
                shifted_targets(old(self).index(), old(self).selected(), dx as int, dy as int),
            ),
            record@.len() == old(self).selected().len(),
            forall|i: int|
                0 <= i < record@.len() ==> #[trigger] record@[i] == (
                    old(self).selected()[i],
                    old(self).index()[old(self).selected()[i]],
                ),
            final(self).selected() == old(self).selected(),
            final(self).guides() == old(self).guides(),
            final(self).advance_width() == old(self).advance_width(),
    {
        let ghost index = self.index();
        let mut placements: Vec<(PointId, IPoint)> = Vec::new();
        let mut i: usize = 0;
        while i < self.selection.len()
            invariant
                0 <= i <= self.selection.len(),
                *self == *old(self),
                self.wf(),
                index == self.index(),
                placements@.len() == i,
                forall|j: int|
                    0 <= j < i ==> #[trigger] placements@[j] == (
                        self.selection@[j],
                        shifted(index[self.selection@[j]], dx as int, dy as int),
                    ),
            decreases self.selection.len() - i,
        {
            let id = self.selection[i];
            match self.points.get(&id.0) {
                Some(cp) => {
                    assert(index.contains_key(id));
                    placements.push((id, cp.position.moved_by(dx, dy)));
                },
                None => {
                    assert(self.entries().contains_key(self.selected()[i as int].0));
                    assert(false);
                },
            }
            i = i + 1;
        }
        proof {
            lemma_targets_of_mapped(
                placements@,
                self.selection@,
                |id: PointId| shifted(index[id], dx as int, dy as int),
            );
            assert(targets_of(placements@) =~= shifted_targets(
                old(self).index(),
                old(self).selected(),
                dx as int,
                dy as int,
            ));
        }
        match self.place_points(&placements) {
            Ok(record) => {
                assert forall|i: int| 0 <= i < record@.len() implies #[trigger] record@[i] == (
                    old(self).selected()[i],
                    old(self).index()[old(self).selected()[i]],
                ) by {
                    assert(placements@[i].0 == old(self).selected()[i]);
                }
                record
            },
            Err(_) => {
                proof {
                    let i = choose|i: int|
                        0 <= i < placements@.len() && !old(self).registry().contains_key(
                            (#[trigger] placements@[i]).0,
                        );
                    assert(old(self).entries().contains_key(old(self).selected()[i].0));
                }
                vstd::pervasive::unreached()
            },
        }
    }

    /// Changes the selection by the control points named in `ids`, as
    /// `modifier` says. Identifiers that name no control point are passed
    /// over.
    pub fn set_selection(&mut self, ids: &Vec<PointId>, modifier: SelectionModifier)
        requires
            old(self).wf(),
        ensures
            final(self).wf(),
            final(self).selected().to_set() == selection_after(
                old(self).selected().to_set(),
                Set::new(|id: PointId| ids@.contains(id) && old(self).registry().contains_key(id)),
                modifier,
            ),
            final(self).outline() == old(self).outline(),
            final(self).entries() == old(self).entries(),
            final(self).index() == old(self).index(),
            final(self).guides() == old(self).guides(),
            final(self).advance_width() == old(self).advance_width(),
    {
        let ghost before = self.selection@;
        let ghost picked = Set::new(
            |id: PointId| ids@.contains(id) && old(self).registry().contains_key(id),
        );
        let mut next: Vec<PointId> = Vec::new();
        match modifier {
            SelectionModifier::Remove => {
                let mut i: usize = 0;
                while i < self.selection.len()
                    invariant
                        0 <= i <= self.selection.len(),
                        *self == *old(self),
                        before == self.selection@,
                        next@.no_duplicates(),
                        forall|x: PointId|
                            next@.contains(x) <==> before.take(i as int).contains(x)
                                && !ids@.contains(x),
                    decreases self.selection.len() - i,
                {
                    let id = self.selection[i];
                    proof {
                        lemma_take_one_more(before, i as int);
                    }
                    if !contains_id(ids, id) {
                        push_unique(&mut next, id);
                    }
                    i = i + 1;
                }
                proof {
                    assert(before.take(before.len() as int) =~= before);
                    assert forall|x: PointId| before.contains(x) implies (picked.contains(x)
                        <==> ids@.contains(x)) by {
                        let j = choose|j: int| 0 <= j < before.len() && before[j] == x;
                        assert(self.entries().contains_key(before[j].0));
                    }
                    assert(next@.to_set() =~= before.to_set().difference(picked));
                }
            },
            _ => {
                if modifier == SelectionModifier::Add {
                    let mut i: usize = 0;
                    while i < self.selection.len()
                        invariant
                            0 <= i <= self.selection.len(),
                            *self == *old(self),
                            before == self.selection@,
                            next@ == before.take(i as int),
                        decreases self.selection.len() - i,
                    {
                        next.push(self.selection[i]);
                        assert(next@ =~= before.take(i + 1));
                        i = i + 1;
                    }
                    assert(next@ =~= before);
                }
                let ghost base = next@;
                let mut i: usize = 0;
                while i < ids.len()
                    invariant
                        0 <= i <= ids.len(),
                        *self == *old(self),
                        next@.no_duplicates(),
                        forall|x: PointId| #![trigger next@.contains(x)]
                            next@.contains(x) <==> base.contains(x) || (ids@.take(i as int).contains(
                                x,
                            ) && self.entries().contains_key(x.0)),
                    decreases ids.len() - i,
                {
                    let id = ids[i];
                    proof {
                        lemma_take_one_more(ids@, i as int);
                    }
                    if self.points.contains_key(&id.0) {
                        push_unique(&mut next, id);
                    }
                    assert forall|x: PointId| #![trigger next@.contains(x)]
                        next@.contains(x) <==> base.contains(x) || (ids@.take(i + 1).contains(x)
                            && self.entries().contains_key(x.0)) by {
                        assert(ids@.take(i + 1).contains(x) <==> ids@.take(i as int).contains(x)
                            || id == x);
                    }
                    i = i + 1;
                }
                proof {
                    assert(ids@.take(ids@.len() as int) =~= ids@);
                    if modifier == SelectionModifier::Add {
                        assert(next@.to_set() =~= before.to_set().union(picked));
                    } else {
                        assert(base =~= Seq::<PointId>::empty());
                        assert(next@.to_set() =~= picked);
                    }
                }
            },
        }
        proof {
            assert forall|j: int| 0 <= j < next@.len() implies self.entries().contains_key(
                (#[trigger] next@[j]).0,
            ) by {
                let x = next@[j];
                assert(next@.contains(x));
                assert(next@.to_set().contains(x));
                if before.contains(x) {
                    let t = choose|t: int| 0 <= t < before.len() && before[t] == x;
                    assert(self.entries().contains_key(before[t].0));
                }
            }
        }
        self.selection = next;
    }

    /// Moves one control point to `target`: in the outline, in the registry
    /// and, by taking its entry out and putting it in again, in the index.
    fn move_one(&mut self, id: PointId, target: IPoint) -> (prior: IPoint)
        requires
            old(self).wf(),
            old(self).entries().contains_key(id.0),
        ensures
            final(self).wf(),
            prior == old(self).index()[id],
            final(self).index() == old(self).index().insert(id, target),
            final(self).outline() == placed_outline(old(self).outline(), map![id => target]),
            final(self).selected() == old(self).selected(),
            final(self).guides() == old(self).guides(),
            final(self).advance_width() == old(self).advance_width(),
            forall|k: u128| final(self).entries().contains_key(k) == old(self).entries().contains_key(k),
    {
        let ghost o = self.outline();
        let ghost old_points = self.points@;
        let ghost old_index = self.kd_tree@;
        let mut cp = match self.points.remove(&id.0) {
            Some(cp) => cp,
            None => vstd::pervasive::unreached(),
        };
        let prior = cp.position;
        let c = cp.contour_index;
        let v = cp.curve_index;
        let k = cp.point_index;
        assert(registered(o, c as int, v as int, k as int));
        assert(old_index.contains_key(id));
        let found = self.kd_tree.remove(id, prior);
        assert(found);
        self.kd_tree.insert(id, target);
        cp.position = target;
        self.points.insert(id.0, cp);
        self.contours[c].curves[v].points[k].position = target;
        proof {
            let o2 = self.outline();
            let goal = placed_outline(o, map![id => target]);
            assert(o2.len() == goal.len());
            assert forall|c0: int| 0 <= c0 < o2.len() implies o2[c0] =~~= goal[c0] by {
                assert forall|v0: int| 0 <= v0 < o2[c0].len() implies o2[c0][v0] =~= goal[c0][v0] by {
                    assert forall|k0: int| 0 <= k0 < o2[c0][v0].len() implies o2[c0][v0][k0]
                        == goal[c0][v0][k0] by {
                        if o[c0][v0].len() >= 2 && o[c0][v0][k0].id == id {
                            assert(registered(o, c0, v0, k0));
                            assert(old_points.contains_key(o[c0][v0][k0].id.0));
                        }
                    }
                }
            }
            assert(o2 =~~= goal);
            assert forall|c0: int, v0: int, k0: int| registered(o2, c0, v0, k0) == registered(
                o,
                c0,
                v0,
                k0,
            ) by {}
            assert forall|c0: int, v0: int, k0: int| #[trigger]
                registered(o, c0, v0, k0) implies o2[c0][v0][k0].id == o[c0][v0][k0].id && kind_at(
                o2[c0][v0],
                k0,
            ) == kind_at(o[c0][v0], k0) by {}
            assert forall|k1: u128| #[trigger] self.points@.contains_key(k1) implies {
                let m = self.points@[k1]@;
                &&& registered(o2, m.contour_index, m.curve_index, m.point_index)
                &&& o2[m.contour_index][m.curve_index][m.point_index].id == PointId(k1)
                &&& m == control_point_at(o2, m.contour_index, m.curve_index, m.point_index)
            } by {
                assert(old_points.contains_key(k1));
                let m0 = old_points[k1]@;
                assert(registered(o, m0.contour_index, m0.curve_index, m0.point_index));
            }
            assert forall|c0: int, v0: int, k0: int|
                #[trigger] registered(o2, c0, v0, k0) && earlier(
                    c0,
                    v0,
                    k0,
                    o2.len() as int,
                    0,
                    0,
                ) implies {
                &&& self.points@.contains_key(o2[c0][v0][k0].id.0)
                &&& self.points@[o2[c0][v0][k0].id.0]@.contour_index == c0
                &&& self.points@[o2[c0][v0][k0].id.0]@.curve_index == v0
                &&& self.points@[o2[c0][v0][k0].id.0]@.point_index == k0
            } by {
                assert(registered(o, c0, v0, k0));
                assert(old_points.contains_key(o[c0][v0][k0].id.0));
            }
            assert(covers(self.points@, self.kd_tree@, o2));
            assert forall|c0: int, v0: int| 0 <= c0 < o2.len() && 0 <= v0 < o2[c0].len() implies (
            #[trigger] o2[c0][v0]).len() <= 4 by {
                assert(o[c0][v0].len() <= 4);
            }
        }
        prior
    }
}

/// A registry that holds the control points of an outline shows that no two
/// of them share an identifier.
pub proof fn lemma_ids_distinct_when_covered(
    points: Map<u128, ControlPoint>,
    index: Map<PointId, IPoint>,
    o: Seq<Seq<Seq<CurvePoint>>>,
)
    requires
        covers(points, index, o),
    ensures
        ids_distinct(o),
{
    assert forall|c1: int, v1: int, k1: int, c2: int, v2: int, k2: int|
        #[trigger] registered(o, c1, v1, k1) && #[trigger] registered(o, c2, v2, k2)
            && o[c1][v1][k1].id == o[c2][v2][k2].id implies c1 == c2 && v1 == v2 && k1 == k2 by {
        assert(points.contains_key(o[c1][v1][k1].id.0));
    }
}

/// Two registries that hold the control points of one outline hold the same,
/// and so do their indexes.
pub proof fn lemma_covering_is_unique(
    points_a: Map<u128, ControlPoint>,
    index_a: Map<PointId, IPoint>,
    points_b: Map<u128, ControlPoint>,
    index_b: Map<PointId, IPoint>,
    o: Seq<Seq<Seq<CurvePoint>>>,
)
    requires
        covers(points_a, index_a, o),
        covers(points_b, index_b, o),
    ensures
        forall|id: u128| points_a.contains_key(id) == points_b.contains_key(id),
        forall|id: u128| points_a.contains_key(id) ==> points_a[id]@ == points_b[id]@,
        index_a == index_b,
{
    assert forall|id: u128| points_a.contains_key(id) implies points_b.contains_key(id)
        && points_a[id]@ == points_b[id]@ by {
        let m = points_a[id]@;
        assert(registered(o, m.contour_index, m.curve_index, m.point_index));
        assert(points_b.contains_key(o[m.contour_index][m.curve_index][m.point_index].id.0));
        let n = points_b[id]@;
        assert(n == control_point_at(o, n.contour_index, n.curve_index, n.point_index));
    }
    assert forall|id: u128| points_b.contains_key(id) implies points_a.contains_key(id) by {
        let m = points_b[id]@;
        assert(registered(o, m.contour_index, m.curve_index, m.point_index));
        assert(points_a.contains_key(o[m.contour_index][m.curve_index][m.point_index].id.0));
    }
    assert forall|id: PointId| index_a.contains_key(id) == index_b.contains_key(id) by {
        assert(index_a.contains_key(id) == points_a.contains_key(id.0));
        assert(index_b.contains_key(id) == points_b.contains_key(id.0));
    }
    assert(index_a =~= index_b);
}

/// An outline has one registry and one index: two states that are well
/// formed over the same outline hold the same control points at the same
/// positions. To rebuild twice from an unchanged outline therefore gives
/// the same contents both times.
pub proof fn lemma_outline_determines_registry(a: GlyphState, b: GlyphState)
    requires
        a.wf(),
        b.wf(),
        a.outline() == b.outline(),
    ensures
        a.registry() == b.registry(),
        a.index() == b.index(),
{
    let o = a.outline();
    assert forall|id: u128| a.entries().contains_key(id) implies b.entries().contains_key(id)
        && a.entries()[id]@ == b.entries()[id]@ by {
        lemma_entry_determined(a, b, id);
    }
    assert forall|id: u128| b.entries().contains_key(id) implies a.entries().contains_key(id)
        && a.entries()[id]@ == b.entries()[id]@ by {
        lemma_entry_determined(b, a, id);
    }
    assert(a.registry() =~= b.registry());
    assert forall|id: PointId| a.index().contains_key(id) == b.index().contains_key(id) by {
        assert(a.index().contains_key(id) == a.entries().contains_key(id.0));
        assert(b.index().contains_key(id) == b.entries().contains_key(id.0));
    }
    assert(a.index() =~= b.index());
}

proof fn lemma_entry_determined(a: GlyphState, b: GlyphState, id: u128)
    requires
        a.wf(),
        b.wf(),
        a.outline() == b.outline(),
        a.entries().contains_key(id),
    ensures
        b.entries().contains_key(id),
        a.entries()[id]@ == b.entries()[id]@,
{
    let o = a.outline();
    let m = a.entries()[id]@;
    assert(registered(o, m.contour_index, m.curve_index, m.point_index));
    assert(earlier(m.contour_index, m.curve_index, m.point_index, o.len() as int, 0, 0));
    assert(b.entries().contains_key(o[m.contour_index][m.curve_index][m.point_index].id.0));
    let n = b.entries()[id]@;
    assert(n == control_point_at(o, n.contour_index, n.curve_index, n.point_index));
}

/// A point moved away and then moved back to where it was leaves the
/// outline as it was before the first move.
pub proof fn lemma_move_round_trip_outline(state: GlyphState, id: PointId, p: IPoint)
    requires
        state.wf(),
        state.index().contains_key(id),
    ensures
        placed_outline(
            placed_outline(state.outline(), uniform_targets(seq![id].to_set(), p)),
            uniform_targets(seq![id].to_set(), state.index()[id]),
        ) == state.outline(),
{
    let o = state.outline();
    let there = uniform_targets(seq![id].to_set(), p);
    let back = uniform_targets(seq![id].to_set(), state.index()[id]);
    let once = placed_outline(o, there);
    let twice = placed_outline(once, back);
    assert forall|c: int| 0 <= c < twice.len() implies twice[c] =~~= o[c] by {
        assert forall|v: int| 0 <= v < twice[c].len() implies twice[c][v] =~= o[c][v] by {
            assert forall|k: int| 0 <= k < twice[c][v].len() implies twice[c][v][k] == o[c][v][k] by {
                assert(once[c][v][k] == placed_point(o, there, c, v, k));
                if o[c][v].len() >= 2 && o[c][v][k].id == id {
                    assert(registered(o, c, v, k));
                    assert(state.entries().contains_key(o[c][v][k].id.0));
                }
            }
        }
    }
    assert(twice =~~= o);
}

/// The index holds every control point of the outline at the position that
/// the outline gives it, and the registry holds what the outline says of
/// it.
pub proof fn lemma_index_holds_outline(state: GlyphState, c: int, v: int, k: int)
    requires
        state.wf(),
        registered(state.outline(), c, v, k),
    ensures
        state.index().contains_key(state.outline()[c][v][k].id),
        state.index()[state.outline()[c][v][k].id] == state.outline()[c][v][k].position,
        state.registry().contains_key(state.outline()[c][v][k].id),
        state.registry()[state.outline()[c][v][k].id] == control_point_at(state.outline(), c, v, k),
{
    let o = state.outline();
    let id = o[c][v][k].id;
    assert(earlier(c, v, k, o.len() as int, 0, 0));
    assert(state.entries().contains_key(id.0));
    let m = state.entries()[id.0]@;
    assert(m == control_point_at(o, m.contour_index, m.curve_index, m.point_index));
    assert(state.index().contains_key(id));
}

/// The index holds nothing but the control points of the outline: each of
/// its entries stands at a place of the outline.
pub proof fn lemma_index_is_of_outline(state: GlyphState, id: PointId) -> (place: (int, int, int))
    requires
        state.wf(),
        state.index().contains_key(id),
    ensures
        registered(state.outline(), place.0, place.1, place.2),
        state.outline()[place.0][place.1][place.2].id == id,
        state.outline()[place.0][place.1][place.2].position == state.index()[id],
{
    let o = state.outline();
    assert(state.entries().contains_key(id.0));
    let m = state.entries()[id.0]@;
    assert(registered(o, m.contour_index, m.curve_index, m.point_index));
    assert(o[m.contour_index][m.curve_index][m.point_index].id == PointId(id.0));
    (m.contour_index, m.curve_index, m.point_index)
}

/// Point `k` of curve `v` of a contour is a control point.
pub open spec fn in_contour(contour: Seq<Seq<CurvePoint>>, v: int, k: int) -> bool {
    0 <= v < contour.len() && 2 <= contour[v].len() && 0 <= k < contour[v].len()
}

/// The control points of a contour stand apart: no two of them at one
/// position, and none at a position that the index holds.
pub open spec fn stands_apart(contour: Seq<Seq<CurvePoint>>, index: Map<PointId, IPoint>) -> bool {
    &&& forall|v1: int, k1: int, v2: int, k2: int|
        #[trigger] in_contour(contour, v1, k1) && #[trigger] in_contour(contour, v2, k2)
            && contour[v1][k1].position == contour[v2][k2].position ==> v1 == v2 && k1 == k2
    &&& forall|v: int, k: int, id: PointId|
        #[trigger] in_contour(contour, v, k) && #[trigger] index.contains_key(id) ==> index[id]
            != contour[v][k].position
}

/// Once a contour has been added, the points that the index held are where
/// they were. Where the control points of the contour stand apart, a disc
/// of radius 0 around each of them holds that point alone, and a disc of
/// radius 0 around a point that the index held before holds what it held
/// before.
pub proof fn lemma_zero_radius_after_add_contour(
    before: GlyphState,
    after: GlyphState,
    contour: Seq<Seq<CurvePoint>>,
)
    requires
        before.wf(),
        after.wf(),
        after.outline() == before.outline().push(contour),
    ensures
        forall|id: PointId| #[trigger]
            before.index().contains_key(id) ==> after.index().contains_key(id)
                && after.index()[id] == before.index()[id],
        forall|v: int, k: int| #[trigger]
            in_contour(contour, v, k) ==> after.index().contains_key(contour[v][k].id)
                && after.index()[contour[v][k].id] == contour[v][k].position,
        stands_apart(contour, before.index()) ==> forall|v: int, k: int| #[trigger]
            in_contour(contour, v, k) ==> radius_hits(after.index(), contour[v][k].position, 0)
                == set![contour[v][k].id],
        stands_apart(contour, before.index()) ==> forall|id: PointId| #[trigger]
            before.index().contains_key(id) ==> radius_hits(
                after.index(),
                before.index()[id],
                0,
            ) == radius_hits(before.index(), before.index()[id], 0),
{
    let o = before.outline();
    let grown = after.outline();
    let last = o.len() as int;
    assert forall|id: PointId| #[trigger] before.index().contains_key(id) implies after.index().contains_key(
        id,
    ) && after.index()[id] == before.index()[id] by {
        let (c, v, k) = lemma_index_is_of_outline(before, id);
        assert(grown[c] == o[c]);
        assert(registered(grown, c, v, k));
        lemma_index_holds_outline(after, c, v, k);
    }
    assert forall|v: int, k: int| #[trigger] in_contour(contour, v, k) implies after.index().contains_key(
        contour[v][k].id,
    ) && after.index()[contour[v][k].id] == contour[v][k].position by {
        assert(grown[last] == contour);
        assert(registered(grown, last, v, k));
        lemma_index_holds_outline(after, last, v, k);
    }
    if stands_apart(contour, before.index()) {
        assert forall|v: int, k: int| #[trigger] in_contour(contour, v, k) implies radius_hits(
            after.index(),
            contour[v][k].position,
            0,
        ) == set![contour[v][k].id] by {
            let here = contour[v][k];
            assert forall|x: PointId|
                radius_hits(after.index(), here.position, 0).contains(x) <==> x == here.id by {
                if after.index().contains_key(x) {
                    lemma_zero_radius_is_the_centre(after.index()[x], here.position);
                }
                if radius_hits(after.index(), here.position, 0).contains(x) {
                    let (c2, v2, k2) = lemma_index_is_of_outline(after, x);
                    if c2 < last {
                        assert(grown[c2] == o[c2]);
                        assert(registered(o, c2, v2, k2));
                        lemma_index_holds_outline(before, c2, v2, k2);
                        assert(before.index().contains_key(x));
                        assert(in_contour(contour, v, k) && before.index().contains_key(x));
                        assert(false);
                    } else {
                        assert(grown[last] == contour);
                        assert(in_contour(contour, v2, k2));
                        assert(contour[v2][k2].position == here.position);
                    }
                }
            }
            assert(radius_hits(after.index(), here.position, 0) =~= set![here.id]);
        }
        assert forall|id: PointId| #[trigger] before.index().contains_key(id) implies radius_hits(
            after.index(),
            before.index()[id],
            0,
        ) == radius_hits(before.index(), before.index()[id], 0) by {
            let q = before.index()[id];
            assert forall|x: PointId|
                radius_hits(after.index(), q, 0).contains(x) <==> radius_hits(
                    before.index(),
                    q,
                    0,
                ).contains(x) by {
                if radius_hits(after.index(), q, 0).contains(x) {
                    lemma_zero_radius_is_the_centre(after.index()[x], q);
                    let (c2, v2, k2) = lemma_index_is_of_outline(after, x);
                    if c2 < last {
                        assert(grown[c2] == o[c2]);
                        assert(registered(o, c2, v2, k2));
                        lemma_index_holds_outline(before, c2, v2, k2);
                    } else {
                        assert(grown[last] == contour);
                        assert(in_contour(contour, v2, k2) && before.index().contains_key(id));
                        assert(false);
                    }
                }
            }
            assert(radius_hits(after.index(), q, 0) =~= radius_hits(before.index(), q, 0));
        }
    }
}

} // verus!
