use crate::glyph_state::GlyphState;
use crate::outline::curve_ids;
use crate::points::{dist2, within_radius, IPoint, PointId};
use crate::range_query::radius_hits;
use crate::selection::contains_id;
use vstd::prelude::*;

verus! {

/// Half the breadth, in glyph units, of the band around the advance-width
/// edge in which the edge can be grabbed.
pub const WIDTH_HANDLE_REACH: i64 = 6;

/// What is known of the cursor when a hit test is made. The distances to the
/// guidelines and the curve under the cursor come from the geometry of the
/// outline; the rest is read off the view.
pub struct Probe {
    /// The cursor, in glyph space.
    pub position: IPoint,
    /// How far from the cursor a control point may lie and still be hit, in
    /// glyph units.
    pub radius: i64,
    /// For each guideline, in their order, the perpendicular distance from
    /// the cursor to it.
    pub guideline_distances: Vec<i64>,
    /// How far from the cursor a guideline may lie and still be hit, in the
    /// unit of the distances.
    pub guideline_tolerance: i64,
    /// Guidelines are locked: none of them can be hit.
    pub lock_guidelines: bool,
    /// The curve whose body the cursor is on, as contour and curve index.
    pub curve: Option<(usize, usize)>,
    /// The glyph's total area is shown, and with it the advance-width edge.
    pub show_total_area: bool,
    /// The height of the advance-width edge.
    pub units_per_em: i64,
}

/// The topmost thing under the cursor.
#[derive(Clone, Copy, Debug, PartialEq, Eq, Structural)]
pub enum HitTarget {
    /// The guideline with this index.
    Guideline(usize),
    /// A control point that is selected: the nearest such point.
    SelectedPoint(PointId),
    /// A control point, where no point under the cursor is selected: the
    /// nearest point.
    Point(PointId),
    /// The body of a curve.
    Curve { contour: usize, curve: usize },
    /// The advance-width edge.
    AdvanceWidth,
    /// Nothing.
    Background,
}

/// Entry `i` is the one to take from a list of distances: it is within the
/// tolerance and no entry within the tolerance is smaller; of equal ones
/// it is the first.
pub open spec fn is_closest_within(distances: Seq<i64>, tolerance: int, i: int) -> bool {
    &&& 0 <= i < distances.len()
    &&& 0 <= distances[i] <= tolerance
    &&& forall|j: int|
        0 <= j < distances.len() && 0 <= #[trigger] distances[j] <= tolerance ==> distances[i]
            < distances[j] || (distances[i] == distances[j] && i <= j)
}

/// No entry of a list of distances is within the tolerance.
pub open spec fn none_within(distances: Seq<i64>, tolerance: int) -> bool {
    forall|j: int| 0 <= j < distances.len() ==> !(0 <= #[trigger] distances[j] <= tolerance)
}

/// The entry to take from a list of distances, if there is one.
pub open spec fn closest_index(distances: Seq<i64>, tolerance: int) -> Option<int> {
    if none_within(distances, tolerance) {
        None
    } else {
        Some(choose|i: int| is_closest_within(distances, tolerance, i))
    }
}

/// There is one entry to take from a list of distances at most.
pub proof fn lemma_closest_is_unique(distances: Seq<i64>, tolerance: int, i: int)
    requires
        is_closest_within(distances, tolerance, i),
    ensures
        closest_index(distances, tolerance) == Some(i),
{
    assert(0 <= distances[i] <= tolerance);
    let j = choose|j: int| is_closest_within(distances, tolerance, j);
    assert(0 <= distances[j] <= tolerance);
}

/// The entry of `distances` that is smallest among those from 0 to
/// `tolerance`, the first of them where several are equal; `None` where no
/// entry is in that range.
pub fn closest_within(distances: &Vec<i64>, tolerance: i64) -> (found: Option<usize>)
    ensures
        match found {
            Some(i) => is_closest_within(distances@, tolerance as int, i as int) && closest_index(
                distances@,
                tolerance as int,
            ) == Some(i as int),
            None => none_within(distances@, tolerance as int) && closest_index(
                distances@,
                tolerance as int,
            ).is_none(),
        },
{
    let mut best: Option<usize> = None;
    let mut i: usize = 0;
    while i < distances.len()
        invariant
            0 <= i <= distances.len(),
            match best {
                Some(b) => is_closest_within(distances@.take(i as int), tolerance as int, b as int),
                None => none_within(distances@.take(i as int), tolerance as int),
            },
        decreases distances.len() - i,
    {
        let d = distances[i];
        let ghost upto = distances@.take(i as int);
        let ghost next = distances@.take(i + 1);
        assert(forall|j: int| 0 <= j < i ==> upto[j] == next[j]);
        assert(next[i as int] == d);
        if 0 <= d && d <= tolerance {
            match best {
                Some(b) => {
                    if d < distances[b] {
                        best = Some(i);
                    }
                },
                None => {
                    best = Some(i);
                },
            }
        }
        i = i + 1;
    }
    assert(distances@.take(distances@.len() as int) =~= distances@);
    proof {
        match best {
            Some(b) => lemma_closest_is_unique(distances@, tolerance as int, b as int),
            None => {},
        }
    }
    best
}

/// `a` comes before `b` among the points around `cursor`: it is nearer, or
/// as near and has the smaller identifier.
pub open spec fn nearer(index: Map<PointId, IPoint>, cursor: IPoint, a: PointId, b: PointId) -> bool {
    dist2(index[a], cursor) < dist2(index[b], cursor) || (dist2(index[a], cursor) == dist2(
        index[b],
        cursor,
    ) && a.0 <= b.0)
}

/// `id` is the point of `candidates` nearest to `cursor`.
pub open spec fn is_nearest(
    index: Map<PointId, IPoint>,
    candidates: Set<PointId>,
    cursor: IPoint,
    id: PointId,
) -> bool {
    &&& candidates.contains(id)
    &&& forall|other: PointId| #[trigger] candidates.contains(other) ==> nearer(index, cursor, id, other)
}

/// The control points under the cursor.
pub open spec fn points_hit(state: GlyphState, probe: Probe) -> Set<PointId> {
    radius_hits(state.index(), probe.position, probe.radius as int)
}

/// The control points under the cursor that are selected.
pub open spec fn selected_points_hit(state: GlyphState, probe: Probe) -> Set<PointId> {
    points_hit(state, probe).intersect(state.selected().to_set())
}

/// The distances to the guidelines as a hit test takes them: one for each
/// guideline that the glyph has. A guideline for which the probe holds no
/// distance is out of reach, and a distance for which the glyph has no
/// guideline is passed over.
pub open spec fn distances_seen(state: GlyphState, probe: Probe) -> Seq<i64> {
    Seq::new(
        state.guides().len(),
        |i: int|
            if i < probe.guideline_distances@.len() {
                probe.guideline_distances@[i]
            } else {
                -1i64
            },
    )
}

/// One of the guidelines at the distances given is under the cursor and may
/// be hit.
pub open spec fn guideline_hit(distances: Seq<i64>, probe: Probe) -> bool {
    !probe.lock_guidelines && !none_within(distances, probe.guideline_tolerance as int)
}

/// The cursor is on the body of a curve that the outline has and that has
/// points.
pub open spec fn curve_hit(state: GlyphState, probe: Probe) -> bool {
    match probe.curve {
        Some((c, v)) => curve_ids(state.outline(), c as int, v as int).len() > 0,
        None => false,
    }
}

/// The advance width, 0 where the glyph has none.
pub open spec fn width_or_zero(state: GlyphState) -> int {
    match state.advance_width() {
        Some(w) => w as int,
        None => 0,
    }
}

/// The cursor is on the advance-width edge: the edge is shown, the cursor is
/// no further than the reach from it, and no lower than the baseline nor
/// higher than the em square.
pub open spec fn width_handle_hit(state: GlyphState, probe: Probe) -> bool {
    &&& probe.show_total_area
    &&& -WIDTH_HANDLE_REACH <= probe.position.x - width_or_zero(state) <= WIDTH_HANDLE_REACH
    &&& 0 <= probe.position.y <= probe.units_per_em
}

/// `target` is what a hit test at `probe` finds where the guidelines are at
/// the distances given: the first, in this order, of a guideline, a
/// selected control point, a control point, a curve body, the
/// advance-width edge, or else the background.
pub open spec fn resolves_with(
    state: GlyphState,
    distances: Seq<i64>,
    probe: Probe,
    target: HitTarget,
) -> bool {
    match target {
        HitTarget::Guideline(i) => !probe.lock_guidelines && is_closest_within(
            distances,
            probe.guideline_tolerance as int,
            i as int,
        ),
        HitTarget::SelectedPoint(id) => !guideline_hit(distances, probe) && is_nearest(
            state.index(),
            selected_points_hit(state, probe),
            probe.position,
            id,
        ),
        HitTarget::Point(id) => !guideline_hit(distances, probe) && selected_points_hit(
            state,
            probe,
        ) =~= Set::<PointId>::empty() && is_nearest(
            state.index(),
            points_hit(state, probe),
            probe.position,
            id,
        ),
        HitTarget::Curve { contour, curve } => !guideline_hit(distances, probe) && points_hit(
            state,
            probe,
        ) =~= Set::<PointId>::empty() && curve_hit(state, probe) && probe.curve == Some(
            (contour, curve),
        ),
        HitTarget::AdvanceWidth => !guideline_hit(distances, probe) && points_hit(state, probe)
            =~= Set::<PointId>::empty() && !curve_hit(state, probe) && width_handle_hit(
            state,
            probe,
        ),
        HitTarget::Background => !guideline_hit(distances, probe) && points_hit(state, probe)
            =~= Set::<PointId>::empty() && !curve_hit(state, probe) && !width_handle_hit(
            state,
            probe,
        ),
    }
}

/// `target` is what a hit test at `probe` finds. A guideline that it finds
/// is one that the glyph has.
pub open spec fn resolves_to(state: GlyphState, probe: Probe, target: HitTarget) -> bool {
    resolves_with(state, distances_seen(state, probe), probe, target)
}

/// The point of `hits` nearest to `cursor`, among all of them and among
/// those that are selected.
fn nearest_points(state: &GlyphState, hits: &Vec<PointId>, cursor: IPoint, radius: i64) -> (found: (
    Option<PointId>,
    Option<PointId>,
))
    requires
        state.wf(),
        hits@.to_set() == radius_hits(state.index(), cursor, radius as int),
    ensures
        match found.0 {
            Some(id) => is_nearest(state.index(), hits@.to_set(), cursor, id),
            None => hits@.len() == 0,
        },
        match found.1 {
            Some(id) => is_nearest(
                state.index(),
                hits@.to_set().intersect(state.selected().to_set()),
                cursor,
                id,
            ),
            None => hits@.to_set().intersect(state.selected().to_set()) =~= Set::<PointId>::empty(),
        },
{
    let ghost index = state.index();
    let ghost chosen = state.selected().to_set();
    let mut best: Option<(PointId, u128)> = None;
    let mut best_selected: Option<(PointId, u128)> = None;
    let mut i: usize = 0;
    while i < hits.len()
        invariant
            0 <= i <= hits.len(),
            state.wf(),
            index == state.index(),
            chosen == state.selected().to_set(),
            hits@.to_set() == radius_hits(index, cursor, radius as int),
            match best {
                Some((id, d)) => d == dist2(index[id], cursor) && is_nearest(
                    index,
                    hits@.take(i as int).to_set(),
                    cursor,
                    id,
                ),
                None => i == 0,
            },
            match best_selected {
                Some((id, d)) => d == dist2(index[id], cursor) && is_nearest(
                    index,
                    hits@.take(i as int).to_set().intersect(chosen),
                    cursor,
                    id,
                ),
                None => hits@.take(i as int).to_set().intersect(chosen) =~= Set::<PointId>::empty(),
            },
        decreases hits.len() - i,
    {
        let id = hits[i];
        let ghost upto = hits@.take(i as int);
        let ghost next = hits@.take(i + 1);
        proof {
            assert(hits@.to_set().contains(id));
            assert(index.contains_key(id));
            assert forall|x: PointId| next.contains(x) <==> upto.contains(x) || x == id by {
                if next.contains(x) {
                    let j = choose|j: int| 0 <= j < next.len() && next[j] == x;
                    if j < i {
                        assert(upto[j] == x);
                    }
                }
                if upto.contains(x) {
                    let j = choose|j: int| 0 <= j < upto.len() && upto[j] == x;
                    assert(next[j] == x);
                }
                if x == id {
                    assert(next[i as int] == x);
                }
            }
        }
        let position = match state.get(id) {
            Some(cp) => cp.position,
            None => vstd::pervasive::unreached(),
        };
        assert(position == index[id]);
        let d = match position.radial_distance(cursor, radius) {
            Some(d) => d,
            None => vstd::pervasive::unreached(),
        };
        let better = match best {
            Some((b, bd)) => d < bd || (d == bd && id.0 <= b.0),
            None => true,
        };
        if better {
            best = Some((id, d));
        }
        if contains_id(state.get_selection(), id) {
            let better = match best_selected {
                Some((b, bd)) => d < bd || (d == bd && id.0 <= b.0),
                None => true,
            };
            if better {
                best_selected = Some((id, d));
            }
            assert(chosen.contains(id));
        } else {
            assert(!chosen.contains(id));
        }
        proof {
            assert forall|x: PointId|
                next.to_set().intersect(chosen).contains(x) <==> upto.to_set().intersect(
                    chosen,
                ).contains(x) || (x == id && chosen.contains(id)) by {}
            match best {
                Some((b, bd)) => {
                    assert(next.contains(b));
                    assert forall|other: PointId| #[trigger]
                        next.to_set().contains(other) implies nearer(index, cursor, b, other) by {
                        if other != id {
                            assert(upto.contains(other));
                            assert(upto.to_set().contains(other));
                        }
                    }
                },
                None => {},
            }
            let before = upto.to_set().intersect(chosen);
            let after = next.to_set().intersect(chosen);
            match best_selected {
                Some((b, bd)) => {
                    assert(after.contains(b));
                    assert forall|other: PointId| #[trigger] after.contains(other) implies nearer(
                        index,
                        cursor,
                        b,
                        other,
                    ) by {
                        if other != id {
                            assert(before.contains(other));
                        }
                    }
                },
                None => {
                    assert(after =~= Set::<PointId>::empty());
                },
            }
        }
        i = i + 1;
    }
    assert(hits@.take(hits@.len() as int) =~= hits@);
    let first = match best {
        Some((id, _)) => Some(id),
        None => None,
    };
    let second = match best_selected {
        Some((id, _)) => Some(id),
        None => None,
    };
    (first, second)
}

/// Whether the cursor is on the advance-width edge.
fn on_width_handle(state: &GlyphState, probe: &Probe) -> (hit: bool)
    ensures
        hit == width_handle_hit(*state, *probe),
{
    if !probe.show_total_area {
        return false;
    }
    let width: i64 = match state.width() {
        Some(w) => w,
        None => 0,
    };
    let off: i128 = probe.position.x as i128 - width as i128;
    -(WIDTH_HANDLE_REACH as i128) <= off && off <= WIDTH_HANDLE_REACH as i128 && 0
        <= probe.position.y && probe.position.y <= probe.units_per_em
}

/// The distance to each guideline of the glyph, as far as the probe holds
/// it.
pub fn seen_distances(state: &GlyphState, probe: &Probe) -> (distances: Vec<i64>)
    ensures
        distances@ == distances_seen(*state, *probe),
{
    let n = state.guidelines().len();
    let mut distances: Vec<i64> = Vec::new();
    let mut i: usize = 0;
    while i < n
        invariant
            0 <= i <= n,
            n == state.guides().len(),
            distances@.len() == i,
            forall|j: int| 0 <= j < i ==> distances@[j] == distances_seen(*state, *probe)[j],
        decreases n - i,
    {
        if i < probe.guideline_distances.len() {
            distances.push(probe.guideline_distances[i]);
        } else {
            distances.push(-1);
        }
        i = i + 1;
    }
    assert(distances@ =~= distances_seen(*state, *probe));
    distances
}

/// Finds the topmost thing under the cursor, with the guidelines at the
/// distances given.
pub fn resolve_with(state: &GlyphState, distances: &Vec<i64>, probe: &Probe) -> (target: HitTarget)
    requires
        state.wf(),
    ensures
        resolves_with(*state, distances@, *probe, target),
{
    if !probe.lock_guidelines {
        match closest_within(distances, probe.guideline_tolerance) {
            Some(i) => {
                return HitTarget::Guideline(i);
            },
            None => {},
        }
    }
    let hits = state.kd_tree().query_radius(probe.position, probe.radius);
    let (nearest, nearest_selected) = nearest_points(state, &hits, probe.position, probe.radius);
    match nearest_selected {
        Some(id) => {
            return HitTarget::SelectedPoint(id);
        },
        None => {},
    }
    match nearest {
        Some(id) => {
            return HitTarget::Point(id);
        },
        None => {},
    }
    assert(hits@.to_set() =~= Set::<PointId>::empty());
    match probe.curve {
        Some((contour, curve)) => {
            if state.curve_point_ids(contour, curve).len() > 0 {
                return HitTarget::Curve { contour, curve };
            }
        },
        None => {},
    }
    if on_width_handle(state, probe) {
        HitTarget::AdvanceWidth
    } else {
        HitTarget::Background
    }
}

/// Finds the topmost thing under the cursor.
pub fn resolve(state: &GlyphState, probe: &Probe) -> (target: HitTarget)
    requires
        state.wf(),
    ensures
        resolves_to(*state, *probe, target),
        target matches HitTarget::Guideline(i) ==> i < state.guides().len(),
{
    let distances = seen_distances(state, probe);
    resolve_with(state, &distances, probe)
}

/// A hit test finds one thing only.
pub proof fn lemma_target_is_unique(
    state: GlyphState,
    distances: Seq<i64>,
    probe: Probe,
    a: HitTarget,
    b: HitTarget,
)
    requires
        resolves_with(state, distances, probe, a),
        resolves_with(state, distances, probe, b),
    ensures
        a == b,
{
    match (a, b) {
        (HitTarget::Guideline(i), HitTarget::Guideline(j)) => {
            assert(distances[i as int] == distances[j as int]);
        },
        (HitTarget::SelectedPoint(p), HitTarget::SelectedPoint(q)) => {
            assert(nearer(state.index(), probe.position, p, q));
            assert(nearer(state.index(), probe.position, q, p));
        },
        (HitTarget::Point(p), HitTarget::Point(q)) => {
            assert(nearer(state.index(), probe.position, p, q));
            assert(nearer(state.index(), probe.position, q, p));
        },
        (HitTarget::SelectedPoint(p), HitTarget::Point(q)) => {
            assert(selected_points_hit(state, probe).contains(p));
        },
        (HitTarget::Point(p), HitTarget::SelectedPoint(q)) => {
            assert(selected_points_hit(state, probe).contains(q));
        },
        (HitTarget::Guideline(i), _) => {
            assert(0 <= distances[i as int] <= probe.guideline_tolerance);
        },
        (_, HitTarget::Guideline(i)) => {
            assert(0 <= distances[i as int] <= probe.guideline_tolerance);
        },
        (HitTarget::SelectedPoint(p), _) => {
            assert(selected_points_hit(state, probe).contains(p));
            assert(points_hit(state, probe).contains(p));
        },
        (_, HitTarget::SelectedPoint(p)) => {
            assert(selected_points_hit(state, probe).contains(p));
            assert(points_hit(state, probe).contains(p));
        },
        (HitTarget::Point(p), _) => {
            assert(points_hit(state, probe).contains(p));
        },
        (_, HitTarget::Point(p)) => {
            assert(points_hit(state, probe).contains(p));
        },
        _ => {},
    }
}

/// A control point under the cursor is found before the curve it lies on:
/// where a control point is within the radius, a hit test never finds a
/// curve body, whatever curve the cursor is on.
pub proof fn lemma_point_before_curve(
    state: GlyphState,
    probe: Probe,
    target: HitTarget,
    id: PointId,
)
    requires
        resolves_to(state, probe, target),
        state.index().contains_key(id),
        within_radius(state.index()[id], probe.position, probe.radius as int),
    ensures
        target is Guideline || target is SelectedPoint || target is Point,
        !guideline_hit(distances_seen(state, probe), probe) ==> target is SelectedPoint
            || target is Point,
{
    let distances = distances_seen(state, probe);
    assert(points_hit(state, probe).contains(id));
    match target {
        HitTarget::Guideline(i) => {
            assert(0 <= distances[i as int] <= probe.guideline_tolerance);
        },
        _ => {},
    }
}

/// A hit test reads of the glyph the outline, the index, the selection and
/// the advance width: where these are the same it finds the same.
pub proof fn lemma_same_glyph_same_target(
    a: GlyphState,
    b: GlyphState,
    distances: Seq<i64>,
    probe: Probe,
    target: HitTarget,
)
    requires
        a.outline() == b.outline(),
        a.index() == b.index(),
        a.selected() == b.selected(),
        a.advance_width() == b.advance_width(),
        resolves_with(a, distances, probe, target),
    ensures
        resolves_with(b, distances, probe, target),
{
}

} // verus!
