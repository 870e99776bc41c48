use crate::glyph_state::{control_point_at, kind_at, GlyphState, KindModel, ControlPointKind};
use crate::outline::registered;
use crate::points::{within_radius, IPoint, PointId};
use crate::selection::contains_id;
use crate::tools::panning::{PanningTool, SelectBox};
use vstd::prelude::*;

verus! {

/// The shape that marks a control point: a square for an endpoint, a circle
/// for a handle.
#[derive(Clone, Copy, Debug, PartialEq, Eq, Structural)]
pub enum MarkShape {
    Square,
    Circle,
}

/// How one control point is drawn.
#[derive(Clone, Debug, PartialEq, Eq)]
pub struct HandleMark {
    pub position: IPoint,
    pub shape: MarkShape,
    /// The point is under the cursor or selected.
    pub highlighted: bool,
    /// Where the lines from a handle to its endpoints end.
    pub links: Vec<IPoint>,
}

/// The points that a control point is joined to by a line: for a handle its
/// endpoints, for an endpoint none.
pub open spec fn link_ids(kind: KindModel) -> Seq<PointId> {
    match kind {
        KindModel::Endpoint { handle } => Seq::empty(),
        KindModel::Handle { end_points } => end_points,
    }
}

/// `mark` draws the control point `id` as it stands in `state`, with the
/// cursor at `cursor`.
pub open spec fn marks(
    state: GlyphState,
    id: PointId,
    cursor: IPoint,
    radius: int,
    mark: HandleMark,
) -> bool {
    let links = link_ids(state.registry()[id].kind);
    &&& mark.position == state.index()[id]
    &&& mark.shape == if state.registry()[id].kind is Endpoint {
        MarkShape::Square
    } else {
        MarkShape::Circle
    }
    &&& mark.highlighted == (within_radius(state.index()[id], cursor, radius)
        || state.selected().contains(id))
    &&& mark.links@.len() == links.len()
    &&& forall|i: int| 0 <= i < links.len() ==> #[trigger] mark.links@[i] == state.index()[links[i]]
}

/// The endpoints of a handle are control points themselves.
pub proof fn lemma_links_are_control_points(state: GlyphState, id: PointId)
    requires
        state.wf(),
        state.registry().contains_key(id),
    ensures
        forall|i: int|
            0 <= i < link_ids(state.registry()[id].kind).len() ==> state.registry().contains_key(
                #[trigger] link_ids(state.registry()[id].kind)[i],
            ),
{
    let o = state.outline();
    let m = state.entries()[id.0]@;
    let (c, v, k) = (m.contour_index, m.curve_index, m.point_index);
    assert(registered(o, c, v, k));
    assert(m == control_point_at(o, c, v, k));
    assert(m.kind == kind_at(o[c][v], k));
    assert(registered(o, c, v, 0));
    assert(state.entries().contains_key(o[c][v][0].id.0));
    if o[c][v].len() >= 3 {
        assert(registered(o, c, v, 2));
        assert(state.entries().contains_key(o[c][v][2].id.0));
    }
    if o[c][v].len() >= 4 {
        assert(registered(o, c, v, 3));
        assert(state.entries().contains_key(o[c][v][3].id.0));
    }
}

/// How the control point `id` is to be drawn while the cursor is at
/// `cursor`: highlighted where it is within `radius` of the cursor or
/// selected, and, for a handle, joined to its endpoints. `None` where `id`
/// names no control point.
pub fn handle_mark(state: &GlyphState, id: PointId, cursor: IPoint, radius: i64) -> (mark: Option<
    HandleMark,
>)
    requires
        state.wf(),
    ensures
        match mark {
            Some(mark) => state.registry().contains_key(id) && marks(
                *state,
                id,
                cursor,
                radius as int,
                mark,
            ),
            None => !state.registry().contains_key(id),
        },
{
    let cp = match state.get(id) {
        Some(cp) => cp,
        None => {
            return None;
        },
    };
    proof {
        lemma_links_are_control_points(*state, id);
        assert(state.index().contains_key(id));
    }
    let highlighted = cp.position.radial_distance(cursor, radius).is_some() || contains_id(
        state.get_selection(),
        id,
    );
    let mut links: Vec<IPoint> = Vec::new();
    let shape = match &cp.kind {
        ControlPointKind::Endpoint { handle: _ } => MarkShape::Square,
        ControlPointKind::Handle { end_points } => {
            proof {
                let links = link_ids(state.registry()[id].kind);
                assert(cp.kind@ == state.registry()[id].kind);
                assert(links == end_points@);
                assert forall|j: int| 0 <= j < end_points@.len() implies state.registry().contains_key(
                    #[trigger] end_points@[j],
                ) by {
                    assert(state.registry().contains_key(links[j]));
                }
            }
            let mut i: usize = 0;
            while i < end_points.len()
                invariant
                    0 <= i <= end_points.len(),
                    state.wf(),
                    links@.len() == i,
                    forall|j: int|
                        0 <= j < end_points@.len() ==> state.registry().contains_key(
                            #[trigger] end_points@[j],
                        ),
                    forall|j: int|
                        0 <= j < i ==> #[trigger] links@[j] == state.index()[end_points@[j]],
                decreases end_points.len() - i,
            {
                match state.get(end_points[i]) {
                    Some(end) => {
                        assert(state.index().contains_key(end_points@[i as int]));
                        links.push(end.position);
                    },
                    None => {
                        assert(state.registry().contains_key(end_points@[i as int]));
                        assert(false);
                    },
                }
                i = i + 1;
            }
            MarkShape::Circle
        },
    };
    Some(HandleMark { position: cp.position, shape, highlighted, links })
}

/// The selection rectangle as the selection layer shows it: nothing where
/// the rectangle holds nothing and is not being drawn out, or has no
/// breadth or no height.
pub open spec fn selection_shown(tool: PanningTool) -> SelectBox {
    if !tool.is_selection_active && tool.is_selection_empty {
        SelectBox::Hidden
    } else if tool.selection_upper_left.x == tool.selection_bottom_right.x
        || tool.selection_upper_left.y == tool.selection_bottom_right.y {
        SelectBox::Hidden
    } else {
        SelectBox::Rectangle {
            upper_left: tool.selection_upper_left,
            bottom_right: tool.selection_bottom_right,
            active: tool.is_selection_active,
        }
    }
}

/// What the selection layer is to draw for the tool.
pub fn draw_selection(tool: &PanningTool) -> (shown: SelectBox)
    ensures
        shown == selection_shown(*tool),
{
    if !tool.is_selection_active && tool.is_selection_empty {
        SelectBox::Hidden
    } else if tool.selection_upper_left.x == tool.selection_bottom_right.x
        || tool.selection_upper_left.y == tool.selection_bottom_right.y {
        SelectBox::Hidden
    } else {
        SelectBox::Rectangle {
            upper_left: tool.selection_upper_left,
            bottom_right: tool.selection_bottom_right,
            active: tool.is_selection_active,
        }
    }
}

} // verus!
