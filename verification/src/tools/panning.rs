use crate::glyph_state::{GlyphState, Guideline};
use crate::hit_test::{
    closest_index, closest_within, distances_seen, guideline_hit, is_closest_within,
    lemma_same_glyph_same_target, points_hit, resolve_with, resolves_with, seen_distances,
    width_or_zero, HitTarget, Probe,
};
use crate::outline::curve_ids;
use crate::placement::{placed_index, placed_outline, shifted_targets};
use crate::points::{add_clamped, clamp_i64, sub_clamped, IPoint, PointId};
use crate::range_query::rectangle_hits;
use crate::selection::{contains_id, selection_after, SelectionModifier};
use vstd::prelude::*;

verus! {

/// What the tool is doing. One mode holds at a time, and it alone says what
/// the next pointer event means.
#[derive(Clone, Copy, Debug, PartialEq, Eq, Structural)]
pub enum Mode {
    /// No gesture is under way.
    Idle,
    /// The camera follows the pointer.
    Pan,
    /// The selected points follow the pointer.
    Drag,
    /// The guideline with this index follows the pointer.
    DragGuideline(usize),
    /// The advance width follows the pointer; the width it had before is
    /// kept for a cancel.
    ResizeDimensions { previous_value: Option<i64> },
    /// A selection rectangle is drawn out.
    Select,
}

/// A pointer button.
#[derive(Clone, Copy, Debug, PartialEq, Eq, Structural)]
pub enum Button {
    Primary,
    Middle,
    Secondary,
    Other,
}

/// The pointer shape that the view is asked to show.
#[derive(Clone, Copy, Debug, PartialEq, Eq, Structural)]
pub enum CursorIcon {
    Arrow,
    ArrowPlus,
    ArrowMinus,
    Crosshair,
    Grab,
}

/// A context menu that the view is asked to present.
#[derive(Clone, Copy, Debug, PartialEq, Eq, Structural)]
pub enum ContextMenu {
    /// Operations on the point under the cursor.
    Point,
    /// Edit or delete the guideline with this index.
    Guideline(usize),
    /// Operations on the contour with this index.
    Contour(usize),
}

/// What becomes of the highlighted curve.
#[derive(Clone, Copy, Debug, PartialEq, Eq, Structural)]
pub enum Hover {
    Keep,
    Clear,
    Curve(usize, usize),
}

/// The axis that a drag is held to.
#[derive(Clone, Copy, Debug, PartialEq, Eq, Structural)]
pub enum Lock {
    Free,
    /// Only `x` changes.
    X,
    /// Only `y` changes.
    Y,
}

/// The change to the glyph that an event made, for the undo journal.
#[derive(Clone, Copy, Debug, PartialEq, Eq, Structural)]
pub enum Edit {
    Nothing,
    /// A guideline was added after those there were.
    NewGuideline,
    /// The selected points moved; consecutive moves count as one.
    MovePoints,
    /// A guideline moved or turned; consecutive changes count as one.
    MoveGuideline { index: usize },
    /// The advance width changed from this value.
    Width { previous: Option<i64> },
}

/// A place or a distance on the screen, in pixels.
#[derive(Clone, Copy, Debug, PartialEq, Eq, Structural)]
pub struct Offset {
    pub x: i64,
    pub y: i64,
}

/// What the view is asked to do after an event.
#[derive(Clone, Copy, Debug, PartialEq, Eq, Structural)]
pub struct Reaction {
    /// The event was handled here and goes no further.
    pub inhibit: bool,
    pub redraw: bool,
    pub cursor: Option<CursorIcon>,
    pub menu: Option<ContextMenu>,
    pub hovering: Hover,
    /// The axis lock and the snapping that a drag had are dropped.
    pub clear_constraints: bool,
    /// The camera moves by this much, in pixels.
    pub camera: Option<Offset>,
    /// The pointer is put at this place on the screen.
    pub warp: Option<Offset>,
    pub edit: Edit,
}

impl Reaction {
    /// A reaction that asks for nothing.
    pub open spec fn quiet(inhibit: bool) -> Reaction {
        Reaction {
            inhibit,
            redraw: false,
            cursor: None,
            menu: None,
            hovering: Hover::Keep,
            clear_constraints: false,
            camera: None,
            warp: None,
            edit: Edit::Nothing,
        }
    }

    /// A handled event after which the pointer has the shape given.
    pub open spec fn with_cursor(cursor: CursorIcon) -> Reaction {
        Reaction { cursor: Some(cursor), ..Reaction::quiet(true) }
    }

    /// The end of a gesture: the arrow is back and nothing is highlighted.
    pub open spec fn at_rest() -> Reaction {
        Reaction {
            redraw: true,
            hovering: Hover::Clear,
            ..Reaction::with_cursor(CursorIcon::Arrow)
        }
    }

    /// A reaction that asks for nothing.
    pub fn new(inhibit: bool) -> (reaction: Reaction)
        ensures
            reaction == Reaction::quiet(inhibit),
    {
        Reaction {
            inhibit,
            redraw: false,
            cursor: None,
            menu: None,
            hovering: Hover::Keep,
            clear_constraints: false,
            camera: None,
            warp: None,
            edit: Edit::Nothing,
        }
    }

    /// A handled event after which the pointer has the shape given.
    pub fn cursor(cursor: CursorIcon) -> (reaction: Reaction)
        ensures
            reaction == Reaction::with_cursor(cursor),
    {
        let mut reaction = Reaction::new(true);
        reaction.cursor = Some(cursor);
        reaction
    }
}

/// What the view shows and how it is set up, as far as the tool reads it.
#[derive(Clone, Copy, Debug, PartialEq, Eq, Structural)]
pub struct ViewState {
    pub show_rulers: bool,
    /// The breadth of the rulers along the top and the left, in pixels.
    pub ruler_breadth: i32,
    /// The size of the viewport, in pixels.
    pub width: i32,
    pub height: i32,
    /// The pointer is carried to the opposite edge when a pan reaches an
    /// edge.
    pub warp_cursor: bool,
    pub lock: Lock,
}

/// A button that went down or up.
pub struct ButtonEvent {
    pub button: Button,
    /// The second press of a double click.
    pub double_click: bool,
    pub modifier: SelectionModifier,
    /// The pointer in the viewport, in pixels.
    pub x: i32,
    pub y: i32,
    pub view: ViewState,
    pub probe: Probe,
}

/// A place that a drag may snap to.
#[derive(Clone, Copy, Debug, PartialEq, Eq, Structural)]
pub struct SnapCandidate {
    pub point: IPoint,
    /// How far the pointer is from it.
    pub distance: i64,
}

/// A pointer that moved.
pub struct MotionEvent {
    pub modifier: SelectionModifier,
    /// The pointer in the viewport, in pixels, now and at the event before.
    pub x: i32,
    pub y: i32,
    pub last_x: i32,
    pub last_y: i32,
    /// The pointer on the screen, where the device tells.
    pub root: Option<(i32, i32)>,
    /// How far the pointer moved since the event before, in glyph units
    /// along the axes of the view: `y` grows downward.
    pub delta_x: i64,
    pub delta_y: i64,
    pub view: ViewState,
    pub probe: Probe,
    /// The places that the drag may snap to, where snapping is on, with the
    /// greatest distance at which one counts.
    pub snap: Option<Vec<SnapCandidate>>,
    pub snap_tolerance: i64,
    /// The pointer at the event before, in glyph space.
    pub last_position: IPoint,
}

/// A wheel that turned.
#[derive(Clone, Copy, Debug, PartialEq, Eq, Structural)]
pub struct ScrollEvent {
    pub shift: bool,
    pub control: bool,
    pub delta_x: i32,
    pub delta_y: i32,
}

/// The angle of a guideline pulled out of a ruler, in thousandths of a
/// degree, for a press at `(x, y)`: out of the corner where the rulers
/// meet it slants, out of the left ruler it stands, out of the top ruler
/// it lies. `None` where the press is on no ruler, or rulers are hidden,
/// or guidelines are locked.
pub open spec fn ruler_angle(event: ButtonEvent) -> Option<i64> {
    if event.view.show_rulers && !event.probe.lock_guidelines && (event.x
        < event.view.ruler_breadth || event.y < event.view.ruler_breadth) {
        if event.x < event.view.ruler_breadth && event.y < event.view.ruler_breadth {
            Some(-45_000i64)
        } else if event.x < event.view.ruler_breadth {
            Some(90_000i64)
        } else {
            Some(0i64)
        }
    } else {
        None
    }
}

/// The distances to the guidelines as the hit test of a press takes them:
/// one for each guideline of the glyph, and after them one for the
/// guideline that the press pulled out of a ruler, if it did. That one
/// passes through the cursor.
pub open spec fn press_distances(state: GlyphState, event: ButtonEvent) -> Seq<i64> {
    if ruler_angle(event).is_some() {
        distances_seen(state, event.probe).push(0i64)
    } else {
        distances_seen(state, event.probe)
    }
}

/// The mouse tool of the glyph canvas: it pans the view, picks and drags
/// points and guidelines, draws out selection rectangles and resizes the
/// advance width.
#[derive(Clone, Copy, Debug, PartialEq, Eq, Structural)]
pub struct PanningTool {
    /// A gesture is under way, or the tool has just been taken up.
    pub active: bool,
    pub mode: Mode,
    /// The selection rectangle holds no point.
    pub is_selection_empty: bool,
    /// The selection rectangle is being drawn out.
    pub is_selection_active: bool,
    /// The corner of the selection rectangle where the button went down,
    /// and the corner that follows the pointer.
    pub selection_upper_left: IPoint,
    pub selection_bottom_right: IPoint,
}

/// The selection once a press on nothing has been taken in: a plain press
/// clears it, a press that adds or removes leaves it.
pub open spec fn cleared(before: Set<PointId>, modifier: SelectionModifier) -> Set<PointId> {
    selection_after(before, Set::empty(), modifier)
}

/// The control points among the points of curve `v` of contour `c`.
pub open spec fn curve_points(state: GlyphState, c: int, v: int) -> Set<PointId> {
    Set::new(
        |id: PointId|
            curve_ids(state.outline(), c, v).contains(id) && state.registry().contains_key(id),
    )
}

/// The selection after a press on the body of curve `v` of contour `c`: the
/// press is first taken in as one on nothing; then, unless every point of
/// the curve is selected, the curve's points change the selection as the
/// modifier says.
pub open spec fn curve_selection(state: GlyphState, c: int, v: int, modifier: SelectionModifier) -> Set<
    PointId,
> {
    let before = cleared(state.selected().to_set(), modifier);
    if curve_ids(state.outline(), c, v).to_set().subset_of(before) {
        before
    } else {
        selection_after(before, curve_points(state, c, v), modifier)
    }
}

/// What a primary press does while the tool is idle, once the hit test has
/// found `target`.
pub open spec fn press_outcome(
    before: PanningTool,
    state: GlyphState,
    event: ButtonEvent,
    target: HitTarget,
    after: PanningTool,
    selected: Set<PointId>,
    reaction: Reaction,
) -> bool {
    let edit = if ruler_angle(event).is_some() {
        Edit::NewGuideline
    } else {
        Edit::Nothing
    };
    let grabbed = Reaction { edit, ..Reaction::with_cursor(CursorIcon::Grab) };
    let dragging = PanningTool { mode: Mode::Drag, active: true, ..before };
    let on_point = if event.double_click {
        after == before && reaction == Reaction {
            menu: Some(ContextMenu::Point),
            edit,
            ..Reaction::quiet(true)
        }
    } else {
        after == dragging && reaction == grabbed
    };
    match target {
        HitTarget::Guideline(i) => {
            &&& after == PanningTool { mode: Mode::DragGuideline(i), active: true, ..before }
            &&& selected == state.selected().to_set()
            &&& reaction == grabbed
        },
        HitTarget::SelectedPoint(_) => on_point && selected == state.selected().to_set(),
        HitTarget::Point(id) => {
            &&& on_point
            &&& selected == selection_after(state.selected().to_set(), set![id], event.modifier)
        },
        HitTarget::Curve { contour, curve } => {
            &&& after == PanningTool {
                mode: Mode::Drag,
                active: true,
                is_selection_empty: false,
                ..before
            }
            &&& selected == curve_selection(state, contour as int, curve as int, event.modifier)
            &&& reaction == Reaction { hovering: Hover::Curve(contour, curve), ..grabbed }
        },
        HitTarget::AdvanceWidth => {
            &&& after == PanningTool {
                mode: Mode::ResizeDimensions { previous_value: state.advance_width() },
                active: true,
                ..before
            }
            &&& selected == cleared(state.selected().to_set(), event.modifier)
            &&& reaction == Reaction { hovering: Hover::Clear, ..grabbed }
        },
        HitTarget::Background => {
            &&& after == PanningTool {
                mode: Mode::Select,
                active: true,
                is_selection_active: true,
                is_selection_empty: true,
                selection_upper_left: event.probe.position,
                selection_bottom_right: event.probe.position,
            }
            &&& selected == cleared(state.selected().to_set(), event.modifier)
            &&& reaction == Reaction {
                hovering: Hover::Clear,
                redraw: true,
                edit,
                ..Reaction::with_cursor(CursorIcon::Arrow)
            }
        },
    }
}

/// What a button that goes down does. `before` and `state` are the tool and
/// the glyph when it went down, `after` and `then` what they are afterwards.
pub open spec fn press_transition(
    before: PanningTool,
    state: GlyphState,
    event: ButtonEvent,
    after: PanningTool,
    then: GlyphState,
    reaction: Reaction,
) -> bool {
    let stopped = PanningTool { mode: Mode::Idle, active: false, ..before };
    let unselected = PanningTool {
        is_selection_empty: true,
        is_selection_active: false,
        active: false,
        ..before
    };
    let same_state = then.selected() == state.selected() && then.guides() == state.guides();
    let nothing_selected = then.selected() == Seq::<PointId>::empty() && then.guides()
        == state.guides();
    match (before.mode, event.button) {
        (Mode::Pan, _) => after == stopped && same_state && reaction == Reaction::at_rest(),
        (Mode::Idle, Button::Middle) => {
            &&& after == PanningTool { mode: Mode::Pan, active: true, ..before }
            &&& same_state
            &&& reaction == Reaction::with_cursor(CursorIcon::Crosshair)
        },
        (Mode::Drag, Button::Primary) => {
            &&& after == stopped
            &&& same_state
            &&& reaction == Reaction {
                clear_constraints: true,
                menu: if event.double_click && !(points_hit(state, event.probe)
                    =~= Set::<PointId>::empty()) {
                    Some(ContextMenu::Point)
                } else {
                    None
                },
                ..Reaction::at_rest()
            }
        },
        (Mode::DragGuideline(_), Button::Primary) => {
            &&& after == stopped
            &&& same_state
            &&& reaction == Reaction { clear_constraints: true, ..Reaction::at_rest() }
        },
        (Mode::Idle, Button::Primary) => {
            &&& then.guides() == match ruler_angle(event) {
                Some(angle) => state.guides().push(
                    Guideline { x: event.probe.position.x, y: event.probe.position.y, angle },
                ),
                None => state.guides(),
            }
            &&& exists|target: HitTarget|
                resolves_with(state, press_distances(state, event), event.probe, target)
                    && press_outcome(
                    before,
                    state,
                    event,
                    target,
                    after,
                    then.selected().to_set(),
                    reaction,
                )
        },
        (Mode::Select, Button::Primary) => {
            &&& reaction == Reaction::quiet(true)
            &&& if before.is_selection_active {
                after == PanningTool { is_selection_empty: true, ..before } && same_state
            } else {
                after == PanningTool {
                    selection_upper_left: event.probe.position,
                    selection_bottom_right: event.probe.position,
                    is_selection_empty: true,
                    is_selection_active: true,
                    active: true,
                    ..before
                } && nothing_selected
            }
        },
        (Mode::Idle, Button::Secondary) => {
            if guideline_hit(distances_seen(state, event.probe), event.probe) {
                &&& after == before
                &&& same_state
                &&& exists|i: int|
                    is_closest_within(
                        distances_seen(state, event.probe),
                        event.probe.guideline_tolerance as int,
                        i,
                    ) && reaction == Reaction {
                        menu: Some(ContextMenu::Guideline(i as usize)),
                        ..Reaction::quiet(true)
                    }
            } else {
                &&& after == unselected
                &&& nothing_selected
                &&& reaction == Reaction { redraw: true, ..Reaction::with_cursor(CursorIcon::Arrow) }
            }
        },
        (Mode::Select, Button::Secondary) => {
            &&& after == PanningTool { mode: Mode::Idle, ..unselected }
            &&& nothing_selected
            &&& reaction == Reaction { redraw: true, ..Reaction::with_cursor(CursorIcon::Arrow) }
        },
        (Mode::ResizeDimensions { previous_value }, Button::Primary) => {
            &&& after == stopped
            &&& same_state
            &&& reaction == Reaction {
                edit: Edit::Width { previous: previous_value },
                ..Reaction::with_cursor(CursorIcon::Arrow)
            }
        },
        _ => after == before && same_state && reaction == Reaction::quiet(false),
    }
}

/// Whether every one of `ids` is selected.
fn all_selected(state: &GlyphState, ids: &Vec<PointId>) -> (all: bool)
    ensures
        all == ids@.to_set().subset_of(state.selected().to_set()),
{
    let mut i: usize = 0;
    while i < ids.len()
        invariant
            0 <= i <= ids.len(),
            forall|j: int| 0 <= j < i ==> state.selected().contains(#[trigger] ids@[j]),
        decreases ids.len() - i,
    {
        if !contains_id(state.get_selection(), ids[i]) {
            assert(ids@.to_set().contains(ids@[i as int]));
            return false;
        }
        i = i + 1;
    }
    assert forall|id: PointId| ids@.to_set().contains(id) implies state.selected().to_set().contains(
        id,
    ) by {
        let j = choose|j: int| 0 <= j < ids@.len() && ids@[j] == id;
        assert(state.selected().contains(ids@[j]));
    }
    true
}

impl Default for Mode {
    fn default() -> (mode: Mode)
        ensures
            mode == Mode::Idle,
    {
        Mode::Idle
    }
}

impl Default for PanningTool {
    fn default() -> (tool: Self)
        ensures
            tool == (PanningTool {
                active: false,
                mode: Mode::Idle,
                is_selection_empty: true,
                is_selection_active: false,
                selection_upper_left: IPoint { x: 0, y: 0 },
                selection_bottom_right: IPoint { x: 0, y: 0 },
            }),
    {
        PanningTool::new()
    }
}

impl PanningTool {
    /// The tool at rest.
    pub fn new() -> (tool: Self)
        ensures
            tool == (PanningTool {
                active: false,
                mode: Mode::Idle,
                is_selection_empty: true,
                is_selection_active: false,
                selection_upper_left: IPoint { x: 0, y: 0 },
                selection_bottom_right: IPoint { x: 0, y: 0 },
            }),
    {
        PanningTool {
            active: false,
            mode: Mode::Idle,
            is_selection_empty: true,
            is_selection_active: false,
            selection_upper_left: IPoint { x: 0, y: 0 },
            selection_bottom_right: IPoint { x: 0, y: 0 },
        }
    }

    /// The tool is taken up.
    pub fn on_activate(&mut self) -> (reaction: Reaction)
        ensures
            *final(self) == (PanningTool { active: true, ..*old(self) }),
            reaction == Reaction::with_cursor(CursorIcon::Arrow),
    {
        self.active = true;
        Reaction::cursor(CursorIcon::Arrow)
    }

    /// The tool is put down.
    pub fn on_deactivate(&mut self) -> (reaction: Reaction)
        ensures
            *final(self) == (PanningTool { active: false, ..*old(self) }),
            reaction == Reaction::with_cursor(CursorIcon::Arrow),
    {
        self.active = false;
        Reaction::cursor(CursorIcon::Arrow)
    }

    /// A primary press while the tool is idle: pulls a guideline out of a
    /// ruler where the press is on one, then takes what the hit test finds.
    fn begin_gesture(&mut self, state: &mut GlyphState, event: &ButtonEvent) -> (reaction: Reaction)
        requires
            old(state).wf(),
            old(self).mode == Mode::Idle,
            event.button == Button::Primary,
        ensures
            final(state).wf(),
            final(state).outline() == old(state).outline(),
            final(state).index() == old(state).index(),
            final(state).entries() == old(state).entries(),
            final(state).advance_width() == old(state).advance_width(),
            press_transition(*old(self), *old(state), *event, *final(self), *final(state), reaction),
    {
        let position = event.probe.position;
        let breadth = event.view.ruler_breadth;
        let mut distances = seen_distances(state, &event.probe);
        let mut edit = Edit::Nothing;
        if event.view.show_rulers && !event.probe.lock_guidelines && (event.x < breadth || event.y
            < breadth) {
            let angle: i64 = if event.x < breadth && event.y < breadth {
                -45_000
            } else if event.x < breadth {
                90_000
            } else {
                0
            };
            state.new_guideline(angle, position);
            distances.push(0);
            edit = Edit::NewGuideline;
        }
        assert(distances@ == press_distances(*old(state), *event));
        let ghost at_press = *state;
        let target = resolve_with(state, &distances, &event.probe);
        let mut reaction = Reaction::cursor(CursorIcon::Grab);
        reaction.edit = edit;
        let none: Vec<PointId> = Vec::new();
        match target {
            HitTarget::Guideline(i) => {
                self.mode = Mode::DragGuideline(i);
                self.active = true;
            },
            HitTarget::SelectedPoint(_) => {
                if event.double_click {
                    reaction = Reaction::new(true);
                    reaction.menu = Some(ContextMenu::Point);
                    reaction.edit = edit;
                } else {
                    self.mode = Mode::Drag;
                    self.active = true;
                }
            },
            HitTarget::Point(id) => {
                let nearest = vec![id];
                proof {
                    assert(points_hit(at_press, event.probe).contains(id));
                    assert(at_press.index().contains_key(id));
                    assert(nearest@[0] == id);
                    assert(Set::new(
                        |x: PointId| nearest@.contains(x) && at_press.registry().contains_key(x),
                    ) =~= set![id]);
                }
                state.set_selection(&nearest, event.modifier);
                if event.double_click {
                    reaction = Reaction::new(true);
                    reaction.menu = Some(ContextMenu::Point);
                    reaction.edit = edit;
                } else {
                    self.mode = Mode::Drag;
                    self.active = true;
                }
            },
            HitTarget::Curve { contour, curve } => {
                state.set_selection(&none, event.modifier);
                let ghost emptied = *state;
                proof {
                    assert(Set::new(
                        |id: PointId| none@.contains(id) && at_press.registry().contains_key(id),
                    ) =~= Set::<PointId>::empty());
                }
                let ids = state.curve_point_ids(contour, curve);
                if !all_selected(state, &ids) {
                    state.set_selection(&ids, event.modifier);
                    proof {
                        assert(Set::new(
                            |id: PointId| ids@.contains(id) && emptied.registry().contains_key(id),
                        ) =~= curve_points(at_press, contour as int, curve as int));
                    }
                }
                self.is_selection_empty = false;
                self.mode = Mode::Drag;
                self.active = true;
                reaction.hovering = Hover::Curve(contour, curve);
            },
            HitTarget::AdvanceWidth => {
                state.set_selection(&none, event.modifier);
                proof {
                    assert(Set::new(
                        |id: PointId| none@.contains(id) && at_press.registry().contains_key(id),
                    ) =~= Set::<PointId>::empty());
                }
                self.mode = Mode::ResizeDimensions { previous_value: state.width() };
                self.active = true;
                reaction.hovering = Hover::Clear;
            },
            HitTarget::Background => {
                state.set_selection(&none, event.modifier);
                proof {
                    assert(Set::new(
                        |id: PointId| none@.contains(id) && at_press.registry().contains_key(id),
                    ) =~= Set::<PointId>::empty());
                }
                self.mode = Mode::Select;
                self.active = true;
                self.is_selection_active = true;
                self.is_selection_empty = true;
                self.selection_upper_left = position;
                self.selection_bottom_right = position;
                reaction.hovering = Hover::Clear;
                reaction.redraw = true;
                reaction.cursor = Some(CursorIcon::Arrow);
            },
        }
        proof {
            lemma_same_glyph_same_target(at_press, *old(state), distances@, event.probe, target);
            assert(resolves_with(
                *old(state),
                press_distances(*old(state), *event),
                event.probe,
                target,
            ) && press_outcome(
                *old(self),
                *old(state),
                *event,
                target,
                *self,
                state.selected().to_set(),
                reaction,
            ));
        }
        reaction
    }

    /// A button went down.
    pub fn on_button_press_event(&mut self, state: &mut GlyphState, event: &ButtonEvent) -> (reaction:
        Reaction)
        requires
            old(state).wf(),
        ensures
            final(state).wf(),
            final(state).outline() == old(state).outline(),
            final(state).index() == old(state).index(),
            final(state).entries() == old(state).entries(),
            final(state).advance_width() == old(state).advance_width(),
            press_transition(*old(self), *old(state), *event, *final(self), *final(state), reaction),
    {
        match self.mode {
            Mode::Pan => {
                self.mode = Mode::Idle;
                self.active = false;
                let mut reaction = Reaction::cursor(CursorIcon::Arrow);
                reaction.redraw = true;
                reaction.hovering = Hover::Clear;
                reaction
            },
            Mode::Idle => {
                match event.button {
                    Button::Middle => {
                        self.mode = Mode::Pan;
                        self.active = true;
                        Reaction::cursor(CursorIcon::Crosshair)
                    },
                    Button::Primary => self.begin_gesture(state, event),
                    Button::Secondary => {
                        let distances = seen_distances(state, &event.probe);
                        let over = if event.probe.lock_guidelines {
                            None
                        } else {
                            closest_within(&distances, event.probe.guideline_tolerance)
                        };
                        match over {
                            Some(i) => {
                                let mut reaction = Reaction::new(true);
                                reaction.menu = Some(ContextMenu::Guideline(i));
                                assert(is_closest_within(
                                    distances@,
                                    event.probe.guideline_tolerance as int,
                                    i as int,
                                ) && reaction == Reaction {
                                    menu: Some(ContextMenu::Guideline((i as int) as usize)),
                                    ..Reaction::quiet(true)
                                });
                                assert(0 <= distances@[i as int]
                                    <= event.probe.guideline_tolerance);
                                reaction
                            },
                            None => {
                                self.is_selection_empty = true;
                                self.is_selection_active = false;
                                self.active = false;
                                state.clear_selection();
                                let mut reaction = Reaction::cursor(CursorIcon::Arrow);
                                reaction.redraw = true;
                                reaction
                            },
                        }
                    },
                    Button::Other => Reaction::new(false),
                }
            },
            Mode::Drag => {
                match event.button {
                    Button::Primary => {
                        self.mode = Mode::Idle;
                        self.active = false;
                        let mut reaction = Reaction::cursor(CursorIcon::Arrow);
                        reaction.redraw = true;
                        reaction.hovering = Hover::Clear;
                        reaction.clear_constraints = true;
                        if event.double_click {
                            let hits = state.kd_tree().query_radius(
                                event.probe.position,
                                event.probe.radius,
                            );
                            if hits.len() > 0 {
                                assert(hits@.to_set().contains(hits@[0]));
                                reaction.menu = Some(ContextMenu::Point);
                            } else {
                                assert(hits@.to_set() =~= Set::<PointId>::empty());
                            }
                        }
                        reaction
                    },
                    _ => Reaction::new(false),
                }
            },
            Mode::DragGuideline(_) => {
                match event.button {
                    Button::Primary => {
                        self.mode = Mode::Idle;
                        self.active = false;
                        let mut reaction = Reaction::cursor(CursorIcon::Arrow);
                        reaction.redraw = true;
                        reaction.hovering = Hover::Clear;
                        reaction.clear_constraints = true;
                        reaction
                    },
                    _ => Reaction::new(false),
                }
            },
            Mode::Select => {
                match event.button {
                    Button::Primary => {
                        if self.is_selection_active {
                            self.is_selection_empty = true;
                        } else {
                            self.selection_upper_left = event.probe.position;
                            self.selection_bottom_right = event.probe.position;
                            self.is_selection_empty = true;
                            self.is_selection_active = true;
                            self.active = true;
                            state.clear_selection();
                        }
                        Reaction::new(true)
                    },
                    Button::Secondary => {
                        self.is_selection_empty = true;
                        self.is_selection_active = false;
                        self.active = false;
                        self.mode = Mode::Idle;
                        state.clear_selection();
                        let mut reaction = Reaction::cursor(CursorIcon::Arrow);
                        reaction.redraw = true;
                        reaction
                    },
                    _ => Reaction::new(false),
                }
            },
            Mode::ResizeDimensions { previous_value } => {
                match event.button {
                    Button::Primary => {
                        self.mode = Mode::Idle;
                        self.active = false;
                        let mut reaction = Reaction::cursor(CursorIcon::Arrow);
                        reaction.edit = Edit::Width { previous: previous_value };
                        reaction
                    },
                    _ => Reaction::new(false),
                }
            },
        }
    }
}

/// What a button that goes up does.
pub open spec fn release_transition(
    before: PanningTool,
    state: GlyphState,
    event: ButtonEvent,
    after: PanningTool,
    then: GlyphState,
    reaction: Reaction,
) -> bool {
    let stopped = PanningTool { mode: Mode::Idle, active: false, ..before };
    let same_state = then.selected() == state.selected() && then.advance_width()
        == state.advance_width();
    let arrow = Reaction::with_cursor(CursorIcon::Arrow);
    if before.mode == Mode::Select && before.is_selection_active && before.is_selection_empty {
        let found = rectangle_hits(
            state.index(),
            before.selection_upper_left,
            event.probe.position,
        );
        &&& after == PanningTool {
            mode: Mode::Idle,
            active: false,
            is_selection_active: false,
            is_selection_empty: found =~= Set::<PointId>::empty(),
            selection_bottom_right: event.probe.position,
            ..before
        }
        &&& then.selected().to_set() == selection_after(
            state.selected().to_set(),
            found,
            event.modifier,
        )
        &&& then.advance_width() == state.advance_width()
        &&& reaction == arrow
    } else {
        match (before.mode, event.button) {
            (Mode::Pan, Button::Middle) => {
                &&& after == stopped
                &&& same_state
                &&& reaction == Reaction { redraw: true, ..arrow }
            },
            (Mode::Select, Button::Primary) => {
                if before.is_selection_active {
                    &&& after == PanningTool {
                        selection_bottom_right: event.probe.position,
                        is_selection_active: false,
                        is_selection_empty: true,
                        ..stopped
                    }
                    &&& same_state
                    &&& reaction == Reaction { redraw: true, ..arrow }
                } else {
                    after == before && same_state && reaction == Reaction::quiet(false)
                }
            },
            (Mode::Drag, Button::Primary) | (Mode::DragGuideline(_), Button::Primary) => {
                &&& after == stopped
                &&& same_state
                &&& reaction == Reaction { clear_constraints: true, ..arrow }
            },
            (Mode::Idle, Button::Primary) => {
                match event.probe.curve {
                    Some((c, v)) => {
                        &&& after == PanningTool { is_selection_empty: false, ..before }
                        &&& then.selected().to_set() == selection_after(
                            state.selected().to_set(),
                            curve_points(state, c as int, v as int),
                            event.modifier,
                        )
                        &&& then.advance_width() == state.advance_width()
                        &&& reaction == Reaction::quiet(true)
                    },
                    None => after == before && same_state && reaction == Reaction::quiet(false),
                }
            },
            (Mode::ResizeDimensions { previous_value }, Button::Primary) => {
                &&& after == stopped
                &&& same_state
                &&& reaction == Reaction { edit: Edit::Width { previous: previous_value }, ..arrow }
            },
            (Mode::ResizeDimensions { previous_value }, Button::Secondary) => {
                &&& after == stopped
                &&& then.selected() == state.selected()
                &&& then.advance_width() == previous_value
                &&& reaction == arrow
            },
            (_, Button::Middle) => {
                &&& after == PanningTool { active: false, ..before }
                &&& same_state
                &&& reaction == arrow
            },
            (_, Button::Secondary) => {
                &&& after == before
                &&& same_state
                &&& reaction == match event.probe.curve {
                    Some((c, _)) => Reaction { menu: Some(ContextMenu::Contour(c)), ..arrow },
                    None => Reaction { inhibit: false, ..arrow },
                }
            },
            _ => after == before && same_state && reaction == Reaction::quiet(false),
        }
    }
}

/// The distances of a list of places to snap to.
pub open spec fn snap_distances(candidates: Seq<SnapCandidate>) -> Seq<i64> {
    candidates.map_values(|c: SnapCandidate| c.distance)
}

/// How far a drag that snaps moves the selection: from where the pointer
/// was to the nearest place to snap to that is within the tolerance, the
/// first of them where several are as near. `None` where there is none.
pub open spec fn snap_delta(candidates: Seq<SnapCandidate>, mouse: IPoint, tolerance: int) -> Option<
    (int, int),
> {
    match closest_index(snap_distances(candidates), tolerance) {
        Some(i) => Some(
            (
                clamp_i64(candidates[i].point.x - mouse.x),
                clamp_i64(candidates[i].point.y - mouse.y),
            ),
        ),
        None => None,
    }
}

/// Picks the place that a drag snaps to and says how far it is from the
/// pointer.
pub fn snap_to_closest_anchor(candidates: &Vec<SnapCandidate>, mouse_pos: IPoint, tolerance: i64) -> (delta:
    Option<(i64, i64)>)
    ensures
        match delta {
            Some((dx, dy)) => snap_delta(candidates@, mouse_pos, tolerance as int) == Some(
                (dx as int, dy as int),
            ),
            None => snap_delta(candidates@, mouse_pos, tolerance as int).is_none(),
        },
{
    let mut distances: Vec<i64> = Vec::new();
    let mut i: usize = 0;
    while i < candidates.len()
        invariant
            0 <= i <= candidates.len(),
            distances@ == snap_distances(candidates@.take(i as int)),
        decreases candidates.len() - i,
    {
        distances.push(candidates[i].distance);
        assert(distances@ =~= snap_distances(candidates@.take(i + 1)));
        i = i + 1;
    }
    assert(candidates@.take(candidates@.len() as int) =~= candidates@);
    match closest_within(&distances, tolerance) {
        Some(i) => {
            let to = candidates[i].point;
            Some((sub_clamped(to.x, mouse_pos.x), sub_clamped(to.y, mouse_pos.y)))
        },
        None => None,
    }
}

/// How far a motion moves what is dragged, in glyph space: `y` is turned
/// round, since it grows downward on the screen and upward in the glyph,
/// and a locked axis does not move.
pub open spec fn locked_delta(event: MotionEvent) -> (int, int) {
    let dx = event.delta_x as int;
    let dy = clamp_i64(0 - event.delta_y);
    match event.view.lock {
        Lock::X => (dx, 0),
        Lock::Y => (0, dy),
        Lock::Free => (dx, dy),
    }
}

/// How far a motion moves the selection: to a place to snap to, where
/// snapping is on and one is near enough, and else by `locked_delta`.
pub open spec fn drag_delta(event: MotionEvent) -> (int, int) {
    match event.snap {
        Some(candidates) => match snap_delta(
            candidates@,
            event.last_position,
            event.snap_tolerance as int,
        ) {
            Some(delta) => delta,
            None => locked_delta(event),
        },
        None => locked_delta(event),
    }
}

/// A pan has carried the pointer to an edge of the viewport, and the
/// pointer is to be carried to the opposite edge.
pub open spec fn edge_reached(event: MotionEvent) -> bool {
    &&& event.view.warp_cursor
    &&& event.root.is_some()
    &&& (event.x + event.view.ruler_breadth >= event.view.width || event.y
        + event.view.ruler_breadth >= event.view.height || event.x <= event.view.ruler_breadth
        || event.y <= event.view.ruler_breadth)
}

/// How far a pan moves the camera: as far as the pointer moved, and where
/// the pointer is carried across the viewport, that far more.
pub open spec fn pan_camera(event: MotionEvent) -> Offset {
    let breadth = event.view.ruler_breadth;
    if !edge_reached(event) {
        Offset { x: (event.x - event.last_x) as i64, y: (event.y - event.last_y) as i64 }
    } else if event.x + breadth >= event.view.width {
        Offset {
            x: (event.x - event.last_x + event.view.width) as i64,
            y: (event.y - event.last_y) as i64,
        }
    } else if event.y + breadth >= event.view.height {
        Offset {
            x: (event.x - event.last_x) as i64,
            y: (event.y - event.last_y + event.view.height) as i64,
        }
    } else if event.x <= breadth {
        Offset {
            x: (event.x - event.last_x - event.view.width) as i64,
            y: (event.y - event.last_y) as i64,
        }
    } else {
        Offset {
            x: (event.x - event.last_x) as i64,
            y: (event.y - event.last_y - event.view.height) as i64,
        }
    }
}

/// Where on the screen a pan puts the pointer when it carries it across the
/// viewport.
pub open spec fn pan_warp(event: MotionEvent) -> Option<Offset> {
    let breadth = event.view.ruler_breadth;
    if !edge_reached(event) {
        None
    } else {
        let (root_x, root_y) = event.root.unwrap();
        if event.x + breadth >= event.view.width {
            Some(Offset { x: (root_x - event.view.width + 3 * breadth) as i64, y: root_y as i64 })
        } else if event.y + breadth >= event.view.height {
            Some(Offset { x: root_x as i64, y: (root_y - event.view.height - breadth) as i64 })
        } else if event.x <= breadth {
            Some(Offset { x: (root_x + event.view.width - 3 * breadth) as i64, y: root_y as i64 })
        } else {
            Some(Offset { x: root_x as i64, y: (root_y + event.view.height - 3 * breadth) as i64 })
        }
    }
}

/// The advance width after a drag by `dx`: never below 0.
pub open spec fn resized(width: int, dx: int) -> int {
    if clamp_i64(width + dx) < 0 {
        0
    } else {
        clamp_i64(width + dx)
    }
}

/// What the pointer shows while a selection rectangle is drawn out.
pub open spec fn select_cursor(modifier: SelectionModifier) -> CursorIcon {
    match modifier {
        SelectionModifier::Add => CursorIcon::ArrowPlus,
        SelectionModifier::Remove => CursorIcon::ArrowMinus,
        SelectionModifier::Replace => CursorIcon::Arrow,
    }
}

/// What a pointer that moves does. `record` is where the points that the
/// motion moved were before, for the undo journal.
pub open spec fn motion_transition(
    before: PanningTool,
    state: GlyphState,
    event: MotionEvent,
    after: PanningTool,
    then: GlyphState,
    reaction: Reaction,
    record: Seq<(PointId, IPoint)>,
) -> bool {
    let same_points = then.outline() == state.outline() && then.index() == state.index();
    let same_glyph = same_points && then.guides() == state.guides() && then.advance_width()
        == state.advance_width();
    if !before.active {
        &&& after == before
        &&& same_glyph
        &&& record.len() == 0
        &&& reaction == match event.probe.curve {
            Some((c, v)) => Reaction {
                hovering: Hover::Curve(c, v),
                redraw: true,
                cursor: Some(CursorIcon::Grab),
                ..Reaction::quiet(false)
            },
            None => if points_hit(state, event.probe) =~= Set::<PointId>::empty() {
                Reaction {
                    hovering: Hover::Clear,
                    redraw: true,
                    cursor: Some(CursorIcon::Arrow),
                    ..Reaction::quiet(false)
                }
            } else {
                Reaction { cursor: Some(CursorIcon::Arrow), ..Reaction::quiet(false) }
            },
        }
    } else {
        match before.mode {
            Mode::Idle => {
                &&& after == before
                &&& same_glyph
                &&& record.len() == 0
                &&& reaction == Reaction::quiet(true)
            },
            Mode::Drag => {
                let (dx, dy) = drag_delta(event);
                let targets = shifted_targets(state.index(), state.selected(), dx, dy);
                &&& after == before
                &&& then.index() == placed_index(state.index(), targets)
                &&& then.outline() == placed_outline(state.outline(), targets)
                &&& then.guides() == state.guides()
                &&& then.advance_width() == state.advance_width()
                &&& record.len() == state.selected().len()
                &&& forall|i: int|
                    0 <= i < record.len() ==> #[trigger] record[i] == (
                        state.selected()[i],
                        state.index()[state.selected()[i]],
                    )
                &&& reaction == Reaction { edit: Edit::MovePoints, ..Reaction::quiet(true) }
            },
            Mode::DragGuideline(index) => {
                let (dx, dy) = locked_delta(event);
                &&& after == before
                &&& same_points
                &&& then.advance_width() == state.advance_width()
                &&& record.len() == 0
                &&& if index < state.guides().len() {
                    &&& then.guides() == state.guides().update(
                        index as int,
                        Guideline {
                            x: clamp_i64(state.guides()[index as int].x + dx) as i64,
                            y: clamp_i64(state.guides()[index as int].y + dy) as i64,
                            angle: state.guides()[index as int].angle,
                        },
                    )
                    &&& reaction == Reaction {
                        edit: Edit::MoveGuideline { index },
                        ..Reaction::quiet(true)
                    }
                } else {
                    then.guides() == state.guides() && reaction == Reaction::quiet(true)
                }
            },
            Mode::Pan => {
                &&& after == before
                &&& same_glyph
                &&& record.len() == 0
                &&& reaction == Reaction {
                    camera: Some(pan_camera(event)),
                    warp: pan_warp(event),
                    ..Reaction::quiet(true)
                }
            },
            Mode::Select => {
                &&& same_glyph
                &&& record.len() == 0
                &&& after == if before.is_selection_active {
                    PanningTool { selection_bottom_right: event.probe.position, ..before }
                } else {
                    before
                }
                &&& reaction == Reaction {
                    cursor: Some(select_cursor(event.modifier)),
                    ..Reaction::quiet(before.is_selection_active)
                }
            },
            Mode::ResizeDimensions { previous_value } => {
                &&& after == before
                &&& same_points
                &&& then.guides() == state.guides()
                &&& then.advance_width() == Some(
                    resized(width_or_zero(state), event.delta_x as int) as i64,
                )
                &&& record.len() == 0
                &&& reaction == Reaction::quiet(true)
            },
        }
    }
}

/// What a wheel that turns does: with shift it moves the camera, five
/// pixels for each step, and only sideways, by the greater of the two
/// turns, where control is held too; with control alone it turns the
/// guideline that is being dragged, a degree and a half for each step.
pub open spec fn scroll_transition(
    tool: PanningTool,
    state: GlyphState,
    event: ScrollEvent,
    then: GlyphState,
    reaction: Reaction,
) -> bool {
    if event.shift {
        let sideways = if abs_int(event.delta_y as int) > abs_int(event.delta_x as int) {
            event.delta_y
        } else {
            event.delta_x
        };
        &&& then.guides() == state.guides()
        &&& reaction == Reaction {
            redraw: true,
            camera: Some(
                if event.control {
                    Offset { x: (5 * sideways) as i64, y: 0 }
                } else {
                    Offset { x: (5 * event.delta_x) as i64, y: (5 * event.delta_y) as i64 }
                },
            ),
            ..Reaction::quiet(true)
        }
    } else if event.control && tool.mode is DragGuideline {
        let index = tool.mode->DragGuideline_0;
        if index < state.guides().len() {
            &&& then.guides() == state.guides().update(
                index as int,
                Guideline {
                    x: state.guides()[index as int].x,
                    y: state.guides()[index as int].y,
                    angle: clamp_i64(state.guides()[index as int].angle + 1500 * event.delta_y) as i64,
                },
            )
            &&& reaction == Reaction { edit: Edit::MoveGuideline { index }, ..Reaction::quiet(true) }
        } else {
            then.guides() == state.guides() && reaction == Reaction::quiet(true)
        }
    } else {
        then.guides() == state.guides() && reaction == Reaction::quiet(false)
    }
}

/// The size of a number without its sign.
pub open spec fn abs_int(v: int) -> int {
    if v < 0 {
        -v
    } else {
        v
    }
}

/// What is drawn over the canvas for the tool.
#[derive(Clone, Copy, Debug, PartialEq, Eq, Structural)]
pub enum SelectBox {
    /// Nothing.
    Hidden,
    /// The advance-width edge and what the two buttons do with it.
    Resize,
    /// The selection rectangle: filled while it is drawn out, and with
    /// marks at its corners once it stands.
    Rectangle { upper_left: IPoint, bottom_right: IPoint, active: bool },
}

impl PanningTool {
    /// What is to be drawn over the canvas: nothing unless the tool is
    /// selecting or resizing; the resize overlay while it resizes; and else
    /// the selection rectangle, unless it holds nothing and is not being
    /// drawn out, or has no breadth or no height.
    pub open spec fn overlay(self) -> SelectBox {
        if !self.active || !(self.mode is Select || self.mode is ResizeDimensions) {
            SelectBox::Hidden
        } else if self.mode is ResizeDimensions {
            SelectBox::Resize
        } else if self.is_selection_empty && !self.is_selection_active {
            SelectBox::Hidden
        } else if self.selection_upper_left.x == self.selection_bottom_right.x
            || self.selection_upper_left.y == self.selection_bottom_right.y {
            SelectBox::Hidden
        } else {
            SelectBox::Rectangle {
                upper_left: self.selection_upper_left,
                bottom_right: self.selection_bottom_right,
                active: self.is_selection_active,
            }
        }
    }

    /// What is to be drawn over the canvas.
    pub fn draw_select_box(&self) -> (shown: SelectBox)
        ensures
            shown == self.overlay(),
    {
        if !self.active {
            return SelectBox::Hidden;
        }
        match self.mode {
            Mode::ResizeDimensions { previous_value: _ } => SelectBox::Resize,
            Mode::Select => {
                if self.is_selection_empty && !self.is_selection_active {
                    SelectBox::Hidden
                } else if self.selection_upper_left.x == self.selection_bottom_right.x
                    || self.selection_upper_left.y == self.selection_bottom_right.y {
                    SelectBox::Hidden
                } else {
                    SelectBox::Rectangle {
                        upper_left: self.selection_upper_left,
                        bottom_right: self.selection_bottom_right,
                        active: self.is_selection_active,
                    }
                }
            },
            _ => SelectBox::Hidden,
        }
    }

    /// A button went up.
    pub fn on_button_release_event(&mut self, state: &mut GlyphState, event: &ButtonEvent) -> (reaction:
        Reaction)
        requires
            old(state).wf(),
        ensures
            final(state).wf(),
            final(state).outline() == old(state).outline(),
            final(state).index() == old(state).index(),
            final(state).entries() == old(state).entries(),
            final(state).guides() == old(state).guides(),
            release_transition(
                *old(self),
                *old(state),
                *event,
                *final(self),
                *final(state),
                reaction,
            ),
    {
        let position = event.probe.position;
        if self.mode == Mode::Select && self.is_selection_active && self.is_selection_empty {
            let hits = state.kd_tree().query_rectangle(self.selection_upper_left, position);
            proof {
                let found = rectangle_hits(state.index(), self.selection_upper_left, position);
                assert(Set::new(
                    |id: PointId| hits@.contains(id) && state.registry().contains_key(id),
                ) =~= found) by {
                    assert forall|id: PointId| found.contains(id) implies hits@.contains(id)
                        && state.registry().contains_key(id) by {
                        assert(hits@.to_set().contains(id));
                        assert(state.index().contains_key(id));
                    }
                    assert forall|id: PointId| hits@.contains(id) implies found.contains(id) by {
                        assert(hits@.to_set().contains(id));
                    }
                }
                if hits@.len() > 0 {
                    assert(hits@.to_set().contains(hits@[0]));
                } else {
                    assert(hits@.to_set() =~= Set::<PointId>::empty());
                }
            }
            self.is_selection_active = false;
            self.active = false;
            self.selection_bottom_right = position;
            self.is_selection_empty = hits.len() == 0;
            state.set_selection(&hits, event.modifier);
            self.mode = Mode::Idle;
            return Reaction::cursor(CursorIcon::Arrow);
        }
        match (self.mode, event.button) {
            (Mode::Pan, Button::Middle) => {
                self.mode = Mode::Idle;
                self.active = false;
                let mut reaction = Reaction::cursor(CursorIcon::Arrow);
                reaction.redraw = true;
                reaction
            },
            (Mode::Select, Button::Primary) => {
                if self.is_selection_active {
                    self.selection_bottom_right = position;
                    self.is_selection_active = false;
                    self.is_selection_empty = true;
                    self.active = false;
                    self.mode = Mode::Idle;
                    let mut reaction = Reaction::cursor(CursorIcon::Arrow);
                    reaction.redraw = true;
                    reaction
                } else {
                    Reaction::new(false)
                }
            },
            (Mode::Drag, Button::Primary) | (Mode::DragGuideline(_), Button::Primary) => {
                self.mode = Mode::Idle;
                self.active = false;
                let mut reaction = Reaction::cursor(CursorIcon::Arrow);
                reaction.clear_constraints = true;
                reaction
            },
            (Mode::Idle, Button::Primary) => {
                match event.probe.curve {
                    Some((contour, curve)) => {
                        let ids = state.curve_point_ids(contour, curve);
                        proof {
                            assert(Set::new(
                                |id: PointId|
                                    ids@.contains(id) && state.registry().contains_key(id),
                            ) =~= curve_points(*state, contour as int, curve as int));
                        }
                        state.set_selection(&ids, event.modifier);
                        self.is_selection_empty = false;
                        Reaction::new(true)
                    },
                    None => Reaction::new(false),
                }
            },
            (Mode::ResizeDimensions { previous_value }, Button::Primary) => {
                self.mode = Mode::Idle;
                self.active = false;
                let mut reaction = Reaction::cursor(CursorIcon::Arrow);
                reaction.edit = Edit::Width { previous: previous_value };
                reaction
            },
            (Mode::ResizeDimensions { previous_value }, Button::Secondary) => {
                state.set_width(previous_value);
                self.mode = Mode::Idle;
                self.active = false;
                Reaction::cursor(CursorIcon::Arrow)
            },
            (_, Button::Middle) => {
                self.active = false;
                Reaction::cursor(CursorIcon::Arrow)
            },
            (_, Button::Secondary) => {
                let mut reaction = Reaction::cursor(CursorIcon::Arrow);
                match event.probe.curve {
                    Some((contour, _)) => {
                        reaction.menu = Some(ContextMenu::Contour(contour));
                    },
                    None => {
                        reaction.inhibit = false;
                    },
                }
                reaction
            },
            _ => Reaction::new(false),
        }
    }

    /// The pointer moved.
    pub fn on_motion_notify_event(&mut self, state: &mut GlyphState, event: &MotionEvent) -> (done: (
        Reaction,
        Vec<(PointId, IPoint)>,
    ))
        requires
            old(state).wf(),
        ensures
            final(state).wf(),
            final(state).selected() == old(state).selected(),
            motion_transition(
                *old(self),
                *old(state),
                *event,
                *final(self),
                *final(state),
                done.0,
                done.1@,
            ),
    {
        let none: Vec<(PointId, IPoint)> = Vec::new();
        if !self.active {
            let mut reaction = Reaction::new(false);
            match event.probe.curve {
                Some((contour, curve)) => {
                    reaction.hovering = Hover::Curve(contour, curve);
                    reaction.redraw = true;
                    reaction.cursor = Some(CursorIcon::Grab);
                },
                None => {
                    let hits = state.kd_tree().query_radius(
                        event.probe.position,
                        event.probe.radius,
                    );
                    if hits.len() == 0 {
                        assert(hits@.to_set() =~= Set::<PointId>::empty());
                        reaction.hovering = Hover::Clear;
                        reaction.redraw = true;
                    } else {
                        assert(hits@.to_set().contains(hits@[0]));
                    }
                    reaction.cursor = Some(CursorIcon::Arrow);
                },
            }
            return (reaction, none);
        }
        match self.mode {
            Mode::Idle => (Reaction::new(true), none),
            Mode::Drag => {
                let (mut dx, mut dy) = locked(event);
                match &event.snap {
                    Some(candidates) => {
                        match snap_to_closest_anchor(
                            candidates,
                            event.last_position,
                            event.snap_tolerance,
                        ) {
                            Some((sx, sy)) => {
                                dx = sx;
                                dy = sy;
                            },
                            None => {},
                        }
                    },
                    None => {},
                }
                let record = state.transform_selection(dx, dy);
                let mut reaction = Reaction::new(true);
                reaction.edit = Edit::MovePoints;
                (reaction, record)
            },
            Mode::DragGuideline(index) => {
                let (dx, dy) = locked(event);
                let mut reaction = Reaction::new(true);
                if state.transform_guideline(index, dx, dy, 0) {
                    reaction.edit = Edit::MoveGuideline { index };
                }
                (reaction, none)
            },
            Mode::Pan => {
                let mut reaction = Reaction::new(true);
                let (camera, warp) = pan_step(event);
                reaction.camera = Some(camera);
                reaction.warp = warp;
                (reaction, none)
            },
            Mode::Select => {
                let mut reaction = Reaction::new(self.is_selection_active);
                reaction.cursor = Some(
                    match event.modifier {
                        SelectionModifier::Add => CursorIcon::ArrowPlus,
                        SelectionModifier::Remove => CursorIcon::ArrowMinus,
                        SelectionModifier::Replace => CursorIcon::Arrow,
                    },
                );
                if self.is_selection_active {
                    self.selection_bottom_right = event.probe.position;
                }
                (reaction, none)
            },
            Mode::ResizeDimensions { previous_value: _ } => {
                let width: i64 = match state.width() {
                    Some(w) => w,
                    None => 0,
                };
                let wider = add_clamped(width, event.delta_x);
                state.set_width(
                    Some(
                        if wider < 0 {
                            0
                        } else {
                            wider
                        },
                    ),
                );
                (Reaction::new(true), none)
            },
        }
    }

    /// The wheel turned.
    pub fn on_scroll_event(&self, state: &mut GlyphState, event: &ScrollEvent) -> (reaction: Reaction)
        requires
            old(state).wf(),
        ensures
            final(state).wf(),
            final(state).same_points_as(old(state)),
            final(state).advance_width() == old(state).advance_width(),
            scroll_transition(*self, *old(state), *event, *final(state), reaction),
    {
        if event.shift {
            let dx: i64 = event.delta_x as i64;
            let dy: i64 = event.delta_y as i64;
            let mut reaction = Reaction::new(true);
            reaction.redraw = true;
            if event.control {
                let size_x: i64 = if dx < 0 {
                    -dx
                } else {
                    dx
                };
                let size_y: i64 = if dy < 0 {
                    -dy
                } else {
                    dy
                };
                let sideways: i64 = if size_y > size_x {
                    dy
                } else {
                    dx
                };
                reaction.camera = Some(Offset { x: 5 * sideways, y: 0 });
            } else {
                reaction.camera = Some(Offset { x: 5 * dx, y: 5 * dy });
            }
            return reaction;
        }
        if event.control {
            match self.mode {
                Mode::DragGuideline(index) => {
                    let turn: i64 = 1500 * (event.delta_y as i64);
                    let mut reaction = Reaction::new(true);
                    if state.transform_guideline(index, 0, 0, turn) {
                        reaction.edit = Edit::MoveGuideline { index };
                    }
                    return reaction;
                },
                _ => {},
            }
        }
        Reaction::new(false)
    }
}

/// How far a motion moves what is dragged.
fn locked(event: &MotionEvent) -> (delta: (i64, i64))
    ensures
        (delta.0 as int, delta.1 as int) == locked_delta(*event),
{
    let dx = event.delta_x;
    let dy = sub_clamped(0, event.delta_y);
    match event.view.lock {
        Lock::X => (dx, 0),
        Lock::Y => (0, dy),
        Lock::Free => (dx, dy),
    }
}

/// How far a pan moves the camera, and where it puts the pointer when it
/// carries it to the opposite edge of the viewport.
pub fn pan_step(event: &MotionEvent) -> (step: (Offset, Option<Offset>))
    ensures
        step.0 == pan_camera(*event),
        step.1 == pan_warp(*event),
{
    let x: i64 = event.x as i64;
    let y: i64 = event.y as i64;
    let width: i64 = event.view.width as i64;
    let height: i64 = event.view.height as i64;
    let breadth: i64 = event.view.ruler_breadth as i64;
    let moved_x: i64 = x - event.last_x as i64;
    let moved_y: i64 = y - event.last_y as i64;
    if event.view.warp_cursor && (x + breadth >= width || y + breadth >= height || x <= breadth || y
        <= breadth) {
        match event.root {
            Some((rx, ry)) => {
                let root_x: i64 = rx as i64;
                let root_y: i64 = ry as i64;
                if x + breadth >= width {
                    return (
                        Offset { x: moved_x + width, y: moved_y },
                        Some(Offset { x: root_x - width + 3 * breadth, y: root_y }),
                    );
                } else if y + breadth >= height {
                    return (
                        Offset { x: moved_x, y: moved_y + height },
                        Some(Offset { x: root_x, y: root_y - height - breadth }),
                    );
                } else if x <= breadth {
                    return (
                        Offset { x: moved_x - width, y: moved_y },
                        Some(Offset { x: root_x + width - 3 * breadth, y: root_y }),
                    );
                } else {
                    return (
                        Offset { x: moved_x, y: moved_y - height },
                        Some(Offset { x: root_x, y: root_y + height - 3 * breadth }),
                    );
                }
            },
            None => {},
        }
    }
    (Offset { x: moved_x, y: moved_y }, None)
}

} // verus!
