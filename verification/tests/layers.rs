use gerb::glyph_state::GlyphState;
use gerb::layers::{draw_selection, handle_mark, HandleMark, MarkShape};
use gerb::outline::{Contour, Curve, CurvePoint};
use gerb::points::{IPoint, PointId};
use gerb::selection::SelectionModifier;
use gerb::tools::panning::{Mode, PanningTool, SelectBox};

fn p(x: i64, y: i64) -> IPoint {
    IPoint::new(x, y)
}

fn cp(id: u128, x: i64, y: i64) -> CurvePoint {
    CurvePoint { id: PointId(id), position: p(x, y) }
}

fn glyph() -> GlyphState {
    let outline = vec![Contour {
        curves: vec![
            Curve { points: vec![cp(1, 0, 0), cp(2, 0, 10), cp(3, 10, 10), cp(4, 10, 0)] },
            Curve { points: vec![cp(5, 10, 0), cp(6, 5, -5), cp(7, 0, 0)] },
            Curve { points: vec![cp(8, 0, 0), cp(9, 0, 0)] },
        ],
    }];
    GlyphState::new(outline, vec![], None).unwrap()
}

#[test]
fn endpoints_are_squares_and_handles_are_circles_joined_to_their_endpoints() {
    let state = glyph();
    assert_eq!(
        handle_mark(&state, PointId(1), p(100, 100), 2),
        Some(HandleMark {
            position: p(0, 0),
            shape: MarkShape::Square,
            highlighted: false,
            links: vec![],
        })
    );
    assert_eq!(
        handle_mark(&state, PointId(2), p(100, 100), 2),
        Some(HandleMark {
            position: p(0, 10),
            shape: MarkShape::Circle,
            highlighted: false,
            links: vec![p(0, 0)],
        })
    );
    assert_eq!(
        handle_mark(&state, PointId(3), p(100, 100), 2),
        Some(HandleMark {
            position: p(10, 10),
            shape: MarkShape::Circle,
            highlighted: false,
            links: vec![p(10, 0)],
        })
    );
    assert_eq!(
        handle_mark(&state, PointId(6), p(100, 100), 2),
        Some(HandleMark {
            position: p(5, -5),
            shape: MarkShape::Circle,
            highlighted: false,
            links: vec![p(10, 0), p(0, 0)],
        })
    );
    assert_eq!(handle_mark(&state, PointId(9), p(100, 100), 2).unwrap().shape, MarkShape::Square);
    assert_eq!(handle_mark(&state, PointId(77), p(0, 0), 2), None);
}

#[test]
fn points_under_the_cursor_or_selected_are_highlighted() {
    let mut state = glyph();
    assert!(handle_mark(&state, PointId(3), p(11, 9), 2).unwrap().highlighted);
    assert!(!handle_mark(&state, PointId(3), p(12, 8), 2).unwrap().highlighted);
    assert!(!handle_mark(&state, PointId(3), p(10, 10), -1).unwrap().highlighted);
    state.set_selection(&vec![PointId(3)], SelectionModifier::Replace);
    assert!(handle_mark(&state, PointId(3), p(50, 50), 2).unwrap().highlighted);
    assert!(!handle_mark(&state, PointId(4), p(50, 50), 2).unwrap().highlighted);
}

#[test]
fn links_follow_the_points_they_join() {
    let mut state = glyph();
    state.move_points(&vec![PointId(1)], p(-3, -4)).unwrap();
    assert_eq!(handle_mark(&state, PointId(2), p(0, 0), 1).unwrap().links, vec![p(-3, -4)]);
}

#[test]
fn selection_layer_shows_a_standing_or_growing_rectangle() {
    let mut tool = PanningTool::new();
    assert_eq!(draw_selection(&tool), SelectBox::Hidden);
    tool.selection_upper_left = p(1, 2);
    tool.selection_bottom_right = p(5, 9);
    assert_eq!(draw_selection(&tool), SelectBox::Hidden);
    tool.is_selection_active = true;
    assert_eq!(
        draw_selection(&tool),
        SelectBox::Rectangle { upper_left: p(1, 2), bottom_right: p(5, 9), active: true }
    );
    tool.is_selection_active = false;
    tool.is_selection_empty = false;
    tool.mode = Mode::Drag;
    assert_eq!(
        draw_selection(&tool),
        SelectBox::Rectangle { upper_left: p(1, 2), bottom_right: p(5, 9), active: false }
    );
    tool.selection_bottom_right = p(1, 9);
    assert_eq!(draw_selection(&tool), SelectBox::Hidden);
    tool.selection_bottom_right = p(5, 2);
    assert_eq!(draw_selection(&tool), SelectBox::Hidden);
}
