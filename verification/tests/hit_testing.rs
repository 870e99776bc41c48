use gerb::glyph_state::GlyphState;
use gerb::outline::{Contour, Curve, CurvePoint};
use gerb::selection::SelectionModifier;
use gerb::hit_test::{closest_within, resolve, HitTarget, Probe};
use gerb::points::{IPoint, PointId};

fn p(x: i64, y: i64) -> IPoint {
    IPoint::new(x, y)
}

fn cp(id: u128, x: i64, y: i64) -> CurvePoint {
    CurvePoint { id: PointId(id), position: p(x, y) }
}

fn glyph() -> GlyphState {
    let outline = vec![Contour {
        curves: vec![
            Curve { points: vec![cp(1, 0, 0), cp(2, 0, 10), cp(3, 10, 10), cp(4, 10, 0)] },
            Curve { points: vec![cp(5, 10, 0), cp(6, 0, 0)] },
            Curve { points: vec![] },
        ],
    }];
    GlyphState::new(outline, vec![], Some(500)).unwrap()
}

fn probe(x: i64, y: i64) -> Probe {
    Probe {
        position: p(x, y),
        radius: 2,
        guideline_distances: vec![],
        guideline_tolerance: 3,
        lock_guidelines: false,
        curve: None,
        show_total_area: false,
        units_per_em: 1000,
    }
}

#[test]
fn closest_within_takes_the_smallest_in_range() {
    assert_eq!(closest_within(&vec![], 10), None);
    assert_eq!(closest_within(&vec![11, 12], 10), None);
    assert_eq!(closest_within(&vec![11, 10, 12], 10), Some(1));
    assert_eq!(closest_within(&vec![5, 3, 9, 3], 10), Some(1));
    assert_eq!(closest_within(&vec![5, -1, 9], 10), Some(0));
    assert_eq!(closest_within(&vec![0, 0], 0), Some(0));
    assert_eq!(closest_within(&vec![0, 0], -1), None);
}

#[test]
fn guideline_comes_first() {
    let mut state = glyph();
    for i in 0..4 {
        state.new_guideline(0, p(0, i));
    }
    let mut probe = probe(0, 0);
    probe.guideline_distances = vec![9, 2, 1, 7];
    probe.curve = Some((0, 0));
    probe.show_total_area = true;
    assert_eq!(resolve(&state, &probe), HitTarget::Guideline(2));
}

#[test]
fn locked_guidelines_are_passed_over() {
    let mut state = glyph();
    state.new_guideline(0, p(10, 10));
    let mut probe = probe(10, 10);
    probe.guideline_distances = vec![0];
    probe.lock_guidelines = true;
    assert_eq!(resolve(&state, &probe), HitTarget::Point(PointId(3)));
}

#[test]
fn guideline_out_of_tolerance_is_not_hit() {
    let mut state = glyph();
    state.new_guideline(0, p(0, 54));
    state.new_guideline(0, p(0, 150));
    let mut probe = probe(50, 50);
    probe.guideline_distances = vec![4, 100];
    assert_eq!(resolve(&state, &probe), HitTarget::Background);
}

#[test]
fn control_point_comes_before_the_curve_it_lies_on() {
    let state = glyph();
    let mut probe = probe(1, 10);
    probe.curve = Some((0, 0));
    assert_eq!(resolve(&state, &probe), HitTarget::Point(PointId(2)));
    probe.position = p(5, 5);
    assert_eq!(resolve(&state, &probe), HitTarget::Curve { contour: 0, curve: 0 });
}

#[test]
fn nearest_point_wins() {
    let state = glyph();
    let mut probe = probe(1, 9);
    probe.radius = 20;
    assert_eq!(resolve(&state, &probe), HitTarget::Point(PointId(2)));
    probe.position = p(9, 1);
    assert_eq!(resolve(&state, &probe), HitTarget::Point(PointId(4)));
}

#[test]
fn of_equally_near_points_the_smaller_identifier_wins() {
    let state = glyph();
    assert_eq!(resolve(&state, &probe(10, 0)), HitTarget::Point(PointId(4)));
    assert_eq!(resolve(&state, &probe(0, 0)), HitTarget::Point(PointId(1)));
}

#[test]
fn selected_point_under_the_cursor_is_told_apart() {
    let mut state = glyph();
    state.set_selection(&vec![PointId(3)], SelectionModifier::Replace);
    assert_eq!(resolve(&state, &probe(10, 10)), HitTarget::SelectedPoint(PointId(3)));
    assert_eq!(resolve(&state, &probe(0, 10)), HitTarget::Point(PointId(2)));
    let mut wide = probe(1, 9);
    wide.radius = 20;
    assert_eq!(resolve(&state, &wide), HitTarget::SelectedPoint(PointId(3)));
    state.set_selection(&vec![PointId(6)], SelectionModifier::Replace);
    assert_eq!(resolve(&state, &probe(0, 0)), HitTarget::SelectedPoint(PointId(6)));
}

#[test]
fn curve_without_points_is_not_hit() {
    let state = glyph();
    let mut probe = probe(50, 50);
    probe.curve = Some((0, 2));
    assert_eq!(resolve(&state, &probe), HitTarget::Background);
    probe.curve = Some((0, 7));
    assert_eq!(resolve(&state, &probe), HitTarget::Background);
    probe.curve = Some((3, 0));
    assert_eq!(resolve(&state, &probe), HitTarget::Background);
    probe.curve = Some((0, 1));
    assert_eq!(resolve(&state, &probe), HitTarget::Curve { contour: 0, curve: 1 });
}

#[test]
fn advance_width_edge_is_hit_only_while_shown() {
    let state = glyph();
    let mut probe = probe(503, 400);
    assert_eq!(resolve(&state, &probe), HitTarget::Background);
    probe.show_total_area = true;
    assert_eq!(resolve(&state, &probe), HitTarget::AdvanceWidth);
    probe.position = p(506, 0);
    assert_eq!(resolve(&state, &probe), HitTarget::AdvanceWidth);
    probe.position = p(494, 1000);
    assert_eq!(resolve(&state, &probe), HitTarget::AdvanceWidth);
    probe.position = p(507, 400);
    assert_eq!(resolve(&state, &probe), HitTarget::Background);
    probe.position = p(493, 400);
    assert_eq!(resolve(&state, &probe), HitTarget::Background);
    probe.position = p(500, -1);
    assert_eq!(resolve(&state, &probe), HitTarget::Background);
    probe.position = p(500, 1001);
    assert_eq!(resolve(&state, &probe), HitTarget::Background);
}

#[test]
fn curve_comes_before_the_advance_width_edge() {
    let state = glyph();
    let mut probe = probe(500, 400);
    probe.show_total_area = true;
    probe.curve = Some((0, 1));
    assert_eq!(resolve(&state, &probe), HitTarget::Curve { contour: 0, curve: 1 });
}

#[test]
fn glyph_without_width_has_its_edge_at_zero() {
    let mut state = glyph();
    state.set_width(None);
    let mut probe = probe(-4, 400);
    probe.show_total_area = true;
    assert_eq!(resolve(&state, &probe), HitTarget::AdvanceWidth);
}

#[test]
fn empty_place_is_background() {
    let state = glyph();
    assert_eq!(resolve(&state, &probe(100, 100)), HitTarget::Background);
    let mut none = probe(0, 0);
    none.radius = -1;
    assert_eq!(resolve(&state, &none), HitTarget::Background);
}

#[test]
fn only_guidelines_that_the_glyph_has_are_hit() {
    let mut state = glyph();
    let mut probe = probe(50, 50);
    probe.guideline_distances = vec![1, 0];
    assert_eq!(resolve(&state, &probe), HitTarget::Background);
    state.new_guideline(0, p(0, 51));
    assert_eq!(resolve(&state, &probe), HitTarget::Guideline(0));
    state.new_guideline(0, p(0, 50));
    assert_eq!(resolve(&state, &probe), HitTarget::Guideline(1));
    state.new_guideline(0, p(0, 50));
    assert_eq!(resolve(&state, &probe), HitTarget::Guideline(1));
    probe.guideline_distances = vec![];
    assert_eq!(resolve(&state, &probe), HitTarget::Background);
}
