use gerb::points::{IPoint, PointId};
use gerb::range_query::KdTree;

fn p(x: i64, y: i64) -> IPoint {
    IPoint::new(x, y)
}

fn sorted(mut ids: Vec<PointId>) -> Vec<u128> {
    ids.sort_by_key(|id| id.0);
    ids.into_iter().map(|id| id.0).collect()
}

fn cubic() -> KdTree {
    let mut tree = KdTree::new();
    tree.insert(PointId(1), p(0, 0));
    tree.insert(PointId(2), p(0, 10));
    tree.insert(PointId(3), p(10, 10));
    tree.insert(PointId(4), p(10, 0));
    tree
}

#[test]
fn new_index_is_empty() {
    let tree = KdTree::new();
    assert!(tree.is_empty());
    assert!(tree.query_radius(p(0, 0), 1000).is_empty());
    assert!(tree.query_rectangle(p(-5, -5), p(5, 5)).is_empty());
    assert!(tree.entries().is_empty());
}

#[test]
fn cubic_curve_radius_query_finds_first_point_only() {
    let tree = cubic();
    assert_eq!(sorted(tree.query_radius(p(0, 0), 1)), vec![1]);
}

#[test]
fn cubic_curve_rectangle_query_finds_all_four() {
    let tree = cubic();
    assert_eq!(sorted(tree.query_rectangle(p(-1, -1), p(11, 11))), vec![1, 2, 3, 4]);
}

#[test]
fn rectangle_corners_may_come_in_any_order() {
    let tree = cubic();
    let expected = vec![2, 3];
    assert_eq!(sorted(tree.query_rectangle(p(-1, 5), p(11, 11))), expected);
    assert_eq!(sorted(tree.query_rectangle(p(11, 11), p(-1, 5))), expected);
    assert_eq!(sorted(tree.query_rectangle(p(-1, 11), p(11, 5))), expected);
    assert_eq!(sorted(tree.query_rectangle(p(11, 5), p(-1, 11))), expected);
}

#[test]
fn rectangle_borders_are_inside() {
    let tree = cubic();
    assert_eq!(sorted(tree.query_rectangle(p(0, 0), p(10, 10))), vec![1, 2, 3, 4]);
    assert_eq!(sorted(tree.query_rectangle(p(0, 0), p(0, 0))), vec![1]);
    assert_eq!(sorted(tree.query_rectangle(p(1, 1), p(9, 9))), Vec::<u128>::new());
}

#[test]
fn radius_is_a_disc_not_a_box() {
    let mut tree = KdTree::new();
    tree.insert(PointId(1), p(3, 4));
    tree.insert(PointId(2), p(4, 4));
    tree.insert(PointId(3), p(5, 0));
    tree.insert(PointId(4), p(0, -5));
    tree.insert(PointId(5), p(-4, -4));
    assert_eq!(sorted(tree.query_radius(p(0, 0), 5)), vec![1, 3, 4]);
    assert_eq!(sorted(tree.query_radius(p(0, 0), 4)), Vec::<u128>::new());
    assert_eq!(sorted(tree.query_radius(p(0, 0), 6)), vec![1, 2, 3, 4, 5]);
}

#[test]
fn negative_radius_finds_nothing() {
    let tree = cubic();
    assert!(tree.query_radius(p(0, 0), -1).is_empty());
}

#[test]
fn zero_radius_on_a_live_point_finds_exactly_it() {
    let mut tree = KdTree::new();
    let mut id: u128 = 0;
    for x in -3..4 {
        for y in -3..4 {
            tree.insert(PointId(id), p(x * 7, y * 5));
            id += 1;
        }
    }
    for victim in [0u128, 10, 24, 48] {
        let at = tree.get(PointId(victim)).unwrap();
        assert!(tree.remove(PointId(victim), at));
    }
    tree.insert(PointId(100), p(1, 1));
    for (id, at) in tree.entries() {
        assert_eq!(tree.query_radius(at, 0), vec![id]);
    }
    assert_eq!(tree.entries().len(), 46);
}

#[test]
fn zero_radius_finds_coincident_points_together() {
    let mut tree = KdTree::new();
    tree.insert(PointId(1), p(2, 2));
    tree.insert(PointId(2), p(2, 2));
    tree.insert(PointId(3), p(2, 3));
    assert_eq!(sorted(tree.query_radius(p(2, 2), 0)), vec![1, 2]);
}

#[test]
fn remove_reports_not_found() {
    let mut tree = cubic();
    assert!(!tree.remove(PointId(9), p(0, 0)));
    assert!(!tree.remove(PointId(1), p(1, 0)));
    assert!(!tree.remove(PointId(1), p(0, 10)));
    assert_eq!(sorted(tree.query_rectangle(p(-1, -1), p(11, 11))), vec![1, 2, 3, 4]);
    assert!(tree.remove(PointId(1), p(0, 0)));
    assert!(!tree.remove(PointId(1), p(0, 0)));
    assert_eq!(sorted(tree.query_rectangle(p(-1, -1), p(11, 11))), vec![2, 3, 4]);
    assert!(!tree.contains_id(PointId(1)));
    assert_eq!(tree.get(PointId(1)), None);
}

#[test]
fn remove_from_empty_index_reports_not_found() {
    let mut tree = KdTree::new();
    assert!(!tree.remove(PointId(1), p(0, 0)));
    assert!(tree.is_empty());
}

#[test]
fn removing_an_inner_node_keeps_the_rest() {
    let mut tree = KdTree::new();
    let points = [(50, 50), (25, 75), (75, 25), (10, 10), (30, 90), (60, 60), (90, 5), (50, 51)];
    for (i, (x, y)) in points.iter().enumerate() {
        tree.insert(PointId(i as u128), p(*x, *y));
    }
    assert!(tree.remove(PointId(0), p(50, 50)));
    assert_eq!(sorted(tree.query_rectangle(p(0, 0), p(100, 100))), vec![1, 2, 3, 4, 5, 6, 7]);
    assert_eq!(sorted(tree.query_radius(p(50, 50), 1)), vec![7]);
    assert!(tree.remove(PointId(2), p(75, 25)));
    assert_eq!(sorted(tree.query_rectangle(p(55, 0), p(100, 100))), vec![5, 6]);
    assert_eq!(tree.get(PointId(6)), Some(p(90, 5)));
}

#[test]
fn many_coincident_points_are_tolerated() {
    let mut tree = KdTree::new();
    for id in 0..500u128 {
        tree.insert(PointId(id), p(7, 7));
    }
    assert_eq!(tree.query_radius(p(7, 7), 0).len(), 500);
    assert_eq!(tree.query_rectangle(p(7, 7), p(7, 7)).len(), 500);
    assert!(tree.remove(PointId(250), p(7, 7)));
    assert_eq!(tree.query_radius(p(7, 7), 0).len(), 499);
    assert!(tree.query_radius(p(8, 7), 0).is_empty());
}

#[test]
fn queries_match_brute_force_after_churn() {
    let mut tree = KdTree::new();
    let mut live: Vec<(u128, IPoint)> = Vec::new();
    let mut seed: u64 = 12345;
    let mut next = move || {
        seed = seed.wrapping_mul(6364136223846793005).wrapping_add(1442695040888963407);
        ((seed >> 33) % 41) as i64 - 20
    };
    for id in 0..200u128 {
        let at = p(next(), next());
        tree.insert(PointId(id), at);
        live.push((id, at));
        if id % 3 == 2 {
            let (gone, was) = live.remove((id as usize * 7) % live.len());
            assert!(tree.remove(PointId(gone), was));
        }
    }
    for _ in 0..50 {
        let a = p(next(), next());
        let b = p(next(), next());
        let mut expected: Vec<u128> = live
            .iter()
            .filter(|(_, q)| {
                a.x.min(b.x) <= q.x && q.x <= a.x.max(b.x) && a.y.min(b.y) <= q.y && q.y <= a.y.max(b.y)
            })
            .map(|(id, _)| *id)
            .collect();
        expected.sort();
        assert_eq!(sorted(tree.query_rectangle(a, b)), expected);
        let r = next().abs();
        let mut expected: Vec<u128> = live
            .iter()
            .filter(|(_, q)| (q.x - a.x) * (q.x - a.x) + (q.y - a.y) * (q.y - a.y) <= r * r)
            .map(|(id, _)| *id)
            .collect();
        expected.sort();
        assert_eq!(sorted(tree.query_radius(a, r)), expected);
    }
}

#[test]
fn extreme_coordinates_do_not_overflow() {
    let mut tree = KdTree::new();
    tree.insert(PointId(1), p(i64::MAX, i64::MAX));
    tree.insert(PointId(2), p(i64::MIN, i64::MIN));
    tree.insert(PointId(3), p(0, 0));
    assert_eq!(sorted(tree.query_radius(p(i64::MAX, i64::MAX), i64::MAX)), vec![1]);
    assert_eq!(sorted(tree.query_radius(p(i64::MIN, i64::MIN), 0)), vec![2]);
    assert_eq!(sorted(tree.query_radius(p(0, 0), i64::MAX)), vec![3]);
    assert_eq!(
        sorted(tree.query_rectangle(p(i64::MIN, i64::MIN), p(i64::MAX, i64::MAX))),
        vec![1, 2, 3]
    );
}

#[test]
fn radial_distance_is_the_squared_distance() {
    assert_eq!(p(3, 4).radial_distance(p(0, 0), 5), Some(25));
    assert_eq!(p(3, 4).radial_distance(p(0, 0), 4), None);
    assert_eq!(p(3, 4).radial_distance(p(3, 4), 0), Some(0));
    assert_eq!(p(3, 4).radial_distance(p(3, 4), -1), None);
    assert_eq!(p(-2, 1).radial_distance(p(1, 5), 9), Some(25));
}

#[test]
fn moved_points_stay_in_range() {
    assert_eq!(p(1, 2).moved_by(3, -5), p(4, -3));
    assert_eq!(p(i64::MAX, i64::MIN).moved_by(1, -1), p(i64::MAX, i64::MIN));
}

#[test]
fn clear_forgets_everything() {
    let mut tree = cubic();
    tree.clear();
    assert!(tree.is_empty());
    tree.insert(PointId(1), p(5, 5));
    assert_eq!(sorted(tree.query_radius(p(5, 5), 0)), vec![1]);
}

#[test]
fn try_insert_refuses_an_identifier_that_is_stored() {
    let mut tree = cubic();
    assert!(!tree.try_insert(PointId(3), p(50, 50)));
    assert_eq!(tree.get(PointId(3)), Some(p(10, 10)));
    assert!(tree.query_radius(p(50, 50), 0).is_empty());
    assert!(tree.try_insert(PointId(5), p(50, 50)));
    assert_eq!(sorted(tree.query_radius(p(50, 50), 0)), vec![5]);
    assert_eq!(tree.entries().len(), 5);
}

#[test]
fn rebalance_keeps_every_entry() {
    let mut tree = KdTree::new();
    let mut expected: Vec<(u128, i64, i64)> = Vec::new();
    for i in 0..600i64 {
        let at = p(i, (i * 37) % 101);
        tree.insert(PointId(i as u128), at);
        expected.push((i as u128, at.x, at.y));
    }
    for i in 0..20u128 {
        tree.insert(PointId(1000 + i), p(300, 50));
        expected.push((1000 + i, 300, 50));
    }
    tree.rebalance();
    let mut after: Vec<(u128, i64, i64)> =
        tree.entries().into_iter().map(|(id, at)| (id.0, at.x, at.y)).collect();
    after.sort();
    expected.sort();
    assert_eq!(after, expected);
    assert_eq!(tree.query_radius(p(300, 50), 0).len(), 20);
    let inside: Vec<u128> = expected
        .iter()
        .filter(|(_, x, y)| 100 <= *x && *x <= 200 && 10 <= *y && *y <= 60)
        .map(|(id, _, _)| *id)
        .collect();
    assert_eq!(sorted(tree.query_rectangle(p(200, 60), p(100, 10))), inside);
    assert!(tree.remove(PointId(300), p(300, (300 * 37) % 101)));
    assert!(!tree.remove(PointId(300), p(300, (300 * 37) % 101)));
    tree.insert(PointId(300), p(-1, -1));
    assert_eq!(sorted(tree.query_radius(p(-1, -1), 1)), vec![300]);
    let mut empty = KdTree::new();
    empty.rebalance();
    assert!(empty.is_empty());
}
