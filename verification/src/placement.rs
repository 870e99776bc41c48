use crate::outline::CurvePoint;
use crate::points::{shifted, IPoint, PointId};
use vstd::prelude::*;

verus! {

/// The point at `(c, v, k)` once each control point named in `targets` has
/// been moved to the position given for it.
pub open spec fn placed_point(
    o: Seq<Seq<Seq<CurvePoint>>>,
    targets: Map<PointId, IPoint>,
    c: int,
    v: int,
    k: int,
) -> CurvePoint {
    let p = o[c][v][k];
    if o[c][v].len() >= 2 && targets.contains_key(p.id) {
        CurvePoint { id: p.id, position: targets[p.id] }
    } else {
        p
    }
}

/// The outline once each control point named in `targets` has been moved to
/// the position given for it: every other point stays where it is.
pub open spec fn placed_outline(o: Seq<Seq<Seq<CurvePoint>>>, targets: Map<PointId, IPoint>) -> Seq<
    Seq<Seq<CurvePoint>>,
> {
    Seq::new(
        o.len(),
        |c: int|
            Seq::new(
                o[c].len(),
                |v: int| Seq::new(o[c][v].len(), |k: int| placed_point(o, targets, c, v, k)),
            ),
    )
}

/// The index once each entry named in `targets` has been moved to the
/// position given for it.
pub open spec fn placed_index(index: Map<PointId, IPoint>, targets: Map<PointId, IPoint>) -> Map<
    PointId,
    IPoint,
> {
    Map::new(
        |id: PointId| index.contains_key(id),
        |id: PointId|
            if targets.contains_key(id) {
                targets[id]
            } else {
                index[id]
            },
    )
}

/// The position that a list of placements gives each identifier it names:
/// the one named last, where an identifier occurs more than once.
pub open spec fn targets_of(placements: Seq<(PointId, IPoint)>) -> Map<PointId, IPoint>
    decreases placements.len(),
{
    if placements.len() == 0 {
        Map::empty()
    } else {
        targets_of(placements.drop_last()).insert(placements.last().0, placements.last().1)
    }
}

/// One position for each of `ids`.
pub open spec fn uniform_targets(ids: Set<PointId>, target: IPoint) -> Map<PointId, IPoint> {
    Map::new(|id: PointId| ids.contains(id), |id: PointId| target)
}

/// For each of `ids` its position in `index` moved by `(dx, dy)`.
pub open spec fn shifted_targets(index: Map<PointId, IPoint>, ids: Seq<PointId>, dx: int, dy: int) -> Map<
    PointId,
    IPoint,
> {
    Map::new(|id: PointId| ids.contains(id), |id: PointId| shifted(index[id], dx, dy))
}

/// To place no point changes nothing.
pub proof fn lemma_place_none(o: Seq<Seq<Seq<CurvePoint>>>, index: Map<PointId, IPoint>)
    ensures
        placed_outline(o, Map::empty()) == o,
        placed_index(index, Map::empty()) == index,
{
    let same = placed_outline(o, Map::empty());
    assert forall|c: int| 0 <= c < same.len() implies same[c] =~~= o[c] by {
        assert forall|v: int| 0 <= v < same[c].len() implies same[c][v] =~= o[c][v] by {}
    }
    assert(same =~~= o);
    assert(placed_index(index, Map::empty()) =~= index);
}

/// To place some points and then one more is to place them all at once.
pub proof fn lemma_place_one_more(
    o: Seq<Seq<Seq<CurvePoint>>>,
    index: Map<PointId, IPoint>,
    targets: Map<PointId, IPoint>,
    id: PointId,
    target: IPoint,
)
    requires
        index.contains_key(id),
    ensures
        placed_outline(placed_outline(o, targets), map![id => target]) == placed_outline(
            o,
            targets.insert(id, target),
        ),
        placed_index(index, targets).insert(id, target) == placed_index(
            index,
            targets.insert(id, target),
        ),
{
    let once = placed_outline(o, targets);
    let twice = placed_outline(once, map![id => target]);
    let goal = placed_outline(o, targets.insert(id, target));
    assert forall|c: int| 0 <= c < twice.len() implies twice[c] =~~= goal[c] by {
        assert forall|v: int| 0 <= v < twice[c].len() implies twice[c][v] =~= goal[c][v] by {
            assert forall|k: int| 0 <= k < twice[c][v].len() implies twice[c][v][k]
                == goal[c][v][k] by {
                assert(once[c][v][k] == placed_point(o, targets, c, v, k));
            }
        }
    }
    assert(twice =~~= goal);
    assert(placed_index(index, targets).insert(id, target) =~= placed_index(
        index,
        targets.insert(id, target),
    ));
}

/// A list of placements gives a position to the identifiers it names and to
/// no other.
pub proof fn lemma_targets_named(placements: Seq<(PointId, IPoint)>)
    ensures
        forall|id: PointId| #[trigger]
            targets_of(placements).contains_key(id) <==> exists|i: int|
                0 <= i < placements.len() && (#[trigger] placements[i]).0 == id,
    decreases placements.len(),
{
    if placements.len() > 0 {
        let front = placements.drop_last();
        lemma_targets_named(front);
        assert forall|id: PointId| #[trigger]
            targets_of(placements).contains_key(id) <==> exists|i: int|
                0 <= i < placements.len() && (#[trigger] placements[i]).0 == id by {
            if targets_of(placements).contains_key(id) {
                if id == placements.last().0 {
                    assert(placements[placements.len() - 1].0 == id);
                } else {
                    assert(targets_of(front).contains_key(id));
                    let i = choose|i: int| 0 <= i < front.len() && (#[trigger] front[i]).0 == id;
                    assert(placements[i].0 == id);
                }
            }
            if exists|i: int| 0 <= i < placements.len() && (#[trigger] placements[i]).0 == id {
                let i = choose|i: int|
                    0 <= i < placements.len() && (#[trigger] placements[i]).0 == id;
                if i < front.len() {
                    assert(front[i].0 == id);
                    assert(targets_of(front).contains_key(id));
                } else {
                    assert(placements.last().0 == id);
                }
                assert(targets_of(placements) == targets_of(front).insert(
                    placements.last().0,
                    placements.last().1,
                ));
            }
        }
    }
}

/// The position that a list gives each identifier, where entry `i` of the
/// list pairs `ids[i]` with `f(ids[i])`.
pub proof fn lemma_targets_of_mapped(
    placements: Seq<(PointId, IPoint)>,
    ids: Seq<PointId>,
    f: spec_fn(PointId) -> IPoint,
)
    requires
        placements.len() == ids.len(),
        forall|i: int| 0 <= i < ids.len() ==> #[trigger] placements[i] == (ids[i], f(ids[i])),
    ensures
        targets_of(placements) == Map::new(|id: PointId| ids.contains(id), |id: PointId| f(id)),
    decreases placements.len(),
{
    let goal = Map::new(|id: PointId| ids.contains(id), |id: PointId| f(id));
    if placements.len() == 0 {
        assert(targets_of(placements) =~= goal);
    } else {
        let front = placements.drop_last();
        let ids_front = ids.drop_last();
        assert forall|i: int| 0 <= i < ids_front.len() implies #[trigger] front[i] == (
            ids_front[i],
            f(ids_front[i]),
        ) by {
            assert(front[i] == placements[i]);
        }
        lemma_targets_of_mapped(front, ids_front, f);
        let last = ids.len() - 1;
        assert(placements.last() == (ids[last], f(ids[last])));
        assert forall|id: PointId| ids.contains(id) <==> ids_front.contains(id) || id
            == ids[last] by {
            if ids.contains(id) {
                let i = choose|i: int| 0 <= i < ids.len() && ids[i] == id;
                if i < last {
                    assert(ids_front[i] == id);
                }
            }
            if ids_front.contains(id) {
                let i = choose|i: int| 0 <= i < ids_front.len() && ids_front[i] == id;
                assert(ids[i] == id);
            }
        }
        assert(targets_of(placements) =~= goal);
    }
}

/// A point moved away and then moved back to where it was leaves the index
/// as it was before the first move: every query answers as before.
pub proof fn lemma_move_round_trip(index: Map<PointId, IPoint>, id: PointId, p: IPoint)
    requires
        index.contains_key(id),
    ensures
        placed_index(
            placed_index(index, uniform_targets(seq![id].to_set(), p)),
            uniform_targets(seq![id].to_set(), index[id]),
        ) == index,
{
    assert(seq![id].to_set().contains(id)) by {
        assert(seq![id][0] == id);
    }
    assert(placed_index(
        placed_index(index, uniform_targets(seq![id].to_set(), p)),
        uniform_targets(seq![id].to_set(), index[id]),
    ) =~= index);
}

/// To replay the record that a placement returned undoes the placement in
/// the index: each point it moved is back where it was.
pub proof fn lemma_replay_restores_index(
    index: Map<PointId, IPoint>,
    placements: Seq<(PointId, IPoint)>,
    record: Seq<(PointId, IPoint)>,
)
    requires
        record.len() == placements.len(),
        forall|i: int|
            0 <= i < record.len() ==> index.contains_key((#[trigger] placements[i]).0)
                && record[i] == (placements[i].0, index[placements[i].0]),
    ensures
        placed_index(placed_index(index, targets_of(placements)), targets_of(record)) == index,
{
    let ids = placements.map_values(|e: (PointId, IPoint)| e.0);
    let f = |id: PointId| index[id];
    assert forall|i: int| 0 <= i < ids.len() implies #[trigger] record[i] == (ids[i], f(ids[i])) by {
        assert(record[i] == (placements[i].0, index[placements[i].0]));
    }
    lemma_targets_of_mapped(record, ids, f);
    lemma_targets_named(placements);
    assert forall|id: PointId| targets_of(placements).contains_key(id) implies ids.contains(id) by {
        let i = choose|i: int| 0 <= i < placements.len() && (#[trigger] placements[i]).0 == id;
        assert(ids[i] == id);
    }
    assert(placed_index(placed_index(index, targets_of(placements)), targets_of(record))
        =~= index);
}

} // verus!
