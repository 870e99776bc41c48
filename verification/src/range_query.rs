use crate::points::{
    add_clamped, coord, in_rectangle, lemma_far_on_axis_is_outside,
    lemma_zero_radius_is_the_centre, sub_clamped, within_radius, IPoint, PointId,
};
use vstd::arithmetic::power2::pow2;
use vstd::prelude::*;

verus! {

/// The identifiers of `entries` whose point lies within `radius` of `center`.
pub open spec fn radius_hits(entries: Map<PointId, IPoint>, center: IPoint, radius: int) -> Set<
    PointId,
> {
    Set::new(|id: PointId| entries.contains_key(id) && within_radius(entries[id], center, radius))
}

/// The identifiers of `entries` whose point lies in the rectangle spanned by
/// the corners `a` and `b`, borders included.
pub open spec fn rectangle_hits(entries: Map<PointId, IPoint>, a: IPoint, b: IPoint) -> Set<
    PointId,
> {
    Set::new(|id: PointId| entries.contains_key(id) && in_rectangle(entries[id], a, b))
}

/// `listing` names every entry of `entries` once, with its point, and nothing
/// else.
pub open spec fn lists_entries(listing: Seq<(PointId, IPoint)>, entries: Map<PointId, IPoint>) -> bool {
    &&& forall|i: int, j: int|
        0 <= i < j < listing.len() ==> (#[trigger] listing[i]).0 != (#[trigger] listing[j]).0
    &&& forall|i: int|
        0 <= i < listing.len() ==> entries.contains_key((#[trigger] listing[i]).0)
            && entries[listing[i].0] == listing[i].1
    &&& forall|id: PointId| #[trigger]
        entries.contains_key(id) ==> exists|i: int|
            0 <= i < listing.len() && (#[trigger] listing[i]).0 == id
}

/// What a search looks for: the points of a box, or those of them that also
/// lie in a disc.
struct Region {
    lo: IPoint,
    hi: IPoint,
    disc: Option<(IPoint, i64)>,
}

impl Region {
    spec fn holds(self, p: IPoint) -> bool {
        &&& self.lo.x <= p.x <= self.hi.x
        &&& self.lo.y <= p.y <= self.hi.y
        &&& match self.disc {
            Some((center, radius)) => within_radius(p, center, radius as int),
            None => true,
        }
    }

    fn contains(&self, p: IPoint) -> (inside: bool)
        ensures
            inside == self.holds(p),
    {
        if self.lo.x <= p.x && p.x <= self.hi.x && self.lo.y <= p.y && p.y <= self.hi.y {
            match self.disc {
                Some((center, radius)) => p.radial_distance(center, radius).is_some(),
                None => true,
            }
        } else {
            false
        }
    }
}

/// The entries of `listing` stand in the order of their coordinates on one
/// axis.
spec fn sorted_on(listing: Seq<(PointId, IPoint)>, x_axis: bool) -> bool {
    forall|i: int, j: int|
        0 <= i <= j < listing.len() ==> coord((#[trigger] listing[i]).1, x_axis) <= coord(
            (#[trigger] listing[j]).1,
            x_axis,
        )
}

/// The coordinate of `p` on one axis.
fn axis_of(p: IPoint, x_axis: bool) -> (c: i64)
    ensures
        c == coord(p, x_axis),
{
    if x_axis {
        p.x
    } else {
        p.y
    }
}

/// A list with two of its entries exchanged names the same entries.
proof fn lemma_exchange_lists_the_same(
    before: Seq<(PointId, IPoint)>,
    after: Seq<(PointId, IPoint)>,
    a: int,
    b: int,
    entries: Map<PointId, IPoint>,
)
    requires
        lists_entries(before, entries),
        0 <= a < before.len(),
        0 <= b < before.len(),
        after == before.update(a, before[b]).update(b, before[a]),
    ensures
        lists_entries(after, entries),
{
    assert forall|i: int, j: int| 0 <= i < j < after.len() implies (#[trigger] after[i]).0 != (
    #[trigger] after[j]).0 by {
        let i0 = if i == a {
            b
        } else if i == b {
            a
        } else {
            i
        };
        let j0 = if j == a {
            b
        } else if j == b {
            a
        } else {
            j
        };
        assert(after[i] == before[i0]);
        assert(after[j] == before[j0]);
        if i0 < j0 {
            assert(before[i0].0 != before[j0].0);
        } else {
            assert(before[j0].0 != before[i0].0);
        }
    }
    assert forall|i: int| 0 <= i < after.len() implies entries.contains_key(
        (#[trigger] after[i]).0,
    ) && entries[after[i].0] == after[i].1 by {
        let i0 = if i == a {
            b
        } else if i == b {
            a
        } else {
            i
        };
        assert(after[i] == before[i0]);
    }
    assert forall|id: PointId| #[trigger] entries.contains_key(id) implies exists|i: int|
        0 <= i < after.len() && (#[trigger] after[i]).0 == id by {
        let i0 = choose|i: int| 0 <= i < before.len() && (#[trigger] before[i]).0 == id;
        let i = if i0 == a {
            b
        } else if i0 == b {
            a
        } else {
            i0
        };
        assert(after[i].0 == id);
    }
}

/// Puts the entries of `listing` in the order of their coordinates on one
/// axis.
fn sort_on(listing: &mut Vec<(PointId, IPoint)>, x_axis: bool, Ghost(entries): Ghost<
    Map<PointId, IPoint>,
>)
    requires
        lists_entries(old(listing)@, entries),
    ensures
        lists_entries(final(listing)@, entries),
        sorted_on(final(listing)@, x_axis),
        final(listing)@.len() == old(listing)@.len(),
{
    let n = listing.len();
    if n < 2 {
        return ;
    }
    let mut i: usize = 1;
    while i < n
        invariant
            1 <= i <= n,
            n == listing.len(),
            lists_entries(listing@, entries),
            sorted_on(listing@.take(i as int), x_axis),
        decreases n - i,
    {
        proof {
            let s = listing@;
            assert forall|a: int, b: int| 0 <= a <= b < i implies coord(
                (#[trigger] s[a]).1,
                x_axis,
            ) <= coord((#[trigger] s[b]).1, x_axis) by {
                assert(s.take(i as int)[a] == s[a]);
                assert(s.take(i as int)[b] == s[b]);
            }
        }
        let mut j: usize = i;
        while j > 0 && axis_of(listing[j - 1].1, x_axis) > axis_of(listing[j].1, x_axis)
            invariant
                0 <= j <= i < n,
                n == listing.len(),
                lists_entries(listing@, entries),
                forall|a: int, b: int|
                    0 <= a <= b <= i && a != j && b != j ==> coord(
                        (#[trigger] listing@[a]).1,
                        x_axis,
                    ) <= coord((#[trigger] listing@[b]).1, x_axis),
                forall|b: int|
                    j < b <= i ==> coord(listing@[j as int].1, x_axis) <= coord(
                        (#[trigger] listing@[b]).1,
                        x_axis,
                    ),
            decreases j,
        {
            let ghost before = listing@;
            let lower = listing[j - 1];
            let upper = listing[j];
            listing[j - 1] = upper;
            listing[j] = lower;
            proof {
                assert(listing@ =~= before.update(j - 1, before[j as int]).update(
                    j as int,
                    before[j - 1],
                ));
                lemma_exchange_lists_the_same(before, listing@, j - 1, j as int, entries);
                assert forall|a: int, b: int|
                    0 <= a <= b <= i && a != j - 1 && b != j - 1 implies coord(
                    (#[trigger] listing@[a]).1,
                    x_axis,
                ) <= coord((#[trigger] listing@[b]).1, x_axis) by {
                    if a == j && b == j {
                    } else if a == j {
                        assert(listing@[a] == before[j - 1]);
                        assert(listing@[b] == before[b]);
                        assert(coord(before[j - 1].1, x_axis) <= coord(before[b].1, x_axis));
                    } else if b == j {
                        assert(listing@[b] == before[j - 1]);
                        assert(listing@[a] == before[a]);
                        assert(coord(before[a].1, x_axis) <= coord(before[j - 1].1, x_axis));
                    } else {
                        assert(listing@[a] == before[a]);
                        assert(listing@[b] == before[b]);
                    }
                }
                assert forall|b: int| j - 1 < b <= i implies coord(
                    listing@[j - 1].1,
                    x_axis,
                ) <= coord((#[trigger] listing@[b]).1, x_axis) by {
                    if b == j {
                    } else {
                        assert(listing@[b] == before[b]);
                    }
                }
            }
            j = j - 1;
        }
        proof {
            let s = listing@;
            assert forall|a: int, b: int| 0 <= a <= b < i + 1 implies coord(
                (#[trigger] s.take(i + 1)[a]).1,
                x_axis,
            ) <= coord((#[trigger] s.take(i + 1)[b]).1, x_axis) by {
                if a == j && b == j {
                } else if a == j {
                } else if b == j {
                    if j > 0 {
                        assert(coord(s[j - 1].1, x_axis) <= coord(s[j as int].1, x_axis));
                        if a < j - 1 {
                            assert(coord(s[a].1, x_axis) <= coord(s[j - 1].1, x_axis));
                        }
                    }
                } else {
                }
            }
        }
        i = i + 1;
    }
    assert(listing@.take(n as int) =~= listing@);
}

/// The entries that a listing names before its entry `mid`.
spec fn entries_before(s: Seq<(PointId, IPoint)>, mid: int, target: Map<PointId, IPoint>) -> Map<
    PointId,
    IPoint,
> {
    Map::new(
        |k: PointId| exists|j: int| 0 <= j < mid && (#[trigger] s[j]).0 == k,
        |k: PointId| target[k],
    )
}

/// The entries that a listing names after its entry `mid`.
spec fn entries_after(s: Seq<(PointId, IPoint)>, mid: int, target: Map<PointId, IPoint>) -> Map<
    PointId,
    IPoint,
> {
    Map::new(
        |k: PointId| exists|j: int| mid < j < s.len() && (#[trigger] s[j]).0 == k,
        |k: PointId| target[k],
    )
}

/// The two parts of a listing on either side of its entry `mid` list the
/// entries before it and those after it.
proof fn lemma_parts_listed(s: Seq<(PointId, IPoint)>, mid: int, target: Map<PointId, IPoint>)
    requires
        lists_entries(s, target),
        0 <= mid < s.len(),
    ensures
        lists_entries(s.take(mid), entries_before(s, mid, target)),
        lists_entries(s.subrange(mid + 1, s.len() as int), entries_after(s, mid, target)),
{
    let n = s.len() as int;
    let left = s.take(mid);
    let right = s.subrange(mid + 1, n);
    let before = entries_before(s, mid, target);
    let after = entries_after(s, mid, target);
    assert forall|a: int| 0 <= a < left.len() implies before.contains_key((#[trigger] left[a]).0)
        && before[left[a].0] == left[a].1 by {
        assert(s[a].0 == left[a].0);
    }
    assert forall|k: PointId| #[trigger] before.contains_key(k) implies exists|a: int|
        0 <= a < left.len() && (#[trigger] left[a]).0 == k by {
        let j = choose|j: int| 0 <= j < mid && (#[trigger] s[j]).0 == k;
        assert(left[j].0 == k);
    }
    assert forall|a: int, b: int| 0 <= a < b < left.len() implies (#[trigger] left[a]).0 != (
    #[trigger] left[b]).0 by {
        assert(s[a].0 != s[b].0);
    }
    assert forall|a: int| 0 <= a < right.len() implies after.contains_key((#[trigger] right[a]).0)
        && after[right[a].0] == right[a].1 by {
        assert(s[a + mid + 1].0 == right[a].0);
    }
    assert forall|k: PointId| #[trigger] after.contains_key(k) implies exists|a: int|
        0 <= a < right.len() && (#[trigger] right[a]).0 == k by {
        let j = choose|j: int| mid < j < n && (#[trigger] s[j]).0 == k;
        assert(right[j - mid - 1].0 == k);
    }
    assert forall|a: int, b: int| 0 <= a < b < right.len() implies (#[trigger] right[a]).0 != (
    #[trigger] right[b]).0 by {
        assert(s[a + mid + 1].0 != s[b + mid + 1].0);
    }
}

struct KdNode {
    id: PointId,
    point: IPoint,
    left: Option<Box<KdNode>>,
    right: Option<Box<KdNode>>,
}

impl KdNode {
    /// The entries of a subtree, by identifier.
    spec fn entries(t: Option<Box<KdNode>>) -> Map<PointId, IPoint>
        decreases t,
    {
        match t {
            None => Map::empty(),
            Some(n) => Self::entries(n.left).union_prefer_right(Self::entries(n.right)).insert(
                n.id,
                n.point,
            ),
        }
    }

    /// The search order of a subtree whose root splits on the axis given:
    /// smaller coordinates to the left, the others to the right, the axis
    /// changing with each level; and no identifier twice.
    spec fn ordered(t: Option<Box<KdNode>>, x_axis: bool) -> bool
        decreases t,
    {
        match t {
            None => true,
            Some(n) => {
                &&& Self::ordered(n.left, !x_axis)
                &&& Self::ordered(n.right, !x_axis)
                &&& !Self::entries(n.left).contains_key(n.id)
                &&& !Self::entries(n.right).contains_key(n.id)
                &&& forall|k: PointId| #[trigger]
                    Self::entries(n.left).contains_key(k) ==> !Self::entries(n.right).contains_key(
                        k,
                    ) && coord(Self::entries(n.left)[k], x_axis) < coord(n.point, x_axis)
                &&& forall|k: PointId| #[trigger]
                    Self::entries(n.right).contains_key(k) ==> coord(
                        Self::entries(n.right)[k],
                        x_axis,
                    ) >= coord(n.point, x_axis)
            },
        }
    }

    /// The number of entries of a subtree.
    spec fn count(t: Option<Box<KdNode>>) -> nat
        decreases t,
    {
        match t {
            None => 0,
            Some(n) => 1 + Self::count(n.left) + Self::count(n.right),
        }
    }

    /// The number of nodes on the longest way from the root of a subtree
    /// down.
    spec fn height(t: Option<Box<KdNode>>) -> nat
        decreases t,
    {
        match t {
            None => 0,
            Some(n) => {
                let left = Self::height(n.left);
                let right = Self::height(n.right);
                if left >= right {
                    1 + left
                } else {
                    1 + right
                }
            },
        }
    }

    /// Every node of a subtree stands at the median of the entries below
    /// it: half of them, rounded down, are on its left, and fewer only
    /// where an entry on its right has the node's own coordinate on the
    /// axis on which the node splits.
    spec fn halved(t: Option<Box<KdNode>>, x_axis: bool) -> bool
        decreases t,
    {
        match t {
            None => true,
            Some(n) => {
                &&& Self::halved(n.left, !x_axis)
                &&& Self::halved(n.right, !x_axis)
                &&& Self::count(n.left) <= Self::count(t) / 2
                &&& Self::count(n.left) < Self::count(t) / 2 ==> exists|k: PointId| #[trigger]
                    Self::entries(n.right).contains_key(k) && coord(
                        Self::entries(n.right)[k],
                        x_axis,
                    ) == coord(n.point, x_axis)
            },
        }
    }

    /// A subtree in search order has as many entries as nodes.
    proof fn lemma_count_is_len(t: Option<Box<KdNode>>, x_axis: bool)
        requires
            Self::ordered(t, x_axis),
        ensures
            Self::entries(t).dom().finite(),
            Self::entries(t).len() == Self::count(t),
        decreases t,
    {
        match t {
            None => {},
            Some(n) => {
                Self::lemma_count_is_len(n.left, !x_axis);
                Self::lemma_count_is_len(n.right, !x_axis);
                let left = Self::entries(n.left).dom();
                let right = Self::entries(n.right).dom();
                assert(left.disjoint(right));
                vstd::set_lib::lemma_set_disjoint_lens(left, right);
                assert(Self::entries(n.left).union_prefer_right(Self::entries(n.right)).dom()
                    =~= left + right);
                assert(Self::entries(t).dom() =~= (left + right).insert(n.id));
                assert(!(left + right).contains(n.id));
            },
        }
    }

    /// A subtree whose nodes stand at the medians, and in which no two
    /// entries agree in a coordinate, is as shallow as a tree of its size
    /// can be: twice its size is no less than two to the power of its
    /// height.
    proof fn lemma_halved_is_shallow(t: Option<Box<KdNode>>, x_axis: bool)
        requires
            Self::ordered(t, x_axis),
            Self::halved(t, x_axis),
            coordinates_differ(Self::entries(t)),
        ensures
            Self::count(t) >= 1 ==> pow2(Self::height(t)) <= 2 * Self::count(t),
            Self::count(t) == 0 ==> Self::height(t) == 0,
        decreases t,
    {
        match t {
            None => {},
            Some(n) => {
                let all = Self::entries(t);
                let size = Self::count(t);
                let l = Self::count(n.left);
                let r = Self::count(n.right);
                assert(all.contains_key(n.id) && all[n.id] == n.point);
                assert forall|k: PointId| #[trigger]
                    Self::entries(n.left).contains_key(k) implies all.contains_key(k) && all[k]
                    == Self::entries(n.left)[k] by {}
                assert forall|k: PointId| #[trigger]
                    Self::entries(n.right).contains_key(k) implies all.contains_key(k) && all[k]
                    == Self::entries(n.right)[k] by {}
                assert(coordinates_differ(Self::entries(n.left)));
                assert(coordinates_differ(Self::entries(n.right)));
                Self::lemma_halved_is_shallow(n.left, !x_axis);
                Self::lemma_halved_is_shallow(n.right, !x_axis);
                if l < size / 2 {
                    let k = choose|k: PointId| #[trigger]
                        Self::entries(n.right).contains_key(k) && coord(
                            Self::entries(n.right)[k],
                            x_axis,
                        ) == coord(n.point, x_axis);
                    assert(all.contains_key(k) && k != n.id);
                    assert(false);
                }
                assert(l == size / 2);
                assert(size == 1 + l + r);
                assert(r <= l);
                let hl = Self::height(n.left);
                let hr = Self::height(n.right);
                vstd::arithmetic::power2::lemma2_to64();
                vstd::arithmetic::power2::lemma_pow2_unfold((1 + hl) as nat);
                vstd::arithmetic::power2::lemma_pow2_unfold((1 + hr) as nat);
                if l >= 1 {
                    assert(pow2(hl) <= 2 * l);
                } else {
                    assert(hl == 0);
                }
                if r >= 1 {
                    assert(pow2(hr) <= 2 * r);
                } else {
                    assert(hr == 0);
                }
                assert(pow2((1 + hl) as nat) <= 2 * size);
                assert(pow2((1 + hr) as nat) <= 2 * size);
            },
        }
    }

    fn insert_into(t: &mut Option<Box<KdNode>>, id: PointId, point: IPoint, x_axis: bool)
        requires
            Self::ordered(*old(t), x_axis),
            !Self::entries(*old(t)).contains_key(id),
        ensures
            Self::ordered(*final(t), x_axis),
            Self::entries(*final(t)) == Self::entries(*old(t)).insert(id, point),
        decreases *old(t),
    {
        match t.take() {
            None => {
                *t = Some(Box::new(KdNode { id, point, left: None, right: None }));
                assert(Self::ordered(None, !x_axis));
                assert(Self::entries(*t) =~= Self::entries(*old(t)).insert(id, point));
            },
            Some(mut n) => {
                let ghost before = Self::entries(Some(n));
                let ghost left = Self::entries(n.left);
                let ghost right = Self::entries(n.right);
                assert(before.contains_key(n.id));
                assert(forall|k: PointId| left.contains_key(k) ==> before.contains_key(k));
                assert(forall|k: PointId| right.contains_key(k) ==> before.contains_key(k));
                let go_left = if x_axis {
                    point.x < n.point.x
                } else {
                    point.y < n.point.y
                };
                if go_left {
                    Self::insert_into(&mut n.left, id, point, !x_axis);
                    assert(forall|k: PointId| #[trigger]
                        Self::entries(n.left).contains_key(k) ==> k == id || left.contains_key(k));
                } else {
                    Self::insert_into(&mut n.right, id, point, !x_axis);
                    assert(forall|k: PointId| #[trigger]
                        Self::entries(n.right).contains_key(k) ==> k == id || right.contains_key(
                            k,
                        ));
                }
                *t = Some(n);
                assert(Self::entries(*t) =~= before.insert(id, point));
            },
        }
    }

    /// Appends the entries of a subtree to `out`.
    fn collect(
        t: &Option<Box<KdNode>>,
        x_axis: bool,
        out: &mut Vec<(PointId, IPoint)>,
        Ghost(seen): Ghost<Map<PointId, IPoint>>,
    )
        requires
            Self::ordered(*t, x_axis),
            lists_entries(old(out)@, seen),
            forall|k: PointId| #[trigger] seen.contains_key(k) ==> !Self::entries(*t).contains_key(k),
        ensures
            lists_entries(final(out)@, seen.union_prefer_right(Self::entries(*t))),
        decreases *t,
    {
        match t {
            None => {
                assert(seen.union_prefer_right(Self::entries(*t)) =~= seen);
            },
            Some(n) => {
                let ghost with_node = seen.insert(n.id, n.point);
                out.push((n.id, n.point));
                proof {
                    let s = out@;
                    let last = s.len() - 1;
                    assert forall|k: PointId| #[trigger] with_node.contains_key(k) implies exists|
                        i: int,
                    |
                        0 <= i < s.len() && (#[trigger] s[i]).0 == k by {
                        if k == n.id {
                            assert(s[last].0 == k);
                        } else {
                            let i = choose|i: int|
                                0 <= i < old(out)@.len() && (#[trigger] old(out)@[i]).0 == k;
                            assert(s[i].0 == k);
                        }
                    }
                    assert forall|i: int, j: int| 0 <= i < j < s.len() implies (#[trigger] s[i]).0
                        != (#[trigger] s[j]).0 by {
                        if j == last {
                            assert(old(out)@[i] == s[i]);
                            assert(seen.contains_key(s[i].0));
                        } else {
                            assert(old(out)@[i] == s[i]);
                            assert(old(out)@[j] == s[j]);
                        }
                    }
                    assert forall|i: int| 0 <= i < s.len() implies with_node.contains_key(
                        (#[trigger] s[i]).0,
                    ) && with_node[s[i].0] == s[i].1 by {
                        if i < last {
                            assert(old(out)@[i] == s[i]);
                        }
                    }
                    assert(lists_entries(s, with_node));
                }
                Self::collect(&n.left, !x_axis, out, Ghost(with_node));
                let ghost with_left = with_node.union_prefer_right(Self::entries(n.left));
                Self::collect(&n.right, !x_axis, out, Ghost(with_left));
                assert(with_left.union_prefer_right(Self::entries(n.right))
                    =~= seen.union_prefer_right(Self::entries(*t)));
            },
        }
    }

    fn remove_from(t: &mut Option<Box<KdNode>>, id: PointId, point: IPoint, x_axis: bool) -> (found:
        bool)
        requires
            Self::ordered(*old(t), x_axis),
        ensures
            Self::ordered(*final(t), x_axis),
            found == (Self::entries(*old(t)).contains_key(id) && Self::entries(*old(t))[id]
                == point),
            found ==> Self::entries(*final(t)) == Self::entries(*old(t)).remove(id),
            !found ==> Self::entries(*final(t)) == Self::entries(*old(t)),
        decreases *old(t),
    {
        match t.take() {
            None => false,
            Some(mut n) => {
                let ghost before = Self::entries(Some(n));
                if n.id == id {
                    if n.point == point {
                        let mut rest: Vec<(PointId, IPoint)> = Vec::new();
                        assert(lists_entries(rest@, Map::empty()));
                        Self::collect(&n.left, !x_axis, &mut rest, Ghost(Map::empty()));
                        let ghost left = Map::<PointId, IPoint>::empty().union_prefer_right(
                            Self::entries(n.left),
                        );
                        Self::collect(&n.right, !x_axis, &mut rest, Ghost(left));
                        let ghost target = left.union_prefer_right(Self::entries(n.right));
                        assert(target =~= before.remove(id));
                        Self::rebuild(t, &rest, x_axis, Ghost(target));
                        true
                    } else {
                        *t = Some(n);
                        false
                    }
                } else {
                    let go_left = if x_axis {
                        point.x < n.point.x
                    } else {
                        point.y < n.point.y
                    };
                    let found = if go_left {
                        Self::remove_from(&mut n.left, id, point, !x_axis)
                    } else {
                        Self::remove_from(&mut n.right, id, point, !x_axis)
                    };
                    *t = Some(n);
                    proof {
                        if found {
                            assert(Self::entries(*t) =~= before.remove(id));
                        } else {
                            assert(Self::entries(*t) =~= before);
                        }
                    }
                    found
                }
            },
        }
    }

    /// Fills an empty subtree with the entries listed.
    fn rebuild(
        t: &mut Option<Box<KdNode>>,
        listing: &Vec<(PointId, IPoint)>,
        x_axis: bool,
        Ghost(target): Ghost<Map<PointId, IPoint>>,
    )
        requires
            *old(t) == None::<Box<KdNode>>,
            lists_entries(listing@, target),
        ensures
            Self::ordered(*final(t), x_axis),
            Self::entries(*final(t)) == target,
    {
        let mut i: usize = 0;
        while i < listing.len()
            invariant
                0 <= i <= listing.len(),
                lists_entries(listing@, target),
                Self::ordered(*t, x_axis),
                forall|k: PointId| #[trigger]
                    Self::entries(*t).contains_key(k) <==> exists|j: int|
                        0 <= j < i && (#[trigger] listing@[j]).0 == k,
                forall|k: PointId| #[trigger]
                    Self::entries(*t).contains_key(k) ==> Self::entries(*t)[k] == target[k],
            decreases listing.len() - i,
        {
            let (id, point) = listing[i];
            let ghost before = Self::entries(*t);
            proof {
                if before.contains_key(id) {
                    let j = choose|j: int| 0 <= j < i && (#[trigger] listing@[j]).0 == id;
                    assert(listing@[j].0 != listing@[i as int].0);
                }
            }
            Self::insert_into(t, id, point, x_axis);
            proof {
                assert forall|k: PointId| #[trigger]
                    Self::entries(*t).contains_key(k) <==> exists|j: int|
                        0 <= j < i + 1 && (#[trigger] listing@[j]).0 == k by {
                    if Self::entries(*t).contains_key(k) {
                        if k == id {
                            assert(listing@[i as int].0 == k);
                        } else {
                            assert(before.contains_key(k));
                            let j = choose|j: int| 0 <= j < i && (#[trigger] listing@[j]).0 == k;
                            assert(listing@[j].0 == k);
                        }
                    }
                    if exists|j: int| 0 <= j < i + 1 && (#[trigger] listing@[j]).0 == k {
                        let j = choose|j: int| 0 <= j < i + 1 && (#[trigger] listing@[j]).0 == k;
                        if j < i {
                            assert(before.contains_key(k));
                        }
                    }
                }
                assert(listing@[i as int].0 == id);
            }
            i = i + 1;
        }
        proof {
            assert forall|k: PointId| target.contains_key(k) implies Self::entries(*t).contains_key(
                k,
            ) by {
                let j = choose|j: int| 0 <= j < listing@.len() && (#[trigger] listing@[j]).0 == k;
                assert(listing@[j].0 == k);
            }
            assert forall|k: PointId| Self::entries(*t).contains_key(k) implies target.contains_key(
                k,
            ) by {
                let j = choose|j: int| 0 <= j < i && (#[trigger] listing@[j]).0 == k;
                assert(target.contains_key(listing@[j].0));
            }
            assert(Self::entries(*t) =~= target);
        }
    }

    /// Appends to `out` the identifiers of the subtree's points in `region`,
    /// passing over the half of a subtree that lies wholly outside the box.
    fn search(t: &Option<Box<KdNode>>, region: &Region, x_axis: bool, out: &mut Vec<PointId>)
        requires
            Self::ordered(*t, x_axis),
            old(out)@.no_duplicates(),
            forall|i: int|
                0 <= i < old(out)@.len() ==> !Self::entries(*t).contains_key(
                    #[trigger] old(out)@[i],
                ),
        ensures
            final(out)@.no_duplicates(),
            forall|id: PointId|
                final(out)@.contains(id) <==> old(out)@.contains(id) || (Self::entries(
                    *t,
                ).contains_key(id) && region.holds(Self::entries(*t)[id])),
        decreases *t,
    {
        match t {
            None => {},
            Some(n) => {
                let ghost all = Self::entries(*t);
                if region.contains(n.point) {
                    out.push(n.id);
                    assert(forall|i: int|
                        0 <= i < old(out)@.len() ==> out@[i] == old(out)@[i]);
                }
                let ghost at_node = out@;
                assert(forall|id: PointId|
                    at_node.contains(id) <==> old(out)@.contains(id) || (id == n.id
                        && region.holds(n.point))) by {
                    assert forall|id: PointId| at_node.contains(id) implies old(out)@.contains(id)
                        || (id == n.id && region.holds(n.point)) by {
                        let i = choose|i: int| 0 <= i < at_node.len() && at_node[i] == id;
                        if i < old(out)@.len() {
                            assert(old(out)@[i] == id);
                        }
                    }
                    assert forall|id: PointId|
                        old(out)@.contains(id) || (id == n.id && region.holds(
                            n.point,
                        )) implies at_node.contains(id) by {
                        if old(out)@.contains(id) {
                            let i = choose|i: int| 0 <= i < old(out)@.len() && old(out)@[i] == id;
                            assert(at_node[i] == id);
                        } else {
                            assert(at_node[at_node.len() - 1] == id);
                        }
                    }
                }
                assert(forall|i: int|
                    0 <= i < at_node.len() ==> !Self::entries(n.left).contains_key(
                        #[trigger] at_node[i],
                    ) && !Self::entries(n.right).contains_key(at_node[i])) by {
                    assert forall|i: int| 0 <= i < at_node.len() implies !Self::entries(
                        n.left,
                    ).contains_key(#[trigger] at_node[i]) && !Self::entries(n.right).contains_key(
                        at_node[i],
                    ) by {
                        if i < old(out)@.len() {
                            assert(at_node[i] == old(out)@[i]);
                            assert(!all.contains_key(old(out)@[i]));
                        }
                    }
                }
                let (split, lo, hi) = if x_axis {
                    (n.point.x, region.lo.x, region.hi.x)
                } else {
                    (n.point.y, region.lo.y, region.hi.y)
                };
                if lo < split {
                    Self::search(&n.left, region, !x_axis, out);
                }
                let ghost at_left = out@;
                assert(forall|id: PointId|
                    at_left.contains(id) <==> at_node.contains(id) || (Self::entries(
                        n.left,
                    ).contains_key(id) && region.holds(Self::entries(n.left)[id])));
                assert(forall|i: int|
                    0 <= i < at_left.len() ==> !Self::entries(n.right).contains_key(
                        #[trigger] at_left[i],
                    )) by {
                    assert forall|i: int| 0 <= i < at_left.len() implies !Self::entries(
                        n.right,
                    ).contains_key(#[trigger] at_left[i]) by {
                        let id = at_left[i];
                        assert(at_left.contains(id));
                        if at_node.contains(id) {
                            let j = choose|j: int| 0 <= j < at_node.len() && at_node[j] == id;
                            assert(!Self::entries(n.right).contains_key(at_node[j]));
                        }
                    }
                }
                if split <= hi {
                    Self::search(&n.right, region, !x_axis, out);
                }
                assert(forall|id: PointId|
                    out@.contains(id) <==> at_left.contains(id) || (Self::entries(
                        n.right,
                    ).contains_key(id) && region.holds(Self::entries(n.right)[id])));
                assert forall|id: PointId|
                    out@.contains(id) <==> old(out)@.contains(id) || (all.contains_key(id)
                        && region.holds(all[id])) by {
                    if Self::entries(n.left).contains_key(id) {
                        assert(!Self::entries(n.right).contains_key(id));
                        assert(all[id] == Self::entries(n.left)[id]);
                    }
                    if Self::entries(n.right).contains_key(id) {
                        assert(all[id] == Self::entries(n.right)[id]);
                    }
                    if old(out)@.contains(id) {
                        let i = choose|i: int| 0 <= i < old(out)@.len() && old(out)@[i] == id;
                        assert(!all.contains_key(old(out)@[i]));
                    }
                }
            },
        }
    }

    /// The search order, the entries, the size and the median split of the
    /// node made of entry `mid` of a sorted listing, with the entries before
    /// it built into its left subtree and those after it into its right.
    proof fn lemma_node_of_sorted(
        s: Seq<(PointId, IPoint)>,
        mid: int,
        target: Map<PointId, IPoint>,
        l: Option<Box<KdNode>>,
        r: Option<Box<KdNode>>,
        x_axis: bool,
    )
        requires
            lists_entries(s, target),
            sorted_on(s, x_axis),
            0 <= mid <= s.len() / 2 < s.len(),
            forall|j: int|
                mid <= j <= s.len() / 2 ==> coord((#[trigger] s[j]).1, x_axis) == coord(
                    s[(s.len() / 2) as int].1,
                    x_axis,
                ),
            mid > 0 ==> coord(s[mid - 1].1, x_axis) != coord(s[mid].1, x_axis),
            Self::ordered(l, !x_axis),
            Self::ordered(r, !x_axis),
            Self::entries(l) == entries_before(s, mid, target),
            Self::entries(r) == entries_after(s, mid, target),
            Self::count(l) == mid,
            Self::count(r) == s.len() - mid - 1,
            Self::halved(l, !x_axis),
            Self::halved(r, !x_axis),
        ensures
            ({
                let t = Some(Box::new(KdNode { id: s[mid].0, point: s[mid].1, left: l, right: r }));
                &&& Self::ordered(t, x_axis)
                &&& Self::entries(t) == target
                &&& Self::count(t) == s.len()
                &&& Self::halved(t, x_axis)
            }),
    {
        let n = s.len() as int;
        let id = s[mid].0;
        let point = s[mid].1;
        let before = entries_before(s, mid, target);
        let after = entries_after(s, mid, target);
        let t = Some(Box::new(KdNode { id, point, left: l, right: r }));
        assert(Self::count(t) == n);
        if mid < n / 2 {
            let k = s[mid + 1].0;
            assert(after.contains_key(k));
            assert(target[s[mid + 1].0] == s[mid + 1].1);
            assert(coord(s[mid + 1].1, x_axis) == coord(s[n / 2].1, x_axis));
            assert(coord(s[mid].1, x_axis) == coord(s[n / 2].1, x_axis));
            assert(Self::entries(r).contains_key(k) && coord(Self::entries(r)[k], x_axis) == coord(
                point,
                x_axis,
            ));
        }
        assert forall|k: PointId| #[trigger] before.contains_key(k) implies !after.contains_key(k)
            && k != id && coord(before[k], x_axis) < coord(point, x_axis) by {
            let j = choose|j: int| 0 <= j < mid && (#[trigger] s[j]).0 == k;
            assert(s[j].0 != s[mid].0);
            if after.contains_key(k) {
                let j2 = choose|j2: int| mid < j2 < n && (#[trigger] s[j2]).0 == k;
                assert(s[j].0 != s[j2].0);
            }
            assert(target[s[j].0] == s[j].1);
            assert(coord(s[j].1, x_axis) <= coord(s[mid - 1].1, x_axis));
            assert(coord(s[mid - 1].1, x_axis) <= coord(s[mid].1, x_axis));
        }
        assert forall|k: PointId| #[trigger] after.contains_key(k) implies k != id && coord(
            after[k],
            x_axis,
        ) >= coord(point, x_axis) by {
            let j = choose|j: int| mid < j < n && (#[trigger] s[j]).0 == k;
            assert(s[mid].0 != s[j].0);
            assert(target[s[j].0] == s[j].1);
            assert(coord(s[mid].1, x_axis) <= coord(s[j].1, x_axis));
        }
        assert(Self::entries(t) =~= target) by {
            assert forall|k: PointId| target.contains_key(k) implies Self::entries(t).contains_key(
                k,
            ) by {
                let j = choose|j: int| 0 <= j < s.len() && (#[trigger] s[j]).0 == k;
                if j < mid {
                    assert(before.contains_key(k));
                } else if j > mid {
                    assert(after.contains_key(k));
                }
            }
            assert(target[s[mid].0] == s[mid].1);
        }
    }

    /// Builds the subtree of the entries listed, with every node at the
    /// median of the entries below it.
    fn build(listing: Vec<(PointId, IPoint)>, x_axis: bool, Ghost(target): Ghost<
        Map<PointId, IPoint>,
    >) -> (t: Option<Box<KdNode>>)
        requires
            lists_entries(listing@, target),
        ensures
            Self::ordered(t, x_axis),
            Self::entries(t) == target,
            Self::count(t) == listing@.len(),
            Self::halved(t, x_axis),
        decreases listing@.len(),
    {
        let mut listing = listing;
        let n = listing.len();
        if n == 0 {
            assert(target =~= Map::<PointId, IPoint>::empty());
            return None;
        }
        sort_on(&mut listing, x_axis, Ghost(target));
        let ghost s = listing@;
        let mut mid: usize = n / 2;
        while mid > 0 && axis_of(listing[mid - 1].1, x_axis) == axis_of(listing[mid].1, x_axis)
            invariant
                0 <= mid <= n / 2,
                n == listing.len(),
                listing@ == s,
                forall|j: int|
                    mid <= j <= n / 2 ==> coord((#[trigger] s[j]).1, x_axis) == coord(
                        s[(n / 2) as int].1,
                        x_axis,
                    ),
            decreases mid,
        {
            mid = mid - 1;
        }
        let (id, point) = listing[mid];
        let mut left: Vec<(PointId, IPoint)> = Vec::new();
        let mut i: usize = 0;
        while i < mid
            invariant
                0 <= i <= mid < n,
                n == listing.len(),
                listing@ == s,
                left@ == s.take(i as int),
            decreases mid - i,
        {
            left.push(listing[i]);
            assert(left@ =~= s.take(i + 1));
            i = i + 1;
        }
        let mut right: Vec<(PointId, IPoint)> = Vec::new();
        let mut i: usize = mid + 1;
        while i < n
            invariant
                mid + 1 <= i <= n,
                n == listing.len(),
                listing@ == s,
                right@ == s.subrange(mid + 1, i as int),
            decreases n - i,
        {
            right.push(listing[i]);
            assert(right@ =~= s.subrange(mid + 1, i + 1));
            i = i + 1;
        }
        proof {
            lemma_parts_listed(s, mid as int, target);
        }
        let l = Self::build(left, !x_axis, Ghost(entries_before(s, mid as int, target)));
        let r = Self::build(right, !x_axis, Ghost(entries_after(s, mid as int, target)));
        proof {
            Self::lemma_node_of_sorted(s, mid as int, target, l, r, x_axis);
        }
        Some(Box::new(KdNode { id, point, left: l, right: r }))
    }

    fn find(t: &Option<Box<KdNode>>, x_axis: bool, id: PointId) -> (found: Option<IPoint>)
        requires
            Self::ordered(*t, x_axis),
        ensures
            found == (if Self::entries(*t).contains_key(id) {
                Some(Self::entries(*t)[id])
            } else {
                None
            }),
        decreases *t,
    {
        match t {
            None => None,
            Some(n) => {
                if n.id == id {
                    Some(n.point)
                } else {
                    match Self::find(&n.left, !x_axis, id) {
                        Some(p) => Some(p),
                        None => Self::find(&n.right, !x_axis, id),
                    }
                }
            },
        }
    }
}

/// A spatial index over the control points of one glyph: a two-dimensional
/// k-d tree that splits on `x` at the root and changes the axis with each
/// level. Its view is the map from each identifier it holds to the point
/// stored for it.
pub struct KdTree {
    root: Option<Box<KdNode>>,
}

impl View for KdTree {
    type V = Map<PointId, IPoint>;

    closed spec fn view(&self) -> Map<PointId, IPoint> {
        KdNode::entries(self.root)
    }
}

impl KdTree {
    #[verifier::type_invariant]
    spec fn well_formed(self) -> bool {
        KdNode::ordered(self.root, true)
    }

    /// An index that holds nothing.
    pub fn new() -> (tree: Self)
        ensures
            tree@ == Map::<PointId, IPoint>::empty(),
    {
        KdTree { root: None }
    }

    /// Whether the index holds nothing.
    pub fn is_empty(&self) -> (empty: bool)
        ensures
            empty == (self@ == Map::<PointId, IPoint>::empty()),
    {
        match &self.root {
            None => true,
            Some(n) => {
                assert(self@.contains_key(n.id));
                false
            },
        }
    }

    /// Forgets every entry.
    pub fn clear(&mut self)
        ensures
            final(self)@ == Map::<PointId, IPoint>::empty(),
    {
        self.root = None;
    }

    /// The point stored for `id`, found by walking the whole tree: the tree
    /// is ordered by coordinate, not by identifier.
    pub fn get(&self, id: PointId) -> (found: Option<IPoint>)
        ensures
            found == (if self@.contains_key(id) {
                Some(self@[id])
            } else {
                None
            }),
    {
        proof {
            use_type_invariant(&*self);
        }
        KdNode::find(&self.root, true, id)
    }

    /// Whether `id` is stored, found as `get` finds it.
    pub fn contains_id(&self, id: PointId) -> (present: bool)
        ensures
            present == self@.contains_key(id),
    {
        self.get(id).is_some()
    }

    /// The number of nodes on the longest way from the root down: what a
    /// search that follows one branch visits at most.
    pub closed spec fn height(&self) -> nat {
        KdNode::height(self.root)
    }

    /// Every node stands at the median of the entries below it: half of
    /// them, rounded down, are on its left, and fewer only where an entry
    /// on its right has the node's own coordinate on the axis on which the
    /// node splits.
    pub closed spec fn is_median_split(&self) -> bool {
        KdNode::ordered(self.root, true) && KdNode::halved(self.root, true)
    }

    /// Lays the index out anew with every node at the median of the entries
    /// below it. It holds what it held; and where no two entries agree in a
    /// coordinate it is as shallow as an index of its size can be.
    pub fn rebalance(&mut self)
        ensures
            final(self)@ == old(self)@,
            final(self).is_median_split(),
            old(self)@.dom().finite(),
            old(self)@.len() == 0 ==> final(self).height() == 0,
            coordinates_differ(old(self)@) && old(self)@.len() >= 1 ==> pow2(final(self).height())
                <= 2 * old(self)@.len(),
    {
        let listing = self.entries();
        self.root = KdNode::build(listing, true, Ghost(self@));
        proof {
            lemma_median_split_is_shallow(*self);
        }
    }

    /// Adds the entry `(id, point)` unless `id` is stored already, and says
    /// whether it did.
    pub fn try_insert(&mut self, id: PointId, point: IPoint) -> (added: bool)
        ensures
            added == !old(self)@.contains_key(id),
            added ==> final(self)@ == old(self)@.insert(id, point),
            !added ==> final(self)@ == old(self)@,
    {
        if self.contains_id(id) {
            false
        } else {
            self.insert(id, point);
            true
        }
    }

    /// Adds the entry `(id, point)`. An identifier is stored once: a caller
    /// that cannot rule out that `id` is present asks `contains_id` first.
    pub fn insert(&mut self, id: PointId, point: IPoint)
        requires
            !old(self)@.contains_key(id),
        ensures
            final(self)@ == old(self)@.insert(id, point),
    {
        proof {
            use_type_invariant(&*self);
        }
        let mut root = None;
        std::mem::swap(&mut root, &mut self.root);
        KdNode::insert_into(&mut root, id, point, true);
        self.root = root;
    }

    /// Removes the entry of `id` if it is stored at `point`, the coordinate
    /// it was inserted with, and says whether it was.
    pub fn remove(&mut self, id: PointId, point: IPoint) -> (found: bool)
        ensures
            found == (old(self)@.contains_key(id) && old(self)@[id] == point),
            found ==> final(self)@ == old(self)@.remove(id),
            !found ==> final(self)@ == old(self)@,
    {
        proof {
            use_type_invariant(&*self);
        }
        let mut root = None;
        std::mem::swap(&mut root, &mut self.root);
        let found = KdNode::remove_from(&mut root, id, point, true);
        self.root = root;
        found
    }

    /// Every entry, each once.
    pub fn entries(&self) -> (listing: Vec<(PointId, IPoint)>)
        ensures
            lists_entries(listing@, self@),
    {
        proof {
            use_type_invariant(&*self);
        }
        let mut listing: Vec<(PointId, IPoint)> = Vec::new();
        assert(lists_entries(listing@, Map::empty()));
        KdNode::collect(&self.root, true, &mut listing, Ghost(Map::empty()));
        assert(Map::<PointId, IPoint>::empty().union_prefer_right(self@) =~= self@);
        listing
    }

    /// The identifiers of the points within `radius` of `center`, each once.
    /// The disc is closed; a negative radius finds nothing.
    pub fn query_radius(&self, center: IPoint, radius: i64) -> (hits: Vec<PointId>)
        ensures
            hits@.no_duplicates(),
            hits@.to_set() == radius_hits(self@, center, radius as int),
            radius == 0 ==> forall|id: PointId|
                hits@.contains(id) <==> self@.contains_key(id) && self@[id] == center,
    {
        proof {
            use_type_invariant(&*self);
        }
        let mut hits: Vec<PointId> = Vec::new();
        if radius >= 0 {
            let region = Region {
                lo: IPoint { x: sub_clamped(center.x, radius), y: sub_clamped(center.y, radius) },
                hi: IPoint { x: add_clamped(center.x, radius), y: add_clamped(center.y, radius) },
                disc: Some((center, radius)),
            };
            KdNode::search(&self.root, &region, true, &mut hits);
            proof {
                assert forall|id: PointId| self@.contains_key(id) implies region.holds(self@[id])
                    == within_radius(self@[id], center, radius as int) by {
                    let p = self@[id];
                    if within_radius(p, center, radius as int) {
                        if p.x < region.lo.x || p.x > region.hi.x {
                            lemma_far_on_axis_is_outside(p, center, radius as int, true);
                        }
                        if p.y < region.lo.y || p.y > region.hi.y {
                            lemma_far_on_axis_is_outside(p, center, radius as int, false);
                        }
                    }
                }
            }
        }
        assert(hits@.to_set() =~= radius_hits(self@, center, radius as int));
        proof {
            if radius == 0 {
                assert forall|id: PointId|
                    hits@.contains(id) <==> self@.contains_key(id) && self@[id] == center by {
                    assert(hits@.contains(id) == hits@.to_set().contains(id));
                    if self@.contains_key(id) {
                        lemma_zero_radius_is_the_centre(self@[id], center);
                    }
                }
            }
        }
        hits
    }

    /// The identifiers of the points in the rectangle spanned by the corners
    /// `a` and `b`, borders included, each once.
    pub fn query_rectangle(&self, a: IPoint, b: IPoint) -> (hits: Vec<PointId>)
        ensures
            hits@.no_duplicates(),
            hits@.to_set() == rectangle_hits(self@, a, b),
    {
        proof {
            use_type_invariant(&*self);
        }
        let (lo_x, hi_x) = if a.x <= b.x {
            (a.x, b.x)
        } else {
            (b.x, a.x)
        };
        let (lo_y, hi_y) = if a.y <= b.y {
            (a.y, b.y)
        } else {
            (b.y, a.y)
        };
        let region = Region {
            lo: IPoint { x: lo_x, y: lo_y },
            hi: IPoint { x: hi_x, y: hi_y },
            disc: None,
        };
        let mut hits: Vec<PointId> = Vec::new();
        KdNode::search(&self.root, &region, true, &mut hits);
        assert(hits@.to_set() =~= rectangle_hits(self@, a, b));
        hits
    }
}

/// No two entries agree in a coordinate.
pub open spec fn coordinates_differ(entries: Map<PointId, IPoint>) -> bool {
    forall|a: PointId, b: PointId|
        #[trigger] entries.contains_key(a) && #[trigger] entries.contains_key(b) && a != b
            ==> entries[a].x != entries[b].x && entries[a].y != entries[b].y
}

/// An index whose nodes stand at the medians holds finitely many entries,
/// and where no two of them agree in a coordinate it is as shallow as an
/// index of its size can be: twice its size is no less than two to the
/// power of its height.
pub proof fn lemma_median_split_is_shallow(tree: KdTree)
    requires
        tree.is_median_split(),
    ensures
        tree@.dom().finite(),
        tree@.len() == 0 ==> tree.height() == 0,
        coordinates_differ(tree@) && tree@.len() >= 1 ==> pow2(tree.height()) <= 2 * tree@.len(),
{
    KdNode::lemma_count_is_len(tree.root, true);
    if coordinates_differ(tree@) {
        KdNode::lemma_halved_is_shallow(tree.root, true);
    }
    if tree@.len() == 0 {
        assert(KdNode::count(tree.root) == 0);
        assert(tree.root is None);
    }
}

/// A disc of radius 0 around the point stored for a live identifier holds
/// that identifier and those stored at the very same point, and no other;
/// where no other entry shares the point, it holds that identifier alone.
pub proof fn lemma_zero_radius_finds_the_point(entries: Map<PointId, IPoint>, id: PointId)
    requires
        entries.contains_key(id),
    ensures
        radius_hits(entries, entries[id], 0).contains(id),
        forall|other: PointId|
            radius_hits(entries, entries[id], 0).contains(other) <==> entries.contains_key(other)
                && entries[other] == entries[id],
        (forall|other: PointId|
            entries.contains_key(other) && other != id ==> entries[other] != entries[id])
            ==> radius_hits(entries, entries[id], 0) == set![id],
{
    let center = entries[id];
    assert forall|other: PointId| entries.contains_key(other) implies (within_radius(
        entries[other],
        center,
        0,
    ) <==> entries[other] == center) by {
        lemma_zero_radius_is_the_centre(entries[other], center);
    }
    if forall|other: PointId|
        entries.contains_key(other) && other != id ==> entries[other] != entries[id] {
        assert(radius_hits(entries, center, 0) =~= set![id]);
    }
}

/// A rectangle holds the same points whichever of its two corners is named
/// first.
pub proof fn lemma_rectangle_corners_commute(entries: Map<PointId, IPoint>, a: IPoint, b: IPoint)
    ensures
        rectangle_hits(entries, a, b) == rectangle_hits(entries, b, a),
{
    assert(rectangle_hits(entries, a, b) =~= rectangle_hits(entries, b, a));
}

/// An entry taken out and stored again at the same point leaves the index as
/// it was: every query answers as before.
pub proof fn lemma_remove_then_insert_restores(entries: Map<PointId, IPoint>, id: PointId)
    requires
        entries.contains_key(id),
    ensures
        entries.remove(id).insert(id, entries[id]) == entries,
{
    assert(entries.remove(id).insert(id, entries[id]) =~= entries);
}

} // verus!
