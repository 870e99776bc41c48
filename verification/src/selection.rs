use crate::points::PointId;
use vstd::prelude::*;

verus! {

/// How a gesture changes the selection: it takes its place, is added to it,
/// or is taken from it.
#[derive(Clone, Copy, Debug, PartialEq, Eq, Structural)]
pub enum SelectionModifier {
    Replace,
    Add,
    Remove,
}

/// The selection that a gesture leaves: `before` is what was selected,
/// `picked` what the gesture names.
pub open spec fn selection_after(
    before: Set<PointId>,
    picked: Set<PointId>,
    modifier: SelectionModifier,
) -> Set<PointId> {
    match modifier {
        SelectionModifier::Replace => picked,
        SelectionModifier::Add => before.union(picked),
        SelectionModifier::Remove => before.difference(picked),
    }
}

/// Whether `id` occurs in `ids`.
pub fn contains_id(ids: &Vec<PointId>, id: PointId) -> (present: bool)
    ensures
        present == ids@.contains(id),
{
    let mut i: usize = 0;
    while i < ids.len()
        invariant
            0 <= i <= ids.len(),
            forall|j: int| 0 <= j < i ==> ids@[j] != id,
        decreases ids.len() - i,
    {
        if ids[i] == id {
            return true;
        }
        i = i + 1;
    }
    false
}

/// Appends `id` to `ids` unless it is there.
pub fn push_unique(ids: &mut Vec<PointId>, id: PointId)
    requires
        old(ids)@.no_duplicates(),
    ensures
        final(ids)@.no_duplicates(),
        forall|x: PointId| final(ids)@.contains(x) <==> old(ids)@.contains(x) || x == id,
        old(ids)@.contains(id) ==> final(ids)@ == old(ids)@,
        !old(ids)@.contains(id) ==> final(ids)@ == old(ids)@.push(id),
{
    if !contains_id(ids, id) {
        ids.push(id);
        proof {
            let before = old(ids)@;
            let after = ids@;
            assert forall|x: PointId| after.contains(x) <==> before.contains(x) || x == id by {
                if after.contains(x) {
                    let j = choose|j: int| 0 <= j < after.len() && after[j] == x;
                    if j < before.len() {
                        assert(before[j] == x);
                    }
                }
                if before.contains(x) {
                    let j = choose|j: int| 0 <= j < before.len() && before[j] == x;
                    assert(after[j] == x);
                }
                if x == id {
                    assert(after[before.len() as int] == x);
                }
            }
        }
    }
}

/// The first `i + 1` items of a list are its first `i` and item `i`.
pub proof fn lemma_take_one_more(s: Seq<PointId>, i: int)
    requires
        0 <= i < s.len(),
    ensures
        forall|x: PointId| s.take(i + 1).contains(x) <==> s.take(i).contains(x) || s[i] == x,
{
    let shorter = s.take(i);
    let longer = s.take(i + 1);
    assert forall|x: PointId| longer.contains(x) <==> shorter.contains(x) || s[i] == x by {
        if longer.contains(x) {
            let j = choose|j: int| 0 <= j < longer.len() && longer[j] == x;
            if j < i {
                assert(shorter[j] == x);
            }
        }
        if shorter.contains(x) {
            let j = choose|j: int| 0 <= j < shorter.len() && shorter[j] == x;
            assert(longer[j] == x);
        }
        if s[i] == x {
            assert(longer[i] == x);
        }
    }
}

} // verus!
