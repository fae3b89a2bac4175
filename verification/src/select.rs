//! Waiting on several tasks at once: the first that finishes is taken out and
//! the others are handed back.

use vstd::prelude::*;

verus! {

/// The tasks that are waited on, in the order in which they were given.
pub struct SelectAll<Fut> {
    pub inner: Vec<Fut>,
}

/// Starts waiting on all of `futures`.
pub fn select_all<Fut>(futures: Vec<Fut>) -> (selected: SelectAll<Fut>)
    ensures
        selected.inner@ == futures@,
{
    SelectAll { inner: futures }
}

/// What is left of `waiting` once the task at `index` has finished: the last
/// task takes its place.
pub open spec fn remaining_after<Fut>(waiting: Seq<Fut>, index: int) -> Seq<Fut> {
    waiting.update(index, waiting.last()).drop_last()
}

impl<Fut> SelectAll<Fut> {
    /// Takes out the task at `index`, which has finished, and hands back the
    /// others; nothing is left to wait on afterwards.
    pub fn finish(&mut self, index: usize) -> (rest: Vec<Fut>)
        requires
            index < old(self).inner@.len(),
        ensures
            rest@ == remaining_after(old(self).inner@, index as int),
            final(self).inner@.len() == 0,
    {
        let _finished = self.inner.swap_remove(index);
        let mut rest: Vec<Fut> = Vec::new();
        std::mem::swap(&mut rest, &mut self.inner);
        rest
    }
}

/// The tasks handed back keep their places, except that the last task
/// moves into the place of the finished one.
pub proof fn law_finish_moves_the_last_task<Fut>(waiting: Seq<Fut>, index: int, j: int)
    requires
        0 <= index < waiting.len(),
        0 <= j < waiting.len() - 1,
    ensures
        remaining_after(waiting, index).len() == waiting.len() - 1,
        j != index ==> remaining_after(waiting, index)[j] == waiting[j],
        j == index ==> remaining_after(waiting, index)[j] == waiting[waiting.len() - 1],
{
}

/// Every task but the finished one is handed back, each as often as it was
/// waited on.
pub proof fn law_finish_keeps_the_others<Fut>(waiting: Seq<Fut>, index: int)
    requires
        0 <= index < waiting.len(),
    ensures
        remaining_after(waiting, index).to_multiset() == waiting.to_multiset().remove(
            waiting[index],
        ),
        remaining_after(waiting, index).len() == waiting.len() - 1,
{
    broadcast use vstd::seq_lib::group_to_multiset_ensures, vstd::multiset::group_multiset_axioms;

    let u = waiting.update(index, waiting.last());
    let rest = u.drop_last();
    assert(u =~= rest.push(waiting.last()));
    assert(rest.push(waiting.last()).to_multiset() == rest.to_multiset().insert(waiting.last()));
    assert(u.to_multiset() == waiting.to_multiset().insert(waiting.last()).remove(waiting[index]));
    assert(waiting.to_multiset().count(waiting[index]) > 0);
    let a = waiting[index];
    let l = waiting.last();
    let w = waiting.to_multiset();
    assert forall|x: Fut| rest.to_multiset().count(x) == w.remove(a).count(x) by {
        assert(u.to_multiset().count(x) == rest.to_multiset().insert(l).count(x));
        assert(u.to_multiset().count(x) == w.insert(l).remove(a).count(x));
        assert(rest.to_multiset().insert(l).count(x) == rest.to_multiset().count(x) + (if x == l {
            1int
        } else {
            0int
        }));
        assert(w.insert(l).count(x) == w.count(x) + (if x == l {
            1int
        } else {
            0int
        }));
    }
    assert(rest.to_multiset() =~= w.remove(a));
}

} // verus!
