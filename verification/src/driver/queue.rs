//! Queues of operations.
use vstd::prelude::*;

use std::collections::VecDeque;

use crate::driver::{has_key, OpObject};

verus! {

/// `i` is the first place in the queue that holds an operation with this user data.
pub open spec fn is_first<'arena, O>(ops: Seq<OpObject<'arena, O>>, user_data: usize, i: int) -> bool {
    &&& 0 <= i < ops.len()
    &&& ops[i].user_data == user_data
    &&& forall|j: int| 0 <= j < i ==> (#[trigger] ops[j]).user_data != user_data
}

/// The queue after the first operation with this user data, if there is one, has left it.
pub open spec fn without<'arena, O>(
    ops: Seq<OpObject<'arena, O>>,
    user_data: usize,
) -> Seq<OpObject<'arena, O>> {
    if exists|i: int| is_first(ops, user_data, i) {
        ops.remove(choose|i: int| is_first(ops, user_data, i))
    } else {
        ops
    }
}

/// Where the user data does not occur twice, no operation with it is left, and every other one is.
pub proof fn lemma_without<'arena, O>(ops: Seq<OpObject<'arena, O>>, user_data: usize)
    ensures
        forall|i: int|
            0 <= i < without(ops, user_data).len() ==> ops.contains(
                #[trigger] without(ops, user_data)[i],
            ),
        forall|i: int|
            0 <= i < ops.len() && (#[trigger] ops[i]).user_data != user_data ==> without(
                ops,
                user_data,
            ).contains(ops[i]),
        (forall|i: int, j: int|
            0 <= i < j < ops.len() ==> (#[trigger] ops[i]).user_data != (#[trigger] ops[j]).user_data)
            ==> forall|i: int|
            0 <= i < without(ops, user_data).len() ==> (#[trigger] without(
                ops,
                user_data,
            )[i]).user_data != user_data,
        forall|u: usize| #[trigger]
            has_key(ops, u) == (has_key(without(ops, user_data), u) || (u == user_data && has_key(
                ops,
                user_data,
            ))),
{
    let left = without(ops, user_data);
    if exists|i: int| is_first(ops, user_data, i) {
        let p = choose|i: int| is_first(ops, user_data, i);
        assert forall|i: int| 0 <= i < left.len() implies ops.contains(#[trigger] left[i]) by {
            if i < p {
                assert(left[i] == ops[i]);
            } else {
                assert(left[i] == ops[i + 1]);
            }
        }
        assert forall|i: int|
            0 <= i < ops.len() && (#[trigger] ops[i]).user_data != user_data implies left.contains(
            ops[i],
        ) by {
            if i < p {
                assert(left[i] == ops[i]);
            } else {
                assert(left[i - 1] == ops[i]);
            }
        }
        assert forall|u: usize| #[trigger]
            has_key(ops, u) == (has_key(left, u) || (u == user_data && has_key(ops, user_data))) by {
            assert(ops[p].user_data == user_data);
            if has_key(ops, u) && u != user_data {
                let i = choose|i: int| 0 <= i < ops.len() && (#[trigger] ops[i]).user_data == u;
                let j = choose|j: int| 0 <= j < left.len() && left[j] == ops[i];
                assert(left[j].user_data == u);
            }
            if has_key(left, u) {
                let j = choose|j: int| 0 <= j < left.len() && (#[trigger] left[j]).user_data == u;
                assert(ops.contains(left[j]));
                let i = choose|i: int| 0 <= i < ops.len() && ops[i] == left[j];
                assert(ops[i].user_data == u);
            }
        }
    } else {
        assert forall|i: int| 0 <= i < ops.len() implies (#[trigger] ops[i]).user_data != user_data by {
            if ops[i].user_data == user_data {
                lemma_first_exists(ops, user_data, i);
            }
        }
    }
}

/// The user data of a queue that gets one more operation.
pub proof fn lemma_has_key_push<'arena, O>(ops: Seq<OpObject<'arena, O>>, op: OpObject<'arena, O>)
    ensures
        forall|u: usize| #[trigger]
            has_key(ops.push(op), u) == (has_key(ops, u) || u == op.user_data),
{
    let more = ops.push(op);
    assert(more[ops.len() as int].user_data == op.user_data);
    assert forall|u: usize| has_key(ops, u) implies #[trigger] has_key(more, u) by {
        let i = choose|i: int| 0 <= i < ops.len() && (#[trigger] ops[i]).user_data == u;
        assert(more[i].user_data == u);
    }
}

/// The user data of two queues, one behind the other.
pub proof fn lemma_has_key_add<'arena, O>(a: Seq<OpObject<'arena, O>>, b: Seq<OpObject<'arena, O>>)
    ensures
        forall|u: usize| #[trigger] has_key(a + b, u) == (has_key(a, u) || has_key(b, u)),
{
    assert forall|u: usize| #[trigger] has_key(a + b, u) == (has_key(a, u) || has_key(b, u)) by {
        if has_key(a, u) {
            let i = choose|i: int| 0 <= i < a.len() && (#[trigger] a[i]).user_data == u;
            assert((a + b)[i].user_data == u);
        }
        if has_key(b, u) {
            let i = choose|i: int| 0 <= i < b.len() && (#[trigger] b[i]).user_data == u;
            assert((a + b)[a.len() + i].user_data == u);
        }
    }
}

/// Where there is an operation with the user data, there is a first one.
pub proof fn lemma_first_exists<'arena, O>(ops: Seq<OpObject<'arena, O>>, user_data: usize, i: int)
    requires
        0 <= i < ops.len(),
        ops[i].user_data == user_data,
    ensures
        exists|j: int| is_first(ops, user_data, j),
    decreases i,
{
    if forall|j: int| 0 <= j < i ==> (#[trigger] ops[j]).user_data != user_data {
        assert(is_first(ops, user_data, i));
    } else {
        let j = choose|j: int| 0 <= j < i && (#[trigger] ops[j]).user_data == user_data;
        lemma_first_exists(ops, user_data, j);
    }
}

/// Takes the first operation with the user data out of the queue, and tells whether there was one.
pub fn remove_first<'arena, O>(queue: &mut VecDeque<OpObject<'arena, O>>, user_data: usize) -> (found: bool)
    ensures
        final(queue)@ == without(old(queue)@, user_data),
        found == has_key(old(queue)@, user_data),
        forall|i: int| #[trigger]
            is_first(old(queue)@, user_data, i) ==> *final(old(queue)@[i].op) == old(queue)@[i].code(),
{
    let mut i: usize = 0;
    while i < queue.len()
        invariant
            i <= queue@.len(),
            queue@ == old(queue)@,
            forall|j: int| 0 <= j < i ==> (#[trigger] queue@[j]).user_data != user_data,
        decreases queue@.len() - i,
    {
        if queue[i].user_data() == user_data {
            proof {
                assert(is_first(queue@, user_data, i as int));
                let p = choose|p: int| is_first(queue@, user_data, p);
                assert(p == i) by {
                    if p < i {
                        assert(queue@[p].user_data != user_data);
                    } else if i < p {
                        assert(queue@[i as int].user_data != user_data);
                    }
                }
            }
            let removed = queue.remove(i);
            proof {
                assert(removed == Some(old(queue)@[i as int]));
                assert forall|j: int| #[trigger] is_first(old(queue)@, user_data, j) implies j == i by {
                    if j < i {
                        assert(old(queue)@[j].user_data != user_data);
                    } else if i < j {
                        assert(old(queue)@[i as int].user_data != user_data);
                    }
                }
            }
            return true;
        }
        i += 1;
    }
    proof {
        assert forall|j: int| !(#[trigger] is_first(old(queue)@, user_data, j)) by {
            if is_first(old(queue)@, user_data, j) {
                assert(queue@[j].user_data != user_data);
            }
        }
    }
    false
}

/// Moves the first `count` operations of one queue to the back of another, in their order.
pub fn move_front<'arena, O>(
    from: &mut VecDeque<OpObject<'arena, O>>,
    to: &mut VecDeque<OpObject<'arena, O>>,
    count: usize,
)
    requires
        count <= old(from)@.len(),
    ensures
        final(to)@ == old(to)@ + old(from)@.take(count as int),
        final(from)@ == old(from)@.skip(count as int),
{
    let mut moved: usize = 0;
    proof {
        assert(old(from)@.skip(0) =~= old(from)@);
        assert(old(to)@ + old(from)@.take(0) =~= old(to)@);
    }
    while moved < count
        invariant
            moved <= count <= old(from)@.len(),
            to@ == old(to)@ + old(from)@.take(moved as int),
            from@ == old(from)@.skip(moved as int),
        decreases count - moved,
    {
        let op = from.pop_front().unwrap();
        to.push_back(op);
        proof {
            assert(from@ =~= old(from)@.skip(moved + 1));
            assert(to@ =~= old(to)@ + old(from)@.take(moved + 1));
        }
        moved += 1;
    }
}

/// The item at a place of a queue, to be changed: `VecDeque::get_mut` of the standard library. Where the
/// place exists, the item there is the one that is handed out, and what it becomes is what the queue then
/// holds there; all the other items stay.
#[verifier::external_body]
pub(crate) fn get_mut<T>(queue: &mut VecDeque<T>, index: usize) -> (item: Option<&mut T>)
    ensures
        match item {
            Some(item) => {
                &&& index < old(queue)@.len()
                &&& *item == old(queue)@[index as int]
                &&& final(queue)@ == old(queue)@.update(index as int, *final(item))
            },
            None => index >= old(queue)@.len() && final(queue)@ == old(queue)@,
        },
{
    queue.get_mut(index)
}

/// The operations that are moved keep their order, behind those that are there, and the others stay.
pub proof fn law_moved_in_their_order<'arena, O>(
    source: Seq<OpObject<'arena, O>>,
    target: Seq<OpObject<'arena, O>>,
    count: usize,
)
    requires
        count <= source.len(),
    ensures
        forall|from: &mut VecDeque<OpObject<'arena, O>>, to: &mut VecDeque<OpObject<'arena, O>>|
            from@ == source && to@ == target && #[trigger] call_ensures(move_front::<O>, (from, to, count), ()) ==> {
                let (left, moved) = (final(from)@, final(to)@);
                &&& moved.len() == target.len() + count
                &&& left.len() == source.len() - count
                &&& forall|i: int| 0 <= i < target.len() ==> #[trigger] moved[i] == target[i]
                &&& forall|i: int| 0 <= i < count ==> moved[target.len() + i] == #[trigger] source[i]
                &&& forall|i: int| 0 <= i < left.len() ==> #[trigger] left[i] == source[count + i]
            },
{
}

/// Of the operations with the user data the first one is taken out, and no other.
pub proof fn law_first_one_is_taken_out<'arena, O>(
    before: Seq<OpObject<'arena, O>>,
    user_data: usize,
    first: int,
)
    requires
        0 <= first <= before.len(),
        forall|i: int| 0 <= i < first ==> (#[trigger] before[i]).user_data != user_data,
        first < before.len() ==> before[first].user_data == user_data,
    ensures
        forall|queue: &mut VecDeque<OpObject<'arena, O>>, found: bool|
            queue@ == before && #[trigger] call_ensures(remove_first::<O>, (queue, user_data), found) ==> {
                &&& found <==> first < before.len()
                &&& found ==> final(queue)@ == before.remove(first)
                &&& !found ==> final(queue)@ == before
            },
{
    if first < before.len() {
        assert(is_first(before, user_data, first));
        let other = choose|i: int| is_first(before, user_data, i);
        assert(is_first(before, user_data, other));
        assert(other == first) by {
            if other < first {
                assert(before[other].user_data != user_data);
            }
        }
        assert(has_key(before, user_data));
    } else {
        assert forall|i: int| !is_first(before, user_data, i) by {
            if is_first(before, user_data, i) {
                assert(before[i].user_data != user_data);
            }
        }
        assert(!has_key(before, user_data));
    }
}

} // verus!
