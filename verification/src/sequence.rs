//! Runs of items that follow one another in the input.

use vstd::prelude::*;

use crate::error::Decoded;

verus! {

/// `count` items in a row from `pos` on, each decoded by `item` where the one
/// before it ended, appended in order to `done`. The first failure is the
/// outcome of the whole.
pub open spec fn repeat_onto<V>(
    item: spec_fn(int) -> Decoded<V>,
    pos: int,
    count: nat,
    done: Seq<V>,
) -> Decoded<Seq<V>>
    decreases count,
{
    if count == 0 {
        Ok((done, pos))
    } else {
        match item(pos) {
            Ok((value, next)) => repeat_onto(item, next, (count - 1) as nat, done.push(value)),
            Err(e) => Err(e),
        }
    }
}

/// `count` items in a row from `pos` on.
pub open spec fn repeated<V>(item: spec_fn(int) -> Decoded<V>, pos: int, count: nat) -> Decoded<Seq<V>> {
    repeat_onto(item, pos, count, Seq::empty())
}

/// Where every item ends at or behind its start and within `limit`, so does a
/// run of them.
pub proof fn lemma_repeat_advances<V>(
    item: spec_fn(int) -> Decoded<V>,
    pos: int,
    count: nat,
    done: Seq<V>,
    limit: int,
)
    requires
        pos <= limit,
        forall|p: int| #[trigger] item(p) is Ok ==> p <= item(p)->Ok_0.1 <= limit,
    ensures
        repeat_onto(item, pos, count, done) is Ok ==> pos <= repeat_onto(item, pos, count, done)->Ok_0.1
            <= limit,
    decreases count,
{
    if count > 0 {
        if let Ok((value, next)) = item(pos) {
            lemma_repeat_advances(item, next, (count - 1) as nat, done.push(value), limit);
        }
    }
}

/// The view of a vector after a push is the view before it with the view of
/// the pushed element appended.
pub proof fn lemma_deep_view_push<T: DeepView>(before: Vec<T>, after: Vec<T>, value: T)
    requires
        after@ == before@.push(value),
    ensures
        after.deep_view() == before.deep_view().push(value.deep_view()),
{
    assert(after.deep_view() =~= before.deep_view().push(value.deep_view()));
}

} // verus!
