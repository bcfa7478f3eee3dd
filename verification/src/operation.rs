//! What every operation on the device has in common: it asks for one access
//! at a time and goes on with the reply, until it is over.

use vstd::prelude::*;
use crate::bus::{ReplyView, StepView};
use crate::error::Error;

verus! {

/// An operation on the device, as a value.
pub trait Operation: Sized {
    /// What the operation returns when it succeeds.
    type Output;

    /// Whether the operation is in a state that it can reach.
    spec fn wf(self) -> bool;

    /// Where the operation stands: the access that is due, or its result.
    spec fn next(self) -> StepView<Self::Output>;

    /// Whether `reply` can answer the access that is due.
    spec fn accepts(self, reply: ReplyView) -> bool;

    /// The operation after `reply` has answered the access that was due.
    spec fn supply(self, reply: ReplyView) -> Self;

    /// What an operation accepts answers an access that is due, and leaves
    /// the operation well formed.
    proof fn lemma_stays_well_formed(self, reply: ReplyView)
        requires
            self.wf(),
            self.accepts(reply),
        ensures
            self.next() is Issue,
            self.supply(reply).wf(),
    ;

    /// An operation that is over stays as it is, whatever it is told.
    proof fn lemma_finished_is_final(self, reply: ReplyView)
        requires
            self.next() is Done,
        ensures
            self.supply(reply) == self,
    ;

    /// Any access may fail, and when one does, the operation ends at once
    /// with the failure.
    proof fn lemma_stops_on_failure(self, kind: std::io::ErrorKind)
        requires
            self.next() is Issue,
        ensures
            self.accepts(ReplyView::Failed(kind)),
            self.supply(ReplyView::Failed(kind)).next() == StepView::<Self::Output>::Done(
                Err(Error::Io(kind)),
            ),
    ;
}

/// The operation after `replies` have answered its accesses one by one.
pub open spec fn run<M: Operation>(start: M, replies: Seq<ReplyView>) -> M
    decreases replies.len(),
{
    if replies.len() == 0 {
        start
    } else {
        run(start, replies.drop_last()).supply(replies.last())
    }
}

/// The steps that the operation takes while `replies` answer its accesses one
/// by one: where it stands at first, and after each reply.
pub open spec fn trace<M: Operation>(start: M, replies: Seq<ReplyView>) -> Seq<
    StepView<M::Output>,
> {
    Seq::new(replies.len() + 1, |i: int| run(start, replies.take(i)).next())
}

/// Whether the operation accepts each of `replies` when its turn comes.
pub open spec fn takes<M: Operation>(start: M, replies: Seq<ReplyView>) -> bool {
    forall|i: int|
        0 <= i < replies.len() ==> (#[trigger] run(start, replies.take(i))).accepts(replies[i])
}

/// One more reply takes the operation one step further.
pub proof fn lemma_run_next<M: Operation>(start: M, replies: Seq<ReplyView>, count: int)
    requires
        0 <= count < replies.len(),
    ensures
        run(start, replies.take(count + 1)) == run(start, replies.take(count)).supply(
            replies[count],
        ),
{
    assert(replies.take(count + 1).drop_last() =~= replies.take(count));
}

/// Replies that come after others take the operation on from where the others
/// left it.
pub proof fn lemma_run_append<M: Operation>(
    start: M,
    first: Seq<ReplyView>,
    second: Seq<ReplyView>,
)
    ensures
        run(start, first + second) == run(run(start, first), second),
    decreases second.len(),
{
    if second.len() == 0 {
        assert(first + second =~= first);
    } else {
        lemma_run_append(start, first, second.drop_last());
        assert((first + second).drop_last() =~= first + second.drop_last());
    }
}

/// The steps of a run are the steps up to any point in it, and then the steps
/// from where the operation stands at that point. The replies are accepted
/// throughout if they are accepted up to that point and from it on.
pub proof fn lemma_trace_append<M: Operation>(
    start: M,
    first: Seq<ReplyView>,
    second: Seq<ReplyView>,
)
    ensures
        trace(start, first + second) == trace(start, first).drop_last() + trace(
            run(start, first),
            second,
        ),
        takes(start, first) && takes(run(start, first), second) ==> takes(start, first + second),
{
    let whole = first + second;
    let middle = run(start, first);
    assert forall|i: int| 0 <= i <= whole.len() implies run(start, whole.take(i)) == if i
        < first.len() {
        run(start, first.take(i))
    } else {
        run(middle, second.take(i - first.len()))
    } by {
        if i < first.len() {
            assert(whole.take(i) =~= first.take(i));
        } else {
            assert(whole.take(i) =~= first + second.take(i - first.len()));
            lemma_run_append(start, first, second.take(i - first.len()));
        }
    }
    assert(trace(start, whole) =~= trace(start, first).drop_last() + trace(middle, second));
    if takes(start, first) && takes(middle, second) {
        assert forall|i: int| 0 <= i < whole.len() implies (#[trigger] run(
            start,
            whole.take(i),
        )).accepts(whole[i]) by {
            if i < first.len() {
                assert(run(start, first.take(i)).accepts(first[i]));
            } else {
                assert(run(middle, second.take(i - first.len())).accepts(second[i - first.len()]));
            }
        }
    }
}

/// An operation that is well formed stays so through every run that it
/// accepts.
pub proof fn lemma_run_stays_well_formed<M: Operation>(start: M, replies: Seq<ReplyView>)
    requires
        start.wf(),
        takes(start, replies),
    ensures
        run(start, replies).wf(),
    decreases replies.len(),
{
    if replies.len() > 0 {
        let before = replies.drop_last();
        assert forall|i: int| 0 <= i < before.len() implies (#[trigger] run(
            start,
            before.take(i),
        )).accepts(before[i]) by {
            assert(before.take(i) =~= replies.take(i));
        }
        lemma_run_stays_well_formed(start, before);
        assert(replies.take(replies.len() - 1) =~= before);
        run(start, before).lemma_stays_well_formed(replies.last());
    }
}

/// Once an operation is over, no reply changes it: its result stands.
pub proof fn lemma_result_stands<M: Operation>(start: M, replies: Seq<ReplyView>)
    requires
        start.next() is Done,
    ensures
        run(start, replies) == start,
    decreases replies.len(),
{
    if replies.len() > 0 {
        lemma_result_stands(start, replies.drop_last());
        start.lemma_finished_is_final(replies.last());
    }
}

} // verus!
