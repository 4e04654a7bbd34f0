//! The deletion of all pods of the OPA resource.
use crate::action::ReconcileFunctionAction;
use crate::state::OpaState;
use vstd::prelude::*;

verus! {

/// What is to be done next for the deletion of all pods. `E` is the error of the operator
/// framework.
pub enum Deletion<'a, P, E> {
    /// Delete a pod.
    Delete(DeletePod<'a, P>),
    /// Nothing: this is what came of it.
    Finish(Result<ReconcileFunctionAction, E>),
}

/// [`Deletion`] as a mathematical value.
pub ghost enum DeletionView<P, E> {
    /// The pods still to be deleted, beginning with the one that is deleted now.
    Delete(Seq<P>),
    Finish(Result<ReconcileFunctionAction, E>),
}

impl<'a, P, E> View for Deletion<'a, P, E> {
    type V = DeletionView<P, E>;

    open spec fn view(&self) -> DeletionView<P, E> {
        match *self {
            Deletion::Delete(step) => DeletionView::Delete(step@),
            Deletion::Finish(result) => DeletionView::Finish(result),
        }
    }
}

/// The step that deletes a pod.
pub struct DeletePod<'a, P> {
    pods: &'a Vec<P>,
    at: usize,
}

impl<'a, P> View for DeletePod<'a, P> {
    type V = Seq<P>;

    /// The pods still to be deleted, beginning with the one that is deleted now.
    closed spec fn view(&self) -> Seq<P> {
        self.pods@.skip(self.at as int)
    }
}

/// The step for the pods `pods` that are still to be deleted.
pub open spec fn deletion<P, E>(pods: Seq<P>) -> DeletionView<P, E> {
    if pods.len() == 0 {
        DeletionView::Finish(Ok(ReconcileFunctionAction::Done))
    } else {
        DeletionView::Delete(pods)
    }
}

/// The step after the first of `pods` was deleted, or could not be.
pub open spec fn after_deletion<P, E>(pods: Seq<P>, deleted: Result<(), E>) -> DeletionView<P, E> {
    match deleted {
        Ok(_) => deletion(pods.drop_first()),
        Err(source) => DeletionView::Finish(Err(source)),
    }
}

impl<P, N, C> OpaState<P, N, C> {
    /// Begins the deletion of all pods of the resource.
    pub fn delete_all_pods<'a, E>(&'a self) -> (res: Deletion<'a, P, E>)
        ensures
            res@ == deletion::<P, E>(self.existing_pods@),
    {
        delete_pods(&self.existing_pods)
    }
}

/// Begins the deletion of `pods`.
pub fn delete_pods<'a, P, E>(pods: &'a Vec<P>) -> (res: Deletion<'a, P, E>)
    ensures
        res@ == deletion::<P, E>(pods@),
{
    assert(pods@.skip(0) =~= pods@);
    delete_from(pods, 0)
}

/// The step for the pods from the one at `at` on.
fn delete_from<'a, P, E>(pods: &'a Vec<P>, at: usize) -> (res: Deletion<'a, P, E>)
    requires
        at <= pods@.len(),
    ensures
        res@ == deletion::<P, E>(pods@.skip(at as int)),
{
    if at < pods.len() {
        Deletion::Delete(DeletePod { pods, at })
    } else {
        Deletion::Finish(Ok(ReconcileFunctionAction::Done))
    }
}

impl<'a, P> DeletePod<'a, P> {
    #[verifier::type_invariant]
    spec fn well_formed(self) -> bool {
        self.at < self.pods@.len()
    }

    /// The pod to delete.
    pub fn pod(&self) -> (res: &'a P)
        ensures
            self@.len() > 0,
            *res == self@[0],
    {
        proof {
            use_type_invariant(self);
        }
        &self.pods[self.at]
    }

    /// Goes on when the pod is deleted, or could not be.
    pub fn answer<E>(self, deleted: Result<(), E>) -> (res: Deletion<'a, P, E>)
        ensures
            res@ == after_deletion::<P, E>(self@, deleted),
    {
        proof {
            use_type_invariant(&self);
        }
        match deleted {
            Ok(_) => {
                assert(self.at < self.pods.len());
                assert(self@.drop_first() =~= self.pods@.skip(self.at + 1));
                delete_from(self.pods, self.at + 1)
            },
            Err(source) => Deletion::Finish(Err(source)),
        }
    }
}

/// What comes of a deletion: the pods that were asked to go, in order, and how the
/// reconciliation goes on.
pub ghost struct Deleted<P, E> {
    pub asked: Seq<P>,
    pub result: Result<ReconcileFunctionAction, E>,
}

/// What comes of a deletion from `step` on, where `answers` tells for each of the pods, counted
/// from `from` on, whether it could be deleted.
pub open spec fn run<P, E>(
    step: DeletionView<P, E>,
    answers: spec_fn(int) -> Result<(), E>,
    from: int,
) -> Deleted<P, E>
    decreases
            (match step {
                DeletionView::Delete(pods) => pods.len() + 1,
                DeletionView::Finish(_) => 0,
            }),
{
    match step {
        DeletionView::Finish(result) => Deleted { asked: seq![], result },
        DeletionView::Delete(pods) => if pods.len() == 0 {
            Deleted { asked: seq![], result: Ok(ReconcileFunctionAction::Done) }
        } else {
            let rest = run(after_deletion(pods, answers(from)), answers, from + 1);
            Deleted { asked: seq![pods[0]] + rest.asked, result: rest.result }
        },
    }
}

/// Where every pod can be deleted, all pods of the resource are, each once and in order, and the
/// reconciliation is done.
pub proof fn deletion_reaches_all_pods<P, N, C, E>(
    state: OpaState<P, N, C>,
    answers: spec_fn(int) -> Result<(), E>,
)
    requires
        forall|i: int| 0 <= i < state.existing_pods@.len() ==> #[trigger] answers(i) is Ok,
    ensures
        run(deletion::<P, E>(state.existing_pods@), answers, 0) == (Deleted::<P, E> {
            asked: state.existing_pods@,
            result: Ok(ReconcileFunctionAction::Done),
        }),
{
    lemma_deletion_all(state.existing_pods@, answers, 0);
}

proof fn lemma_deletion_all<P, E>(
    pods: Seq<P>,
    answers: spec_fn(int) -> Result<(), E>,
    from: int,
)
    requires
        forall|i: int| from <= i < from + pods.len() ==> #[trigger] answers(i) is Ok,
    ensures
        run(deletion::<P, E>(pods), answers, from) == (Deleted::<P, E> {
            asked: pods,
            result: Ok(ReconcileFunctionAction::Done),
        }),
    decreases pods.len(),
{
    if pods.len() > 0 {
        assert(answers(from) is Ok);
        lemma_deletion_all(pods.drop_first(), answers, from + 1);
        assert(seq![pods[0]] + pods.drop_first() =~= pods);
    } else {
        assert(pods =~= seq![]);
    }
}

/// The first pod that cannot be deleted ends the deletion with its error; no pod behind it is
/// asked to go.
pub proof fn deletion_stops_at_failure<P, N, C, E>(
    state: OpaState<P, N, C>,
    answers: spec_fn(int) -> Result<(), E>,
    at: int,
)
    requires
        0 <= at < state.existing_pods@.len(),
        answers(at) is Err,
        forall|i: int| 0 <= i < at ==> #[trigger] answers(i) is Ok,
    ensures
        run(deletion::<P, E>(state.existing_pods@), answers, 0) == (Deleted::<P, E> {
            asked: state.existing_pods@.take(at + 1),
            result: Err(answers(at)->Err_0),
        }),
{
    lemma_deletion_stops(state.existing_pods@, answers, 0, at);
}

proof fn lemma_deletion_stops<P, E>(
    pods: Seq<P>,
    answers: spec_fn(int) -> Result<(), E>,
    from: int,
    at: int,
)
    requires
        0 <= at < pods.len(),
        answers(from + at) is Err,
        forall|i: int| from <= i < from + at ==> #[trigger] answers(i) is Ok,
    ensures
        run(deletion::<P, E>(pods), answers, from) == (Deleted::<P, E> {
            asked: pods.take(at + 1),
            result: Err(answers(from + at)->Err_0),
        }),
    decreases at,
{
    if at == 0 {
        reveal_with_fuel(run, 2);
        assert(seq![pods[0]] + seq![] =~= pods.take(1));
    } else {
        assert(answers(from) is Ok);
        lemma_deletion_stops(pods.drop_first(), answers, from + 1, at - 1);
        assert(seq![pods[0]] + pods.drop_first().take(at) =~= pods.take(at + 1));
    }
}

/// A deletion is done exactly if no pod is left. A pod that was deleted leaves the others, in
/// their order; one that could not be deleted ends the deletion with its error.
pub proof fn deletion_goes_pod_by_pod<P, E>(pods: Seq<P>, pod: P, source: E)
    ensures
        deletion::<P, E>(seq![]) == DeletionView::<P, E>::Finish(Ok(ReconcileFunctionAction::Done)),
        pods.len() > 0 ==> deletion::<P, E>(pods) == DeletionView::<P, E>::Delete(pods),
        after_deletion::<P, E>(seq![pod] + pods, Ok(())) == if pods.len() == 0 {
            DeletionView::<P, E>::Finish(Ok(ReconcileFunctionAction::Done))
        } else {
            DeletionView::<P, E>::Delete(pods)
        },
        after_deletion::<P, E>(seq![pod] + pods, Err(source)) == DeletionView::<P, E>::Finish(
            Err(source),
        ),
{
    assert((seq![pod] + pods).drop_first() =~= pods);
}

/// A step of a deletion is seen with the pods that are left, or with what came of it.
pub proof fn deletion_shows_what_is_left<P, E>(step: Deletion<P, E>)
    ensures
        match step {
            Deletion::Delete(part) => step@ == DeletionView::<P, E>::Delete(part@),
            Deletion::Finish(result) => step@ == DeletionView::<P, E>::Finish(result),
        },
{
}

} // verus!
