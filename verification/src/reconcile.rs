//! The parts of a reconciliation and their order.
use crate::action::{ContinuationStrategy, ReconcileFunctionAction};
use crate::error::{Error, ErrorView};
use crate::groups::RoleGroups;
use crate::state::OpaState;
use crate::string_map::StringMap;
use vstd::prelude::*;

verus! {

/// The finalizer by which the operator keeps the OPA resource until its pods are gone.
pub const FINALIZER_NAME: &'static str = "opa.stackable.tech/cleanup";

/// What is to be done next in a reconciliation. `E` is the error of the operator framework; the
/// other types are those of [`OpaState`].
pub enum Reconciliation<'a, P, N, E> {
    /// If the resource is to be deleted, delete all of `pods`.
    HandleDeletion { pods: &'a Vec<P>, finalizer_name: &'static str, requeue_if_changed: bool },
    /// Delete those of `pods` that lack a required label.
    DeleteIllegalPods {
        pods: &'a Vec<P>,
        required_labels: StringMap<Option<Vec<String>>>,
        strategy: ContinuationStrategy,
    },
    /// Wait for those of `pods` that are being deleted.
    WaitForTerminatingPods { pods: &'a Vec<P> },
    /// Wait for those of `pods` that are being started.
    WaitForRunningAndReadyPods { pods: &'a Vec<P> },
    /// Delete those of `pods` that none of `eligible_nodes` asks for.
    DeleteExcessPods {
        eligible_nodes: &'a StringMap<RoleGroups<N>>,
        pods: &'a Vec<P>,
        strategy: ContinuationStrategy,
    },
    /// Create a pod that is missing.
    CreateMissingPods,
    /// Nothing: this is what came of it.
    Finish(Result<ReconcileFunctionAction, Error<E>>),
}

/// [`Reconciliation`] as a mathematical value.
pub ghost enum ReconciliationView<P, N, E> {
    HandleDeletion { pods: Seq<P>, finalizer_name: Seq<char>, requeue_if_changed: bool },
    DeleteIllegalPods {
        pods: Seq<P>,
        required_labels: Map<Seq<char>, Option<Seq<Seq<char>>>>,
        strategy: ContinuationStrategy,
    },
    WaitForTerminatingPods { pods: Seq<P> },
    WaitForRunningAndReadyPods { pods: Seq<P> },
    DeleteExcessPods {
        eligible_nodes: Map<Seq<char>, RoleGroups<N>>,
        pods: Seq<P>,
        strategy: ContinuationStrategy,
    },
    CreateMissingPods,
    Finish(Result<ReconcileFunctionAction, ErrorView<E>>),
}

/// How a part of a reconciliation ended, as a mathematical value.
pub open spec fn outcome_view<E>(
    outcome: Result<ReconcileFunctionAction, Error<E>>,
) -> Result<ReconcileFunctionAction, ErrorView<E>> {
    match outcome {
        Ok(action) => Ok(action),
        Err(error) => Err(error@),
    }
}

impl<'a, P, N, E> View for Reconciliation<'a, P, N, E> {
    type V = ReconciliationView<P, N, E>;

    open spec fn view(&self) -> ReconciliationView<P, N, E> {
        match *self {
            Reconciliation::HandleDeletion {
                pods,
                finalizer_name,
                requeue_if_changed,
            } => ReconciliationView::HandleDeletion {
                pods: pods@,
                finalizer_name: finalizer_name@,
                requeue_if_changed,
            },
            Reconciliation::DeleteIllegalPods {
                pods,
                required_labels,
                strategy,
            } => ReconciliationView::DeleteIllegalPods {
                pods: pods@,
                required_labels: crate::string_map::as_map(required_labels.deep_view()),
                strategy,
            },
            Reconciliation::WaitForTerminatingPods { pods } => {
                ReconciliationView::WaitForTerminatingPods { pods: pods@ }
            },
            Reconciliation::WaitForRunningAndReadyPods { pods } => {
                ReconciliationView::WaitForRunningAndReadyPods { pods: pods@ }
            },
            Reconciliation::DeleteExcessPods {
                eligible_nodes,
                pods,
                strategy,
            } => ReconciliationView::DeleteExcessPods {
                eligible_nodes: eligible_nodes.map(),
                pods: pods@,
                strategy,
            },
            Reconciliation::CreateMissingPods => ReconciliationView::CreateMissingPods,
            Reconciliation::Finish(outcome) => ReconciliationView::Finish(outcome_view(outcome)),
        }
    }
}

/// The parts of a reconciliation of `state`, in their order. All of them work on the pods and the
/// nodes of `state`.
pub open spec fn parts<P, N, C, E>(state: OpaState<P, N, C>) -> Seq<ReconciliationView<P, N, E>> {
    let pods = state.existing_pods@;
    seq![
        ReconciliationView::HandleDeletion {
            pods,
            finalizer_name: FINALIZER_NAME@,
            requeue_if_changed: true,
        },
        ReconciliationView::DeleteIllegalPods {
            pods,
            required_labels: crate::state::required_labels(state),
            strategy: ContinuationStrategy::OneRequeue,
        },
        ReconciliationView::WaitForTerminatingPods { pods },
        ReconciliationView::WaitForRunningAndReadyPods { pods },
        ReconciliationView::DeleteExcessPods {
            eligible_nodes: state.eligible_nodes.map(),
            pods,
            strategy: ContinuationStrategy::OneRequeue,
        },
        ReconciliationView::CreateMissingPods,
    ]
}

/// The place of a part in the order of the parts.
pub open spec fn place<P, N, E>(step: ReconciliationView<P, N, E>) -> int {
    match step {
        ReconciliationView::HandleDeletion { .. } => 0,
        ReconciliationView::DeleteIllegalPods { .. } => 1,
        ReconciliationView::WaitForTerminatingPods { .. } => 2,
        ReconciliationView::WaitForRunningAndReadyPods { .. } => 3,
        ReconciliationView::DeleteExcessPods { .. } => 4,
        ReconciliationView::CreateMissingPods => 5,
        ReconciliationView::Finish(_) => 6,
    }
}

/// The step after a part ended with `outcome`: the next part where it lets the reconciliation go
/// on and another part is left, else the end. What is finished stays so.
pub open spec fn after_part<P, N, C, E>(
    state: OpaState<P, N, C>,
    step: ReconciliationView<P, N, E>,
    outcome: Result<ReconcileFunctionAction, ErrorView<E>>,
) -> ReconciliationView<P, N, E> {
    if step is Finish {
        step
    } else if outcome == Ok::<ReconcileFunctionAction, ErrorView<E>>(
        ReconcileFunctionAction::Continue,
    ) && place(step) < 5 {
        parts(state)[place(step) + 1]
    } else {
        ReconciliationView::Finish(outcome)
    }
}

impl<P, N, C> OpaState<P, N, C> {
    /// Begins a reconciliation.
    pub fn reconcile<'a, E>(&'a self) -> (res: Reconciliation<'a, P, N, E>)
        ensures
            res@ == parts::<P, N, C, E>(*self)[0],
    {
        Reconciliation::HandleDeletion {
            pods: &self.existing_pods,
            finalizer_name: FINALIZER_NAME,
            requeue_if_changed: true,
        }
    }
}

impl<'a, P, N, E> Reconciliation<'a, P, N, E> {
    /// Goes on with the reconciliation of `state` when the part is through.
    pub fn answer<C>(
        self,
        state: &'a OpaState<P, N, C>,
        outcome: Result<ReconcileFunctionAction, Error<E>>,
    ) -> (res: Reconciliation<'a, P, N, E>)
        ensures
            res@ == after_part(*state, self@, outcome_view(outcome)),
    {
        let pods = &state.existing_pods;
        match (self, outcome) {
            (Reconciliation::Finish(result), _) => Reconciliation::Finish(result),
            (Reconciliation::HandleDeletion { .. }, Ok(ReconcileFunctionAction::Continue)) => {
                Reconciliation::DeleteIllegalPods {
                    pods,
                    required_labels: state.required_pod_labels(),
                    strategy: ContinuationStrategy::OneRequeue,
                }
            },
            (Reconciliation::DeleteIllegalPods { .. }, Ok(ReconcileFunctionAction::Continue)) => {
                Reconciliation::WaitForTerminatingPods { pods }
            },
            (
                Reconciliation::WaitForTerminatingPods { .. },
                Ok(ReconcileFunctionAction::Continue),
            ) => Reconciliation::WaitForRunningAndReadyPods { pods },
            (
                Reconciliation::WaitForRunningAndReadyPods { .. },
                Ok(ReconcileFunctionAction::Continue),
            ) => Reconciliation::DeleteExcessPods {
                eligible_nodes: &state.eligible_nodes,
                pods,
                strategy: ContinuationStrategy::OneRequeue,
            },
            (Reconciliation::DeleteExcessPods { .. }, Ok(ReconcileFunctionAction::Continue)) => {
                Reconciliation::CreateMissingPods
            },
            (_, outcome) => Reconciliation::Finish(outcome),
        }
    }
}

/// What comes of a reconciliation: the parts that were done, in order, and how it ended.
pub ghost struct Reconciled<P, N, E> {
    pub done: Seq<ReconciliationView<P, N, E>>,
    pub result: Result<ReconcileFunctionAction, ErrorView<E>>,
}

/// What comes of a reconciliation of `state` from `step` on, where `outcomes` tells how each part
/// ends, by its place in the order of the parts.
pub open spec fn run<P, N, C, E>(
    state: OpaState<P, N, C>,
    step: ReconciliationView<P, N, E>,
    outcomes: spec_fn(int) -> Result<ReconcileFunctionAction, ErrorView<E>>,
) -> Reconciled<P, N, E>
    decreases 6 - place(step),
{
    match step {
        ReconciliationView::Finish(result) => Reconciled { done: seq![], result },
        _ => {
            let rest = run(state, after_part(state, step, outcomes(place(step))), outcomes);
            Reconciled { done: seq![step] + rest.done, result: rest.result }
        },
    }
}

/// Where every part lets the reconciliation go on, all parts are done, and nothing more is to be
/// done.
pub proof fn reconciliation_does_all_parts<P, N, C, E>(
    state: OpaState<P, N, C>,
    outcomes: spec_fn(int) -> Result<ReconcileFunctionAction, ErrorView<E>>,
)
    requires
        forall|i: int|
            0 <= i < 6 ==> #[trigger] outcomes(i) == Ok::<ReconcileFunctionAction, ErrorView<E>>(
                ReconcileFunctionAction::Continue,
            ),
    ensures
        run(state, parts::<P, N, C, E>(state)[0], outcomes) == (Reconciled::<P, N, E> {
            done: parts(state),
            result: Ok(ReconcileFunctionAction::Continue),
        }),
{
    lemma_run(state, outcomes, 0, 5);
    assert(outcomes(5) == Ok::<ReconcileFunctionAction, ErrorView<E>>(
        ReconcileFunctionAction::Continue,
    ));
    assert(parts::<P, N, C, E>(state).subrange(0, 6) =~= parts(state));
}

/// The first part that fails, is done with the reconciliation or has it begin anew ends it, with
/// its own outcome; no part behind it is done.
pub proof fn reconciliation_stops_at_first_stop<P, N, C, E>(
    state: OpaState<P, N, C>,
    outcomes: spec_fn(int) -> Result<ReconcileFunctionAction, ErrorView<E>>,
    at: int,
)
    requires
        0 <= at < 6,
        outcomes(at) != Ok::<ReconcileFunctionAction, ErrorView<E>>(
            ReconcileFunctionAction::Continue,
        ),
        forall|i: int|
            0 <= i < at ==> #[trigger] outcomes(i) == Ok::<ReconcileFunctionAction, ErrorView<E>>(
                ReconcileFunctionAction::Continue,
            ),
    ensures
        run(state, parts::<P, N, C, E>(state)[0], outcomes) == (Reconciled::<P, N, E> {
            done: parts(state).take(at + 1),
            result: outcomes(at),
        }),
{
    lemma_run(state, outcomes, 0, at);
}

/// From the part at `from` on, the parts up to the one at `at` are done, if it is the first that
/// does not let the reconciliation go on, or the last part.
proof fn lemma_run<P, N, C, E>(
    state: OpaState<P, N, C>,
    outcomes: spec_fn(int) -> Result<ReconcileFunctionAction, ErrorView<E>>,
    from: int,
    at: int,
)
    requires
        0 <= from <= at < 6,
        at == 5 || outcomes(at) != Ok::<ReconcileFunctionAction, ErrorView<E>>(
            ReconcileFunctionAction::Continue,
        ),
        forall|i: int|
            from <= i < at ==> #[trigger] outcomes(i) == Ok::<
                ReconcileFunctionAction,
                ErrorView<E>,
            >(ReconcileFunctionAction::Continue),
    ensures
        run(state, parts::<P, N, C, E>(state)[from], outcomes) == (Reconciled::<P, N, E> {
            done: parts(state).subrange(from, at + 1),
            result: outcomes(at),
        }),
    decreases at - from,
{
    let all = parts::<P, N, C, E>(state);
    let step = all[from];
    assert(place(step) == from);
    if from == at {
        reveal_with_fuel(run, 2);
        assert(seq![step] + seq![] =~= all.subrange(from, at + 1));
    } else {
        assert(outcomes(from) == Ok::<ReconcileFunctionAction, ErrorView<E>>(
            ReconcileFunctionAction::Continue,
        ));
        lemma_run(state, outcomes, from + 1, at);
        assert(seq![step] + all.subrange(from + 1, at + 1) =~= all.subrange(from, at + 1));
    }
}

/// A reconciliation has six parts. Whether the resource is to be deleted comes first, then pods
/// with wrong labels go, then pods that come or go are waited for, then pods go that no node asks
/// for, and last a missing pod is created. All of them work on the pods and the nodes that were
/// found.
pub proof fn parts_work_on_what_was_found<P, N, C, E>(state: OpaState<P, N, C>)
    ensures
        ({
            let all = parts::<P, N, C, E>(state);
            let pods = state.existing_pods@;
            &&& all.len() == 6
            &&& all[0] == (ReconciliationView::<P, N, E>::HandleDeletion {
                pods,
                finalizer_name: "opa.stackable.tech/cleanup"@,
                requeue_if_changed: true,
            })
            &&& all[1] == (ReconciliationView::<P, N, E>::DeleteIllegalPods {
                pods,
                required_labels: crate::state::required_labels(state),
                strategy: ContinuationStrategy::OneRequeue,
            })
            &&& all[2] == (ReconciliationView::<P, N, E>::WaitForTerminatingPods { pods })
            &&& all[3] == (ReconciliationView::<P, N, E>::WaitForRunningAndReadyPods { pods })
            &&& all[4] == (ReconciliationView::<P, N, E>::DeleteExcessPods {
                eligible_nodes: crate::string_map::as_map(state.eligible_nodes@),
                pods,
                strategy: ContinuationStrategy::OneRequeue,
            })
            &&& all[5] == ReconciliationView::<P, N, E>::CreateMissingPods
        }),
{
}

/// A part that lets the reconciliation go on is followed by the next one; after the last part, and
/// after any other outcome, the reconciliation ends with that outcome. What is finished stays so.
pub proof fn parts_follow_one_another<P, N, C, E>(
    state: OpaState<P, N, C>,
    step: ReconciliationView<P, N, E>,
    outcome: Result<ReconcileFunctionAction, ErrorView<E>>,
)
    ensures
        ({
            let next = after_part(state, step, outcome);
            let goes_on = outcome matches Ok(action) && action is Continue;
            let pods = state.existing_pods@;
            &&& step is Finish ==> next == step
            &&& step !is Finish && !goes_on ==> next == ReconciliationView::<P, N, E>::Finish(
                outcome,
            )
            &&& step is CreateMissingPods ==> next == ReconciliationView::<P, N, E>::Finish(outcome)
            &&& step is HandleDeletion && goes_on ==> next == (ReconciliationView::<
                P,
                N,
                E,
            >::DeleteIllegalPods {
                pods,
                required_labels: crate::state::required_labels(state),
                strategy: ContinuationStrategy::OneRequeue,
            })
            &&& step is DeleteIllegalPods && goes_on ==> next == (ReconciliationView::<
                P,
                N,
                E,
            >::WaitForTerminatingPods { pods })
            &&& step is WaitForTerminatingPods && goes_on ==> next == (ReconciliationView::<
                P,
                N,
                E,
            >::WaitForRunningAndReadyPods { pods })
            &&& step is WaitForRunningAndReadyPods && goes_on ==> next == (ReconciliationView::<
                P,
                N,
                E,
            >::DeleteExcessPods {
                eligible_nodes: crate::string_map::as_map(state.eligible_nodes@),
                pods,
                strategy: ContinuationStrategy::OneRequeue,
            })
            &&& step is DeleteExcessPods && goes_on ==> next
                == ReconciliationView::<P, N, E>::CreateMissingPods
        }),
{
}

/// A step of a reconciliation is seen with the pods, the labels and the nodes that it names, or
/// with what came of it.
pub proof fn parts_show_what_they_work_on<P, N, E>(step: Reconciliation<P, N, E>)
    ensures
        match step {
            Reconciliation::HandleDeletion { pods, finalizer_name, requeue_if_changed } => step@
                == (ReconciliationView::<P, N, E>::HandleDeletion {
                pods: pods@,
                finalizer_name: finalizer_name@,
                requeue_if_changed,
            }),
            Reconciliation::DeleteIllegalPods { pods, required_labels, strategy } => step@ == (
            ReconciliationView::<P, N, E>::DeleteIllegalPods {
                pods: pods@,
                required_labels: crate::string_map::as_map(required_labels.deep_view()),
                strategy,
            }),
            Reconciliation::WaitForTerminatingPods { pods } => step@ == (ReconciliationView::<
                P,
                N,
                E,
            >::WaitForTerminatingPods { pods: pods@ }),
            Reconciliation::WaitForRunningAndReadyPods { pods } => step@ == (ReconciliationView::<
                P,
                N,
                E,
            >::WaitForRunningAndReadyPods { pods: pods@ }),
            Reconciliation::DeleteExcessPods { eligible_nodes, pods, strategy } => step@ == (
            ReconciliationView::<P, N, E>::DeleteExcessPods {
                eligible_nodes: crate::string_map::as_map(eligible_nodes@),
                pods: pods@,
                strategy,
            }),
            Reconciliation::CreateMissingPods => step@
                == ReconciliationView::<P, N, E>::CreateMissingPods,
            Reconciliation::Finish(Ok(action)) => step@ == ReconciliationView::<P, N, E>::Finish(
                Ok(action),
            ),
            Reconciliation::Finish(Err(error)) => step@ == ReconciliationView::<P, N, E>::Finish(
                Err(error@),
            ),
        },
{
}

/// How a part ended is seen as it is.
pub proof fn outcomes_are_kept<E>(action: ReconcileFunctionAction, error: Error<E>)
    ensures
        outcome_view::<E>(Ok(action)) == Ok::<ReconcileFunctionAction, ErrorView<E>>(action),
        outcome_view::<E>(Err(error)) == Err::<ReconcileFunctionAction, ErrorView<E>>(error@),
{
}

} // verus!
