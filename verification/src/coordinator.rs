//! The decisions taken while an operation's plans execute.
//!
//! Executing an operation alternates work done elsewhere (building executors, awaiting
//! them, ingesting their output, sending responses) with decisions. The decisions are the
//! step functions here: from the current state and what just happened, the next state and
//! what to do. The caller performs the action and reports back the next event.
use vstd::prelude::*;

use crate::query::OperationType;

verus! {

/// What happened since the last step of an operation's execution.
pub enum ExecutionEvent {
    /// A plan became executable and this many response boundary items were found for it.
    PlanReady { plan_id: usize, boundary_items: usize },
    /// Building the executor of a plan succeeded or failed.
    ExecutorBuilt { plan_id: usize, succeeded: bool },
    /// The executor of a plan finished, with a response part or with an error.
    ExecutorFinished { plan_id: usize, succeeded: bool },
    /// Waiting for the next executor gave nothing: none is left.
    NoneLeft,
}

/// What to do next.
pub enum ExecutionAction {
    /// Build the executor of the plan.
    BuildExecutor(usize),
    /// Nothing to run for this plan.
    Skip,
    /// Start the plan's executor and wait for it with the others.
    Spawn(usize),
    /// Add the error to the response.
    PushError,
    /// Ingest the response part, record its boundary items, then go through the plans that
    /// became executable after this one.
    IngestAndScheduleNext(usize),
    /// Build the response: the execution is over.
    BuildResponse,
}

/// The state of an operation's execution, in the abstract.
pub struct ExecutionView {
    /// The plans whose executor runs.
    pub in_flight: Seq<usize>,
    /// How many executors were started, how many finished, how many errors were pushed.
    pub spawned: nat,
    pub finished: nat,
    pub errors: nat,
    /// Whether the response was built.
    pub done: bool,
}

/// The state of an operation's execution: the plans whose executor runs.
pub struct OperationExecution {
    in_flight: Vec<usize>,
    done: bool,
    history: Ghost<(nat, nat, nat)>,
}

impl View for OperationExecution {
    type V = ExecutionView;

    closed spec fn view(&self) -> ExecutionView {
        ExecutionView {
            in_flight: self.in_flight@,
            spawned: self.history@.0,
            finished: self.history@.1,
            errors: self.history@.2,
            done: self.done,
        }
    }
}

/// Every started executor is either still running or has finished.
pub open spec fn execution_consistent(v: ExecutionView) -> bool {
    v.in_flight.len() + v.finished == v.spawned
}

impl OperationExecution {
    /// An execution that has not started anything.
    pub fn new() -> (e: OperationExecution)
        ensures
            e@.in_flight == Seq::<usize>::empty(),
            e@.spawned == 0,
            e@.finished == 0,
            e@.errors == 0,
            !e@.done,
            execution_consistent(e@),
    {
        OperationExecution { in_flight: Vec::new(), done: false, history: Ghost((0, 0, 0)) }
    }

    /// Whether the executor of a plan runs.
    pub fn is_in_flight(&self, plan_id: usize) -> (r: bool)
        ensures
            r == self@.in_flight.contains(plan_id),
    {
        let mut i: usize = 0;
        while i < self.in_flight.len()
            invariant
                i <= self.in_flight@.len(),
                forall|j: int| 0 <= j < i ==> self.in_flight@[j] != plan_id,
            decreases self.in_flight@.len() - i,
        {
            if self.in_flight[i] == plan_id {
                assert(self.in_flight@[i as int] == plan_id);
                return true;
            }
            i = i + 1;
        }
        false
    }

    /// Whether any executor runs.
    pub fn has_in_flight(&self) -> (r: bool)
        ensures
            r == (self@.in_flight.len() > 0),
    {
        self.in_flight.len() > 0
    }

    /// Takes one step: decides what to do about `event`.
    ///
    /// A plan with no boundary items is skipped; otherwise its executor is built. A built
    /// executor is started; a failed build is an error for the response. A finished executor
    /// leaves the running set; its output is ingested, or its error pushed. When none is
    /// left, the response is built.
    pub fn step(&mut self, event: ExecutionEvent) -> (action: ExecutionAction)
        requires
            !old(self)@.done,
            event matches ExecutionEvent::ExecutorFinished { plan_id, .. } ==> old(self)@.in_flight.contains(plan_id),
            event is NoneLeft ==> old(self)@.in_flight.len() == 0,
        ensures
            execution_consistent(old(self)@) ==> execution_consistent(final(self)@),
            match event {
                ExecutionEvent::PlanReady { plan_id, boundary_items } => {
                    &&& action == (if boundary_items == 0 {
                        ExecutionAction::Skip
                    } else {
                        ExecutionAction::BuildExecutor(plan_id)
                    })
                    &&& *final(self) == *old(self)
                },
                ExecutionEvent::ExecutorBuilt { plan_id, succeeded } => if succeeded {
                    &&& action == ExecutionAction::Spawn(plan_id)
                    &&& final(self)@ == ExecutionView {
                        in_flight: old(self)@.in_flight.push(plan_id),
                        spawned: old(self)@.spawned + 1,
                        ..old(self)@
                    }
                } else {
                    &&& action == ExecutionAction::PushError
                    &&& final(self)@ == ExecutionView { errors: old(self)@.errors + 1, ..old(self)@ }
                },
                ExecutionEvent::ExecutorFinished { plan_id, succeeded } => {
                    &&& action == (if succeeded {
                        ExecutionAction::IngestAndScheduleNext(plan_id)
                    } else {
                        ExecutionAction::PushError
                    })
                    &&& final(self)@.in_flight.to_multiset() == old(self)@.in_flight.to_multiset().remove(plan_id)
                    &&& final(self)@.in_flight.len() + 1 == old(self)@.in_flight.len()
                    &&& final(self)@.spawned == old(self)@.spawned
                    &&& final(self)@.finished == old(self)@.finished + 1
                    &&& final(self)@.errors == old(self)@.errors + if succeeded { 0nat } else { 1nat }
                    &&& !final(self)@.done
                },
                ExecutionEvent::NoneLeft => {
                    &&& action == ExecutionAction::BuildResponse
                    &&& final(self)@ == ExecutionView { done: true, ..old(self)@ }
                },
            },
    {
        match event {
            ExecutionEvent::PlanReady { plan_id, boundary_items } => {
                if boundary_items == 0 {
                    ExecutionAction::Skip
                } else {
                    ExecutionAction::BuildExecutor(plan_id)
                }
            },
            ExecutionEvent::ExecutorBuilt { plan_id, succeeded } => {
                let ghost (s, f, e) = self.history@;
                if succeeded {
                    self.in_flight.push(plan_id);
                    self.history = Ghost((s + 1, f, e));
                    ExecutionAction::Spawn(plan_id)
                } else {
                    self.history = Ghost((s, f, e + 1));
                    ExecutionAction::PushError
                }
            },
            ExecutionEvent::ExecutorFinished { plan_id, succeeded } => {
                let ghost (s, f, e) = self.history@;
                let ghost before = self.in_flight@;
                let index = self.position(plan_id);
                self.in_flight.remove(index);
                proof {
                    vstd::seq_lib::to_multiset_remove(before, index as int);
                }
                if succeeded {
                    self.history = Ghost((s, f + 1, e));
                    ExecutionAction::IngestAndScheduleNext(plan_id)
                } else {
                    self.history = Ghost((s, f + 1, e + 1));
                    ExecutionAction::PushError
                }
            },
            ExecutionEvent::NoneLeft => {
                self.done = true;
                ExecutionAction::BuildResponse
            },
        }
    }

    fn position(&self, plan_id: usize) -> (index: usize)
        requires
            self@.in_flight.contains(plan_id),
        ensures
            index < self@.in_flight.len(),
            self@.in_flight[index as int] == plan_id,
    {
        let mut i: usize = 0;
        while i < self.in_flight.len()
            invariant
                i <= self.in_flight@.len(),
                self.in_flight@.contains(plan_id),
                forall|j: int| 0 <= j < i ==> self.in_flight@[j] != plan_id,
            decreases self.in_flight@.len() - i,
        {
            if self.in_flight[i] == plan_id {
                return i;
            }
            i = i + 1;
        }
        i
    }
}

/// Where the handling of a subscription stands.
pub enum SubscriptionPhase {
    /// The stream of subscription events is being set up.
    Starting,
    /// Waiting for the next event of the stream.
    Streaming,
    /// A response was built for an event and is being sent.
    Sending,
    /// Nothing more will be sent.
    Stopped,
}

/// What happened since the last step of a subscription.
pub enum SubscriptionEvent {
    /// Setting up the stream succeeded or failed.
    StreamBuilt { succeeded: bool },
    /// The stream gave an event.
    Item,
    /// The stream ended.
    StreamEnded,
    /// Sending a response to the subscriber succeeded or failed.
    Sent { succeeded: bool },
}

/// What to do next for a subscription.
pub enum SubscriptionAction {
    /// Send a response that holds only the error, then stop.
    SendErrorAndStop,
    /// Wait for the next event of the stream.
    AwaitNext,
    /// Execute the plans for the event and send the response.
    ExecuteAndSend,
    /// Stop.
    Stop,
}

/// The decisions of a subscription: a stream that could not be set up gets one error
/// response; each event of the stream is executed and its response sent; the subscription
/// ends with the stream or when the subscriber can no longer be reached.
pub open spec fn subscription_transition(phase: SubscriptionPhase, event: SubscriptionEvent) -> (
    SubscriptionPhase,
    SubscriptionAction,
) {
    match (phase, event) {
        (SubscriptionPhase::Starting, SubscriptionEvent::StreamBuilt { succeeded }) => if succeeded {
            (SubscriptionPhase::Streaming, SubscriptionAction::AwaitNext)
        } else {
            (SubscriptionPhase::Stopped, SubscriptionAction::SendErrorAndStop)
        },
        (SubscriptionPhase::Streaming, SubscriptionEvent::Item) => (
            SubscriptionPhase::Sending,
            SubscriptionAction::ExecuteAndSend,
        ),
        (SubscriptionPhase::Streaming, SubscriptionEvent::StreamEnded) => (
            SubscriptionPhase::Stopped,
            SubscriptionAction::Stop,
        ),
        (SubscriptionPhase::Sending, SubscriptionEvent::Sent { succeeded }) => if succeeded {
            (SubscriptionPhase::Streaming, SubscriptionAction::AwaitNext)
        } else {
            (SubscriptionPhase::Stopped, SubscriptionAction::Stop)
        },
        _ => (SubscriptionPhase::Stopped, SubscriptionAction::Stop),
    }
}

/// Takes one step of a subscription.
pub fn subscription_step(phase: SubscriptionPhase, event: SubscriptionEvent) -> (r: (
    SubscriptionPhase,
    SubscriptionAction,
))
    ensures
        r == subscription_transition(phase, event),
{
    match (phase, event) {
        (SubscriptionPhase::Starting, SubscriptionEvent::StreamBuilt { succeeded }) => if succeeded {
            (SubscriptionPhase::Streaming, SubscriptionAction::AwaitNext)
        } else {
            (SubscriptionPhase::Stopped, SubscriptionAction::SendErrorAndStop)
        },
        (SubscriptionPhase::Streaming, SubscriptionEvent::Item) => (
            SubscriptionPhase::Sending,
            SubscriptionAction::ExecuteAndSend,
        ),
        (SubscriptionPhase::Streaming, SubscriptionEvent::StreamEnded) => (
            SubscriptionPhase::Stopped,
            SubscriptionAction::Stop,
        ),
        (SubscriptionPhase::Sending, SubscriptionEvent::Sent { succeeded }) => if succeeded {
            (SubscriptionPhase::Streaming, SubscriptionAction::AwaitNext)
        } else {
            (SubscriptionPhase::Stopped, SubscriptionAction::Stop)
        },
        _ => (SubscriptionPhase::Stopped, SubscriptionAction::Stop),
    }
}

/// Once stopped, a subscription stays stopped and sends nothing more, whatever happens.
pub proof fn lemma_stopped_is_final(event: SubscriptionEvent)
    ensures
        subscription_transition(SubscriptionPhase::Stopped, event) == (
            SubscriptionPhase::Stopped,
            SubscriptionAction::Stop,
        ),
{
}

/// Responses are sent only for events of a stream that was set up: the only action that
/// sends anything before the stream exists is the single error response.
pub proof fn lemma_execution_only_while_streaming(phase: SubscriptionPhase, event: SubscriptionEvent)
    ensures
        subscription_transition(phase, event).1 is ExecuteAndSend ==> phase is Streaming && event is Item,
        subscription_transition(phase, event).1 is SendErrorAndStop ==> phase is Starting
            && event == (SubscriptionEvent::StreamBuilt { succeeded: false }),
{
}

/// Whether an operation of this kind runs through `execute` (a query or a mutation);
/// subscriptions run through `execute_subscription` instead.
pub fn runs_to_completion(ty: OperationType) -> (r: bool)
    ensures
        r == !(ty is Subscription),
{
    match ty {
        OperationType::Subscription => false,
        _ => true,
    }
}

} // verus!
