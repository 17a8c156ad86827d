//! Runtime operations on a task, the lifecycle step they cause, and the
//! engine abstraction that decides which operations to apply.

use vstd::prelude::*;

use crate::manifest::{TaskEnvelope, TaskLifecycleState};

verus! {

/// Runtime operation performed by the worker kernel.
#[derive(Debug, PartialEq, Eq)]
pub enum RuntimeOperation {
    Start,
    Step,
    Wait,
    Delegate { delegate_worker_id: String },
    Complete,
    Fail { reason: String },
    Cancel,
}

pub enum OperationView {
    Start,
    Step,
    Wait,
    Delegate { delegate_worker_id: Seq<char> },
    Complete,
    Fail { reason: Seq<char> },
    Cancel,
}

impl View for RuntimeOperation {
    type V = OperationView;

    open spec fn view(&self) -> OperationView {
        match self {
            RuntimeOperation::Start => OperationView::Start,
            RuntimeOperation::Step => OperationView::Step,
            RuntimeOperation::Wait => OperationView::Wait,
            RuntimeOperation::Delegate { delegate_worker_id } => OperationView::Delegate {
                delegate_worker_id: delegate_worker_id@,
            },
            RuntimeOperation::Complete => OperationView::Complete,
            RuntimeOperation::Fail { reason } => OperationView::Fail { reason: reason@ },
            RuntimeOperation::Cancel => OperationView::Cancel,
        }
    }
}

pub open spec fn operation_text(op: &RuntimeOperation) -> Seq<char> {
    match op {
        RuntimeOperation::Start => "start"@,
        RuntimeOperation::Step => "step"@,
        RuntimeOperation::Wait => "wait"@,
        RuntimeOperation::Delegate { .. } => "delegate"@,
        RuntimeOperation::Complete => "complete"@,
        RuntimeOperation::Fail { .. } => "fail"@,
        RuntimeOperation::Cancel => "cancel"@,
    }
}

impl RuntimeOperation {
    /// The operation's name.
    pub fn name(&self) -> (r: &'static str)
        ensures
            r@ == operation_text(self),
    {
        match self {
            RuntimeOperation::Start => "start",
            RuntimeOperation::Step => "step",
            RuntimeOperation::Wait => "wait",
            RuntimeOperation::Delegate { .. } => "delegate",
            RuntimeOperation::Complete => "complete",
            RuntimeOperation::Fail { .. } => "fail",
            RuntimeOperation::Cancel => "cancel",
        }
    }
}

/// A copy of an operation with the same variant and texts.
pub fn clone_operation(op: &RuntimeOperation) -> (r: RuntimeOperation)
    ensures
        r@ == op@,
{
    match op {
        RuntimeOperation::Start => RuntimeOperation::Start,
        RuntimeOperation::Step => RuntimeOperation::Step,
        RuntimeOperation::Wait => RuntimeOperation::Wait,
        RuntimeOperation::Delegate { delegate_worker_id } => RuntimeOperation::Delegate {
            delegate_worker_id: delegate_worker_id.clone(),
        },
        RuntimeOperation::Complete => RuntimeOperation::Complete,
        RuntimeOperation::Fail { reason } => RuntimeOperation::Fail { reason: reason.clone() },
        RuntimeOperation::Cancel => RuntimeOperation::Cancel,
    }
}

/// The state an operation leads to.
pub open spec fn target_state_of(op: &RuntimeOperation, current: TaskLifecycleState) -> TaskLifecycleState {
    match op {
        RuntimeOperation::Start => TaskLifecycleState::Running,
        RuntimeOperation::Step => current,
        RuntimeOperation::Wait => TaskLifecycleState::Waiting,
        RuntimeOperation::Delegate { .. } => TaskLifecycleState::Delegated,
        RuntimeOperation::Complete => TaskLifecycleState::Completed,
        RuntimeOperation::Fail { .. } => TaskLifecycleState::Failed,
        RuntimeOperation::Cancel => TaskLifecycleState::Cancelled,
    }
}

/// Computes the target state of an operation from the current state.
pub fn target_state(operation: &RuntimeOperation, current: TaskLifecycleState) -> (r: TaskLifecycleState)
    ensures
        r == target_state_of(operation, current),
{
    match operation {
        RuntimeOperation::Start => TaskLifecycleState::Running,
        RuntimeOperation::Step => current,
        RuntimeOperation::Wait => TaskLifecycleState::Waiting,
        RuntimeOperation::Delegate { .. } => TaskLifecycleState::Delegated,
        RuntimeOperation::Complete => TaskLifecycleState::Completed,
        RuntimeOperation::Fail { .. } => TaskLifecycleState::Failed,
        RuntimeOperation::Cancel => TaskLifecycleState::Cancelled,
    }
}

/// Structured event emitted when the runtime applies an operation.
#[derive(Debug, PartialEq, Eq)]
pub struct RuntimeEvent {
    pub task_id: String,
    pub worker_id: String,
    pub operation: RuntimeOperation,
    pub from_state: TaskLifecycleState,
    pub to_state: TaskLifecycleState,
}

/// Lifecycle violation.
#[derive(Debug, PartialEq, Eq)]
pub enum CoreRuntimeError {
    IllegalTransition { operation: String, from: TaskLifecycleState, to: TaskLifecycleState },
}

/// Applies an operation to a task: a change of state must be one the
/// lifecycle rule `can_transition` allows; an operation that keeps the state
/// is always applied. On success the task takes the target state and the
/// event records the step; on failure the task is unchanged.
pub fn apply_operation<F: Fn(TaskLifecycleState, TaskLifecycleState) -> bool>(
    envelope: &mut TaskEnvelope,
    operation: RuntimeOperation,
    can_transition: F,
) -> (r: Result<RuntimeEvent, CoreRuntimeError>)
    requires
        forall|a: TaskLifecycleState, b: TaskLifecycleState| can_transition.requires((a, b)),
    ensures
        ({
            let from = old(envelope).state;
            let to = target_state_of(&operation, from);
            match r {
                Ok(ev) => (from == to || can_transition.ensures((from, to), true)) && final(envelope).state == to
                    && final(envelope).task_id == old(envelope).task_id && final(envelope).worker_id == old(envelope).worker_id
                    && final(envelope).scope == old(envelope).scope && final(envelope).locale == old(envelope).locale
                    && ev.task_id@ == old(envelope).task_id@ && ev.worker_id@ == old(envelope).worker_id@ && ev.operation
                    == operation && ev.from_state == from && ev.to_state == to,
                Err(e) => from != to && can_transition.ensures((from, to), false) && *final(envelope) == *old(envelope)
                    && e == CoreRuntimeError::IllegalTransition {
                    operation: e->operation,
                    from,
                    to,
                } && e->operation@ == operation_text(&operation),
            }
        }),
{
    let from_state = envelope.state;
    let to_state = target_state(&operation, from_state);
    let same = match (from_state, to_state) {
        (TaskLifecycleState::Created, TaskLifecycleState::Created) => true,
        (TaskLifecycleState::Running, TaskLifecycleState::Running) => true,
        (TaskLifecycleState::Waiting, TaskLifecycleState::Waiting) => true,
        (TaskLifecycleState::Delegated, TaskLifecycleState::Delegated) => true,
        (TaskLifecycleState::Completed, TaskLifecycleState::Completed) => true,
        (TaskLifecycleState::Failed, TaskLifecycleState::Failed) => true,
        (TaskLifecycleState::Cancelled, TaskLifecycleState::Cancelled) => true,
        _ => false,
    };
    if !same {
        let allowed = can_transition(from_state, to_state);
        if !allowed {
            return Err(
                CoreRuntimeError::IllegalTransition {
                    operation: String::from_str(operation.name()),
                    from: from_state,
                    to: to_state,
                },
            );
        }
    }
    envelope.state = to_state;
    Ok(
        RuntimeEvent {
            task_id: envelope.task_id.clone(),
            worker_id: envelope.worker_id.clone(),
            operation,
            from_state,
            to_state,
        },
    )
}

// ---------------------------------------------------------------------------
// Engines
// ---------------------------------------------------------------------------

/// Context handed to an engine when asking for the next decision.
#[derive(Debug, PartialEq, Eq)]
pub struct EngineContext {
    pub envelope: TaskEnvelope,
}

/// Structured decisions returned by engines.
#[derive(Debug, PartialEq, Eq)]
pub enum EngineDecision {
    /// No state change requested.
    Noop,
    /// Apply a single runtime operation.
    Operation(RuntimeOperation),
    /// Apply several operations in order.
    Batch(Vec<RuntimeOperation>),
}

/// Engine failure.
#[derive(Debug, PartialEq, Eq)]
pub enum EngineError {
    EmptyBatch,
    InvalidDecision(String),
}

pub enum DecisionView {
    Noop,
    Operation(OperationView),
    Batch(Seq<OperationView>),
}

pub open spec fn operations_view(v: Seq<RuntimeOperation>) -> Seq<OperationView> {
    v.map_values(|o: RuntimeOperation| o@)
}

impl View for EngineDecision {
    type V = DecisionView;

    open spec fn view(&self) -> DecisionView {
        match self {
            EngineDecision::Noop => DecisionView::Noop,
            EngineDecision::Operation(op) => DecisionView::Operation(op@),
            EngineDecision::Batch(ops) => DecisionView::Batch(operations_view(ops@)),
        }
    }
}

/// A copy of a decision with the same operations.
pub fn clone_decision(d: &EngineDecision) -> (r: EngineDecision)
    ensures
        r@ == d@,
{
    match d {
        EngineDecision::Noop => EngineDecision::Noop,
        EngineDecision::Operation(op) => EngineDecision::Operation(clone_operation(op)),
        EngineDecision::Batch(ops) => {
            let mut out: Vec<RuntimeOperation> = Vec::new();
            let mut i: usize = 0;
            while i < ops.len()
                invariant
                    i <= ops.len(),
                    operations_view(out@) == operations_view(ops@).take(i as int),
                decreases ops.len() - i,
            {
                let ghost before = out@;
                out.push(clone_operation(&ops[i]));
                assert(operations_view(out@) =~= operations_view(before).push(ops@[i as int]@));
                assert(operations_view(out@) =~= operations_view(ops@).take(i + 1));
                i = i + 1;
            }
            assert(operations_view(out@) =~= operations_view(ops@));
            EngineDecision::Batch(out)
        },
    }
}

/// Decision interface for runtime engines.
pub trait DwEngine {
    fn decide(&self, context: &EngineContext) -> Result<EngineDecision, EngineError>;
}

/// Engine that always returns the decision it was built with.
#[derive(Debug)]
pub struct StaticEngine {
    decision: EngineDecision,
}

/// An empty batch is no decision.
pub open spec fn decision_valid(d: &EngineDecision) -> bool {
    !(d matches EngineDecision::Batch(ops) && ops@.len() == 0)
}

impl StaticEngine {
    pub closed spec fn configured(&self) -> EngineDecision {
        self.decision
    }

    /// An engine for a fixed decision.
    pub fn new(decision: EngineDecision) -> (r: Self)
        ensures
            r.configured() == decision,
    {
        StaticEngine { decision }
    }

    /// Rejects an empty batch.
    pub fn validate_decision(decision: &EngineDecision) -> (r: Result<(), EngineError>)
        ensures
            r is Ok <==> decision_valid(decision),
            r is Err ==> r == Err::<(), EngineError>(EngineError::EmptyBatch),
    {
        if let EngineDecision::Batch(ops) = decision {
            if ops.len() == 0 {
                return Err(EngineError::EmptyBatch);
            }
        }
        Ok(())
    }

    /// The configured decision, unless it is an empty batch.
    pub fn decide_static(&self) -> (r: Result<EngineDecision, EngineError>)
        ensures
            decision_valid(&self.configured()) ==> (r matches Ok(d) && d@ == self.configured()@),
            !decision_valid(&self.configured()) ==> r == Err::<EngineDecision, EngineError>(EngineError::EmptyBatch),
    {
        Self::validate_decision(&self.decision)?;
        Ok(clone_decision(&self.decision))
    }
}

impl DwEngine for StaticEngine {
    fn decide(&self, context: &EngineContext) -> (r: Result<EngineDecision, EngineError>)
        ensures
            decision_valid(&self.configured()) ==> (r matches Ok(d) && d@ == self.configured()@),
            !decision_valid(&self.configured()) ==> r == Err::<EngineDecision, EngineError>(EngineError::EmptyBatch),
    {
        self.decide_static()
    }
}

/// Each operation leads to its own state: start to running, wait to
/// waiting, delegate to delegated, complete to completed, fail to failed and
/// cancel to cancelled, whatever the current state; a step keeps the current
/// state. Two operations of different kinds, neither a step, lead to
/// different states.
pub proof fn law_operation_targets(op: &RuntimeOperation, other: &RuntimeOperation, current: TaskLifecycleState)
    ensures
        op is Start ==> target_state_of(op, current) == TaskLifecycleState::Running,
        op is Step ==> target_state_of(op, current) == current,
        op is Wait ==> target_state_of(op, current) == TaskLifecycleState::Waiting,
        op is Delegate ==> target_state_of(op, current) == TaskLifecycleState::Delegated,
        op is Complete ==> target_state_of(op, current) == TaskLifecycleState::Completed,
        op is Fail ==> target_state_of(op, current) == TaskLifecycleState::Failed,
        op is Cancel ==> target_state_of(op, current) == TaskLifecycleState::Cancelled,
        !(op is Step) && !(other is Step) && operation_text(op) != operation_text(other) ==> target_state_of(op, current)
            != target_state_of(other, current),
{
}

} // verus!
