//! Bounded per-delivery coordinators and their accounting.

use crate::consumer::error::{ConsumerError, ConsumerErrorKind, ConsumerExit};
use crate::failure::FailureKind;
use vstd::prelude::*;

verus! {

/// How a task ended that did not return.
#[derive(Clone, Copy, Debug, PartialEq, Eq, Structural)]
pub enum TaskFailure {
    /// It was cancelled.
    Cancelled,

    /// It panicked.
    Panicked,
}

/// The boundary at which a workflow's task failed.
pub open spec fn task_failure_kind(failure: TaskFailure, in_handler: bool) -> ConsumerErrorKind {
    match failure {
        TaskFailure::Panicked => if in_handler {
            ConsumerErrorKind::HandlerPanicked
        } else {
            ConsumerErrorKind::ProviderPanicked
        },
        TaskFailure::Cancelled => ConsumerErrorKind::Runtime,
    }
}

/// The failure of a workflow's task. Its delivery is left unsettled and the consumer stops; the
/// panic's payload is never rendered.
pub fn task_error<S>(failure: TaskFailure, in_handler: bool) -> (error: ConsumerError<S>)
    ensures
        error == (ConsumerError::<S> {
            kind: task_failure_kind(failure, in_handler),
            failure: FailureKind::Permanent,
            source: None,
        }),
{
    let kind = match failure {
        TaskFailure::Panicked => if in_handler {
            ConsumerErrorKind::HandlerPanicked
        } else {
            ConsumerErrorKind::ProviderPanicked
        },
        TaskFailure::Cancelled => ConsumerErrorKind::Runtime,
    };

    ConsumerError::new(kind, FailureKind::Permanent, None)
}

/// How a coordinator ended.
pub enum Joined<S> {
    /// It returned.
    Returned(Result<(), ConsumerError<S>>),

    /// It did not return.
    Failed(TaskFailure),
}

/// The accounting of a run: its capacity, its first failure, and whether it is to stop.
pub struct Workers<S> {
    capacity: usize,
    stopped: bool,
    first_error: Option<ConsumerError<S>>,
}

/// [`Workers`] as mathematical values.
pub struct WorkersModel<S> {
    pub capacity: usize,
    pub stopped: bool,
    pub first_error: Option<ConsumerError<S>>,
}

/// The failure of a task of the consumer itself.
pub open spec fn runtime_error<S>() -> ConsumerError<S> {
    ConsumerError {
        kind: ConsumerErrorKind::Runtime,
        failure: FailureKind::Permanent,
        source: None,
    }
}

/// The accounting after a fatal failure: the first one is kept, and the run is to stop.
pub open spec fn after_failure<S>(
    workers: WorkersModel<S>,
    error: ConsumerError<S>,
) -> WorkersModel<S> {
    WorkersModel {
        capacity: workers.capacity,
        stopped: true,
        first_error: match workers.first_error {
            Some(first) => Some(first),
            None => Some(error),
        },
    }
}

/// The failure that a coordinator's end reports, if it does. Coordinators are cancelled only by
/// the drain deadline, which leaves their deliveries unsettled.
pub open spec fn joined_error<S>(joined: Joined<S>) -> Option<ConsumerError<S>> {
    match joined {
        Joined::Returned(Ok(())) => None,
        Joined::Returned(Err(error)) => Some(error),
        Joined::Failed(TaskFailure::Cancelled) => None,
        Joined::Failed(TaskFailure::Panicked) => Some(runtime_error()),
    }
}

/// The accounting after a coordinator's end.
pub open spec fn after_join<S>(workers: WorkersModel<S>, joined: Joined<S>) -> WorkersModel<S> {
    match joined_error(joined) {
        Some(error) => after_failure(workers, error),
        None => workers,
    }
}

/// The result of a run: the first failure wins over a clean exit.
pub open spec fn run_result<S>(
    first_error: Option<ConsumerError<S>>,
    exit: Option<ConsumerExit>,
) -> Result<ConsumerExit, ConsumerError<S>> {
    match (first_error, exit) {
        (Some(error), _) => Err(error),
        (None, Some(exit)) => Ok(exit),
        (None, None) => Err(runtime_error()),
    }
}

/// What the receive loop waits for.
#[derive(Clone, Copy, Debug, PartialEq, Eq, Structural)]
pub enum LoopWait {
    /// Nothing: the run is to stop.
    Stop,

    /// Cancellation, the stop signal, or the next delivery.
    Receive,

    /// Cancellation, the stop signal, or the end of a coordinator.
    Finish,
}

/// What the receive loop waits for beside so many coordinators and workflow tasks: the source is
/// polled only below capacity.
pub open spec fn next_wait<S>(
    workers: WorkersModel<S>,
    coordinators: nat,
    workflows: nat,
) -> LoopWait {
    if workers.stopped {
        LoopWait::Stop
    } else if coordinators < workers.capacity && workflows < workers.capacity {
        LoopWait::Receive
    } else {
        LoopWait::Finish
    }
}

/// What the receive loop waited for.
pub enum LoopEvent<S> {
    /// The caller cancelled the consumer.
    Cancelled,

    /// The run is to stop.
    Stopped,

    /// A delivery was received and handed to its coordinator, or the source reported its close
    /// along with it.
    Dispatched {
        /// Whether the source is closed.
        closed: bool,
    },

    /// The source is closed.
    Closed,

    /// Receiving failed.
    Failed(ConsumerError<S>),

    /// A coordinator ended.
    Finished(Joined<S>),
}

/// How the receive loop goes on.
#[derive(Clone, Copy, Debug, PartialEq, Eq, Structural)]
pub enum LoopNext {
    /// It waits again.
    Continue,

    /// It ends, and the deliveries in flight are drained.
    Break(Option<ConsumerExit>),
}

/// The accounting after the receive loop waited.
pub open spec fn after_event<S>(workers: WorkersModel<S>, event: LoopEvent<S>) -> WorkersModel<S> {
    match event {
        LoopEvent::Failed(error) => after_failure(workers, error),
        LoopEvent::Finished(joined) => after_join(workers, joined),
        _ => workers,
    }
}

/// How the receive loop goes on after it waited.
pub open spec fn next_turn<S>(event: LoopEvent<S>) -> LoopNext {
    match event {
        LoopEvent::Cancelled => LoopNext::Break(Some(ConsumerExit::Cancelled)),
        LoopEvent::Stopped => LoopNext::Break(None),
        LoopEvent::Dispatched { closed } => if closed {
            LoopNext::Break(Some(ConsumerExit::SourceClosed))
        } else {
            LoopNext::Continue
        },
        LoopEvent::Closed => LoopNext::Break(Some(ConsumerExit::SourceClosed)),
        LoopEvent::Failed(_) => LoopNext::Break(None),
        LoopEvent::Finished(_) => LoopNext::Continue,
    }
}

/// What the drain waited for.
pub enum DrainEvent<S> {
    /// A coordinator ended.
    Joined(Joined<S>),

    /// Every coordinator has ended.
    Empty,

    /// The drain deadline passed.
    Deadline,
}

/// How the drain goes on.
#[derive(Clone, Copy, Debug, PartialEq, Eq, Structural)]
pub enum DrainNext {
    /// It waits again.
    Wait,

    /// Every coordinator is aborted, which leaves its delivery unsettled.
    Abort,

    /// It waits for the workflow tasks to be dropped, and is then done.
    Done,
}

/// The accounting after the drain waited.
pub open spec fn after_drain<S>(workers: WorkersModel<S>, event: DrainEvent<S>) -> WorkersModel<S> {
    match event {
        DrainEvent::Joined(joined) => after_join(workers, joined),
        _ => workers,
    }
}

/// How the drain goes on after it waited.
pub open spec fn next_drain<S>(event: DrainEvent<S>) -> DrainNext {
    match event {
        DrainEvent::Joined(_) => DrainNext::Wait,
        DrainEvent::Empty => DrainNext::Done,
        DrainEvent::Deadline => DrainNext::Abort,
    }
}

impl<S> View for Workers<S> {
    type V = WorkersModel<S>;

    closed spec fn view(&self) -> WorkersModel<S> {
        WorkersModel {
            capacity: self.capacity,
            stopped: self.stopped,
            first_error: self.first_error,
        }
    }
}

impl<S> Workers<S> {
    /// The accounting of a run that admits so many deliveries at a time.
    pub fn new(capacity: usize) -> (workers: Self)
        ensures
            workers@ == (WorkersModel::<S> { capacity, stopped: false, first_error: None }),
    {
        Workers { capacity, stopped: false, first_error: None }
    }

    /// Reports whether another delivery may be admitted beside so many coordinators and workflow
    /// tasks.
    ///
    /// A delivery has a place from its dispatch until its coordinator is reaped and its workflow
    /// task, the only owner of its transaction, is dropped.
    pub fn has_capacity(&self, coordinators: usize, workflows: usize) -> (capacity: bool)
        ensures
            capacity == (coordinators < self@.capacity && workflows < self@.capacity),
    {
        coordinators < self.capacity && workflows < self.capacity
    }

    /// Whether the run is to stop.
    pub fn is_stopped(&self) -> (stopped: bool)
        ensures
            stopped == self@.stopped,
    {
        self.stopped
    }

    /// Records a coordinator's end.
    pub fn record(&mut self, joined: Joined<S>)
        ensures
            final(self)@ == after_join(old(self)@, joined),
    {
        match joined {
            Joined::Returned(Ok(())) => {},
            Joined::Returned(Err(error)) => self.fail(error),
            Joined::Failed(TaskFailure::Cancelled) => {},
            Joined::Failed(TaskFailure::Panicked) => self.fail(
                ConsumerError::new(ConsumerErrorKind::Runtime, FailureKind::Permanent, None),
            ),
        }
    }

    /// Keeps the first fatal failure and stops receiving.
    pub fn fail(&mut self, error: ConsumerError<S>)
        ensures
            final(self)@ == after_failure(old(self)@, error),
    {
        if self.first_error.is_none() {
            self.first_error = Some(error);
        }

        self.stopped = true;
    }

    /// Decides what the receive loop waits for. The source is polled only below capacity.
    pub fn wait(&self, coordinators: usize, workflows: usize) -> (wait: LoopWait)
        ensures
            wait == next_wait(self@, coordinators as nat, workflows as nat),
    {
        if self.stopped {
            LoopWait::Stop
        } else if self.has_capacity(coordinators, workflows) {
            LoopWait::Receive
        } else {
            LoopWait::Finish
        }
    }

    /// Decides how the receive loop goes on.
    pub fn turn(&mut self, event: LoopEvent<S>) -> (next: LoopNext)
        ensures
            next == next_turn(event),
            final(self)@ == after_event(old(self)@, event),
    {
        match event {
            LoopEvent::Cancelled => LoopNext::Break(Some(ConsumerExit::Cancelled)),
            LoopEvent::Stopped => LoopNext::Break(None),
            LoopEvent::Dispatched { closed } => if closed {
                LoopNext::Break(Some(ConsumerExit::SourceClosed))
            } else {
                LoopNext::Continue
            },
            LoopEvent::Closed => LoopNext::Break(Some(ConsumerExit::SourceClosed)),
            LoopEvent::Failed(error) => {
                self.fail(error);

                LoopNext::Break(None)
            },
            LoopEvent::Finished(joined) => {
                self.record(joined);

                LoopNext::Continue
            },
        }
    }

    /// Decides how the drain goes on. One deadline bounds it as a whole; failures observed while
    /// draining are still recorded.
    pub fn drain(&mut self, event: DrainEvent<S>) -> (next: DrainNext)
        ensures
            next == next_drain(event),
            final(self)@ == after_drain(old(self)@, event),
    {
        match event {
            DrainEvent::Joined(joined) => {
                self.record(joined);

                DrainNext::Wait
            },
            DrainEvent::Empty => DrainNext::Done,
            DrainEvent::Deadline => DrainNext::Abort,
        }
    }

    /// Resolves the run's result: the first failure wins over the first clean exit.
    pub fn finish(self, exit: Option<ConsumerExit>) -> (result: Result<
        ConsumerExit,
        ConsumerError<S>,
    >)
        ensures
            result == run_result(self@.first_error, exit),
    {
        match self.first_error {
            Some(error) => Err(error),
            None => match exit {
                Some(exit) => Ok(exit),
                None => Err(
                    ConsumerError::new(ConsumerErrorKind::Runtime, FailureKind::Permanent, None),
                ),
            },
        }
    }
}

/// The stable telemetry label of a run's result.
pub open spec fn result_text<S>(result: Result<ConsumerExit, ConsumerError<S>>) -> Seq<char> {
    match result {
        Ok(ConsumerExit::Cancelled) => "cancelled"@,
        Ok(ConsumerExit::SourceClosed) => "source_closed"@,
        Err(_) => "failed"@,
    }
}

/// Returns the stable telemetry label of a run's result.
pub fn result_label<S>(result: &Result<ConsumerExit, ConsumerError<S>>) -> (label: &'static str)
    ensures
        label@ == result_text(*result),
{
    match result {
        Ok(ConsumerExit::Cancelled) => "cancelled",
        Ok(ConsumerExit::SourceClosed) => "source_closed",
        Err(_) => "failed",
    }
}

/// One thing that happens to the accounting of a run.
pub enum RunEvent<S> {
    /// The receive loop waited.
    Loop(LoopEvent<S>),

    /// A received item could not be dispatched.
    Refused(ConsumerError<S>),

    /// The drain waited.
    Drain(DrainEvent<S>),
}

/// The failure that an event brings, if it does.
pub open spec fn event_error<S>(event: RunEvent<S>) -> Option<ConsumerError<S>> {
    match event {
        RunEvent::Loop(LoopEvent::Failed(error)) => Some(error),
        RunEvent::Loop(LoopEvent::Finished(joined)) => joined_error(joined),
        RunEvent::Refused(error) => Some(error),
        RunEvent::Drain(DrainEvent::Joined(joined)) => joined_error(joined),
        _ => None,
    }
}

/// The accounting after an event.
pub open spec fn after_run_event<S>(
    workers: WorkersModel<S>,
    event: RunEvent<S>,
) -> WorkersModel<S> {
    match event {
        RunEvent::Loop(event) => after_event(workers, event),
        RunEvent::Refused(error) => after_failure(workers, error),
        RunEvent::Drain(event) => after_drain(workers, event),
    }
}

/// The accounting after a row of events.
pub open spec fn after_run_events<S>(
    workers: WorkersModel<S>,
    events: Seq<RunEvent<S>>,
) -> WorkersModel<S>
    decreases events.len(),
{
    if events.len() == 0 {
        workers
    } else {
        after_run_event(after_run_events(workers, events.drop_last()), events.last())
    }
}

/// The first failure of a run is the one it reports, whatever brings it, whatever else happens in
/// the receive loop and the drain, and however the run exits.
pub proof fn law_first_failure_wins<S>(
    workers: WorkersModel<S>,
    events: Seq<RunEvent<S>>,
    first: int,
    exit: Option<ConsumerExit>,
)
    requires
        workers.first_error is None,
        0 <= first < events.len(),
        event_error(events[first]) is Some,
        forall|i: int| 0 <= i < first ==> event_error(#[trigger] events[i]) is None,
    ensures
        ({
            let after = after_run_events(workers, events);
            let error = event_error(events[first])->Some_0;
            &&& after.stopped
            &&& after.first_error == Some(error)
            &&& run_result(after.first_error, exit) == Err::<ConsumerExit, ConsumerError<S>>(error)
        }),
    decreases events.len(),
{
    let before = events.drop_last();
    if first == events.len() - 1 {
        assert forall|i: int| 0 <= i < before.len() implies event_error(
            #[trigger] before[i],
        ) is None by {
            assert(before[i] == events[i]);
        }
        lemma_no_failure(workers, before);
    } else {
        assert(before[first] == events[first]);
        assert forall|i: int| 0 <= i < first implies event_error(#[trigger] before[i]) is None by {
            assert(before[i] == events[i]);
        }
        law_first_failure_wins(workers, before, first, exit);
    }
}

proof fn lemma_no_failure<S>(workers: WorkersModel<S>, events: Seq<RunEvent<S>>)
    requires
        forall|i: int| 0 <= i < events.len() ==> event_error(#[trigger] events[i]) is None,
    ensures
        after_run_events(workers, events) == workers,
    decreases events.len(),
{
    if events.len() > 0 {
        let before = events.drop_last();
        assert forall|i: int| 0 <= i < before.len() implies event_error(
            #[trigger] before[i],
        ) is None by {
            assert(before[i] == events[i]);
        }
        lemma_no_failure(workers, before);
        assert(event_error(events[events.len() - 1]) is None);
    }
}

/// A run in which nothing fails, neither in the receive loop nor in the drain, exits as it was
/// asked to.
pub proof fn law_clean_runs_exit_cleanly<S>(
    workers: WorkersModel<S>,
    events: Seq<RunEvent<S>>,
    exit: ConsumerExit,
)
    requires
        workers.first_error is None,
        forall|i: int| 0 <= i < events.len() ==> event_error(#[trigger] events[i]) is None,
    ensures
        after_run_events(workers, events) == workers,
        run_result(after_run_events(workers, events).first_error, Some(exit)) == Ok::<
            ConsumerExit,
            ConsumerError<S>,
        >(exit),
{
    lemma_no_failure(workers, events);
}

/// One thing that changes how many deliveries and workflow tasks there are.
pub enum Occupancy<S> {
    /// The loop waited for a delivery, and dispatched it with its workflow task.
    Dispatched,

    /// A delivery's coordinator ended and was reaped.
    Reaped(Joined<S>),

    /// A workflow task, and so its transaction, was dropped.
    Dropped,
}

/// A run while deliveries come and go.
pub struct RunModel<S> {
    /// The accounting.
    pub workers: WorkersModel<S>,

    /// How many deliveries are in flight.
    pub in_flight: nat,

    /// How many workflow tasks there are, each the only owner of a transaction.
    pub workflows: nat,
}

/// Whether a run can change so: a delivery is dispatched only where the loop waits for one.
pub open spec fn can_change<S>(run: RunModel<S>, change: Occupancy<S>) -> bool {
    match change {
        Occupancy::Dispatched => next_wait(
            run.workers,
            run.in_flight,
            run.workflows,
        ) is Receive,
        Occupancy::Reaped(_) => run.in_flight > 0,
        Occupancy::Dropped => run.workflows > 0,
    }
}

/// The run after a change.
pub open spec fn changed<S>(run: RunModel<S>, change: Occupancy<S>) -> RunModel<S> {
    match change {
        Occupancy::Dispatched => RunModel {
            in_flight: run.in_flight + 1,
            workflows: run.workflows + 1,
            ..run
        },
        Occupancy::Reaped(joined) => RunModel {
            workers: after_join(run.workers, joined),
            in_flight: (run.in_flight - 1) as nat,
            ..run
        },
        Occupancy::Dropped => RunModel { workflows: (run.workflows - 1) as nat, ..run },
    }
}

/// The run after a row of changes, from its start on.
pub open spec fn run_after<S>(capacity: usize, changes: Seq<Occupancy<S>>) -> RunModel<S>
    decreases changes.len(),
{
    if changes.len() == 0 {
        RunModel {
            workers: WorkersModel { capacity, stopped: false, first_error: None },
            in_flight: 0,
            workflows: 0,
        }
    } else {
        changed(run_after(capacity, changes.drop_last()), changes.last())
    }
}

/// A row of changes each of which could happen when it did.
pub open spec fn is_run_of<S>(capacity: usize, changes: Seq<Occupancy<S>>) -> bool
    decreases changes.len(),
{
    changes.len() > 0 ==> is_run_of(capacity, changes.drop_last()) && can_change(
        run_after(capacity, changes.drop_last()),
        changes.last(),
    )
}

/// A run never has more deliveries in flight, nor more workflow tasks and so open transactions, than
/// its capacity, since it dispatches a delivery only where [`Workers::wait`] lets it receive.
pub proof fn law_capacity_bounds_deliveries<S>(capacity: usize, changes: Seq<Occupancy<S>>)
    requires
        is_run_of(capacity, changes),
    ensures
        run_after(capacity, changes).in_flight <= capacity,
        run_after(capacity, changes).workflows <= capacity,
        run_after(capacity, changes).workers.capacity == capacity,
    decreases changes.len(),
{
    if changes.len() > 0 {
        law_capacity_bounds_deliveries(capacity, changes.drop_last());
    }
}

/// A run that has failed dispatches nothing more.
pub proof fn law_failed_runs_dispatch_nothing<S>(run: RunModel<S>, error: ConsumerError<S>)
    ensures
        !can_change(
            RunModel { workers: after_failure(run.workers, error), ..run },
            Occupancy::Dispatched,
        ),
{
}

/// A run that is not to stop receives exactly while both its deliveries and its workflow tasks are
/// below its capacity, and waits for a coordinator to end otherwise. One that is to stop does
/// neither, however much room it has.
pub proof fn law_runs_receive_below_capacity<S>(
    workers: WorkersModel<S>,
    coordinators: nat,
    workflows: nat,
)
    ensures
        ({
            let wait = next_wait(workers, coordinators, workflows);
            &&& wait is Stop <==> workers.stopped
            &&& wait is Receive <==> !workers.stopped && coordinators < workers.capacity
                && workflows < workers.capacity
            &&& wait is Finish <==> !workers.stopped && (coordinators >= workers.capacity
                || workflows >= workers.capacity)
        }),
{
}

/// The receive loop ends cleanly exactly when it was cancelled or the source is closed, ends
/// without an exit when the run is to stop or receiving failed, and goes on otherwise.
pub proof fn law_loop_ends_for_cause<S>(event: LoopEvent<S>)
    ensures
        ({
            let next = next_turn(event);
            &&& next == LoopNext::Break(Some(ConsumerExit::Cancelled)) <==> event is Cancelled
            &&& next == LoopNext::Break(Some(ConsumerExit::SourceClosed)) <==> event is Closed
                || event == (LoopEvent::<S>::Dispatched { closed: true })
            &&& next == LoopNext::Break(None) <==> event is Stopped || event is Failed
            &&& next is Continue <==> event is Finished || event == (LoopEvent::<S>::Dispatched {
                closed: false,
            })
        }),
{
}

/// The drain goes on while coordinators end, is done once there is none, and aborts the rest at its
/// deadline.
pub proof fn law_drain_ends_for_cause<S>(event: DrainEvent<S>)
    ensures
        next_drain(event) is Wait <==> event is Joined,
        next_drain(event) is Done <==> event is Empty,
        next_drain(event) is Abort <==> event is Deadline,
{
}

/// Which failures an event brings: a receive or a dispatch that failed brings its own, a
/// coordinator the one that it returned, and a coordinator that panicked the runtime's. Nothing
/// else fails, not even a coordinator that the drain cancelled.
pub proof fn law_failures_have_a_source<S>(event: RunEvent<S>)
    ensures
        match event {
            RunEvent::Refused(error) => event_error(event) == Some(error),
            RunEvent::Loop(LoopEvent::Failed(error)) => event_error(event) == Some(error),
            RunEvent::Loop(LoopEvent::Finished(joined)) => reports(event_error(event), joined),
            RunEvent::Drain(DrainEvent::Joined(joined)) => reports(event_error(event), joined),
            _ => event_error(event) is None,
        },
{
}

/// A failure that a coordinator's end brings.
pub open spec fn reports<S>(error: Option<ConsumerError<S>>, joined: Joined<S>) -> bool {
    match joined {
        Joined::Returned(Ok(())) => error is None,
        Joined::Returned(Err(returned)) => error == Some(returned),
        Joined::Failed(failure) => match error {
            None => failure is Cancelled,
            Some(error) => failure is Panicked && error.kind is Runtime && error.failure
                is Permanent && error.source is None,
        },
    }
}

/// An event that brings no failure leaves the accounting as it is; one that does stops the run.
pub proof fn law_accounting_changes_only_on_failure<S>(workers: WorkersModel<S>, event: RunEvent<S>)
    ensures
        event_error(event) is None ==> after_run_event(workers, event) == workers,
        event_error(event) matches Some(error) ==> {
            let after = after_run_event(workers, event);
            &&& after.stopped
            &&& after.capacity == workers.capacity
            &&& after.first_error == if workers.first_error is Some {
                workers.first_error
            } else {
                Some(error)
            }
        },
{
}

/// A run without a failure that was never asked to exit has lost its way: that is the runtime's
/// failure. With an exit it ends with just that exit.
pub proof fn law_runs_end_with_failure_or_exit<S>(
    first_error: Option<ConsumerError<S>>,
    exit: Option<ConsumerExit>,
)
    ensures
        match run_result(first_error, exit) {
            Ok(ended) => first_error is None && exit == Some(ended),
            Err(error) => first_error == Some(error) || (first_error is None && exit is None
                && error.kind is Runtime && error.failure is Permanent && error.source is None),
        },
        first_error is Some ==> run_result(first_error, exit) is Err,
{
}

} // verus!
