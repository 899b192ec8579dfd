//! The decisions of the event loop.
//!
//! The program pumps the connection; the loop decides what follows from
//! each pump. It is a function from the state and the outcome of a pump to
//! the next state, the callbacks to run, and what to do next.
use vstd::prelude::*;
use crate::dispatch::{Delivery, DeliveryView, Outcome, batch_outcomes, deliveries_view};
use crate::payload::{Notification, NotificationView, batch_view};
use crate::registry::{Registry, RegistryView};

verus! {

/// How a pump of the connection ended.
#[derive(Debug, PartialEq, Eq)]
pub enum PumpOutcome {
    /// The pump returned. It holds the notifications that arrived, in the
    /// order of the transport; none where the pump timed out.
    Returned(Vec<Notification>),
    /// The transport broke; the text says how.
    Broken(String),
}

pub enum PumpOutcomeView {
    Returned(Seq<NotificationView>),
    Broken(Seq<char>),
}

impl View for PumpOutcome {
    type V = PumpOutcomeView;

    open spec fn view(&self) -> PumpOutcomeView {
        match self {
            PumpOutcome::Returned(batch) => PumpOutcomeView::Returned(batch_view(batch@)),
            PumpOutcome::Broken(why) => PumpOutcomeView::Broken(why@),
        }
    }
}

/// Why a loop stopped.
#[derive(Debug, PartialEq, Eq)]
pub enum StopReason {
    /// The transport broke; the text says how.
    Transport(String),
    /// The program asked the loop to stop.
    Requested,
}

pub enum StopReasonView {
    Transport(Seq<char>),
    Requested,
}

impl View for StopReason {
    type V = StopReasonView;

    open spec fn view(&self) -> StopReasonView {
        match self {
            StopReason::Transport(why) => StopReasonView::Transport(why@),
            StopReason::Requested => StopReasonView::Requested,
        }
    }
}

impl Clone for StopReason {
    fn clone(&self) -> (copy: Self)
        ensures
            copy@ == self@,
    {
        match self {
            StopReason::Transport(why) => StopReason::Transport(why.clone()),
            StopReason::Requested => StopReason::Requested,
        }
    }
}

/// What the program does next.
#[derive(Debug, PartialEq, Eq)]
pub enum Next {
    /// Pump the connection again, waiting at most this many milliseconds.
    Pump { timeout_ms: u64 },
    /// Leave the loop.
    Stop(StopReason),
}

pub enum NextView {
    Pump { timeout_ms: u64 },
    Stop(StopReasonView),
}

impl View for Next {
    type V = NextView;

    open spec fn view(&self) -> NextView {
        match self {
            Next::Pump { timeout_ms } => NextView::Pump { timeout_ms: *timeout_ms },
            Next::Stop(reason) => NextView::Stop(reason@),
        }
    }
}

/// The answer to one pump: the callbacks to run now, in order, what became
/// of each notification of the pump, for the log, and what to do after that.
#[derive(Debug, PartialEq, Eq)]
pub struct Step {
    pub deliveries: Vec<Delivery>,
    pub outcomes: Vec<Outcome>,
    pub next: Next,
}

pub struct StepView {
    pub deliveries: Seq<DeliveryView>,
    pub outcomes: Seq<Outcome>,
    pub next: NextView,
}

impl View for Step {
    type V = StepView;

    open spec fn view(&self) -> StepView {
        StepView {
            deliveries: deliveries_view(self.deliveries@),
            outcomes: self.outcomes@,
            next: self.next@,
        }
    }
}

/// The state of an event loop: the timeout of each pump, and why the loop
/// stopped once it has.
#[derive(Debug, PartialEq, Eq)]
pub struct EventLoop {
    pub timeout_ms: u64,
    pub stopped: Option<StopReason>,
}

pub struct EventLoopView {
    pub timeout_ms: u64,
    pub stopped: Option<StopReasonView>,
}

impl View for EventLoop {
    type V = EventLoopView;

    open spec fn view(&self) -> EventLoopView {
        EventLoopView {
            timeout_ms: self.timeout_ms,
            stopped: match self.stopped {
                Some(reason) => Some(reason@),
                None => None,
            },
        }
    }
}

impl EventLoopView {
    /// The answer of a loop in this state to the outcome of a pump, and the
    /// state after it.
    ///
    /// A loop that has stopped stays stopped and runs nothing. A running
    /// loop stops when the transport broke, and runs nothing then. It goes
    /// on otherwise: it runs what the registry delivers for the batch and
    /// asks for the next pump, also where the batch is empty.
    pub open spec fn step(self, registry: RegistryView, outcome: PumpOutcomeView) -> (
        EventLoopView,
        StepView,
    ) {
        match self.stopped {
            Some(reason) => (
                self,
                StepView {
                    deliveries: Seq::empty(),
                    outcomes: Seq::empty(),
                    next: NextView::Stop(reason),
                },
            ),
            None => match outcome {
                PumpOutcomeView::Broken(why) => (
                    EventLoopView { stopped: Some(StopReasonView::Transport(why)), ..self },
                    StepView {
                        deliveries: Seq::empty(),
                        outcomes: Seq::empty(),
                        next: NextView::Stop(StopReasonView::Transport(why)),
                    },
                ),
                PumpOutcomeView::Returned(batch) => (
                    self,
                    StepView {
                        deliveries: registry.batch_deliveries(batch),
                        outcomes: batch_outcomes(batch),
                        next: NextView::Pump { timeout_ms: self.timeout_ms },
                    },
                ),
            },
        }
    }
}

impl EventLoop {
    /// A running loop whose pumps wait at most `timeout_ms` milliseconds.
    pub fn new(timeout_ms: u64) -> (event_loop: EventLoop)
        ensures
            event_loop@ == (EventLoopView { timeout_ms, stopped: None }),
    {
        EventLoop { timeout_ms, stopped: None }
    }

    /// What the program does first: pump where the loop runs, leave where it
    /// has stopped.
    pub fn first(&self) -> (next: Next)
        ensures
            next@ == match self@.stopped {
                Some(reason) => NextView::Stop(reason),
                None => NextView::Pump { timeout_ms: self.timeout_ms },
            },
    {
        match &self.stopped {
            Some(reason) => Next::Stop(reason.clone()),
            None => Next::Pump { timeout_ms: self.timeout_ms },
        }
    }

    /// Asks a running loop to stop; the next step says so. A loop that has
    /// stopped keeps its reason.
    pub fn request_stop(&mut self)
        ensures
            final(self)@ == (EventLoopView {
                stopped: match old(self)@.stopped {
                    Some(reason) => Some(reason),
                    None => Some(StopReasonView::Requested),
                },
                ..old(self)@
            }),
    {
        if self.stopped.is_none() {
            self.stopped = Some(StopReason::Requested);
        }
    }

    /// Answers the outcome of one pump.
    pub fn step(&mut self, registry: &Registry, outcome: PumpOutcome) -> (step: Step)
        ensures
            (final(self)@, step@) == old(self)@.step(registry@, outcome@),
    {
        match &self.stopped {
            Some(reason) => {
                let next = Next::Stop(reason.clone());
                let step = Step { deliveries: Vec::new(), outcomes: Vec::new(), next };
                assert(step@.deliveries =~= Seq::empty());
                assert(step@.outcomes =~= Seq::empty());
                return step;
            },
            None => {},
        }
        match outcome {
            PumpOutcome::Broken(why) => {
                let next = Next::Stop(StopReason::Transport(why.clone()));
                self.stopped = Some(StopReason::Transport(why));
                let step = Step { deliveries: Vec::new(), outcomes: Vec::new(), next };
                assert(step@.deliveries =~= Seq::empty());
                assert(step@.outcomes =~= Seq::empty());
                step
            },
            PumpOutcome::Returned(batch) => {
                let answer = registry.dispatch_batch(&batch);
                Step {
                    deliveries: answer.deliveries,
                    outcomes: answer.outcomes,
                    next: Next::Pump { timeout_ms: self.timeout_ms },
                }
            },
        }
    }
}

impl EventLoopView {
    /// A loop leaves the running state only through a broken transport or a
    /// request to stop: a pump that returned, with or without notifications,
    /// keeps a running loop running and asks for the next pump.
    pub proof fn lemma_returned_pump_goes_on(
        self,
        registry: RegistryView,
        batch: Seq<NotificationView>,
    )
        requires
            self.stopped is None,
        ensures
            self.step(registry, PumpOutcomeView::Returned(batch)).0 == self,
            self.step(registry, PumpOutcomeView::Returned(batch)).1.next == (NextView::Pump {
                timeout_ms: self.timeout_ms,
            }),
    {
    }

    /// A stopped loop never runs a callback again, whatever is pumped.
    pub proof fn lemma_stopped_stays_stopped(self, registry: RegistryView, outcome: PumpOutcomeView)
        requires
            self.stopped is Some,
        ensures
            self.step(registry, outcome).0 == self,
            self.step(registry, outcome).1.deliveries.len() == 0,
            self.step(registry, outcome).1.next == NextView::Stop(self.stopped->Some_0),
    {
    }
}

} // verus!
