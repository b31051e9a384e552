//! The run coordinator: the decisions that take one run from its submission
//! to its end.
//!
//! The coordinator does no work itself. It answers each [`Event`] with the
//! next [`Action`]; the caller carries the action out, against the run store
//! or the capture worker, and reports back. Items are handled one after the
//! other in the order of submission, each with exactly one capture attempt.
//!
//! No report of a write is dropped. A run whose row the store did not take is
//! rejected. Every later write that the store did not take is counted as
//! lost: an item that could not be registered is not captured, and a run that
//! has lost a write is never marked as `completed`. It ends stalled
//! instead, and the caller is told how many writes were lost. The run's
//! completion is asked for only when every item's outcome is in the store.

use vstd::prelude::*;
use crate::capture::{
    capture_request, classify, outcome_of, request_for, CaptureReply, CaptureReplyView,
    CaptureRequest, CaptureRequestView,
};
use crate::ident::random_id;
use crate::status::RunStatus;
use crate::store::{Write, WriteView};

verus! {

/// Where a run stands. Each phase but the first and the three last waits for
/// the report on the action that led into it.
#[derive(Clone, Copy, Debug, PartialEq, Eq, Structural)]
pub enum Phase {
    /// Submitted; nothing has been asked for yet.
    Accepted,
    /// The run's row is being written.
    Creating,
    /// The current item is being registered as `pending`.
    Registering,
    /// The current item is with the capture worker.
    Capturing,
    /// The current item's outcome is being written.
    Recording,
    /// The run's completion is being written.
    Completing,
    /// The run is over and `completed`.
    Done,
    /// The run's row could not be written; the run never started.
    Rejected,
    /// The run is over but not `completed`: the store did not take one of its
    /// writes.
    Stalled,
}

/// What the caller reports to the coordinator.
#[derive(Clone, Debug, PartialEq, Eq)]
pub enum Event {
    /// The run was submitted.
    Begin,
    /// The write that was asked for was attempted; `accepted` tells whether
    /// the store took it.
    Written { accepted: bool },
    /// The capture call that was asked for ended with this reply.
    Captured(CaptureReply),
}

pub enum EventView {
    Begin,
    Written { accepted: bool },
    Captured(CaptureReplyView),
}

impl View for Event {
    type V = EventView;

    open spec fn view(&self) -> EventView {
        match self {
            Event::Begin => EventView::Begin,
            Event::Written { accepted } => EventView::Written { accepted: *accepted },
            Event::Captured(reply) => EventView::Captured(reply@),
        }
    }
}

/// What the coordinator asks the caller to do next.
#[derive(Clone, Debug, PartialEq, Eq)]
pub enum Action {
    /// Attempt this write once and report `Event::Written`.
    Store(Write),
    /// Call the capture worker once and report `Event::Captured`.
    Capture(CaptureRequest),
    /// The run could not be created: tell the submitter.
    Reject,
    /// The run is over and `completed`; there is nothing left to report.
    Finish,
    /// The run is over but could not be completed: the store did not take
    /// `lost` of its writes, and still shows the run as `running`. Tell
    /// whoever watches over runs.
    Stall { lost: usize },
    /// The event was not the one waited for; it was ignored.
    Idle,
}

pub enum ActionView {
    Store(WriteView),
    Capture(CaptureRequestView),
    Reject,
    Finish,
    Stall { lost: nat },
    Idle,
}

impl View for Action {
    type V = ActionView;

    open spec fn view(&self) -> ActionView {
        match self {
            Action::Store(write) => ActionView::Store(write@),
            Action::Capture(request) => ActionView::Capture(request@),
            Action::Reject => ActionView::Reject,
            Action::Finish => ActionView::Finish,
            Action::Stall { lost } => ActionView::Stall { lost: *lost as nat },
            Action::Idle => ActionView::Idle,
        }
    }
}

/// The answer to a submission.
#[derive(Clone, Copy, Debug, PartialEq, Eq, Structural)]
pub struct Receipt {
    pub id: u128,
    pub status: RunStatus,
}

/// The texts of a vector of strings.
pub open spec fn texts(strings: Seq<String>) -> Seq<Seq<char>> {
    strings.map_values(|s: String| s@)
}

/// The state of one run's coordination.
pub struct CoordinatorView {
    pub run_id: u128,
    /// Base address of the capture worker.
    pub worker: Seq<char>,
    pub urls: Seq<Seq<char>>,
    /// How many URLs have been dealt with; also the position of the current
    /// one.
    pub next: nat,
    /// Identifier of the current item.
    pub item: u128,
    /// How many writes the store did not take, the run's row apart.
    pub lost: nat,
    pub phase: Phase,
}

impl CoordinatorView {
    /// The state of a run that was just submitted.
    pub open spec fn accepted(
        run_id: u128,
        worker: Seq<char>,
        urls: Seq<Seq<char>>,
    ) -> CoordinatorView {
        CoordinatorView { run_id, worker, urls, next: 0, item: 0, lost: 0, phase: Phase::Accepted }
    }

    pub open spec fn wf(self) -> bool {
        match self.phase {
            Phase::Accepted | Phase::Creating | Phase::Rejected => self.next == 0 && self.lost
                == 0,
            Phase::Registering | Phase::Capturing | Phase::Recording => self.next
                < self.urls.len() && self.lost <= self.next,
            Phase::Completing | Phase::Done => self.next == self.urls.len() && self.lost == 0,
            Phase::Stalled => self.next == self.urls.len() && 1 <= self.lost <= self.next + 1,
        }
    }

    /// The status that the store shows for the run, as far as the coordinator
    /// knows; none while the run's row is not known to be written.
    pub open spec fn shown(self) -> Option<RunStatus> {
        match self.phase {
            Phase::Accepted | Phase::Creating | Phase::Rejected => None,
            Phase::Done => Some(RunStatus::Completed),
            _ => Some(RunStatus::Running),
        }
    }

    /// What follows once `next` URLs are dealt with. If a URL is left, its
    /// item is registered under the identifier `fresh`. If none is left, the
    /// run's completion is written, unless a write was lost: then the run
    /// stalls.
    pub open spec fn proceed(self, fresh: u128) -> (CoordinatorView, ActionView) {
        if self.next < self.urls.len() {
            (
                CoordinatorView { item: fresh, phase: Phase::Registering, ..self },
                ActionView::Store(
                    WriteView::InsertItem {
                        id: fresh,
                        run_id: self.run_id,
                        url: self.urls[self.next as int],
                    },
                ),
            )
        } else if self.lost == 0 {
            (
                CoordinatorView { phase: Phase::Completing, ..self },
                ActionView::Store(WriteView::CompleteRun { id: self.run_id }),
            )
        } else {
            (
                CoordinatorView { phase: Phase::Stalled, ..self },
                ActionView::Stall { lost: self.lost },
            )
        }
    }

    /// What follows once the current item is dealt with; `taken` tells whether
    /// the store took the last write for it.
    pub open spec fn leave_item(self, taken: bool, fresh: u128) -> (
        CoordinatorView,
        ActionView,
    ) {
        CoordinatorView {
            next: self.next + 1,
            lost: if taken {
                self.lost
            } else {
                self.lost + 1
            },
            ..self
        }.proceed(fresh)
    }

    /// Whether `event` reports, in its turn, a write of an item or of the
    /// run's completion that the store did not take.
    pub open spec fn loses(self, event: EventView) -> bool {
        &&& event matches EventView::Written { accepted: false }
        &&& self.phase == Phase::Registering || self.phase == Phase::Recording || self.phase
            == Phase::Completing
    }

    /// Whether `event` makes the coordinator register an item, for which it
    /// needs a new identifier.
    pub open spec fn registers(self, event: EventView) -> bool {
        match (self.phase, event) {
            (Phase::Creating, EventView::Written { accepted }) => accepted && 0
                < self.urls.len(),
            (Phase::Registering, EventView::Written { accepted }) => !accepted && self.next + 1
                < self.urls.len(),
            (Phase::Recording, EventView::Written { .. }) => self.next + 1 < self.urls.len(),
            _ => false,
        }
    }

    /// The coordinator's answer to `event`: the next state and the action asked
    /// for. `fresh` is the identifier that a newly registered item gets.
    ///
    /// - A run whose row was not taken is rejected.
    /// - An item whose registration was not taken is not captured: the loss is
    ///   counted and the next URL is taken up.
    /// - A reply of the worker, whatever it is, settles its item, and the item's
    ///   outcome is written.
    /// - Whether that write was taken or not, the next URL is taken up; a loss
    ///   is counted.
    /// - A completion that was not taken stalls the run.
    /// - An event that is not the one waited for changes nothing.
    pub open spec fn step(self, event: EventView, fresh: u128) -> (CoordinatorView, ActionView) {
        match (self.phase, event) {
            (Phase::Accepted, EventView::Begin) => (
                CoordinatorView { phase: Phase::Creating, ..self },
                ActionView::Store(WriteView::InsertRun { id: self.run_id }),
            ),
            (Phase::Creating, EventView::Written { accepted }) => if accepted {
                self.proceed(fresh)
            } else {
                (CoordinatorView { phase: Phase::Rejected, ..self }, ActionView::Reject)
            },
            (Phase::Registering, EventView::Written { accepted }) => if accepted {
                (
                    CoordinatorView { phase: Phase::Capturing, ..self },
                    ActionView::Capture(request_for(self.worker, self.urls[self.next as int])),
                )
            } else {
                self.leave_item(false, fresh)
            },
            (Phase::Capturing, EventView::Captured(reply)) => (
                CoordinatorView { phase: Phase::Recording, ..self },
                ActionView::Store(
                    WriteView::SettleItem { id: self.item, outcome: outcome_of(reply) },
                ),
            ),
            (Phase::Recording, EventView::Written { accepted }) => self.leave_item(
                accepted,
                fresh,
            ),
            (Phase::Completing, EventView::Written { accepted }) => if accepted {
                (CoordinatorView { phase: Phase::Done, ..self }, ActionView::Finish)
            } else {
                (
                    CoordinatorView { phase: Phase::Stalled, lost: 1, ..self },
                    ActionView::Stall { lost: 1 },
                )
            },
            _ => (self, ActionView::Idle),
        }
    }
}

/// A step leaves a well-formed state well formed.
pub proof fn lemma_step_keeps_wf(state: CoordinatorView, event: EventView, fresh: u128)
    requires
        state.wf(),
    ensures
        state.step(event, fresh).0.wf(),
{
}

/// No report of a lost write is dropped: a step counts it, and a step that
/// gets no such report leaves the count as it is.
pub proof fn lemma_every_loss_is_counted(state: CoordinatorView, event: EventView, fresh: u128)
    requires
        state.wf(),
    ensures
        state.step(event, fresh).0.lost == state.lost + if state.loses(event) {
            1nat
        } else {
            0nat
        },
{
}

/// A run that has lost a write is never completed: the step after a loss
/// never asks for the run's completion and never ends the run as done.
pub proof fn lemma_no_completion_after_a_loss(
    state: CoordinatorView,
    event: EventView,
    fresh: u128,
)
    requires
        state.wf(),
        state.lost > 0 || state.loses(event),
    ensures
        !(state.step(event, fresh).1 matches ActionView::Store(WriteView::CompleteRun { .. })),
        state.step(event, fresh).1 !is Finish,
        state.step(event, fresh).0.phase != Phase::Done,
        state.step(event, fresh).0.phase != Phase::Completing,
        state.step(event, fresh).0.lost > 0,
{
}

/// How far a run has come.
#[derive(Clone, Copy)]
struct Progress {
    next: usize,
    item: u128,
    lost: usize,
    phase: Phase,
}

/// The coordinator of one run.
pub struct Coordinator {
    run_id: u128,
    worker: String,
    urls: Vec<String>,
    progress: Progress,
}

impl View for Coordinator {
    type V = CoordinatorView;

    closed spec fn view(&self) -> CoordinatorView {
        CoordinatorView {
            run_id: self.run_id,
            worker: self.worker@,
            urls: texts(self.urls@),
            next: self.progress.next as nat,
            item: self.progress.item,
            lost: self.progress.lost as nat,
            phase: self.progress.phase,
        }
    }
}

impl Coordinator {
    #[verifier::type_invariant]
    spec fn inv(&self) -> bool {
        self@.wf()
    }

    /// Accepts a submission under the run identifier `run_id`. `urls` may be
    /// empty: such a run is created and completed with no item.
    pub fn new(run_id: u128, worker: String, urls: Vec<String>) -> (r: Coordinator)
        ensures
            r@ == CoordinatorView::accepted(run_id, worker@, texts(urls@)),
            r@.wf(),
    {
        Coordinator {
            run_id,
            worker,
            urls,
            progress: Progress { next: 0, item: 0, lost: 0, phase: Phase::Accepted },
        }
    }

    /// Accepts a submission under a newly drawn run identifier. Nothing is
    /// known of the identifier: two submissions of the same URLs are two runs
    /// only if the store accepts both.
    pub fn submit(worker: String, urls: Vec<String>) -> (r: Coordinator)
        ensures
            r@ == CoordinatorView::accepted(r@.run_id, worker@, texts(urls@)),
            r@.wf(),
    {
        Coordinator::new(random_id(), worker, urls)
    }

    pub fn run_id(&self) -> (r: u128)
        ensures
            r == self@.run_id,
    {
        self.run_id
    }

    pub fn phase(&self) -> (r: Phase)
        ensures
            r == self@.phase,
    {
        self.progress.phase
    }

    /// How many writes the store did not take so far.
    pub fn lost(&self) -> (r: usize)
        ensures
            r == self@.lost,
    {
        self.progress.lost
    }

    /// What the submitter is told: the run's identifier and the status that
    /// the store shows for it. There is none before the run's row is
    /// written, and none for a run that was rejected.
    pub fn receipt(&self) -> (r: Option<Receipt>)
        ensures
            r == match self@.shown() {
                Some(status) => Some(Receipt { id: self@.run_id, status }),
                None => None,
            },
    {
        match self.progress.phase {
            Phase::Accepted | Phase::Creating | Phase::Rejected => None,
            Phase::Done => Some(Receipt { id: self.run_id, status: RunStatus::Completed }),
            _ => Some(Receipt { id: self.run_id, status: RunStatus::Running }),
        }
    }

    /// Whether `event` will make the coordinator register an item.
    pub fn registers(&self, event: &Event) -> (r: bool)
        ensures
            r == self@.registers(event@),
    {
        proof {
            use_type_invariant(self);
        }
        assert(self@.urls.len() == self.urls.len());
        match (self.progress.phase, event) {
            (Phase::Creating, Event::Written { accepted }) => *accepted && 0 < self.urls.len(),
            (Phase::Registering, Event::Written { accepted }) => !*accepted
                && self.progress.next + 1 < self.urls.len(),
            (Phase::Recording, Event::Written { .. }) => self.progress.next + 1
                < self.urls.len(),
            _ => false,
        }
    }

    /// Goes on once `next` URLs are dealt with and `lost` writes are lost.
    fn proceed(&mut self, next: usize, lost: usize, fresh: u128) -> (r: Action)
        requires
            next <= old(self).urls.len(),
            lost <= next,
        ensures
            (final(self)@, r@) == (CoordinatorView {
                next: next as nat,
                lost: lost as nat,
                ..old(self)@
            }).proceed(fresh),
            final(self)@.wf(),
    {
        assert(self@.urls.len() == self.urls.len());
        let item = self.progress.item;
        if next < self.urls.len() {
            self.progress = Progress { next, item: fresh, lost, phase: Phase::Registering };
            Action::Store(
                Write::InsertItem { id: fresh, run_id: self.run_id, url: self.urls[next].clone() },
            )
        } else if lost == 0 {
            self.progress = Progress { next, item, lost, phase: Phase::Completing };
            Action::Store(Write::CompleteRun { id: self.run_id })
        } else {
            self.progress = Progress { next, item, lost, phase: Phase::Stalled };
            Action::Stall { lost }
        }
    }

    fn enter(&mut self, phase: Phase)
        requires
            (CoordinatorView { phase, ..old(self)@ }).wf(),
        ensures
            final(self)@ == (CoordinatorView { phase, ..old(self)@ }),
    {
        self.progress = Progress { phase, ..self.progress };
    }

    /// Answers `event` with the next action. `fresh` becomes the identifier of
    /// the item that is registered, if one is.
    pub fn advance(&mut self, event: Event, fresh: u128) -> (r: Action)
        ensures
            (final(self)@, r@) == old(self)@.step(event@, fresh),
            final(self)@.wf(),
    {
        proof {
            use_type_invariant(&*self);
        }
        assert(self@.urls.len() == self.urls.len());
        let next = self.progress.next;
        let lost = self.progress.lost;
        match (self.progress.phase, event) {
            (Phase::Accepted, Event::Begin) => {
                self.enter(Phase::Creating);
                Action::Store(Write::InsertRun { id: self.run_id })
            },
            (Phase::Creating, Event::Written { accepted }) => {
                if accepted {
                    self.proceed(0, 0, fresh)
                } else {
                    self.enter(Phase::Rejected);
                    Action::Reject
                }
            },
            (Phase::Registering, Event::Written { accepted }) => {
                if accepted {
                    self.enter(Phase::Capturing);
                    Action::Capture(
                        capture_request(self.worker.as_str(), self.urls[next].as_str()),
                    )
                } else {
                    self.proceed(next + 1, lost + 1, fresh)
                }
            },
            (Phase::Capturing, Event::Captured(reply)) => {
                self.enter(Phase::Recording);
                Action::Store(
                    Write::SettleItem { id: self.progress.item, outcome: classify(&reply) },
                )
            },
            (Phase::Recording, Event::Written { accepted }) => {
                if accepted {
                    self.proceed(next + 1, lost, fresh)
                } else {
                    self.proceed(next + 1, lost + 1, fresh)
                }
            },
            (Phase::Completing, Event::Written { accepted }) => {
                if accepted {
                    self.enter(Phase::Done);
                    Action::Finish
                } else {
                    self.progress = Progress { lost: 1, phase: Phase::Stalled, ..self.progress };
                    Action::Stall { lost: 1 }
                }
            },
            _ => Action::Idle,
        }
    }

    /// Answers `event` with the next action, drawing a new identifier if an
    /// item is registered. The identifier drawn is then `final(self)@.item`.
    pub fn step(&mut self, event: Event) -> (r: Action)
        ensures
            (final(self)@, r@) == old(self)@.step(event@, final(self)@.item),
            final(self)@.wf(),
    {
        let fresh = if self.registers(&event) {
            random_id()
        } else {
            self.progress.item
        };
        self.advance(event, fresh)
    }
}

} // verus!
