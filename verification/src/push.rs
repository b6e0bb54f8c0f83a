//! The push job: at most one run at a time, its latest progress and the
//! outcome of the last run.
//!
//! `AsyncPush` holds the three slots that a polling caller reads. The threads
//! of a run live outside this crate; every decision they take is a method
//! here. `request` accepts or ignores, `relay_step` handles one raw progress
//! event, `finish` records the outcome and frees the job.

use vstd::prelude::*;
use crate::notify::{send_notification, clone_sender, AsyncNotification};
use crate::progress::{normalize, lemma_normalize_wf, ProgressNotification, PushProgress};

verus! {

/// What to push: a branch, and the remote that receives it.
#[derive(Debug)]
pub struct PushRequest {
    /// Name of the remote.
    pub remote: String,
    /// Name of the branch.
    pub branch: String,
}

/// A request as two character sequences.
pub struct RequestView {
    pub remote: Seq<char>,
    pub branch: Seq<char>,
}

impl View for PushRequest {
    type V = RequestView;

    open spec fn view(&self) -> RequestView {
        RequestView { remote: self.remote@, branch: self.branch@ }
    }
}

impl Clone for PushRequest {
    fn clone(&self) -> (res: Self)
        ensures
            res@ == self@,
    {
        PushRequest { remote: self.remote.clone(), branch: self.branch.clone() }
    }
}

impl Default for PushRequest {
    fn default() -> (res: Self)
        ensures
            res@.remote == Seq::<char>::empty(),
            res@.branch == Seq::<char>::empty(),
    {
        PushRequest { remote: String::new(), branch: String::new() }
    }
}

/// The run in flight.
#[derive(Debug)]
struct PushState {
    request: PushRequest,
}

/// What the relay does after one receive.
#[derive(Clone, Copy, Debug, PartialEq, Eq, Structural)]
pub enum RelayStep {
    /// The event was published; the relay receives again.
    Published,
    /// The sentinel came; the relay ends.
    Finished,
    /// The channel closed without a sentinel; the relay ends.
    Disconnected,
}

/// The three slots of the job as a polling caller sees them.
pub struct PushView {
    /// The request of the run in flight, if one is.
    pub pending: Option<RequestView>,
    /// The failure message of the last completed run; `None` after a
    /// success and before the first run.
    pub last_result: Option<Seq<char>>,
    /// The latest progress of the current or most recent run.
    pub progress: Option<PushProgress>,
}

/// What the relay does on `incoming`, where `None` stands for a closed
/// channel.
pub open spec fn relay_verdict(incoming: Option<ProgressNotification>) -> RelayStep {
    match incoming {
        None => RelayStep::Disconnected,
        Some(ProgressNotification::Done) => RelayStep::Finished,
        Some(_) => RelayStep::Published,
    }
}

/// The number of events that the relay publishes when it is handed `events`
/// in order: those before the first sentinel.
pub open spec fn relay_publishes(events: Seq<ProgressNotification>) -> nat
    decreases events.len(),
{
    if events.len() == 0 || events[0] is Done {
        0
    } else {
        1 + relay_publishes(events.drop_first())
    }
}

impl PushView {
    /// No run in flight, none completed.
    pub open spec fn idle() -> PushView {
        PushView { pending: None, last_result: None, progress: None }
    }

    /// The slots after `request(params)`: a busy job is left as it is, a
    /// free one takes the request and starts with no progress.
    pub open spec fn requested(self, params: RequestView) -> PushView {
        if self.pending is Some {
            self
        } else {
            PushView { pending: Some(params), last_result: self.last_result, progress: None }
        }
    }

    /// The slots after the relay has handled `incoming`: an event other
    /// than the sentinel replaces the progress, anything else changes
    /// nothing.
    pub open spec fn relayed(self, incoming: Option<ProgressNotification>) -> PushView {
        if relay_verdict(incoming) == RelayStep::Published {
            PushView { progress: Some(normalize(incoming->0)), ..self }
        } else {
            self
        }
    }

    /// The slots after the relay has been handed `events` in order. It stops
    /// at the first sentinel.
    pub open spec fn relay_run(self, events: Seq<ProgressNotification>) -> PushView
        decreases events.len(),
    {
        if events.len() == 0 || events[0] is Done {
            self
        } else {
            self.relayed(Some(events[0])).relay_run(events.drop_first())
        }
    }

    /// The slots after the worker has recorded `outcome`: the job is free,
    /// the result is the failure message or none, the progress stays.
    pub open spec fn finished(self, outcome: Result<(), Seq<char>>) -> PushView {
        PushView {
            pending: None,
            last_result: match outcome {
                Ok(_) => None,
                Err(message) => Some(message),
            },
            progress: self.progress,
        }
    }
}

/// A request on a busy job changes nothing: the run in flight keeps its
/// parameters, its progress and the last result.
pub proof fn lemma_busy_request_changes_nothing(slots: PushView, params: RequestView)
    requires
        slots.pending is Some,
    ensures
        slots.requested(params) == slots,
{
}

/// A run starts without progress, and the result of the run before it
/// stays readable.
pub proof fn lemma_accepted_request_resets_progress(slots: PushView, params: RequestView)
    requires
        slots.pending is None,
    ensures
        slots.requested(params).pending == Some(params),
        slots.requested(params).progress is None,
        slots.requested(params).last_result == slots.last_result,
{
}

/// The relay touches the progress only: whatever it is handed, the job
/// stays as busy as it was, with the same request and the same last result.
pub proof fn lemma_relay_keeps_job(slots: PushView, events: Seq<ProgressNotification>)
    ensures
        slots.relay_run(events).pending == slots.pending,
        slots.relay_run(events).last_result == slots.last_result,
    decreases events.len(),
{
    if events.len() != 0 && !(events[0] is Done) {
        lemma_relay_keeps_job(slots.relayed(Some(events[0])), events.drop_first());
    }
}

/// An accepted request stays pending, with its parameters, through every
/// progress event, and is no longer pending once the worker has recorded
/// the outcome.
pub proof fn lemma_pending_until_finished(
    slots: PushView,
    params: RequestView,
    events: Seq<ProgressNotification>,
    outcome: Result<(), Seq<char>>,
)
    requires
        slots.pending is None,
    ensures
        slots.requested(params).relay_run(events).pending == Some(params),
        slots.requested(params).relay_run(events).finished(outcome).pending is None,
{
    lemma_relay_keeps_job(slots.requested(params), events);
}

/// A finished run leaves the job free; its result is none after a success
/// and the message after a failure.
pub proof fn lemma_finished_result(slots: PushView, message: Seq<char>)
    ensures
        slots.finished(Ok(())).pending is None,
        slots.finished(Ok(())).last_result is None,
        slots.finished(Err(message)).pending is None,
        slots.finished(Err(message)).last_result == Some(message),
        slots.finished(Ok(())).progress == slots.progress,
        slots.finished(Err(message)).progress == slots.progress,
{
}

/// Handed any events that hold no sentinel, and then the sentinel, the
/// relay publishes each of the events and nothing for the sentinel: the
/// count is their number, and the progress left behind is that of the last
/// of them (or what it was, where there were none).
pub proof fn lemma_relay_publishes_each_event(slots: PushView, events: Seq<ProgressNotification>)
    requires
        forall|i: int| 0 <= i < events.len() ==> !(#[trigger] events[i] is Done),
    ensures
        relay_publishes(events.push(ProgressNotification::Done)) == events.len(),
        relay_publishes(events) == events.len(),
        slots.relay_run(events.push(ProgressNotification::Done)) == slots.relay_run(events),
        slots.relay_run(events).progress == if events.len() == 0 {
            slots.progress
        } else {
            Some(normalize(events.last()))
        },
    decreases events.len(),
{
    let closed = events.push(ProgressNotification::Done);
    if events.len() == 0 {
        assert(closed[0] is Done);
    } else {
        let rest = events.drop_first();
        assert(closed[0] == events[0]);
        assert(closed.drop_first() == rest.push(ProgressNotification::Done));
        assert forall|i: int| 0 <= i < rest.len() implies !(#[trigger] rest[i] is Done) by {
            assert(rest[i] == events[i + 1]);
        }
        lemma_relay_publishes_each_event(slots.relayed(Some(events[0])), rest);
        if rest.len() != 0 {
            assert(rest.last() == events.last());
        }
    }
}

/// A whole run: from a free job, an accepted request, the events of the
/// backend and the recorded outcome leave the job free, with the outcome as
/// its result and the last event as its progress.
pub proof fn lemma_run_outcome(
    slots: PushView,
    params: RequestView,
    events: Seq<ProgressNotification>,
    outcome: Result<(), Seq<char>>,
)
    requires
        slots.pending is None,
        forall|i: int| 0 <= i < events.len() ==> !(#[trigger] events[i] is Done),
    ensures
        ({
            let end = slots.requested(params).relay_run(
                events.push(ProgressNotification::Done),
            ).finished(outcome);
            &&& end.pending is None
            &&& end.last_result == match outcome {
                Ok(_) => None::<Seq<char>>,
                Err(message) => Some(message),
            }
            &&& end.progress == if events.len() == 0 {
                None
            } else {
                Some(normalize(events.last()))
            }
        }),
{
    lemma_relay_publishes_each_event(slots.requested(params), events);
}

/// The push job of one repository.
pub struct AsyncPush {
    state: Option<PushState>,
    last_result: Option<String>,
    progress: Option<PushProgress>,
    sender: crossbeam_channel::Sender<AsyncNotification>,
}

impl View for AsyncPush {
    type V = PushView;

    closed spec fn view(&self) -> PushView {
        PushView {
            pending: match self.state {
                Some(state) => Some(state.request@),
                None => None,
            },
            last_result: match self.last_result {
                Some(message) => Some(message@),
                None => None,
            },
            progress: self.progress,
        }
    }
}

impl AsyncPush {
    /// The progress slot holds nothing or a percentage of at most 100.
    pub closed spec fn wf(&self) -> bool {
        self.progress matches Some(progress) ==> progress.wf()
    }

    /// The channel through which the job wakes its consumer.
    pub closed spec fn notifier(&self) -> crossbeam_channel::Sender<AsyncNotification> {
        self.sender
    }

    /// An idle job that notifies through the channel of `sender`, by a
    /// handle of its own.
    pub fn new(sender: &crossbeam_channel::Sender<AsyncNotification>) -> (res: Self)
        ensures
            res@ == PushView::idle(),
            res.notifier() == *sender,
            res.wf(),
    {
        AsyncPush { state: None, last_result: None, progress: None, sender: clone_sender(sender) }
    }

    /// Whether a run is in flight.
    pub fn is_pending(&self) -> (res: bool)
        ensures
            res == self@.pending.is_some(),
    {
        self.state.is_some()
    }

    /// The failure message of the last completed run, `None` after a
    /// success and before the first run.
    pub fn last_result(&self) -> (res: Option<String>)
        ensures
            res.is_some() == self@.last_result.is_some(),
            res matches Some(message) ==> message@ == self@.last_result->0,
    {
        match &self.last_result {
            Some(message) => Some(message.clone()),
            None => None,
        }
    }

    /// The latest progress of the current or most recent run.
    pub fn progress(&self) -> (res: Option<PushProgress>)
        ensures
            res == self@.progress,
            self.wf() ==> (res matches Some(progress) ==> progress.wf()),
    {
        self.progress
    }

    /// The request of the run in flight.
    pub fn pending_request(&self) -> (res: Option<PushRequest>)
        ensures
            res.is_some() == self@.pending.is_some(),
            res matches Some(request) ==> request@ == self@.pending->0,
    {
        match &self.state {
            Some(state) => Some(state.request.clone()),
            None => None,
        }
    }

    /// Asks for a push. On a free job the request is taken, the progress is
    /// reset and `true` is returned: the caller starts the worker. On a
    /// busy job nothing changes and `false` is returned.
    pub fn request(&mut self, params: PushRequest) -> (accepted: bool)
        ensures
            accepted == old(self)@.pending.is_none(),
            final(self)@ == old(self)@.requested(params@),
            old(self).wf() ==> final(self).wf(),
            final(self).notifier() == old(self).notifier(),
    {
        if !self.set_request(params) {
            return false;
        }
        self.set_progress(None);
        true
    }

    /// Handles what the relay received, `None` standing for a closed
    /// channel. An event other than the sentinel is normalised and
    /// published, and the consumer is notified.
    pub fn relay_step(&mut self, incoming: Option<ProgressNotification>) -> (step: RelayStep)
        ensures
            step == relay_verdict(incoming),
            final(self)@ == old(self)@.relayed(incoming),
            old(self).wf() ==> final(self).wf(),
            final(self).notifier() == old(self).notifier(),
    {
        match incoming {
            None => RelayStep::Disconnected,
            Some(ProgressNotification::Done) => RelayStep::Finished,
            Some(update) => {
                self.set_progress(Some(update));
                let _ = send_notification(&self.sender, AsyncNotification::Push);
                RelayStep::Published
            },
        }
    }

    /// Hands `events` to the relay in order, up to the first sentinel, and
    /// returns the number of events published.
    pub fn relay_events(&mut self, events: &Vec<ProgressNotification>) -> (published: usize)
        ensures
            published == relay_publishes(events@),
            final(self)@ == old(self)@.relay_run(events@),
            old(self).wf() ==> final(self).wf(),
            final(self).notifier() == old(self).notifier(),
    {
        let mut done: usize = 0;
        assert(events@.skip(0) == events@);
        while done < events.len()
            invariant
                done <= events.len(),
                old(self).wf() ==> self.wf(),
                self.notifier() == old(self).notifier(),
                relay_publishes(events@) == done + relay_publishes(events@.skip(done as int)),
                old(self)@.relay_run(events@) == self@.relay_run(events@.skip(done as int)),
            decreases events.len() - done,
        {
            let ghost rest = events@.skip(done as int);
            assert(rest[0] == events@[done as int]);
            assert(rest.drop_first() == events@.skip(done + 1));
            let step = self.relay_step(Some(events[done]));
            if step != RelayStep::Published {
                return done;
            }
            done = done + 1;
        }
        done
    }

    /// Records the outcome of the run, frees the job and notifies the
    /// consumer, in this order.
    pub fn finish(&mut self, outcome: Result<(), String>)
        ensures
            final(self)@ == old(self)@.finished(
                match outcome {
                    Ok(_) => Ok(()),
                    Err(message) => Err(message@),
                },
            ),
            old(self).wf() ==> final(self).wf(),
            final(self).notifier() == old(self).notifier(),
    {
        self.set_result(outcome);
        self.clear_request();
        let _ = send_notification(&self.sender, AsyncNotification::Push);
    }

    /// Takes `params` if the job is free. One test and one write on the
    /// exclusively borrowed slot: no second request can come between them.
    fn set_request(&mut self, params: PushRequest) -> (accepted: bool)
        ensures
            accepted == old(self)@.pending.is_none(),
            accepted ==> final(self)@ == (PushView { pending: Some(params@), ..old(self)@ }),
            !accepted ==> final(self)@ == old(self)@,
            final(self).wf() == old(self).wf(),
            final(self).notifier() == old(self).notifier(),
    {
        if self.state.is_some() {
            return false;
        }
        self.state = Some(PushState { request: params });
        true
    }

    /// Frees the job.
    fn clear_request(&mut self)
        ensures
            final(self)@ == (PushView { pending: None, ..old(self)@ }),
            final(self).wf() == old(self).wf(),
            final(self).notifier() == old(self).notifier(),
    {
        self.state = None;
    }

    /// Replaces the progress by the normalised form of `update`.
    fn set_progress(&mut self, update: Option<ProgressNotification>)
        ensures
            final(self)@ == (PushView {
                progress: match update {
                    Some(event) => Some(normalize(event)),
                    None => None,
                },
                ..old(self)@
            }),
            final(self).wf(),
            final(self).notifier() == old(self).notifier(),
    {
        self.progress = match update {
            Some(event) => {
                proof {
                    lemma_normalize_wf(event);
                }
                Some(PushProgress::from(event))
            },
            None => None,
        };
    }

    /// Replaces the result by that of `outcome`.
    fn set_result(&mut self, outcome: Result<(), String>)
        ensures
            final(self)@ == (PushView {
                last_result: match outcome {
                    Ok(_) => None,
                    Err(message) => Some(message@),
                },
                ..old(self)@
            }),
            final(self).wf() == old(self).wf(),
            final(self).notifier() == old(self).notifier(),
    {
        self.last_result = match outcome {
            Ok(_) => None,
            Err(message) => Some(message),
        };
    }
}

} // verus!
