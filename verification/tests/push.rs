use asyncpush::notify::AsyncNotification;
use asyncpush::progress::{PackStage, ProgressNotification, PushProgress, PushProgressState};
use asyncpush::push::{AsyncPush, PushRequest, RelayStep};
use crossbeam_channel::{unbounded, Receiver};

fn origin_main() -> PushRequest {
    PushRequest { remote: String::from("origin"), branch: String::from("main") }
}

fn packing(stage: PackStage, current: usize, total: usize) -> ProgressNotification {
    ProgressNotification::Packing { stage, total, current }
}

fn transfer(current: usize, total: usize) -> ProgressNotification {
    ProgressNotification::PushTransfer { current, total, bytes: 0 }
}

fn received(receiver: &Receiver<AsyncNotification>) -> usize {
    receiver.try_iter().count()
}

#[test]
fn new_job_is_idle() {
    let (sender, receiver) = unbounded();
    let push = AsyncPush::new(&sender);

    assert!(!push.is_pending());
    assert_eq!(push.last_result(), None);
    assert_eq!(push.progress(), None);
    assert!(push.pending_request().is_none());
    assert_eq!(received(&receiver), 0);
}

#[test]
fn default_request_is_empty() {
    let request = PushRequest::default();

    assert_eq!(request.remote, "");
    assert_eq!(request.branch, "");
}

#[test]
fn cloned_request_is_equal() {
    let request = origin_main().clone();

    assert_eq!(request.remote, "origin");
    assert_eq!(request.branch, "main");
}

#[test]
fn accepted_request_is_pending() {
    let (sender, _receiver) = unbounded();
    let mut push = AsyncPush::new(&sender);

    assert!(push.request(origin_main()));

    assert!(push.is_pending());
    assert_eq!(push.progress(), None);
    let pending = push.pending_request().unwrap();
    assert_eq!(pending.remote, "origin");
    assert_eq!(pending.branch, "main");
}

#[test]
fn successful_run_with_progress() {
    let (sender, receiver) = unbounded();
    let mut push = AsyncPush::new(&sender);
    assert!(push.request(origin_main()));

    let events = vec![
        packing(PackStage::AddingObjects, 1, 4),
        packing(PackStage::AddingObjects, 4, 4),
        packing(PackStage::Deltafication, 1, 1),
        transfer(50, 100),
        transfer(100, 100),
    ];
    for event in events {
        assert_eq!(push.relay_step(Some(event)), RelayStep::Published);
        assert!(push.is_pending());
    }
    assert_eq!(push.relay_step(Some(ProgressNotification::Done)), RelayStep::Finished);
    push.finish(Ok(()));

    assert!(!push.is_pending());
    assert_eq!(push.last_result(), None);
    assert_eq!(
        push.progress(),
        Some(PushProgress { state: PushProgressState::Pushing, progress: 100 })
    );
    assert_eq!(received(&receiver), 6);
}

#[test]
fn failed_run_without_progress() {
    let (sender, receiver) = unbounded();
    let mut push = AsyncPush::new(&sender);
    assert!(push.request(origin_main()));

    assert_eq!(push.relay_step(Some(ProgressNotification::Done)), RelayStep::Finished);
    push.finish(Err(String::from("authentication failed")));

    assert_eq!(push.last_result(), Some(String::from("authentication failed")));
    assert!(!push.is_pending());
    assert_eq!(push.progress(), None);
    assert_eq!(received(&receiver), 1);
}

#[test]
fn second_request_is_ignored_while_pending() {
    let (sender, _receiver) = unbounded();
    let mut push = AsyncPush::new(&sender);
    assert!(push.request(origin_main()));
    assert_eq!(push.relay_step(Some(transfer(1, 2))), RelayStep::Published);

    let accepted = push.request(PushRequest {
        remote: String::from("upstream"),
        branch: String::from("next"),
    });

    assert!(!accepted);
    assert!(push.is_pending());
    let pending = push.pending_request().unwrap();
    assert_eq!(pending.remote, "origin");
    assert_eq!(pending.branch, "main");
    assert_eq!(
        push.progress(),
        Some(PushProgress { state: PushProgressState::Pushing, progress: 50 })
    );
    assert_eq!(push.last_result(), None);
}

#[test]
fn late_events_are_published_before_the_sentinel() {
    let (sender, receiver) = unbounded();
    let mut push = AsyncPush::new(&sender);
    assert!(push.request(origin_main()));

    let events = vec![
        transfer(1, 4),
        transfer(2, 4),
        transfer(3, 4),
        ProgressNotification::Done,
    ];
    let published = push.relay_events(&events);

    assert_eq!(published, 3);
    assert_eq!(
        push.progress(),
        Some(PushProgress { state: PushProgressState::Pushing, progress: 75 })
    );
    assert_eq!(received(&receiver), 3);
}

#[test]
fn relay_publishes_nothing_for_the_sentinel() {
    let (sender, receiver) = unbounded();
    let mut push = AsyncPush::new(&sender);
    assert!(push.request(origin_main()));
    push.relay_step(Some(packing(PackStage::Deltafication, 1, 2)));
    let before = push.progress();

    assert_eq!(push.relay_step(Some(ProgressNotification::Done)), RelayStep::Finished);

    assert_eq!(push.progress(), before);
    assert_eq!(
        before,
        Some(PushProgress { state: PushProgressState::PackingDeltafiction, progress: 50 })
    );
    assert_eq!(received(&receiver), 1);
}

#[test]
fn relay_stops_at_the_first_sentinel() {
    let (sender, receiver) = unbounded();
    let mut push = AsyncPush::new(&sender);
    let events = vec![
        transfer(1, 10),
        ProgressNotification::Done,
        transfer(9, 10),
    ];

    assert_eq!(push.relay_events(&events), 1);

    assert_eq!(
        push.progress(),
        Some(PushProgress { state: PushProgressState::Pushing, progress: 10 })
    );
    assert_eq!(received(&receiver), 1);
}

#[test]
fn relay_of_no_events_changes_nothing() {
    let (sender, receiver) = unbounded();
    let mut push = AsyncPush::new(&sender);

    assert_eq!(push.relay_events(&Vec::new()), 0);

    assert_eq!(push.progress(), None);
    assert_eq!(received(&receiver), 0);
}

#[test]
fn closed_channel_ends_the_relay() {
    let (sender, receiver) = unbounded();
    let mut push = AsyncPush::new(&sender);
    assert!(push.request(origin_main()));

    assert_eq!(push.relay_step(None), RelayStep::Disconnected);

    assert!(push.is_pending());
    assert_eq!(push.progress(), None);
    assert_eq!(received(&receiver), 0);
}

#[test]
fn progress_may_drop_when_the_phase_changes() {
    let (sender, _receiver) = unbounded();
    let mut push = AsyncPush::new(&sender);
    assert!(push.request(origin_main()));

    push.relay_step(Some(packing(PackStage::AddingObjects, 4, 4)));
    assert_eq!(push.progress().unwrap().progress, 100);
    push.relay_step(Some(transfer(1, 10)));

    assert_eq!(
        push.progress(),
        Some(PushProgress { state: PushProgressState::Pushing, progress: 10 })
    );
}

#[test]
fn last_result_stays_until_the_next_run_completes() {
    let (sender, _receiver) = unbounded();
    let mut push = AsyncPush::new(&sender);
    assert!(push.request(origin_main()));
    push.relay_step(Some(transfer(1, 2)));
    push.finish(Err(String::from("rejected")));

    assert!(push.request(origin_main()));

    assert_eq!(push.last_result(), Some(String::from("rejected")));
    assert_eq!(push.progress(), None);

    push.finish(Ok(()));

    assert_eq!(push.last_result(), None);
    assert!(!push.is_pending());
}

#[test]
fn notification_is_lost_quietly_without_a_receiver() {
    let (sender, receiver) = unbounded();
    let mut push = AsyncPush::new(&sender);
    drop(receiver);
    assert!(push.request(origin_main()));

    assert_eq!(push.relay_step(Some(transfer(1, 1))), RelayStep::Published);
    push.finish(Ok(()));

    assert!(!push.is_pending());
    assert_eq!(push.progress().unwrap().progress, 100);
}

#[test]
fn job_notifies_through_its_own_handle() {
    let (sender, receiver) = unbounded();
    let mut push = AsyncPush::new(&sender);
    drop(sender);

    push.finish(Ok(()));

    assert_eq!(receiver.try_recv(), Ok(AsyncNotification::Push));
}

#[test]
fn job_notifies_the_channel_it_was_given() {
    let (sender, receiver) = unbounded();
    let (_other_sender, other_receiver) = unbounded::<AsyncNotification>();
    let mut push = AsyncPush::new(&sender);
    assert!(push.request(origin_main()));

    push.relay_step(Some(transfer(1, 2)));
    push.finish(Ok(()));

    assert_eq!(received(&receiver), 2);
    assert_eq!(received(&other_receiver), 0);
}
