use mjpeg_stream::fanout::{clamp_tick, PollingTask, Subscribers, TICK_MAX_MS, TICK_MIN_MS};
use mjpeg_stream::source::{GenericStream, VideoStream};

#[test]
fn tick_below_the_floor_is_raised() {
    assert_eq!(clamp_tick(10), 20);
    assert_eq!(clamp_tick(0), TICK_MIN_MS);
}

#[test]
fn tick_above_the_ceiling_is_lowered() {
    assert_eq!(clamp_tick(5000), 1000);
    assert_eq!(clamp_tick(10000), TICK_MAX_MS);
}

#[test]
fn tick_in_range_is_kept() {
    assert_eq!(clamp_tick(20), 20);
    assert_eq!(clamp_tick(200), 200);
    assert_eq!(clamp_tick(1000), 1000);
}

#[test]
fn polling_task_keeps_its_tick() {
    let task = PollingTask::new(200);
    assert_eq!(task.tick_ms(), 200);
}

#[test]
fn a_new_list_holds_the_initial_subscriber() {
    let subs = Subscribers::new(7u32);
    assert_eq!(subs.len(), 1);
    assert!(!subs.is_empty());
    assert_eq!(*subs.get(0), 7);
}

#[test]
fn enroll_appends_in_order() {
    let mut subs = Subscribers::new(1u32);
    subs.enroll(2);
    subs.enroll(3);
    assert_eq!(subs.len(), 3);
    assert_eq!(*subs.get(0), 1);
    assert_eq!(*subs.get(1), 2);
    assert_eq!(*subs.get(2), 3);
}

#[test]
fn prune_drops_exactly_the_closed_handles() {
    let mut subs = Subscribers::new(10u32);
    subs.enroll(11);
    subs.enroll(12);
    subs.enroll(13);
    subs.prune(&vec![false, true, false, true]);
    assert_eq!(subs.len(), 2);
    assert_eq!(*subs.get(0), 10);
    assert_eq!(*subs.get(1), 12);
}

#[test]
fn prune_with_nothing_closed_keeps_everyone() {
    let mut subs = Subscribers::new(1u32);
    subs.enroll(2);
    subs.prune(&vec![false, false]);
    assert_eq!(subs.len(), 2);
}

#[test]
fn prune_can_empty_the_list() {
    let mut subs = Subscribers::new(1u32);
    subs.prune(&vec![true]);
    assert!(subs.is_empty());
}

#[test]
fn placeholder_camera_opens_and_yields_nothing() {
    let mut stream = GenericStream::new(0).unwrap();
    let mut buffer = GenericStream::new_buffer();
    assert_eq!(stream.read(&mut buffer), 0);
    assert!(buffer.is_empty());
}
