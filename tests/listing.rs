use lyrebird::list::{
    calc_pages, make_buttons, requested_page, retrieve_queue, ButtonState, CursorState, NavAction,
    NavEvent, PaginationCursor,
};
use lyrebird::metadata::{format_duration, format_metadata};
use lyrebird::queue::{Metadata, QueueItem, QueueStore, Queueable};

fn named(i: usize) -> QueueItem {
    let mut item = QueueItem::new(Queueable::Ytdl { arg: format!("u{i}") });
    item.metadata = Some(Metadata {
        title: Some(format!("T{i}")),
        artist: Some(format!("A{i}")),
        duration: Some(65),
    });
    item
}

fn queue_of(n: usize) -> QueueStore {
    let mut q = QueueStore::new();
    for i in 0..n {
        q.enqueue(named(i));
    }
    q
}

#[test]
fn empty_queue_listing() {
    let q = QueueStore::new();
    assert_eq!(retrieve_queue(&q, 0, None), "queue is empty");
}

#[test]
fn twenty_five_items_pages() {
    let q = queue_of(25);
    let first = retrieve_queue(&q, 0, Some(5));
    let lines: Vec<&str> = first.lines().collect();
    assert_eq!(lines[0], "**Now Playing**: A0 - T0 - 5s / 1:05");
    assert_eq!(lines[1], "1: A1 - T1");
    assert_eq!(lines[9], "9: A9 - T9");
    assert_eq!(lines[10], "");
    assert_eq!(lines[11], "Displaying page 1 of 3 (10 per page)");
    let third = retrieve_queue(&q, 2, Some(5));
    let lines: Vec<&str> = third.lines().collect();
    assert_eq!(lines[0], "20: A20 - T20");
    assert_eq!(lines[4], "24: A24 - T24");
    assert_eq!(lines[6], "Displaying page 3 of 3 (10 per page)");
    assert_eq!(retrieve_queue(&q, 3, None), "Index out of bounds.");
    let mut c = PaginationCursor::new(3, 25, 0);
    assert_eq!(c.page, 2);
    assert_eq!(c.on_event(&NavEvent::Next, 25, 1), NavAction::Render { page: 2 });
}

#[test]
fn now_playing_without_time_or_metadata() {
    let mut q = QueueStore::new();
    q.enqueue(QueueItem::new(Queueable::Ytdl { arg: "x".to_string() }));
    assert_eq!(
        retrieve_queue(&q, 0, None),
        "**Now Playing**: unknown artist - unknown title- Error getting time\n\nDisplaying page 1 of 1 (10 per page)"
    );
    assert_eq!(
        retrieve_queue(&q, 0, Some(3725)),
        "**Now Playing**: unknown artist - unknown title - 1:02:05 / unknown\n\nDisplaying page 1 of 1 (10 per page)"
    );
}

#[test]
fn cursor_clamps_and_ignores_after_expiry() {
    let mut c = PaginationCursor::new(0, 25, 1000);
    assert_eq!(c.deadline, 1120);
    assert_eq!(c.on_event(&NavEvent::Previous, 25, 1001), NavAction::Render { page: 0 });
    assert_eq!(c.on_event(&NavEvent::Next, 25, 1002), NavAction::Render { page: 1 });
    assert_eq!(c.on_event(&NavEvent::Next, 25, 1003), NavAction::Render { page: 2 });
    assert_eq!(c.on_event(&NavEvent::Next, 25, 1004), NavAction::Render { page: 2 });
    assert_eq!(c.deadline, 1124);
    assert_eq!(c.on_event(&NavEvent::Refresh, 5, 1005), NavAction::Render { page: 0 });
    assert_eq!(
        c.on_event(&NavEvent::Unknown { id: "zzz".to_string() }, 5, 1006),
        NavAction::Ignore
    );
    assert_eq!(c.on_timeout(1100), NavAction::Ignore);
    assert_eq!(c.on_timeout(1125), NavAction::Detach);
    assert_eq!(c.state, CursorState::Expired);
    assert_eq!(c.on_event(&NavEvent::Next, 25, 1126), NavAction::Ignore);
    assert_eq!(c.close(), NavAction::Ignore);
}

#[test]
fn cursor_event_after_deadline_expires() {
    let mut c = PaginationCursor::new(1, 25, 0);
    assert_eq!(c.on_event(&NavEvent::Next, 25, 120), NavAction::Detach);
    assert_eq!(c.state, CursorState::Expired);
    assert_eq!(c.page, 1);
    let mut c = PaginationCursor::new(0, 3, u64::MAX - 5);
    assert_eq!(c.deadline, u64::MAX);
    assert_eq!(c.close(), NavAction::Detach);
    assert_eq!(c.state, CursorState::Closed);
}

#[test]
fn nav_ids() {
    assert_eq!(NavEvent::from_id("prev_page"), NavEvent::Previous);
    assert_eq!(NavEvent::from_id("next_page"), NavEvent::Next);
    assert_eq!(NavEvent::from_id("refresh"), NavEvent::Refresh);
    assert_eq!(NavEvent::from_id("other"), NavEvent::Unknown { id: "other".to_string() });
}

#[test]
fn pages_and_buttons() {
    assert_eq!(calc_pages(0, 10), 1);
    assert_eq!(calc_pages(10, 10), 1);
    assert_eq!(calc_pages(11, 10), 2);
    assert_eq!(calc_pages(25, 10), 3);
    assert_eq!(make_buttons(0, 25), ButtonState { prev_disabled: true, next_disabled: false });
    assert_eq!(make_buttons(2, 25), ButtonState { prev_disabled: false, next_disabled: true });
    assert_eq!(make_buttons(0, 0), ButtonState { prev_disabled: true, next_disabled: true });
    assert_eq!(requested_page(None), 0);
    assert_eq!(requested_page(Some(0)), 0);
    assert_eq!(requested_page(Some(3)), 2);
}

#[test]
fn durations_and_metadata() {
    assert_eq!(format_duration(0), "0s");
    assert_eq!(format_duration(59), "59s");
    assert_eq!(format_duration(60), "1:00");
    assert_eq!(format_duration(605), "10:05");
    assert_eq!(format_duration(3600), "1:00:00");
    assert_eq!(format_duration(36061), "10:01:01");
    let m = Metadata { title: Some("Song".to_string()), artist: None, duration: None };
    assert_eq!(format_metadata(&m), "unknown artist - Song");
    let m = Metadata { title: None, artist: Some("Band".to_string()), duration: None };
    assert_eq!(format_metadata(&m), "Band - unknown title");
}
