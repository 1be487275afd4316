use lyrebird::queue::{Metadata, QueueError, QueueItem, QueueStore, Queueable};

fn item(arg: &str) -> QueueItem {
    QueueItem::new(Queueable::Ytdl { arg: arg.to_string() })
}

fn store(args: &[&str]) -> QueueStore {
    let mut q = QueueStore::new();
    for a in args {
        q.enqueue(item(a));
    }
    q
}

fn args(q: &QueueStore) -> Vec<String> {
    q.current_queue_slice(0, q.len())
        .into_iter()
        .map(|i| match i.source {
            Queueable::Ytdl { arg } => arg,
        })
        .collect()
}

#[test]
fn move_swap_remove_scenario() {
    let mut q = store(&["A", "B", "C"]);
    assert_eq!(q.move_item(1, 2), Ok(()));
    assert_eq!(args(&q), vec!["A", "C", "B"]);
    assert_eq!(q.swap(1, 2), Ok(()));
    assert_eq!(args(&q), vec!["A", "B", "C"]);
    let removed = q.remove(1).unwrap();
    assert_eq!(removed, item("B"));
    assert_eq!(args(&q), vec!["A", "C"]);
}

#[test]
fn move_rejects_now_playing() {
    let mut q = store(&["A", "B", "C"]);
    assert_eq!(q.move_item(0, 2), Err(QueueError::CurrentTrack));
    assert_eq!(q.move_item(2, 0), Err(QueueError::CurrentTrack));
    assert_eq!(q.move_item(0, 0), Err(QueueError::CurrentTrack));
    assert_eq!(args(&q), vec!["A", "B", "C"]);
}

#[test]
fn move_out_of_bounds_and_past_end() {
    let mut q = store(&["A", "B", "C"]);
    assert_eq!(q.move_item(3, 1), Err(QueueError::OutOfBounds { index: 3 }));
    assert_eq!(q.move_item(1, 50), Ok(()));
    assert_eq!(args(&q), vec!["A", "C", "B"]);
    assert_eq!(q.move_item(2, 2), Ok(()));
    assert_eq!(args(&q), vec!["A", "C", "B"]);
}

#[test]
fn swap_errors() {
    let mut q = store(&["A", "B", "C"]);
    assert_eq!(q.swap(0, 1), Err(QueueError::CurrentTrack));
    assert_eq!(q.swap(5, 1), Err(QueueError::OutOfBounds { index: 5 }));
    assert_eq!(q.swap(1, 7), Err(QueueError::OutOfBounds { index: 7 }));
    assert_eq!(q.swap(2, 2), Ok(()));
    assert_eq!(args(&q), vec!["A", "B", "C"]);
}

#[test]
fn remove_errors() {
    let mut q = store(&["A", "B"]);
    assert_eq!(q.remove(0), Err(QueueError::CurrentTrack));
    assert_eq!(q.remove(2), Err(QueueError::OutOfBounds { index: 2 }));
    assert_eq!(q.len(), 2);
}

#[test]
fn skip_on_empty_queue_fails() {
    let mut q = QueueStore::new();
    assert_eq!(q.skip(), Err(QueueError::EmptyQueue));
    let mut q = store(&["A", "B"]);
    assert_eq!(q.skip(), Ok(item("A")));
    assert_eq!(args(&q), vec!["B"]);
}

#[test]
fn shuffle_keeps_head_and_items() {
    let names: Vec<String> = (0..40).map(|i| format!("t{i}")).collect();
    let refs: Vec<&str> = names.iter().map(|s| s.as_str()).collect();
    let mut q = store(&refs);
    let mut moved = false;
    for _ in 0..5 {
        q.shuffle();
        let now = args(&q);
        assert_eq!(now[0], "t0");
        let mut sorted = now.clone();
        sorted.sort();
        let mut expected = names.clone();
        expected.sort();
        assert_eq!(sorted, expected);
        if now != names {
            moved = true;
        }
    }
    assert!(moved);
}

#[test]
fn shuffle_small_queues() {
    let mut q = QueueStore::new();
    q.shuffle();
    assert!(q.is_empty());
    let mut q = store(&["A"]);
    q.shuffle();
    assert_eq!(args(&q), vec!["A"]);
}

#[test]
fn pause_and_resume_states() {
    let mut q = store(&["A"]);
    assert_eq!(q.resume(), Err(QueueError::NotPaused));
    assert_eq!(q.pause(), Ok(()));
    assert_eq!(q.pause(), Err(QueueError::AlreadyPaused));
    assert!(q.paused());
    assert_eq!(q.resume(), Ok(()));
    assert!(!q.paused());
}

#[test]
fn clear_empties_everything() {
    let mut q = store(&["A", "B"]);
    q.clear();
    assert!(q.is_empty());
}

#[test]
fn slice_is_clamped() {
    let q = store(&["A", "B", "C"]);
    assert_eq!(q.current_queue_slice(1, 10).len(), 2);
    assert_eq!(q.current_queue_slice(5, 10).len(), 0);
    assert_eq!(q.current_queue_slice(2, 1).len(), 0);
}

#[test]
fn duplicate_keeps_metadata() {
    let mut i = item("x");
    i.metadata = Some(Metadata {
        title: Some("T".to_string()),
        artist: None,
        duration: Some(3),
    });
    assert_eq!(i.duplicate(), i);
}

#[test]
fn metadata_is_attached_once() {
    let mut q = store(&["A"]);
    let first = Metadata { title: Some("one".to_string()), artist: None, duration: Some(10) };
    let second = Metadata { title: Some("two".to_string()), artist: None, duration: None };
    assert!(q.set_metadata(0, first.clone()));
    assert!(!q.set_metadata(0, second));
    assert_eq!(q.get(0).metadata, Some(first));
    q.mark_errored(0);
    assert!(q.get(0).errored);
}

#[test]
fn move_keeps_items_and_head_for_all_positions() {
    let names = ["A", "B", "C", "D", "E"];
    for from in 1..names.len() {
        for to in 1..8 {
            let mut q = store(&names);
            assert_eq!(q.move_item(from, to), Ok(()));
            let now = args(&q);
            assert_eq!(now[0], "A");
            let mut sorted = now.clone();
            sorted.sort();
            assert_eq!(sorted, names.to_vec());
            let target = if to > names.len() - 1 { names.len() - 1 } else { to };
            assert_eq!(now[target], names[from]);
        }
    }
}
