use lyrebird::play::{random_sources, search_source, sources_from, url_source, Output};
use lyrebird::queue::{QueueError, QueueItem, QueueStore, Queueable};
use lyrebird::search::{search_query, search_results, select_sources, SearchError, SearchResult};
use lyrebird::track::LoopState;
use lyrebird::ws::{handle, ClientMessage};

fn out(url: &str, ie_key: &str, ty: &str, title: Option<&str>) -> Output {
    Output {
        url: url.to_string(),
        ie_key: ie_key.to_string(),
        title: title.map(|t| t.to_string()),
        channel: Some("chan".to_string()),
        _type: ty.to_string(),
    }
}

fn listing() -> Vec<Output> {
    vec![
        out("u1", "Youtube", "url", Some("one")),
        out("list", "YoutubePlaylist", "url", None),
        out("u2", "Youtube", "video", None),
        out("t1", "YoutubeTab", "url", None),
        out("u3", "Youtube", "url", None),
    ]
}

fn arg(q: &Queueable) -> &str {
    match q {
        Queueable::Ytdl { arg } => arg,
    }
}

#[test]
fn output_kinds() {
    let l = listing();
    assert!(l[0].is_playable());
    assert!(l[1].is_playlist());
    assert!(!l[1].is_playable());
    assert!(!l[2].is_playable());
    assert!(!l[2].is_playlist());
    assert!(l[3].is_playlist());
}

#[test]
fn sources_for_playlists() {
    let l = listing();
    let all: Vec<String> = sources_from(&l, true).iter().map(|q| arg(q).to_string()).collect();
    assert_eq!(all, vec!["u1", "u3"]);
    let range: Vec<String> = sources_from(&l, false).iter().map(|q| arg(q).to_string()).collect();
    assert_eq!(range, vec!["u1", "u2", "u3"]);
}

#[test]
fn random_pick_draws_distinct_candidates() {
    let l = listing();
    let picked = random_sources(&l, 2);
    assert_eq!(picked.len(), 2);
    assert_ne!(picked[0], picked[1]);
    for p in &picked {
        assert!(["u1", "u2", "u3"].contains(&arg(p)));
    }
    assert_eq!(random_sources(&l, 10).len(), 3);
    assert_eq!(random_sources(&Vec::new(), 4).len(), 0);
}

#[test]
fn search_sources_and_query() {
    assert_eq!(arg(&search_source("never gonna")), "ytsearch1:never gonna");
    assert_eq!(arg(&url_source("https://x")), "https://x");
    assert_eq!(search_query("cats", None), Ok("ytsearch5:cats".to_string()));
    assert_eq!(search_query("cats", Some(25)), Ok("ytsearch25:cats".to_string()));
    assert_eq!(search_query("cats", Some(26)), Err(SearchError::TooManyResults));
}

#[test]
fn search_hits_and_choices() {
    let hits = search_results(&listing());
    assert_eq!(hits.len(), 2);
    assert_eq!(hits[0].title_or_url(), "one");
    assert_eq!(hits[1].title_or_url(), "u3");
    let r = SearchResult::from_output(&listing()[0]);
    assert_eq!(r.artist, Some("chan".to_string()));
    let chosen = select_sources(&hits, &vec!["1".to_string(), "0".to_string(), "1".to_string()]).unwrap();
    let args: Vec<&str> = chosen.iter().map(arg).collect();
    assert_eq!(args, vec!["u3", "u1", "u3"]);
    assert_eq!(select_sources(&hits, &vec!["2".to_string()]), Err(SearchError::BadChoice));
    assert_eq!(select_sources(&hits, &vec!["x".to_string()]), Err(SearchError::BadChoice));
    assert_eq!(select_sources(&hits, &vec!["".to_string()]), Err(SearchError::BadChoice));
    assert_eq!(select_sources(&hits, &vec![]), Ok(vec![]));
}

#[test]
fn loop_toggle() {
    assert_eq!(LoopState::toggled(None), LoopState::Enabled);
    assert_eq!(LoopState::toggled(Some(LoopState::Enabled)), LoopState::Disabled);
    assert_eq!(LoopState::toggled(Some(LoopState::Disabled)), LoopState::Enabled);
}

#[test]
fn control_messages() {
    let mut q = QueueStore::new();
    assert_eq!(handle(&mut q, ClientMessage::Skip), Err(QueueError::EmptyQueue));
    assert_eq!(handle(&mut q, ClientMessage::Seek(1000)), Err(QueueError::EmptyQueue));
    q.enqueue(QueueItem::new(Queueable::Ytdl { arg: "a".to_string() }));
    q.enqueue(QueueItem::new(Queueable::Ytdl { arg: "b".to_string() }));
    assert_eq!(handle(&mut q, ClientMessage::Seek(1000)), Ok(()));
    assert_eq!(handle(&mut q, ClientMessage::Pause), Ok(()));
    assert_eq!(handle(&mut q, ClientMessage::Pause), Err(QueueError::AlreadyPaused));
    assert_eq!(handle(&mut q, ClientMessage::Resume), Ok(()));
    assert_eq!(handle(&mut q, ClientMessage::Resume), Err(QueueError::NotPaused));
    assert_eq!(handle(&mut q, ClientMessage::Skip), Ok(()));
    assert_eq!(q.len(), 1);
    assert_eq!(handle(&mut q, ClientMessage::ClearAll), Ok(()));
    assert!(q.is_empty());
}
