use shellcaster::catalog::FeedRef;
use shellcaster::controller::{Controller, Effect, FeedMsg, MainMessage, Message, StoreMsg, UiMsg};
use shellcaster::downloads::{DownloadError, DownloadState};
use shellcaster::types::{Episode, Podcast};

fn episode(id: i32, title: &str, played: bool) -> Episode {
    Episode {
        id: Some(id),
        title: title.to_string(),
        url: format!("https://example.com/{}.mp3", id),
        description: String::new(),
        pubdate: Some(1_600_000_000),
        duration: Some(1800),
        path: None,
        played,
    }
}

fn podcast(id: i32, title: &str, episodes: Vec<Episode>) -> Podcast {
    Podcast {
        id: Some(id),
        title: title.to_string(),
        url: format!("https://example.com/{}/feed.xml", id),
        description: None,
        author: None,
        explicit: None,
        last_checked: 1_600_000_000,
        any_unplayed: true,
        episodes,
    }
}

fn five_unplayed() -> Podcast {
    podcast(1, "Five", (1..=5).map(|i| episode(i, &format!("Ep {}", i), false)).collect())
}

fn shown(e: &Effect) -> Option<(String, u64)> {
    match e {
        Effect::Notify(MainMessage::UiSpawnMsgWin(t, d)) => Some((t.clone(), *d)),
        _ => None,
    }
}

fn is_refresh(e: &Effect) -> bool {
    matches!(e, Effect::Notify(MainMessage::UiUpdateMenus))
}

#[test]
fn add_feed_then_store_adds_podcast() {
    let mut c = Controller::new(vec![podcast(1, "Old", vec![episode(1, "a", true)])]);
    let r = c.handle(Message::Ui(UiMsg::AddFeed("https://example.com/feed.xml".to_string())));
    assert_eq!(r.len(), 1);
    match &r[0] {
        Effect::FetchFeed(FeedRef { url, id }) => {
            assert_eq!(url, "https://example.com/feed.xml");
            assert_eq!(*id, None);
        }
        other => panic!("unexpected effect {:?}", other),
    }
    assert_eq!(c.catalog().len(), 1);

    let eps: Vec<Episode> = (1..=12).map(|i| episode(100 + i, "new", false)).collect();
    let parsed = Podcast { id: None, ..podcast(0, "New", eps.clone()) };
    let r = c.handle(Message::Feed(FeedMsg::NewData(parsed)));
    assert_eq!(r.len(), 1);
    assert!(matches!(&r[0], Effect::InsertPodcast(p) if p.episodes.len() == 12));
    assert_eq!(c.catalog().len(), 1);

    let stored = vec![podcast(1, "Old", vec![episode(1, "a", true)]), podcast(2, "New", eps)];
    let r = c.handle(Message::Store(StoreMsg::Added(Ok(12), stored)));
    assert_eq!(c.catalog().len(), 2);
    assert_eq!(r.len(), 2);
    assert!(is_refresh(&r[0]));
    assert_eq!(shown(&r[1]), Some(("Successfully added 12 episodes.".to_string(), 5000)));
}

#[test]
fn sync_with_failed_fetch_changes_nothing() {
    let mut c = Controller::new(vec![five_unplayed()]);
    let r = c.handle(Message::Ui(UiMsg::Sync(0)));
    assert_eq!(r.len(), 1);
    match &r[0] {
        Effect::FetchFeed(f) => {
            assert_eq!(f.url, "https://example.com/1/feed.xml");
            assert_eq!(f.id, Some(1));
        }
        other => panic!("unexpected effect {:?}", other),
    }
    let r = c.handle(Message::Feed(FeedMsg::Error));
    assert_eq!(r.len(), 1);
    assert_eq!(shown(&r[0]), Some(("Error retrieving RSS feed.".to_string(), 5000)));
    let pods = c.catalog().podcasts();
    assert_eq!(pods.len(), 1);
    assert_eq!(pods[0].episodes.len(), 5);
    assert!(pods[0].episodes.iter().all(|e| !e.played));
    assert!(pods[0].any_unplayed);
}

#[test]
fn mark_all_played_on_five_episodes() {
    let mut c = Controller::new(vec![five_unplayed()]);
    let r = c.handle(Message::Ui(UiMsg::MarkAllPlayed(0, true)));
    let pod = &c.catalog().podcasts()[0];
    assert!(pod.episodes.iter().all(|e| e.played));
    assert!(!pod.any_unplayed);
    assert_eq!(r.len(), 6);
    for (k, e) in r[..5].iter().enumerate() {
        assert!(matches!(e, Effect::SavePlayed(id, true) if *id == k as i32 + 1));
    }
    assert!(is_refresh(&r[5]));
}

#[test]
fn mark_played_twice_is_idempotent() {
    let mut pod = five_unplayed();
    for e in pod.episodes.iter_mut().skip(1) {
        e.played = true;
    }
    let mut c = Controller::new(vec![pod]);
    assert!(c.catalog().podcasts()[0].any_unplayed);
    let r = c.handle(Message::Ui(UiMsg::MarkPlayed(0, 0, true)));
    assert!(matches!(r[..], [Effect::SavePlayed(1, true)]));
    assert!(c.catalog().podcasts()[0].episodes[0].played);
    assert!(!c.catalog().podcasts()[0].any_unplayed);
    c.handle(Message::Ui(UiMsg::MarkPlayed(0, 0, true)));
    assert!(c.catalog().podcasts()[0].episodes[0].played);
    assert!(!c.catalog().podcasts()[0].any_unplayed);
}

#[test]
fn derived_flag_follows_episodes() {
    let mut pod = podcast(1, "P", vec![episode(1, "a", true), episode(2, "b", true)]);
    pod.any_unplayed = true;
    let mut c = Controller::new(vec![pod]);
    assert!(!c.catalog().podcasts()[0].any_unplayed);
    c.handle(Message::Ui(UiMsg::MarkPlayed(0, 1, false)));
    assert!(c.catalog().podcasts()[0].any_unplayed);
    c.handle(Message::Ui(UiMsg::MarkAllPlayed(0, false)));
    assert!(c.catalog().podcasts()[0].any_unplayed);
    c.handle(Message::Ui(UiMsg::MarkAllPlayed(0, true)));
    assert!(!c.catalog().podcasts()[0].any_unplayed);
}

#[test]
fn out_of_range_positions_do_nothing() {
    let mut c = Controller::new(vec![five_unplayed()]);
    assert!(c.handle(Message::Ui(UiMsg::Sync(3))).is_empty());
    assert!(c.handle(Message::Ui(UiMsg::MarkPlayed(0, 9, true))).is_empty());
    assert!(c.handle(Message::Ui(UiMsg::MarkAllPlayed(2, true))).is_empty());
    assert!(c.handle(Message::Ui(UiMsg::Play(0, 5))).is_empty());
    assert!(c.handle(Message::Ui(UiMsg::DownloadAll(1))).is_empty());
    assert!(c.handle(Message::Ui(UiMsg::Noop)).is_empty());
    assert!(c.catalog().podcasts()[0].any_unplayed);
}

fn start_all(c: &mut Controller, p: usize) -> Vec<usize> {
    let r = c.handle(Message::Ui(UiMsg::DownloadAll(p)));
    assert!(matches!(&r[0], Effect::EnsureDir(t) if t == &c.catalog().podcasts()[p].title));
    r[1..]
        .iter()
        .map(|e| match e {
            Effect::StartDownload(i) => *i,
            other => panic!("unexpected effect {:?}", other),
        })
        .collect()
}

#[test]
fn failed_download_leaves_siblings_completing() {
    let pod = podcast(7, "Three", (1..=3).map(|i| episode(i, "e", false)).collect());
    let mut c = Controller::new(vec![pod]);
    let started = start_all(&mut c, 0);
    assert_eq!(started, vec![0, 1, 2]);
    let r = c.handle(Message::Dl(1, Err(DownloadError::FileWriteError)));
    assert_eq!(shown(&r[0]), Some(("Error writing file to disk.".to_string(), 5000)));
    let r = c.handle(Message::Dl(0, Ok("/tmp/Three/e1.mp3".to_string())));
    assert!(matches!(&r[0], Effect::SaveFile(1, p) if p == "/tmp/Three/e1.mp3"));
    assert!(is_refresh(&r[1]));
    c.handle(Message::Dl(2, Ok("/tmp/Three/e3.mp3".to_string())));
    let d = c.downloads();
    assert!(matches!(d.state(0), DownloadState::Completed(p) if p == "/tmp/Three/e1.mp3"));
    assert!(matches!(d.state(1), DownloadState::Failed(DownloadError::FileWriteError)));
    assert!(matches!(d.state(2), DownloadState::Completed(p) if p == "/tmp/Three/e3.mp3"));
    let eps = &c.catalog().podcasts()[0].episodes;
    assert_eq!(eps[0].path.as_deref(), Some("/tmp/Three/e1.mp3"));
    assert_eq!(eps[1].path, None);
    assert_eq!(eps[2].path.as_deref(), Some("/tmp/Three/e3.mp3"));
}

#[test]
fn batch_yields_one_result_per_episode() {
    let n = 9;
    let pod = podcast(3, "Nine", (1..=n).map(|i| episode(i, "e", false)).collect());
    let mut c = Controller::new(vec![pod]);
    let mut pending = start_all(&mut c, 0);
    assert!(pending.len() < n as usize, "the pool bounds how many run at once");
    let mut results = 0;
    while let Some(i) = pending.pop() {
        let outcome = if i % 3 == 0 { Err(DownloadError::RequestError) } else { Ok(format!("/tmp/{}", i)) };
        let r = c.handle(Message::Dl(i, outcome));
        results += 1;
        for e in r {
            if let Effect::StartDownload(j) = e {
                pending.insert(0, j);
            }
        }
    }
    assert_eq!(results, n as usize);
    let d = c.downloads();
    assert_eq!(d.len(), n as usize);
    for i in 0..d.len() {
        assert!(matches!(d.state(i), DownloadState::Completed(_) | DownloadState::Failed(_)));
    }
    // a second report for a finished download is ignored
    assert!(c.handle(Message::Dl(0, Ok("/tmp/again".to_string()))).is_empty());
}

#[test]
fn download_error_messages() {
    let kinds = [
        (DownloadError::RequestError, "Error sending download request."),
        (DownloadError::DataStreamError, "Error downloading episode."),
        (DownloadError::FileCreateError, "Error creating file."),
        (DownloadError::FileWriteError, "Error writing file to disk."),
    ];
    let pod = podcast(3, "Four", (1..=4).map(|i| episode(i, "e", false)).collect());
    let mut c = Controller::new(vec![pod]);
    let started = start_all(&mut c, 0);
    assert_eq!(started.len(), 4);
    for (i, (kind, text)) in kinds.iter().enumerate() {
        let r = c.handle(Message::Dl(i, Err(*kind)));
        assert_eq!(shown(&r[0]), Some((text.to_string(), 5000)));
    }
}

#[test]
fn sync_all_fetches_every_feed_in_order() {
    let mut c = Controller::new(vec![podcast(1, "A", vec![]), podcast(2, "B", vec![])]);
    let r = c.handle(Message::Ui(UiMsg::SyncAll));
    let ids: Vec<Option<i32>> = r
        .iter()
        .map(|e| match e {
            Effect::FetchFeed(f) => f.id,
            other => panic!("unexpected effect {:?}", other),
        })
        .collect();
    assert_eq!(ids, vec![Some(1), Some(2)]);
}

#[test]
fn sync_data_and_store_results() {
    let mut c = Controller::new(vec![podcast(1, "A", vec![])]);
    let r = c.handle(Message::Feed(FeedMsg::SyncData(podcast(1, "A", vec![episode(1, "x", false)]))));
    assert!(matches!(&r[..], [Effect::UpdatePodcast(p)] if p.id == Some(1)));
    let stored = vec![podcast(1, "A", vec![episode(1, "x", false)])];
    let r = c.handle(Message::Store(StoreMsg::Updated("A".to_string(), Ok(()), stored)));
    assert!(is_refresh(&r[0]));
    assert_eq!(shown(&r[1]), Some(("Synchronized A.".to_string(), 5000)));
    assert_eq!(c.catalog().podcasts()[0].episodes.len(), 1);
    assert!(c.catalog().podcasts()[0].any_unplayed);
    let r = c.handle(Message::Store(StoreMsg::Updated("A".to_string(), Err(()), vec![])));
    assert_eq!(shown(&r[0]), Some(("Error synchronizing A.".to_string(), 5000)));
    assert_eq!(c.catalog().len(), 1);
    let r = c.handle(Message::Store(StoreMsg::Added(Err(()), vec![])));
    assert_eq!(shown(&r[0]), Some(("Error adding podcast to database.".to_string(), 5000)));
    assert_eq!(c.catalog().len(), 1);
}

#[test]
fn play_resolves_path_or_url() {
    let mut pod = podcast(1, "A", vec![episode(1, "x", false), episode(2, "y", false)]);
    pod.episodes[1].path = Some("/music/y.mp3".to_string());
    let mut c = Controller::new(vec![pod]);
    let r = c.handle(Message::Ui(UiMsg::Play(0, 0)));
    assert!(matches!(&r[..], [Effect::Play(t, false)] if t == "https://example.com/1.mp3"));
    let r = c.handle(Message::Ui(UiMsg::Play(0, 1)));
    assert!(matches!(&r[..], [Effect::Play(t, true)] if t == "/music/y.mp3"));
    let r = c.handle(Message::PlayFailed(true));
    assert_eq!(shown(&r[0]), Some(("Error: Could not play file. Check configuration.".to_string(), 5000)));
    let r = c.handle(Message::PlayFailed(false));
    assert_eq!(shown(&r[0]), Some(("Error: Could not stream URL.".to_string(), 5000)));
    let r = c.handle(Message::DirFailed("A".to_string()));
    assert_eq!(shown(&r[0]), Some(("Could not create dir: A".to_string(), 5000)));
}

#[test]
fn quit_stops_the_controller() {
    let mut c = Controller::new(vec![five_unplayed()]);
    let r = c.handle(Message::Ui(UiMsg::Quit));
    assert!(matches!(&r[..], [Effect::Notify(MainMessage::UiTearDown)]));
    assert!(!c.running());
    assert!(c.handle(Message::Ui(UiMsg::MarkAllPlayed(0, true))).is_empty());
    assert!(c.catalog().podcasts()[0].any_unplayed);
}
