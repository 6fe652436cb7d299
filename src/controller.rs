use vstd::prelude::*;
use vstd::string::StringExecFns;
use crate::catalog::{all_marked, marked_played, normalized, Catalog, FeedRef};
use crate::catalog::file_attached;
use crate::downloads::{count_running, count_terminal, started, DownloadError, DownloadJob, DownloadManager, DownloadState};
use crate::text::{decimal, decimal_digits};
use crate::types::{Episode, Podcast};

verus! {

/// How long a status message stays on screen, in milliseconds.
pub const MESSAGE_MS: u64 = 5000;

/// How many downloads run at once.
pub const DOWNLOAD_LIMIT: usize = 4;

/// A notification for the presentation layer.
#[derive(Debug)]
pub enum MainMessage {
    UiUpdateMenus,
    UiSpawnMsgWin(String, u64),
    UiTearDown,
}

/// What the user asks for. Positions address the catalog as the user
/// last saw it.
#[derive(Debug)]
pub enum UiMsg {
    Quit,
    AddFeed(String),
    Sync(usize),
    SyncAll,
    Play(usize, usize),
    MarkPlayed(usize, usize, bool),
    MarkAllPlayed(usize, bool),
    Download(usize, usize),
    DownloadAll(usize),
    Noop,
}

/// What a feed worker found: a feed seen for the first time, a refresh of
/// a stored podcast (which carries its identity), or a failure to fetch or
/// parse.
#[derive(Debug)]
pub enum FeedMsg {
    NewData(Podcast),
    SyncData(Podcast),
    Error,
}

/// What the store answered to a write, with the podcasts as stored after it.
#[derive(Debug)]
pub enum StoreMsg {
    /// A new podcast was written: the number of its episodes, or a failure.
    Added(Result<usize, ()>, Vec<Podcast>),
    /// The podcast with this title was refreshed, or the write failed.
    Updated(String, Result<(), ()>, Vec<Podcast>),
}

/// Everything the controller receives, in the order it arrives.
#[derive(Debug)]
pub enum Message {
    Ui(UiMsg),
    Feed(FeedMsg),
    Store(StoreMsg),
    /// Download number `.0` ended: the local path, or why it failed.
    Dl(usize, Result<String, DownloadError>),
    /// The player could not be started; `true` for a local file, `false`
    /// for a stream.
    PlayFailed(bool),
    /// The directory for the podcast with this title could not be created.
    DirFailed(String),
}

/// Work that the controller hands to its collaborators.
#[derive(Debug)]
pub enum Effect {
    Notify(MainMessage),
    /// Fetch and parse a feed; answer with a `Message::Feed`.
    FetchFeed(FeedRef),
    /// Write a new podcast; answer with `StoreMsg::Added`.
    InsertPodcast(Podcast),
    /// Write a refreshed podcast; answer with `StoreMsg::Updated`.
    UpdatePodcast(Podcast),
    /// Store the played flag of an episode.
    SavePlayed(i32, bool),
    /// Store the local file of an episode.
    SaveFile(i32, String),
    /// Play a local file (`true`) or stream an address (`false`).
    Play(String, bool),
    /// Make sure the directory for the podcast with this title exists.
    EnsureDir(String),
    /// Run download number `.0` of the download manager; answer with a
    /// `Message::Dl`.
    StartDownload(usize),
}

/// Whether `e` shows the status text `text`.
pub open spec fn shows(e: Effect, text: Seq<char>) -> bool {
    e matches Effect::Notify(MainMessage::UiSpawnMsgWin(t, d)) && t@ == text && d == MESSAGE_MS
}

/// Whether `e` asks for the menus to be redrawn.
pub open spec fn refreshes(e: Effect) -> bool {
    e matches Effect::Notify(MainMessage::UiUpdateMenus)
}

/// The status text shown after a new podcast with `n` episodes was stored.
pub open spec fn added_text(n: nat) -> Seq<char> {
    "Successfully added "@ + decimal_digits(n) + " episodes."@
}

/// The status text shown when a download failed for `kind`.
pub open spec fn download_error_text(kind: DownloadError) -> Seq<char> {
    match kind {
        DownloadError::RequestError => "Error sending download request."@,
        DownloadError::DataStreamError => "Error downloading episode."@,
        DownloadError::FileCreateError => "Error creating file."@,
        DownloadError::FileWriteError => "Error writing file to disk."@,
    }
}

/// Whether `j` describes the download of episode `ep` of podcast `pod`.
pub open spec fn job_of(pod: Podcast, ep: Episode, j: DownloadJob) -> bool {
    &&& j.episode_id == ep.id
    &&& j.pod_id == pod.id
    &&& j.url@ == ep.url@
    &&& j.title@ == ep.title@
    &&& j.dir_name@ == pod.title@
}

/// Whether `e` asks to fetch the feed of podcast `pod`.
pub open spec fn fetches(e: Effect, pod: Podcast) -> bool {
    e matches Effect::FetchFeed(f) && f.url@ == pod.url@ && f.id == pod.id
}

/// Whether `new` keeps the catalog and the downloads of `old`.
pub open spec fn unchanged(old: Controller, new: Controller) -> bool {
    &&& new.catalog_view() == old.catalog_view()
    &&& new.downloads_view() == old.downloads_view()
    &&& new.is_running() == old.is_running()
}

/// Whether the downloads of `new` are those of `old` with `batch` submitted
/// after them, and some queued downloads started.
pub open spec fn submitted(old: DownloadManager, new: DownloadManager, batch: Seq<DownloadJob>) -> bool {
    &&& new.wf()
    &&& new.limit() == old.limit()
    &&& new.jobs() == old.jobs() + batch
    &&& started(old.states() + Seq::new(batch.len(), |i: int| DownloadState::Queued), new.states())
    &&& count_terminal(new.states()) == count_terminal(old.states())
}

/// Whether every effect of `r` from position `from` on starts a download
/// that now runs in `dl`.
pub open spec fn starts_running(r: Seq<Effect>, from: int, dl: DownloadManager) -> bool {
    forall|k: int| from <= k < r.len() ==>
        (#[trigger] r[k] matches Effect::StartDownload(i) && (i < dl.states().len() && dl.states()[i as int] is InProgress))
}

/// The effects that store the flag `played` for each stored episode of
/// `eps`, in order.
pub open spec fn save_effects(eps: Seq<Episode>, played: bool) -> Seq<Effect>
    decreases eps.len(),
{
    if eps.len() == 0 {
        Seq::empty()
    } else {
        let rest = save_effects(eps.drop_last(), played);
        match eps.last().id {
            Some(id) => rest.push(Effect::SavePlayed(id, played)),
            None => rest,
        }
    }
}

/// Whether the podcast positions in `pods` hold `stored` with every derived
/// flag recomputed.
pub open spec fn reloaded(pods: Seq<Podcast>, stored: Seq<Podcast>) -> bool {
    &&& pods.len() == stored.len()
    &&& forall|i: int| 0 <= i < pods.len() ==> #[trigger] pods[i] == normalized(stored[i])
}

/// What the controller does with `msg`: `old` becomes `new`, and `r` are
/// the effects handed out, in order.
pub open spec fn handled(old: Controller, new: Controller, msg: Message, r: Seq<Effect>) -> bool {
    let cat = old.catalog_view();
    let dl = old.downloads_view();
    if !old.is_running() {
        unchanged(old, new) && r.len() == 0
    } else {
        match msg {
            Message::Ui(UiMsg::Quit) => {
                &&& new.catalog_view() == cat && new.downloads_view() == dl && !new.is_running()
                &&& r == seq![Effect::Notify(MainMessage::UiTearDown)]
            },
            Message::Ui(UiMsg::AddFeed(url)) => {
                &&& unchanged(old, new)
                &&& r.len() == 1
                &&& (r[0] matches Effect::FetchFeed(f) && f.url@ == url@ && f.id is None)
            },
            Message::Ui(UiMsg::Sync(p)) => {
                &&& unchanged(old, new)
                &&& if p < cat.len() { r.len() == 1 && fetches(r[0], cat[p as int]) } else { r.len() == 0 }
            },
            Message::Ui(UiMsg::SyncAll) => {
                &&& unchanged(old, new)
                &&& r.len() == cat.len()
                &&& forall|k: int| 0 <= k < r.len() ==> #[trigger] fetches(r[k], cat[k])
            },
            Message::Ui(UiMsg::Play(p, e)) => {
                &&& unchanged(old, new)
                &&& if p < cat.len() && e < cat[p as int].episodes@.len() {
                    let ep = cat[p as int].episodes@[e as int];
                    &&& r.len() == 1
                    &&& (r[0] matches Effect::Play(t, local) && match ep.path {
                        Some(path) => local && t@ == path@,
                        None => !local && t@ == ep.url@,
                    })
                } else {
                    r.len() == 0
                }
            },
            Message::Ui(UiMsg::MarkPlayed(p, e, played)) => {
                &&& new.downloads_view() == dl && new.is_running()
                &&& marked_played(cat, new.catalog_view(), p as int, e as int, played)
                &&& if p < cat.len() && e < cat[p as int].episodes@.len() && cat[p as int].episodes@[e as int].id is Some {
                    r == seq![Effect::SavePlayed(cat[p as int].episodes@[e as int].id->0, played)]
                } else {
                    r.len() == 0
                }
            },
            Message::Ui(UiMsg::MarkAllPlayed(p, played)) => {
                let n = new.catalog_view();
                &&& new.downloads_view() == dl && new.is_running()
                &&& if p < cat.len() {
                    &&& n.len() == cat.len()
                    &&& forall|q: int| 0 <= q < n.len() && q != p ==> #[trigger] n[q] == cat[q]
                    &&& all_marked(cat[p as int].episodes@, n[p as int].episodes@, played)
                    &&& n[p as int] == (Podcast {
                        episodes: n[p as int].episodes,
                        any_unplayed: !played && cat[p as int].episodes@.len() > 0,
                        ..cat[p as int]
                    })
                    &&& r == save_effects(cat[p as int].episodes@, played).push(Effect::Notify(MainMessage::UiUpdateMenus))
                } else {
                    n == cat && r.len() == 0
                }
            },
            Message::Ui(UiMsg::Download(p, e)) => {
                &&& new.catalog_view() == cat && new.is_running()
                &&& if p < cat.len() && e < cat[p as int].episodes@.len() {
                    let pod = cat[p as int];
                    let batch = new.downloads_view().jobs().subrange(dl.jobs().len() as int, new.downloads_view().jobs().len() as int);
                    &&& batch.len() == 1 && job_of(pod, pod.episodes@[e as int], batch[0])
                    &&& submitted(dl, new.downloads_view(), batch)
                    &&& r.len() >= 1
                    &&& (r[0] matches Effect::EnsureDir(t) && t@ == pod.title@)
                    &&& starts_running(r, 1, new.downloads_view())
                } else {
                    new.downloads_view() == dl && r.len() == 0
                }
            },
            Message::Ui(UiMsg::DownloadAll(p)) => {
                &&& new.catalog_view() == cat && new.is_running()
                &&& if p < cat.len() {
                    let pod = cat[p as int];
                    let batch = new.downloads_view().jobs().subrange(dl.jobs().len() as int, new.downloads_view().jobs().len() as int);
                    &&& batch.len() == pod.episodes@.len()
                    &&& forall|k: int| 0 <= k < batch.len() ==> #[trigger] job_of(pod, pod.episodes@[k], batch[k])
                    &&& submitted(dl, new.downloads_view(), batch)
                    &&& r.len() >= 1
                    &&& (r[0] matches Effect::EnsureDir(t) && t@ == pod.title@)
                    &&& starts_running(r, 1, new.downloads_view())
                } else {
                    new.downloads_view() == dl && r.len() == 0
                }
            },
            Message::Ui(UiMsg::Noop) => unchanged(old, new) && r.len() == 0,
            Message::Feed(FeedMsg::NewData(pod)) => unchanged(old, new) && r == seq![Effect::InsertPodcast(pod)],
            Message::Feed(FeedMsg::SyncData(pod)) => unchanged(old, new) && r == seq![Effect::UpdatePodcast(pod)],
            Message::Feed(FeedMsg::Error) => {
                unchanged(old, new) && r.len() == 1 && shows(r[0], "Error retrieving RSS feed."@)
            },
            Message::Store(StoreMsg::Added(result, stored)) => {
                &&& new.downloads_view() == dl && new.is_running()
                &&& match result {
                    Ok(count) => {
                        &&& reloaded(new.catalog_view(), stored@)
                        &&& r.len() == 2 && refreshes(r[0]) && shows(r[1], added_text(count as nat))
                    },
                    Err(_) => {
                        &&& new.catalog_view() == cat
                        &&& r.len() == 1 && shows(r[0], "Error adding podcast to database."@)
                    },
                }
            },
            Message::Store(StoreMsg::Updated(title, result, stored)) => {
                &&& new.downloads_view() == dl && new.is_running()
                &&& match result {
                    Ok(_) => {
                        &&& reloaded(new.catalog_view(), stored@)
                        &&& r.len() == 2 && refreshes(r[0]) && shows(r[1], "Synchronized "@ + title@ + "."@)
                    },
                    Err(_) => {
                        &&& new.catalog_view() == cat
                        &&& r.len() == 1 && shows(r[0], "Error synchronizing "@ + title@ + "."@)
                    },
                }
            },
            Message::Dl(i, outcome) => {
                if i < dl.states().len() && dl.states()[i as int] is InProgress {
                    let job = dl.jobs()[i as int];
                    let nd = new.downloads_view();
                    &&& new.is_running()
                    &&& nd.wf() && nd.limit() == dl.limit() && nd.jobs() == dl.jobs()
                    &&& started(dl.states().update(i as int, nd.states()[i as int]), nd.states())
                    &&& match outcome {
                        Ok(path) => nd.states()[i as int] matches DownloadState::Completed(q) && q@ == path@,
                        Err(kind) => nd.states()[i as int] == DownloadState::Failed(kind),
                    }
                    &&& count_terminal(nd.states()) == count_terminal(dl.states()) + 1
                    &&& match outcome {
                        Ok(path) => {
                            if job.pod_id is Some && job.episode_id is Some {
                                &&& exists|at: Option<(usize, usize)>| file_attached(
                                    cat, new.catalog_view(), job.pod_id->0, job.episode_id->0, path, at)
                                &&& r.len() >= 2
                                &&& (r[0] matches Effect::SaveFile(x, t) && x == job.episode_id->0 && t@ == path@)
                                &&& refreshes(r[1])
                                &&& starts_running(r, 2, nd)
                            } else {
                                &&& new.catalog_view() == cat
                                &&& r.len() >= 1 && refreshes(r[0])
                                &&& starts_running(r, 1, nd)
                            }
                        },
                        Err(kind) => {
                            &&& new.catalog_view() == cat
                            &&& r.len() >= 1 && shows(r[0], download_error_text(kind))
                            &&& starts_running(r, 1, nd)
                        },
                    }
                } else {
                    unchanged(old, new) && r.len() == 0
                }
            },
            Message::PlayFailed(local) => {
                &&& unchanged(old, new)
                &&& r.len() == 1
                &&& shows(r[0], if local {
                    "Error: Could not play file. Check configuration."@
                } else {
                    "Error: Could not stream URL."@
                })
            },
            Message::DirFailed(title) => {
                unchanged(old, new) && r.len() == 1 && shows(r[0], "Could not create dir: "@ + title@)
            },
        }
    }
}

fn message(text: &str) -> (r: Effect)
    ensures
        shows(r, text@),
{
    Effect::Notify(MainMessage::UiSpawnMsgWin(String::from_str(text), MESSAGE_MS))
}

fn job_for(pod: &Podcast, ep: &Episode) -> (r: DownloadJob)
    ensures
        job_of(*pod, *ep, r),
{
    DownloadJob {
        episode_id: ep.id,
        pod_id: pod.id,
        url: ep.url.clone(),
        title: ep.title.clone(),
        dir_name: pod.title.clone(),
    }
}

/// The single owner of the catalog. It takes one message at a time and
/// answers with the effects that its collaborators are to carry out.
pub struct Controller {
    catalog: Catalog,
    downloads: DownloadManager,
    running: bool,
}

impl Controller {
    pub closed spec fn catalog_view(&self) -> Seq<Podcast> {
        self.catalog@
    }

    pub closed spec fn downloads_view(&self) -> DownloadManager {
        self.downloads
    }

    pub closed spec fn is_running(&self) -> bool {
        self.running
    }

    pub closed spec fn wf(&self) -> bool {
        self.catalog.wf() && self.downloads.wf()
    }

    /// Every podcast's derived flag agrees with its episodes.
    pub proof fn lemma_flags_agree(&self)
        requires
            self.wf(),
        ensures
            forall|i: int| 0 <= i < self.catalog_view().len() ==> (#[trigger] self.catalog_view()[i]).wf(),
    {
    }

    /// A controller over the podcasts as stored, with nothing downloading.
    pub fn new(podcasts: Vec<Podcast>) -> (r: Controller)
        ensures
            r.wf(),
            r.is_running(),
            r.catalog_view().len() == podcasts@.len(),
            forall|i: int| 0 <= i < podcasts@.len() ==> #[trigger] r.catalog_view()[i] == normalized(podcasts@[i]),
            r.downloads_view().states().len() == 0,
    {
        Controller { catalog: Catalog::new(podcasts), downloads: DownloadManager::new(DOWNLOAD_LIMIT), running: true }
    }

    /// Read access to the catalog, for rendering.
    pub fn catalog(&self) -> (r: &Catalog)
        ensures
            r@ == self.catalog_view(),
            self.wf() ==> r.wf(),
    {
        &self.catalog
    }

    /// Read access to the downloads.
    pub fn downloads(&self) -> (r: &DownloadManager)
        ensures
            *r == self.downloads_view(),
    {
        &self.downloads
    }

    /// Starts queued downloads while fewer than the limit run, and hands out
    /// one effect for each.
    fn start_ready(&mut self, r: &mut Vec<Effect>)
        requires
            old(self).wf(),
        ensures
            final(self).wf(),
            final(self).catalog_view() == old(self).catalog_view(),
            final(self).is_running() == old(self).is_running(),
            final(self).downloads_view().jobs() == old(self).downloads_view().jobs(),
            final(self).downloads_view().limit() == old(self).downloads_view().limit(),
            started(old(self).downloads_view().states(), final(self).downloads_view().states()),
            count_terminal(final(self).downloads_view().states()) == count_terminal(old(self).downloads_view().states()),
            final(r)@.len() >= old(r)@.len(),
            final(r)@.subrange(0, old(r)@.len() as int) == old(r)@,
            starts_running(final(r)@, old(r)@.len() as int, final(self).downloads_view()),
    {
        let ghost s0 = self.downloads.states();
        let ghost r0 = r@;
        loop
            invariant
                self.wf(),
                self.catalog@ == old(self).catalog@,
                self.running == old(self).running,
                self.downloads.jobs() == old(self).downloads.jobs(),
                self.downloads.limit() == old(self).downloads.limit(),
                s0 == old(self).downloads.states(),
                r0 == old(r)@,
                started(s0, self.downloads.states()),
                count_terminal(self.downloads.states()) == count_terminal(s0),
                r@.len() >= r0.len(),
                r@.subrange(0, r0.len() as int) == r0,
                starts_running(r@, r0.len() as int, self.downloads),
            ensures
                self.wf(),
                self.catalog@ == old(self).catalog@,
                self.running == old(self).running,
                self.downloads.jobs() == old(self).downloads.jobs(),
                self.downloads.limit() == old(self).downloads.limit(),
                started(s0, self.downloads.states()),
                count_terminal(self.downloads.states()) == count_terminal(s0),
                r@.len() >= r0.len(),
                r@.subrange(0, r0.len() as int) == r0,
                starts_running(r@, r0.len() as int, self.downloads),
            decreases self.downloads.limit() - count_running(self.downloads.states()),
        {
            let ghost before = self.downloads.states();
            match self.downloads.next_job() {
                Some(i) => {
                    r.push(Effect::StartDownload(i));
                    proof {
                        assert(r@.subrange(0, r0.len() as int) =~= r0);
                        assert forall|k: int| r0.len() <= k < r@.len() implies
                            (#[trigger] r@[k] matches Effect::StartDownload(j) && (j < self.downloads.states().len() && self.downloads.states()[j as int] is InProgress)) by {
                            if k < r@.len() - 1 {
                                assert(r@[k] matches Effect::StartDownload(j) && before[j as int] is InProgress);
                            }
                        }
                    }
                },
                None => {
                    break;
                },
            }
        }
    }

    fn on_ui(&mut self, ui: UiMsg) -> (r: Vec<Effect>)
        requires
            old(self).wf(),
            old(self).is_running(),
        ensures
            final(self).wf(),
            handled(*old(self), *final(self), Message::Ui(ui), r@),
    {
        let mut r: Vec<Effect> = Vec::new();
        match ui {
            UiMsg::Quit => {
                self.running = false;
                r.push(Effect::Notify(MainMessage::UiTearDown));
                proof {
                    assert(r@ =~= seq![Effect::Notify(MainMessage::UiTearDown)]);
                }
            },
            UiMsg::AddFeed(url) => {
                r.push(Effect::FetchFeed(FeedRef { url, id: None }));
            },
            UiMsg::Sync(p) => {
                if let Some(f) = self.catalog.feed(p) {
                    r.push(Effect::FetchFeed(f));
                }
            },
            UiMsg::SyncAll => {
                let pods = self.catalog.podcasts();
                let mut i: usize = 0;
                while i < pods.len()
                    invariant
                        pods@ == self.catalog@,
                        i <= pods@.len(),
                        r@.len() == i,
                        forall|k: int| 0 <= k < i ==> #[trigger] fetches(r@[k], pods@[k]),
                    decreases pods@.len() - i,
                {
                    r.push(Effect::FetchFeed(FeedRef { url: pods[i].url.clone(), id: pods[i].id }));
                    i = i + 1;
                }
            },
            UiMsg::Play(p, e) => {
                let pods = self.catalog.podcasts();
                if p < pods.len() && e < pods[p].episodes.len() {
                    let ep = &pods[p].episodes[e];
                    match &ep.path {
                        Some(path) => r.push(Effect::Play(path.clone(), true)),
                        None => r.push(Effect::Play(ep.url.clone(), false)),
                    }
                }
            },
            UiMsg::MarkPlayed(p, e, played) => {
                if let Some(Some(id)) = self.catalog.set_played(p, e, played) {
                    r.push(Effect::SavePlayed(id, played));
                    proof {
                        assert(r@ =~= seq![Effect::SavePlayed(id, played)]);
                    }
                }
            },
            UiMsg::MarkAllPlayed(p, played) => {
                r = self.on_mark_all_played(p, played);
            },
            UiMsg::Download(p, e) => {
                r = self.on_download_one(p, e);
            },
            UiMsg::DownloadAll(p) => {
                r = self.on_download_all(p);
            },
            UiMsg::Noop => {},
        }
        r
    }

    fn on_mark_all_played(&mut self, p: usize, played: bool) -> (r: Vec<Effect>)
        requires
            old(self).wf(),
            old(self).is_running(),
        ensures
            final(self).wf(),
            handled(*old(self), *final(self), Message::Ui(UiMsg::MarkAllPlayed(p, played)), r@),
    {
        let mut r: Vec<Effect> = Vec::new();
        let ghost before = self.catalog@;
        if self.catalog.set_all_played(p, played) {
            let eps = &self.catalog.podcasts()[p].episodes;
            let ghost olds = before[p as int].episodes@;
            let mut i: usize = 0;
            while i < eps.len()
                invariant
                    i <= eps@.len(),
                    all_marked(olds, eps@, played),
                    r@ == save_effects(olds.take(i as int), played),
                decreases eps@.len() - i,
            {
                assert(eps@[i as int] == (Episode { played: played, ..olds[i as int] }));
                assert(olds.take(i + 1).drop_last() =~= olds.take(i as int));
                if let Some(id) = eps[i].id {
                    r.push(Effect::SavePlayed(id, played));
                }
                i = i + 1;
            }
            assert(olds.take(eps@.len() as int) =~= olds);
            r.push(Effect::Notify(MainMessage::UiUpdateMenus));
        }
        r
    }

    fn on_download_one(&mut self, p: usize, e: usize) -> (r: Vec<Effect>)
        requires
            old(self).wf(),
            old(self).is_running(),
        ensures
            final(self).wf(),
            handled(*old(self), *final(self), Message::Ui(UiMsg::Download(p, e)), r@),
    {
        let mut r: Vec<Effect> = Vec::new();
        let pods = self.catalog.podcasts();
        if p < pods.len() && e < pods[p].episodes.len() {
            let mut batch: Vec<DownloadJob> = Vec::new();
            batch.push(job_for(&pods[p], &pods[p].episodes[e]));
            r.push(Effect::EnsureDir(pods[p].title.clone()));
            let ghost r1 = r@;
            self.submit(batch, &mut r);
            assert(r@[0] == r@.subrange(0, r1.len() as int)[0]);
        }
        r
    }

    fn on_download_all(&mut self, p: usize) -> (r: Vec<Effect>)
        requires
            old(self).wf(),
            old(self).is_running(),
        ensures
            final(self).wf(),
            handled(*old(self), *final(self), Message::Ui(UiMsg::DownloadAll(p)), r@),
    {
        let mut r: Vec<Effect> = Vec::new();
        let pods = self.catalog.podcasts();
        if p < pods.len() {
            let pod = &pods[p];
            let mut batch: Vec<DownloadJob> = Vec::new();
            let mut i: usize = 0;
            while i < pod.episodes.len()
                invariant
                    i <= pod.episodes@.len(),
                    batch@.len() == i,
                    forall|k: int| 0 <= k < i ==> #[trigger] job_of(*pod, pod.episodes@[k], batch@[k]),
                decreases pod.episodes@.len() - i,
            {
                batch.push(job_for(pod, &pod.episodes[i]));
                i = i + 1;
            }
            r.push(Effect::EnsureDir(pod.title.clone()));
            let ghost r1 = r@;
            self.submit(batch, &mut r);
            assert(r@[0] == r@.subrange(0, r1.len() as int)[0]);
        }
        r
    }

    /// Hands a batch to the download manager and starts what may run.
    fn submit(&mut self, batch: Vec<DownloadJob>, r: &mut Vec<Effect>)
        requires
            old(self).wf(),
        ensures
            final(self).wf(),
            final(self).catalog_view() == old(self).catalog_view(),
            final(self).is_running() == old(self).is_running(),
            final(self).downloads_view().jobs().subrange(
                old(self).downloads_view().jobs().len() as int,
                final(self).downloads_view().jobs().len() as int,
            ) == batch@,
            submitted(old(self).downloads_view(), final(self).downloads_view(), batch@),
            final(r)@.len() >= old(r)@.len(),
            final(r)@.subrange(0, old(r)@.len() as int) == old(r)@,
            starts_running(final(r)@, old(r)@.len() as int, final(self).downloads_view()),
    {
        let ghost old_dl = self.downloads;
        let ghost items = batch@;
        self.downloads.download_list(batch);
        proof {
            assert(self.downloads.states() =~= old_dl.states() + Seq::new(items.len(), |i: int| DownloadState::Queued));
        }
        self.start_ready(r);
        proof {
            assert(self.downloads.jobs().subrange(old_dl.jobs().len() as int, self.downloads.jobs().len() as int) =~= items);
        }
    }

    /// Takes one message and returns the effects to carry out, in order.
    /// Once the controller has stopped, messages change nothing.
    pub fn handle(&mut self, msg: Message) -> (r: Vec<Effect>)
        requires
            old(self).wf(),
        ensures
            final(self).wf(),
            handled(*old(self), *final(self), msg, r@),
    {
        if !self.running {
            return Vec::new();
        }
        match msg {
            Message::Ui(ui) => self.on_ui(ui),
            Message::Feed(feed) => self.on_feed(feed),
            Message::Store(store) => self.on_store(store),
            Message::Dl(i, outcome) => self.on_download(i, outcome),
            Message::PlayFailed(local) => {
                let mut r: Vec<Effect> = Vec::new();
                if local {
                    r.push(message("Error: Could not play file. Check configuration."));
                } else {
                    r.push(message("Error: Could not stream URL."));
                }
                r
            },
            Message::DirFailed(title) => {
                let mut text = String::from_str("Could not create dir: ");
                text.append(title.as_str());
                let mut r: Vec<Effect> = Vec::new();
                r.push(Effect::Notify(MainMessage::UiSpawnMsgWin(text, MESSAGE_MS)));
                r
            },
        }
    }

    fn on_feed(&mut self, feed: FeedMsg) -> (r: Vec<Effect>)
        requires
            old(self).wf(),
            old(self).is_running(),
        ensures
            final(self).wf(),
            handled(*old(self), *final(self), Message::Feed(feed), r@),
    {
        let mut r: Vec<Effect> = Vec::new();
        match feed {
            FeedMsg::NewData(pod) => r.push(Effect::InsertPodcast(pod)),
            FeedMsg::SyncData(pod) => r.push(Effect::UpdatePodcast(pod)),
            FeedMsg::Error => r.push(message("Error retrieving RSS feed.")),
        }
        proof {
            assert(r@ =~= seq![r@[0]]);
        }
        r
    }

    fn on_store(&mut self, store: StoreMsg) -> (r: Vec<Effect>)
        requires
            old(self).wf(),
            old(self).is_running(),
        ensures
            final(self).wf(),
            handled(*old(self), *final(self), Message::Store(store), r@),
    {
        let mut r: Vec<Effect> = Vec::new();
        match store {
            StoreMsg::Added(result, stored) => match result {
                Ok(count) => {
                    self.catalog = Catalog::new(stored);
                    r.push(Effect::Notify(MainMessage::UiUpdateMenus));
                    let mut text = String::from_str("Successfully added ");
                    let digits = decimal(count);
                    text.append(digits.as_str());
                    text.append(" episodes.");
                    r.push(Effect::Notify(MainMessage::UiSpawnMsgWin(text, MESSAGE_MS)));
                },
                Err(_) => {
                    r.push(message("Error adding podcast to database."));
                },
            },
            StoreMsg::Updated(title, result, stored) => match result {
                Ok(_) => {
                    self.catalog = Catalog::new(stored);
                    r.push(Effect::Notify(MainMessage::UiUpdateMenus));
                    let mut text = String::from_str("Synchronized ");
                    text.append(title.as_str());
                    text.append(".");
                    r.push(Effect::Notify(MainMessage::UiSpawnMsgWin(text, MESSAGE_MS)));
                },
                Err(_) => {
                    let mut text = String::from_str("Error synchronizing ");
                    text.append(title.as_str());
                    text.append(".");
                    r.push(Effect::Notify(MainMessage::UiSpawnMsgWin(text, MESSAGE_MS)));
                },
            },
        }
        r
    }

    fn on_download(&mut self, i: usize, outcome: Result<String, DownloadError>) -> (r: Vec<Effect>)
        requires
            old(self).wf(),
            old(self).is_running(),
        ensures
            final(self).wf(),
            handled(*old(self), *final(self), Message::Dl(i, outcome), r@),
    {
        let mut r: Vec<Effect> = Vec::new();
        if !self.downloads.is_running(i) {
            return r;
        }
        let pod_id = self.downloads.job(i).pod_id;
        let episode_id = self.downloads.job(i).episode_id;
        let ghost cat = self.catalog@;
        match outcome {
            Ok(path) => {
                self.downloads.finish(i, Ok(path.clone()));
                match (pod_id, episode_id) {
                    (Some(pid), Some(eid)) => {
                        r.push(Effect::SaveFile(eid, path.clone()));
                        let ghost kept = path;
                        let at = self.catalog.attach_file(pid, eid, path);
                        assert(file_attached(cat, self.catalog@, pid, eid, kept, at));
                    },
                    _ => {},
                }
                r.push(Effect::Notify(MainMessage::UiUpdateMenus));
            },
            Err(kind) => {
                self.downloads.finish(i, Err(kind));
                let e = match kind {
                    DownloadError::RequestError => message("Error sending download request."),
                    DownloadError::DataStreamError => message("Error downloading episode."),
                    DownloadError::FileCreateError => message("Error creating file."),
                    DownloadError::FileWriteError => message("Error writing file to disk."),
                };
                r.push(e);
            },
        }
        let ghost mid = self.downloads.states();
        let ghost r1 = r@;
        self.start_ready(&mut r);
        proof {
            let nd = self.downloads.states();
            assert(nd[i as int] == mid[i as int]);
            assert(mid =~= old(self).downloads.states().update(i as int, nd[i as int]));
            assert(r@[0] == r@.subrange(0, r1.len() as int)[0]);
            if r1.len() >= 2 {
                assert(r@[1] == r@.subrange(0, r1.len() as int)[1]);
            }
        }
        r
    }

    /// Whether the controller still takes messages.
    pub fn running(&self) -> (r: bool)
        ensures
            r == self.is_running(),
    {
        self.running
    }
}

} // verus!
