use vstd::prelude::*;

verus! {

/// Why a download failed.
#[derive(Debug, Clone, Copy, PartialEq, Eq, Structural)]
pub enum DownloadError {
    RequestError,
    DataStreamError,
    FileCreateError,
    FileWriteError,
}

/// Where one episode's download stands.
#[derive(Debug, Clone)]
pub enum DownloadState {
    Queued,
    InProgress,
    Completed(String),
    Failed(DownloadError),
}

impl DownloadState {
    /// A finished download, successful or not; it never changes again.
    pub open spec fn is_terminal(&self) -> bool {
        self is Completed || self is Failed
    }
}

/// One episode to download: its identity, its podcast's identity, where
/// it comes from, and the name of the directory (the podcast's title) that
/// receives it.
#[derive(Debug, Clone)]
pub struct DownloadJob {
    pub episode_id: Option<i32>,
    pub pod_id: Option<i32>,
    pub url: String,
    pub title: String,
    pub dir_name: String,
}

/// Whether `new` is `old` with some queued downloads started.
pub open spec fn started(old: Seq<DownloadState>, new: Seq<DownloadState>) -> bool {
    &&& new.len() == old.len()
    &&& forall|i: int| 0 <= i < new.len() ==>
        #[trigger] new[i] == old[i] || (old[i] is Queued && new[i] is InProgress)
}

/// How many states of `s` are finished.
pub open spec fn count_terminal(s: Seq<DownloadState>) -> nat
    decreases s.len(),
{
    if s.len() == 0 {
        0
    } else {
        count_terminal(s.drop_last()) + if s.last().is_terminal() { 1nat } else { 0nat }
    }
}

/// How many states of `s` are running.
pub open spec fn count_running(s: Seq<DownloadState>) -> nat
    decreases s.len(),
{
    if s.len() == 0 {
        0
    } else {
        count_running(s.drop_last()) + if s.last() is InProgress { 1nat } else { 0nat }
    }
}

proof fn lemma_counts_update(s: Seq<DownloadState>, i: int, x: DownloadState)
    requires
        0 <= i < s.len(),
    ensures
        count_terminal(s.update(i, x)) + (if s[i].is_terminal() { 1int } else { 0int })
            == count_terminal(s) + (if x.is_terminal() { 1int } else { 0int }),
        count_running(s.update(i, x)) + (if s[i] is InProgress { 1int } else { 0int })
            == count_running(s) + (if x is InProgress { 1int } else { 0int }),
    decreases s.len(),
{
    if i < s.len() - 1 {
        assert(s.update(i, x).drop_last() =~= s.drop_last().update(i, x));
        lemma_counts_update(s.drop_last(), i, x);
    } else {
        assert(s.update(i, x).drop_last() =~= s.drop_last());
    }
}

proof fn lemma_counts_push(s: Seq<DownloadState>, x: DownloadState)
    ensures
        count_terminal(s.push(x)) == count_terminal(s) + if x.is_terminal() { 1nat } else { 0nat },
        count_running(s.push(x)) == count_running(s) + if x is InProgress { 1nat } else { 0nat },
{
    assert(s.push(x).drop_last() =~= s);
}

/// The results of a batch are complete exactly when every one of its
/// downloads has finished: a batch of `n` downloads never yields more than
/// `n` results, and yields `n` once none is queued or running.
pub proof fn lemma_batch_complete(s: Seq<DownloadState>)
    ensures
        count_terminal(s) <= s.len(),
        count_terminal(s) == s.len() <==> forall|i: int| 0 <= i < s.len() ==> (#[trigger] s[i]).is_terminal(),
    decreases s.len(),
{
    if s.len() > 0 {
        lemma_batch_complete(s.drop_last());
        if count_terminal(s) == s.len() {
            assert forall|i: int| 0 <= i < s.len() implies (#[trigger] s[i]).is_terminal() by {
                if i < s.len() - 1 {
                    assert(s.drop_last()[i] == s[i]);
                }
            }
        }
        if forall|i: int| 0 <= i < s.len() ==> (#[trigger] s[i]).is_terminal() {
            assert forall|i: int| 0 <= i < s.drop_last().len() implies (#[trigger] s.drop_last()[i]).is_terminal() by {
                assert(s[i].is_terminal());
            }
            assert(s[s.len() - 1].is_terminal());
        }
    }
}

/// Tracks every download that was submitted, and lets at most `limit` of
/// them run at once.
#[derive(Debug)]
pub struct DownloadManager {
    jobs: Vec<DownloadJob>,
    states: Vec<DownloadState>,
    limit: usize,
}

impl DownloadManager {
    pub closed spec fn jobs(&self) -> Seq<DownloadJob> {
        self.jobs@
    }

    pub closed spec fn states(&self) -> Seq<DownloadState> {
        self.states@
    }

    pub closed spec fn limit(&self) -> nat {
        self.limit as nat
    }

    pub open spec fn wf(&self) -> bool {
        &&& self.jobs().len() == self.states().len()
        &&& count_running(self.states()) <= self.limit()
        &&& self.limit() > 0
    }

    /// A manager with nothing submitted that runs at most `limit` downloads
    /// at once.
    pub fn new(limit: usize) -> (r: DownloadManager)
        requires
            limit > 0,
        ensures
            r.wf(),
            r.jobs().len() == 0,
            r.limit() == limit,
    {
        DownloadManager { jobs: Vec::new(), states: Vec::new(), limit }
    }

    /// Where download `i` stands.
    pub fn state(&self, i: usize) -> (r: &DownloadState)
        requires
            i < self.states().len(),
        ensures
            *r == self.states()[i as int],
    {
        &self.states[i]
    }

    /// The description of download `i`.
    pub fn job(&self, i: usize) -> (r: &DownloadJob)
        requires
            i < self.jobs().len(),
        ensures
            *r == self.jobs()[i as int],
    {
        &self.jobs[i]
    }

    /// How many downloads were ever submitted.
    pub fn len(&self) -> (r: usize)
        requires
            self.wf(),
        ensures
            r == self.states().len(),
    {
        self.states.len()
    }

    /// Submits a batch; each of its downloads is queued. Returns the number
    /// of the first one; the batch holds the numbers after it in order.
    pub fn download_list(&mut self, batch: Vec<DownloadJob>) -> (first: usize)
        requires
            old(self).wf(),
        ensures
            final(self).wf(),
            first == old(self).states().len(),
            final(self).limit() == old(self).limit(),
            final(self).jobs() == old(self).jobs() + batch@,
            final(self).states().len() == old(self).states().len() + batch@.len(),
            forall|i: int| 0 <= i < old(self).states().len() ==> #[trigger] final(self).states()[i] == old(self).states()[i],
            forall|i: int| old(self).states().len() <= i < final(self).states().len() ==> #[trigger] final(self).states()[i] is Queued,
            count_terminal(final(self).states()) == count_terminal(old(self).states()),
    {
        let first = self.states.len();
        let ghost old_states = self.states@;
        let ghost jobs = self.jobs@ + batch@;
        let ghost limit = self.limit;
        let n = batch.len();
        let mut batch = batch;
        self.jobs.append(&mut batch);
        let mut k: usize = 0;
        while k < n
            invariant
                k <= n,
                self.jobs@ == jobs,
                jobs.len() == old_states.len() + n,
                self.limit == limit,
                self.states@.len() == old_states.len() + k,
                forall|i: int| 0 <= i < old_states.len() ==> #[trigger] self.states@[i] == old_states[i],
                forall|i: int| old_states.len() <= i < self.states@.len() ==> #[trigger] self.states@[i] is Queued,
                count_terminal(self.states@) == count_terminal(old_states),
                count_running(self.states@) == count_running(old_states),
            decreases n - k,
        {
            proof {
                lemma_counts_push(self.states@, DownloadState::Queued);
            }
            self.states.push(DownloadState::Queued);
            k = k + 1;
        }
        first
    }

    /// Whether download `i` exists and is running.
    pub fn is_running(&self, i: usize) -> (r: bool)
        ensures
            r == (i < self.states().len() && self.states()[i as int] is InProgress),
    {
        i < self.states.len() && match self.states[i] {
            DownloadState::InProgress => true,
            _ => false,
        }
    }

    /// Starts the first queued download, where fewer than `limit` run.
    /// Returns its number, or `None` (and changes nothing) where none is
    /// queued or the limit is reached.
    pub fn next_job(&mut self) -> (r: Option<usize>)
        requires
            old(self).wf(),
        ensures
            final(self).wf(),
            final(self).jobs() == old(self).jobs(),
            final(self).limit() == old(self).limit(),
            count_terminal(final(self).states()) == count_terminal(old(self).states()),
            match r {
                Some(i) => {
                    &&& i < old(self).states().len()
                    &&& old(self).states()[i as int] is Queued
                    &&& forall|j: int| 0 <= j < i ==> !(#[trigger] old(self).states()[j] is Queued)
                    &&& count_running(old(self).states()) < old(self).limit()
                    &&& count_running(final(self).states()) == count_running(old(self).states()) + 1
                    &&& final(self).states() == old(self).states().update(i as int, DownloadState::InProgress)
                },
                None => {
                    &&& final(self).states() == old(self).states()
                    &&& (count_running(old(self).states()) >= old(self).limit()
                        || forall|j: int| 0 <= j < old(self).states().len() ==> !(#[trigger] old(self).states()[j] is Queued))
                },
            },
    {
        let ghost s = self.states@;
        let mut running: usize = 0;
        let mut found: Option<usize> = None;
        let mut i: usize = 0;
        while i < self.states.len()
            invariant
                s == self.states@,
                i <= s.len(),
                running == count_running(s.take(i as int)),
                running <= i,
                match found {
                    Some(f) => f < i && s[f as int] is Queued && forall|j: int| 0 <= j < f ==> !(#[trigger] s[j] is Queued),
                    None => forall|j: int| 0 <= j < i ==> !(#[trigger] s[j] is Queued),
                },
            decreases s.len() - i,
        {
            assert(s.take(i + 1).drop_last() =~= s.take(i as int));
            match self.states[i] {
                DownloadState::InProgress => {
                    running = running + 1;
                },
                DownloadState::Queued => {
                    if found.is_none() {
                        found = Some(i);
                    }
                },
                _ => {},
            }
            i = i + 1;
        }
        assert(s.take(s.len() as int) =~= s);
        match found {
            Some(f) => {
                if running < self.limit {
                    proof {
                        lemma_counts_update(s, f as int, DownloadState::InProgress);
                    }
                    self.states[f] = DownloadState::InProgress;
                    Some(f)
                } else {
                    None
                }
            },
            None => None,
        }
    }

    /// Records how running download `i` ended: the local path of the file,
    /// or why it failed. Nothing else changes.
    pub fn finish(&mut self, i: usize, outcome: Result<String, DownloadError>)
        requires
            old(self).wf(),
            i < old(self).states().len(),
            old(self).states()[i as int] is InProgress,
        ensures
            final(self).wf(),
            final(self).jobs() == old(self).jobs(),
            final(self).limit() == old(self).limit(),
            final(self).states() == old(self).states().update(i as int, match outcome {
                Ok(path) => DownloadState::Completed(path),
                Err(kind) => DownloadState::Failed(kind),
            }),
            count_terminal(final(self).states()) == count_terminal(old(self).states()) + 1,
    {
        let state = match outcome {
            Ok(path) => DownloadState::Completed(path),
            Err(kind) => DownloadState::Failed(kind),
        };
        proof {
            lemma_counts_update(self.states@, i as int, state);
        }
        self.states[i] = state;
    }
}

} // verus!
