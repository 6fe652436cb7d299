use vstd::prelude::*;
use crate::types::{any_unplayed, some_unplayed, Episode, Podcast};

verus! {

/// The podcast with its derived flag recomputed from its episodes.
pub open spec fn normalized(p: Podcast) -> Podcast {
    Podcast { any_unplayed: some_unplayed(p.episodes@), ..p }
}

/// Whether `new` is `old` after episode `e` of podcast `p` was marked
/// `played`, with that podcast's derived flag recomputed; where either
/// position is out of range, `new` is `old`.
pub open spec fn marked_played(old: Seq<Podcast>, new: Seq<Podcast>, p: int, e: int, played: bool) -> bool {
    if 0 <= p < old.len() && 0 <= e < old[p].episodes@.len() {
        &&& new.len() == old.len()
        &&& forall|q: int| 0 <= q < new.len() && q != p ==> #[trigger] new[q] == old[q]
        &&& new[p] == (Podcast {
            episodes: new[p].episodes,
            any_unplayed: some_unplayed(new[p].episodes@),
            ..old[p]
        })
        &&& new[p].episodes@ == old[p].episodes@.update(e, Episode { played: played, ..old[p].episodes@[e] })
    } else {
        new == old
    }
}

/// Marking an episode played a second time changes nothing more: the
/// episode stays played, its podcast's derived flag keeps the value the first
/// marking gave it, and every other podcast and episode stays as it was.
pub proof fn lemma_mark_played_idempotent(a: Seq<Podcast>, b: Seq<Podcast>, c: Seq<Podcast>, p: int, e: int)
    requires
        marked_played(a, b, p, e, true),
        marked_played(b, c, p, e, true),
    ensures
        c.len() == b.len(),
        forall|q: int| 0 <= q < c.len() && q != p ==> #[trigger] c[q] == b[q],
        0 <= p < a.len() && 0 <= e < a[p].episodes@.len() ==> {
            &&& c[p].episodes@ == b[p].episodes@
            &&& c[p].episodes@[e].played
            &&& c[p].any_unplayed == b[p].any_unplayed
            &&& c[p] == (Podcast { episodes: c[p].episodes, ..b[p] })
        },
{
    if 0 <= p < a.len() && 0 <= e < a[p].episodes@.len() {
        assert(b[p].episodes@[e].played);
        assert(c[p].episodes@ =~= b[p].episodes@);
    }
}

/// Whether `eps` is `old` with every played flag set to `played`.
pub open spec fn all_marked(old: Seq<Episode>, eps: Seq<Episode>, played: bool) -> bool {
    &&& eps.len() == old.len()
    &&& forall|i: int| 0 <= i < eps.len() ==> #[trigger] eps[i] == (Episode { played: played, ..old[i] })
}

/// Whether `p` is the first position in `pods` of a podcast with identity `id`.
pub open spec fn first_podcast(pods: Seq<Podcast>, id: i32, p: int) -> bool {
    &&& 0 <= p < pods.len()
    &&& pods[p].id == Some(id)
    &&& forall|q: int| 0 <= q < p ==> (#[trigger] pods[q]).id != Some(id)
}

/// Whether `e` is the first position in `eps` of an episode with identity `id`.
pub open spec fn first_episode(eps: Seq<Episode>, id: i32, e: int) -> bool {
    &&& 0 <= e < eps.len()
    &&& eps[e].id == Some(id)
    &&& forall|q: int| 0 <= q < e ==> (#[trigger] eps[q]).id != Some(id)
}

/// Whether `new` is `old` after the local file `path` was recorded for the
/// first episode with identity `ep_id` of the first podcast with identity
/// `pod_id`, at the positions `r`; where there is no such episode, `r` is
/// `None` and `new` is `old`.
pub open spec fn file_attached(
    old: Seq<Podcast>,
    new: Seq<Podcast>,
    pod_id: i32,
    ep_id: i32,
    path: String,
    r: Option<(usize, usize)>,
) -> bool {
    match r {
        Some((p, e)) => {
            &&& first_podcast(old, pod_id, p as int)
            &&& first_episode(old[p as int].episodes@, ep_id, e as int)
            &&& new.len() == old.len()
            &&& forall|q: int| 0 <= q < new.len() && q != p ==> #[trigger] new[q] == old[q]
            &&& new[p as int] == (Podcast { episodes: new[p as int].episodes, ..old[p as int] })
            &&& new[p as int].episodes@ == old[p as int].episodes@.update(e as int, Episode {
                path: Some(path),
                ..old[p as int].episodes@[e as int]
            })
        },
        None => {
            &&& new == old
            &&& forall|p: int| #[trigger] first_podcast(old, pod_id, p) ==>
                forall|e: int| 0 <= e < old[p].episodes@.len() ==>
                    (#[trigger] old[p].episodes@[e]).id != Some(ep_id)
        },
    }
}

/// What a worker needs to refresh one feed: its address and, for a podcast
/// already stored, its identity.
#[derive(Debug)]
pub struct FeedRef {
    pub url: String,
    pub id: Option<i32>,
}

/// The in-memory collection of podcasts, addressed by position. Every
/// podcast's derived flag agrees with its episodes.
#[derive(Debug)]
pub struct Catalog {
    podcasts: Vec<Podcast>,
}

impl View for Catalog {
    type V = Seq<Podcast>;

    closed spec fn view(&self) -> Seq<Podcast> {
        self.podcasts@
    }
}

impl Catalog {
    pub open spec fn wf(&self) -> bool {
        forall|i: int| 0 <= i < self@.len() ==> (#[trigger] self@[i]).wf()
    }

    /// Builds a catalog from podcasts as they were stored, recomputing each
    /// derived flag from the episodes.
    pub fn new(podcasts: Vec<Podcast>) -> (r: Catalog)
        ensures
            r.wf(),
            r@.len() == podcasts@.len(),
            forall|i: int| 0 <= i < r@.len() ==> #[trigger] r@[i] == normalized(podcasts@[i]),
    {
        let mut v = podcasts;
        let mut i: usize = 0;
        while i < v.len()
            invariant
                i <= v@.len(),
                v@.len() == podcasts@.len(),
                forall|j: int| 0 <= j < i ==> #[trigger] v@[j] == normalized(podcasts@[j]),
                forall|j: int| i <= j < v@.len() ==> #[trigger] v@[j] == podcasts@[j],
            decreases v@.len() - i,
        {
            let flag = any_unplayed(&v[i].episodes);
            let mut pod = v.remove(i);
            pod.any_unplayed = flag;
            v.insert(i, pod);
            i = i + 1;
        }
        Catalog { podcasts: v }
    }

    /// The number of podcasts.
    pub fn len(&self) -> (r: usize)
        ensures
            r == self@.len(),
    {
        self.podcasts.len()
    }

    /// Read access to the podcasts, for rendering.
    pub fn podcasts(&self) -> (r: &Vec<Podcast>)
        ensures
            r@ == self@,
    {
        &self.podcasts
    }

    /// The address and identity of the podcast at `index`, copied out.
    pub fn feed(&self, index: usize) -> (r: Option<FeedRef>)
        ensures
            index < self@.len() <==> r is Some,
            r matches Some(f) ==> f.url@ == self@[index as int].url@ && f.id == self@[index as int].id,
    {
        if index < self.podcasts.len() {
            let pod = &self.podcasts[index];
            Some(FeedRef { url: pod.url.clone(), id: pod.id })
        } else {
            None
        }
    }

    /// Marks episode `e` of podcast `p` played or unplayed and recomputes the
    /// podcast's derived flag. Returns the episode's identity, or `None`
    /// (and changes nothing) where a position is out of range.
    pub fn set_played(&mut self, p: usize, e: usize, played: bool) -> (r: Option<Option<i32>>)
        requires
            old(self).wf(),
        ensures
            final(self).wf(),
            marked_played(old(self)@, final(self)@, p as int, e as int, played),
            (p < old(self)@.len() && e < old(self)@[p as int].episodes@.len()) <==> r is Some,
            r matches Some(id) ==> id == old(self)@[p as int].episodes@[e as int].id,
    {
        if p >= self.podcasts.len() || e >= self.podcasts[p].episodes.len() {
            return None;
        }
        let ghost pods = self@;
        let mut pod = self.podcasts.remove(p);
        let mut ep = pod.episodes.remove(e);
        let id = ep.id;
        ep.played = played;
        pod.episodes.insert(e, ep);
        pod.any_unplayed = any_unplayed(&pod.episodes);
        self.podcasts.insert(p, pod);
        proof {
            assert(pod.episodes@ =~= pods[p as int].episodes@.update(
                e as int,
                Episode { played: played, ..pods[p as int].episodes@[e as int] },
            ));
        }
        Some(id)
    }

    /// Marks every episode of podcast `p` played or unplayed. Returns whether
    /// `p` is in range; out of range nothing changes.
    pub fn set_all_played(&mut self, p: usize, played: bool) -> (r: bool)
        requires
            old(self).wf(),
        ensures
            final(self).wf(),
            r == (p < old(self)@.len()),
            !r ==> final(self)@ == old(self)@,
            r ==> final(self)@.len() == old(self)@.len(),
            r ==> forall|q: int| 0 <= q < final(self)@.len() && q != p ==> #[trigger] final(self)@[q] == old(self)@[q],
            r ==> all_marked(old(self)@[p as int].episodes@, final(self)@[p as int].episodes@, played),
            r ==> final(self)@[p as int] == (Podcast {
                episodes: final(self)@[p as int].episodes,
                any_unplayed: !played && old(self)@[p as int].episodes@.len() > 0,
                ..old(self)@[p as int]
            }),
    {
        if p >= self.podcasts.len() {
            return false;
        }
        let ghost pods = self@;
        let mut pod = self.podcasts.remove(p);
        let ghost old_eps = pod.episodes@;
        let mut i: usize = 0;
        while i < pod.episodes.len()
            invariant
                i <= pod.episodes@.len(),
                pod.episodes@.len() == old_eps.len(),
                forall|j: int| 0 <= j < i ==> #[trigger] pod.episodes@[j] == (Episode { played: played, ..old_eps[j] }),
                forall|j: int| i <= j < pod.episodes@.len() ==> #[trigger] pod.episodes@[j] == old_eps[j],
                pod == (Podcast { episodes: pod.episodes, ..pods[p as int] }),
            decreases pod.episodes@.len() - i,
        {
            let mut ep = pod.episodes.remove(i);
            ep.played = played;
            pod.episodes.insert(i, ep);
            i = i + 1;
        }
        pod.any_unplayed = any_unplayed(&pod.episodes);
        proof {
            if old_eps.len() > 0 {
                if !played {
                    assert(!pod.episodes@[0].played);
                }
            }
        }
        self.podcasts.insert(p, pod);
        true
    }

    /// Records the local file of a downloaded episode, found by the
    /// identities of its podcast and of itself. Returns the positions that
    /// were changed, or `None` (and changes nothing) where either is not
    /// found.
    pub fn attach_file(&mut self, pod_id: i32, ep_id: i32, path: String) -> (r: Option<(usize, usize)>)
        requires
            old(self).wf(),
        ensures
            final(self).wf(),
            file_attached(old(self)@, final(self)@, pod_id, ep_id, path, r),
    {
        let mut p: usize = 0;
        while p < self.podcasts.len() && self.podcasts[p].id != Some(pod_id)
            invariant
                p <= self@.len(),
                forall|q: int| 0 <= q < p ==> (#[trigger] self@[q]).id != Some(pod_id),
            decreases self@.len() - p,
        {
            p = p + 1;
        }
        if p == self.podcasts.len() {
            return None;
        }
        let mut e: usize = 0;
        while e < self.podcasts[p].episodes.len() && self.podcasts[p].episodes[e].id != Some(ep_id)
            invariant
                p < self@.len(),
                e <= self@[p as int].episodes@.len(),
                forall|q: int| 0 <= q < e ==> (#[trigger] self@[p as int].episodes@[q]).id != Some(ep_id),
            decreases self@[p as int].episodes@.len() - e,
        {
            e = e + 1;
        }
        proof {
            assert forall|q: int| #[trigger] first_podcast(self@, pod_id, q) implies q == p by {
                if q < p {
                    assert(self@[q].id != Some(pod_id));
                } else if q > p {
                    assert(self@[p as int].id != Some(pod_id));
                }
            }
        }
        if e == self.podcasts[p].episodes.len() {
            return None;
        }
        let ghost pods = self@;
        let mut pod = self.podcasts.remove(p);
        let mut ep = pod.episodes.remove(e);
        ep.path = Some(path);
        pod.episodes.insert(e, ep);
        self.podcasts.insert(p, pod);
        proof {
            assert(first_podcast(pods, pod_id, p as int));
            assert(first_episode(pods[p as int].episodes@, ep_id, e as int));
            assert(first_podcast(pods, pod_id, p as int));
            assert(first_episode(pods[p as int].episodes@, ep_id, e as int));
            assert(pod.episodes@ =~= pods[p as int].episodes@.update(e as int, Episode {
                path: Some(path),
                ..pods[p as int].episodes@[e as int]
            }));
            assert(some_unplayed(pod.episodes@) == some_unplayed(pods[p as int].episodes@)) by {
                if some_unplayed(pods[p as int].episodes@) {
                    let k = choose|k: int| 0 <= k < pods[p as int].episodes@.len() && !(#[trigger] pods[p as int].episodes@[k]).played;
                    assert(!pod.episodes@[k].played);
                }
                if some_unplayed(pod.episodes@) {
                    let k = choose|k: int| 0 <= k < pod.episodes@.len() && !(#[trigger] pod.episodes@[k]).played;
                    assert(!pods[p as int].episodes@[k].played);
                }
            }
        }
        Some((p, e))
    }
}

} // verus!
