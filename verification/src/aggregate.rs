//! The crawl aggregate: everything collected for the archive in one run,
//! with the deduplicating profile cache, media map and reply map.

use vstd::prelude::*;
use crate::types::{ListRecord, MediaRecord, Profile, ReplySet, Tweet};

verus! {

/// Profiles keyed by numeric id; an id is stored at most once per run, and
/// later inserts of a cached id are no-ops.
pub struct ProfileCache {
    pub entries: Vec<Profile>,
}

impl ProfileCache {
    /// No two entries share an id.
    pub open spec fn wf(self) -> bool {
        forall|i: int, j: int|
            0 <= i < self.entries@.len() && 0 <= j < self.entries@.len()
                && self.entries@[i].id == self.entries@[j].id ==> i == j
    }

    pub open spec fn spec_contains(self, id: u64) -> bool {
        exists|i: int| 0 <= i < self.entries@.len() && self.entries@[i].id == id
    }

    pub fn new() -> (r: ProfileCache)
        ensures
            r.wf(),
            r.entries@.len() == 0,
    {
        ProfileCache { entries: Vec::new() }
    }

    pub fn contains(&self, id: u64) -> (r: bool)
        ensures
            r == self.spec_contains(id),
    {
        let mut i: usize = 0;
        while i < self.entries.len()
            invariant
                i <= self.entries@.len(),
                forall|k: int| 0 <= k < i ==> self.entries@[k].id != id,
            decreases self.entries@.len() - i,
        {
            if self.entries[i].id == id {
                return true;
            }
            i += 1;
        }
        false
    }

    /// Insert a profile unless its id is already cached; a duplicate id
    /// leaves the cache unchanged.
    pub fn insert(&mut self, p: Profile)
        requires
            old(self).wf(),
        ensures
            final(self).wf(),
            old(self).spec_contains(p.id) ==> final(self).entries@ == old(self).entries@,
            !old(self).spec_contains(p.id) ==> final(self).entries@ == old(self).entries@.push(p),
            final(self).spec_contains(p.id),
            forall|id: u64| old(self).spec_contains(id) ==> final(self).spec_contains(id),
    {
        if !self.contains(p.id) {
            let ghost pre = self.entries@;
            let ghost pid = p.id;
            self.entries.push(p);
            assert(self.entries@[pre.len() as int].id == pid);
            assert forall|id: u64| old(self).spec_contains(id)
                implies self.spec_contains(id) by {
                let i = choose|i: int| 0 <= i < pre.len() && pre[i].id == id;
                assert(self.entries@[i].id == id);
            }
        } else {
            assert(self.spec_contains(p.id));
        }
    }

    /// Insert every profile of a fetched batch; ids already cached stay as
    /// they were, and only the given profiles are appended.
    pub fn insert_all(&mut self, ps: Vec<Profile>)
        requires
            old(self).wf(),
        ensures
            final(self).wf(),
            forall|k: int| 0 <= k < ps@.len() ==> final(self).spec_contains(ps@[k].id),
            forall|id: u64| old(self).spec_contains(id) ==> final(self).spec_contains(id),
            old(self).entries@.is_prefix_of(final(self).entries@),
            forall|i: int|
                old(self).entries@.len() <= i < final(self).entries@.len()
                    ==> ps@.contains(#[trigger] final(self).entries@[i]),
    {
        let ghost all = ps@;
        let mut ps = ps;
        let ghost pre = self.entries@;
        while ps.len() > 0
            invariant
                ps@.len() <= all.len(),
                ps@ == all.skip(all.len() - ps@.len()),
                self.wf(),
                forall|k: int| 0 <= k < all.len() - ps@.len() ==> self.spec_contains(all[k].id),
                forall|id: u64| old(self).spec_contains(id) ==> self.spec_contains(id),
                pre == old(self).entries@,
                pre.is_prefix_of(self.entries@),
                forall|i: int|
                    pre.len() <= i < self.entries@.len()
                        ==> all.contains(#[trigger] self.entries@[i]),
            decreases ps@.len(),
        {
            let ghost n = all.len() - ps@.len();
            let ghost before = self.entries@;
            let p = ps.remove(0);
            assert(p == all[n]);
            assert(ps@ == all.skip(n + 1));
            self.insert(p);
            assert forall|i: int|
                pre.len() <= i < self.entries@.len()
                implies all.contains(#[trigger] self.entries@[i]) by {
                if i < before.len() {
                    assert(self.entries@[i] == before[i]);
                } else {
                    assert(self.entries@[i] == all[n]);
                }
            }
            assert forall|k: int| 0 <= k < n + 1 implies self.spec_contains(all[k].id) by {
                if k < n {
                    let i = choose|i: int| 0 <= i < before.len() && before[i].id == all[k].id;
                    assert(self.entries@[i].id == all[k].id);
                }
            }
            assert forall|id: u64| old(self).spec_contains(id)
                implies self.spec_contains(id) by {
                let i = choose|i: int| 0 <= i < before.len() && before[i].id == id;
                assert(self.entries@[i].id == id);
            }
        }
        assert(all.len() - ps@.len() == all.len());
    }
}

/// The candidate ids of a batch fetch that are not yet cached, in order:
/// batch lookups are issued only for these, to spare quota.
pub open spec fn spec_unknown_ids(cache: ProfileCache, ids: Seq<u64>) -> Seq<u64>
    decreases ids.len(),
{
    if ids.len() == 0 {
        Seq::empty()
    } else {
        spec_unknown_ids(cache, ids.drop_last()) + if cache.spec_contains(ids.last()) {
            Seq::empty()
        } else {
            seq![ids.last()]
        }
    }
}

impl ProfileCache {
    /// Keep only the ids of a fetched page that the cache does not hold
    /// yet, preserving their order.
    pub fn filter_unknown(&self, ids: &Vec<u64>) -> (r: Vec<u64>)
        ensures
            r@ == spec_unknown_ids(*self, ids@),
    {
        let mut r: Vec<u64> = Vec::new();
        let mut i: usize = 0;
        while i < ids.len()
            invariant
                i <= ids@.len(),
                r@ == spec_unknown_ids(*self, ids@.take(i as int)),
            decreases ids@.len() - i,
        {
            let ghost pre = ids@.take(i as int);
            if !self.contains(ids[i]) {
                r.push(ids[i]);
            }
            proof {
                assert(ids@.take(i + 1).drop_last() =~= pre);
                assert(ids@.take(i + 1).last() == ids@[i as int]);
            }
            i += 1;
        }
        proof {
            assert(ids@.take(ids@.len() as int) =~= ids@);
        }
        r
    }
}

/// The URL-to-path media map; presence of a URL is the sole signal that its
/// bytes were already downloaded, so a URL is recorded at most once.
pub struct MediaMap {
    pub entries: Vec<MediaRecord>,
}

impl MediaMap {
    /// No two records share a source URL.
    pub open spec fn wf(self) -> bool {
        forall|i: int, j: int|
            0 <= i < self.entries@.len() && 0 <= j < self.entries@.len()
                && self.entries@[i].url@ == self.entries@[j].url@ ==> i == j
    }

    pub open spec fn spec_contains(self, url: Seq<char>) -> bool {
        exists|i: int| 0 <= i < self.entries@.len() && self.entries@[i].url@ == url
    }

    /// The set of URLs the map records.
    pub open spec fn spec_url_set(self) -> Set<Seq<char>> {
        Set::new(|u: Seq<char>| self.spec_contains(u))
    }

    pub fn new() -> (r: MediaMap)
        ensures
            r.wf(),
            r.entries@.len() == 0,
    {
        MediaMap { entries: Vec::new() }
    }

    pub fn contains(&self, url: &String) -> (r: bool)
        ensures
            r == self.spec_contains(url@),
    {
        let mut i: usize = 0;
        while i < self.entries.len()
            invariant
                i <= self.entries@.len(),
                forall|k: int| 0 <= k < i ==> self.entries@[k].url@ != url@,
            decreases self.entries@.len() - i,
        {
            if url.eq(&self.entries[i].url) {
                return true;
            }
            i += 1;
        }
        false
    }

    /// Record that `url` was downloaded to `path`; a URL already recorded
    /// leaves the map unchanged.
    pub fn record(&mut self, url: String, path: String)
        requires
            old(self).wf(),
        ensures
            final(self).wf(),
            old(self).spec_contains(url@) ==> final(self).entries@ == old(self).entries@,
            !old(self).spec_contains(url@) ==> final(self).entries@ == old(self).entries@.push(
                MediaRecord { url, path },
            ),
            final(self).spec_contains(url@),
            forall|u: Seq<char>| old(self).spec_contains(u) ==> final(self).spec_contains(u),
    {
        if !self.contains(&url) {
            let ghost pre = self.entries@;
            let ghost u0 = url@;
            self.entries.push(MediaRecord { url, path });
            assert(self.entries@[pre.len() as int].url@ == u0);
            assert forall|u: Seq<char>| old(self).spec_contains(u)
                implies self.spec_contains(u) by {
                let i = choose|i: int| 0 <= i < pre.len() && pre[i].url@ == u;
                assert(self.entries@[i].url@ == u);
            }
        } else {
            assert(self.spec_contains(url@));
        }
    }
}

/// Discovered reply sets keyed by the replied-to tweet's id; setting an id
/// again replaces its set.
pub struct ReplyMap {
    pub entries: Vec<ReplySet>,
}

impl ReplyMap {
    /// No two entries share a tweet id.
    pub open spec fn wf(self) -> bool {
        forall|i: int, j: int|
            0 <= i < self.entries@.len() && 0 <= j < self.entries@.len()
                && self.entries@[i].tweet_id == self.entries@[j].tweet_id ==> i == j
    }

    pub open spec fn spec_contains(self, id: u64) -> bool {
        exists|i: int| 0 <= i < self.entries@.len() && self.entries@[i].tweet_id == id
    }

    pub fn new() -> (r: ReplyMap)
        ensures
            r.wf(),
            r.entries@.len() == 0,
    {
        ReplyMap { entries: Vec::new() }
    }

    /// Store the reply set for a tweet, replacing any prior set for that id.
    pub fn set(&mut self, id: u64, replies: Vec<Tweet>)
        requires
            old(self).wf(),
        ensures
            final(self).wf(),
            final(self).spec_contains(id),
            !old(self).spec_contains(id) ==> final(self).entries@ == old(self).entries@.push(
                ReplySet { tweet_id: id, replies },
            ),
            old(self).spec_contains(id) ==> exists|i: int|
                0 <= i < old(self).entries@.len() && old(self).entries@[i].tweet_id == id
                    && final(self).entries@ == old(self).entries@.update(
                    i,
                    ReplySet { tweet_id: id, replies },
                ),
    {
        let mut i: usize = 0;
        while i < self.entries.len()
            invariant
                i <= self.entries@.len(),
                forall|k: int| 0 <= k < i ==> self.entries@[k].tweet_id != id,
                self.wf(),
                self.entries@ == old(self).entries@,
            decreases self.entries@.len() - i,
        {
            if self.entries[i].tweet_id == id {
                self.entries.set(i, ReplySet { tweet_id: id, replies });
                assert(self.entries@[i as int].tweet_id == id);
                assert(old(self).entries@[i as int].tweet_id == id);
                return ;
            }
            i += 1;
        }
        let ghost pre = self.entries@;
        self.entries.push(ReplySet { tweet_id: id, replies });
        assert(self.entries@[pre.len() as int].tweet_id == id);
    }
}

/// Everything collected for the archive: the owner, the per-phase item
/// collections, and the three deduplicating maps. Persisted across runs.
pub struct CrawlAggregate {
    pub owner_id: u64,
    pub tweets: Vec<Tweet>,
    pub mentions: Vec<Tweet>,
    pub followers: Vec<u64>,
    pub follows: Vec<u64>,
    pub lists: Vec<ListRecord>,
    pub profiles: ProfileCache,
    pub media: MediaMap,
    pub responses: ReplyMap,
}

impl CrawlAggregate {
    pub open spec fn wf(self) -> bool {
        self.profiles.wf() && self.media.wf() && self.responses.wf()
    }

    pub fn new(owner_id: u64) -> (r: CrawlAggregate)
        ensures
            r.wf(),
            r.owner_id == owner_id,
            r.tweets@.len() == 0,
            r.mentions@.len() == 0,
            r.followers@.len() == 0,
            r.follows@.len() == 0,
            r.lists@.len() == 0,
            r.profiles.entries@.len() == 0,
            r.media.entries@.len() == 0,
            r.responses.entries@.len() == 0,
    {
        CrawlAggregate {
            owner_id,
            tweets: Vec::new(),
            mentions: Vec::new(),
            followers: Vec::new(),
            follows: Vec::new(),
            lists: Vec::new(),
            profiles: ProfileCache::new(),
            media: MediaMap::new(),
            responses: ReplyMap::new(),
        }
    }

    /// Append a freshly fetched page of the owner's tweets, in fetch order.
    pub fn append_tweets(&mut self, mut page: Vec<Tweet>)
        ensures
            final(self).tweets@ == old(self).tweets@ + page@,
            *final(self) == (CrawlAggregate { tweets: final(self).tweets, ..*old(self) }),
    {
        self.tweets.append(&mut page);
    }

    /// Append a freshly fetched page of mentions, in fetch order.
    pub fn append_mentions(&mut self, mut page: Vec<Tweet>)
        ensures
            final(self).mentions@ == old(self).mentions@ + page@,
            *final(self) == (CrawlAggregate { mentions: final(self).mentions, ..*old(self) }),
    {
        self.mentions.append(&mut page);
    }

    /// Store the accumulated follower ids; the final write of a phase is
    /// authoritative and overwrites any prior partial set.
    pub fn set_followers(&mut self, ids: Vec<u64>)
        ensures
            final(self).followers == ids,
            *final(self) == (CrawlAggregate { followers: ids, ..*old(self) }),
    {
        self.followers = ids;
    }

    /// Store the accumulated followed ids, overwriting any prior set.
    pub fn set_follows(&mut self, ids: Vec<u64>)
        ensures
            final(self).follows == ids,
            *final(self) == (CrawlAggregate { follows: ids, ..*old(self) }),
    {
        self.follows = ids;
    }

    /// Append a completed list record once its member crawl has finished.
    pub fn push_list(&mut self, list: ListRecord)
        ensures
            final(self).lists@ == old(self).lists@.push(list),
            *final(self) == (CrawlAggregate { lists: final(self).lists, ..*old(self) }),
    {
        self.lists.push(list);
    }
}

/// How many cache entries carry the given profile id.
pub open spec fn profile_id_count(ps: Seq<Profile>, id: u64) -> nat
    decreases ps.len(),
{
    if ps.len() == 0 {
        0
    } else {
        profile_id_count(ps.drop_last(), id) + if ps.last().id == id {
            1nat
        } else {
            0nat
        }
    }
}

/// How many media records carry the given source URL.
pub open spec fn media_url_count(rs: Seq<MediaRecord>, url: Seq<char>) -> nat
    decreases rs.len(),
{
    if rs.len() == 0 {
        0
    } else {
        media_url_count(rs.drop_last(), url) + if rs.last().url@ == url {
            1nat
        } else {
            0nat
        }
    }
}

proof fn lemma_profile_id_count_zero(ps: Seq<Profile>, id: u64)
    requires
        forall|i: int| 0 <= i < ps.len() ==> ps[i].id != id,
    ensures
        profile_id_count(ps, id) == 0,
    decreases ps.len(),
{
    if ps.len() > 0 {
        assert(ps.last() == ps[ps.len() - 1]);
        lemma_profile_id_count_zero(ps.drop_last(), id);
    }
}

/// A profile id is present at most once in the cache, however many crawlers
/// referenced it during the run.
pub proof fn lemma_profile_cached_at_most_once(cache: ProfileCache, id: u64)
    requires
        cache.wf(),
    ensures
        profile_id_count(cache.entries@, id) <= 1,
{
    lemma_profile_count_rest(cache.entries@, id);
}

proof fn lemma_profile_count_rest(ps: Seq<Profile>, id: u64)
    requires
        forall|i: int, j: int|
            0 <= i < ps.len() && 0 <= j < ps.len() && ps[i].id == ps[j].id ==> i == j,
    ensures
        profile_id_count(ps, id) <= 1,
    decreases ps.len(),
{
    if ps.len() > 0 {
        let rest = ps.drop_last();
        if ps.last().id == id {
            assert forall|i: int| 0 <= i < rest.len() implies rest[i].id != id by {
                assert(ps[i] == rest[i]);
                assert(ps[ps.len() - 1].id == id);
            }
            lemma_profile_id_count_zero(rest, id);
        } else {
            assert forall|i: int, j: int|
                0 <= i < rest.len() && 0 <= j < rest.len() && rest[i].id == rest[j].id
                implies i == j by {
                assert(ps[i] == rest[i]);
                assert(ps[j] == rest[j]);
            }
            lemma_profile_count_rest(rest, id);
        }
    }
}

proof fn lemma_media_url_count_zero(rs: Seq<MediaRecord>, url: Seq<char>)
    requires
        forall|i: int| 0 <= i < rs.len() ==> rs[i].url@ != url,
    ensures
        media_url_count(rs, url) == 0,
    decreases rs.len(),
{
    if rs.len() > 0 {
        assert(rs.last() == rs[rs.len() - 1]);
        lemma_media_url_count_zero(rs.drop_last(), url);
    }
}

proof fn lemma_media_count_rest(rs: Seq<MediaRecord>, url: Seq<char>)
    requires
        forall|i: int, j: int|
            0 <= i < rs.len() && 0 <= j < rs.len() && rs[i].url@ == rs[j].url@ ==> i == j,
    ensures
        media_url_count(rs, url) <= 1,
    decreases rs.len(),
{
    if rs.len() > 0 {
        let rest = rs.drop_last();
        if rs.last().url@ == url {
            assert forall|i: int| 0 <= i < rest.len() implies rest[i].url@ != url by {
                assert(rs[i] == rest[i]);
                assert(rs[rs.len() - 1].url@ == url);
            }
            lemma_media_url_count_zero(rest, url);
        } else {
            assert forall|i: int, j: int|
                0 <= i < rest.len() && 0 <= j < rest.len() && rest[i].url@ == rest[j].url@
                implies i == j by {
                assert(rs[i] == rest[i]);
                assert(rs[j] == rest[j]);
            }
            lemma_media_count_rest(rest, url);
        }
    }
}

/// A media URL is recorded at most once, after any number of download
/// instructions referencing it.
pub proof fn lemma_media_recorded_at_most_once(map: MediaMap, url: Seq<char>)
    requires
        map.wf(),
    ensures
        media_url_count(map.entries@, url) <= 1,
{
    lemma_media_count_rest(map.entries@, url);
}

} // verus!
