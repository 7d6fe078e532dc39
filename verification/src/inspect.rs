//! Tweet inspection: video variant selection, media instruction emission,
//! author profile candidates and reply discovery.

use vstd::prelude::*;
use vstd::string::*;
use crate::aggregate::{ProfileCache, ReplyMap};
use crate::types::{DownloadInstruction, MediaItem, Profile, Tweet, VideoVariant};

verus! {

/// The canonical video container: a variant is eligible for selection only
/// when its content subtype is "mp4".
pub open spec fn is_mp4(v: VideoVariant) -> bool {
    v.content_subtype@ == "mp4"@
}

/// Whether the variant at index `i` replaces the current selection at
/// index `cur`: only an "mp4" variant ever does, and it does when the
/// current selection is not "mp4" yet, or only with a strictly greater
/// bitrate, so among equal bitrates the earliest "mp4" variant stays.
pub open spec fn replaces(vs: Seq<VideoVariant>, cur: int, i: int) -> bool {
    is_mp4(vs[i]) && (!is_mp4(vs[cur]) || vs[i].bitrate > vs[cur].bitrate)
}

/// The fold that drives variant selection, seeded with the first variant.
pub open spec fn spec_select_from(vs: Seq<VideoVariant>, i: int, cur: int) -> int
    decreases vs.len() - i,
{
    if i < 0 || i >= vs.len() {
        cur
    } else {
        spec_select_from(
            vs,
            i + 1,
            if replaces(vs, cur, i) {
                i
            } else {
                cur
            },
        )
    }
}

/// The index of the selected video variant of a non-empty variant list.
pub open spec fn spec_select_variant(vs: Seq<VideoVariant>) -> int {
    spec_select_from(vs, 1, 0)
}

/// Select the variant to download: the highest-bitrate "mp4" variant,
/// the earliest among equal bitrates; when no variant is "mp4" the first
/// variant stands. Returns `None` only for an empty list.
pub fn select_variant(vs: &Vec<VideoVariant>) -> (r: Option<usize>)
    ensures
        vs@.len() == 0 <==> r is None,
        r is Some ==> r->Some_0 as int == spec_select_variant(vs@)
            && 0 <= spec_select_variant(vs@) < vs@.len(),
{
    if vs.len() == 0 {
        return None;
    }
    let mp4 = String::from_str("mp4");
    let mut cur: usize = 0;
    let mut i: usize = 1;
    while i < vs.len()
        invariant
            1 <= i <= vs@.len(),
            0 <= cur < i,
            cur < vs@.len(),
            mp4@ == "mp4"@,
            spec_select_from(vs@, i as int, cur as int) == spec_select_variant(vs@),
        decreases vs@.len() - i,
    {
        let candidate_mp4 = vs[i].content_subtype.eq(&mp4);
        let current_mp4 = vs[cur].content_subtype.eq(&mp4);
        assert(candidate_mp4 == is_mp4(vs@[i as int]));
        assert(current_mp4 == is_mp4(vs@[cur as int]));
        if candidate_mp4 && (!current_mp4 || vs[i].bitrate > vs[cur].bitrate) {
            cur = i;
        }
        i += 1;
    }
    Some(cur)
}

/// Whenever the list holds an "mp4" variant at all, the selection is an
/// "mp4" variant with the greatest bitrate among them, and every earlier
/// "mp4" variant has a strictly smaller bitrate: an equal bitrate keeps
/// the earlier one. A list without any "mp4" variant keeps its first.
pub proof fn lemma_select_variant_max(vs: Seq<VideoVariant>)
    requires
        vs.len() > 0,
    ensures
        0 <= spec_select_variant(vs) < vs.len(),
        (exists|k: int| 0 <= k < vs.len() && is_mp4(#[trigger] vs[k])) ==> is_mp4(
            vs[spec_select_variant(vs)],
        ),
        forall|i: int|
            0 <= i < vs.len() && is_mp4(#[trigger] vs[i]) ==> vs[i].bitrate <= vs[
                spec_select_variant(vs)].bitrate,
        forall|i: int|
            0 <= i < spec_select_variant(vs) && is_mp4(#[trigger] vs[i]) ==> vs[i].bitrate < vs[
                spec_select_variant(vs)].bitrate,
        (forall|k: int| 0 <= k < vs.len() ==> !is_mp4(#[trigger] vs[k])) ==> spec_select_variant(
            vs,
        ) == 0,
{
    lemma_select_from_max(vs, 1, 0);
}

proof fn lemma_select_from_max(vs: Seq<VideoVariant>, i: int, cur: int)
    requires
        1 <= i <= vs.len(),
        0 <= cur < i,
        is_mp4(vs[cur]) || cur == 0,
        !is_mp4(vs[cur]) ==> forall|k: int| 0 <= k < i ==> !is_mp4(#[trigger] vs[k]),
        is_mp4(vs[cur]) ==> forall|k: int|
            0 <= k < i && is_mp4(#[trigger] vs[k]) ==> vs[k].bitrate <= vs[cur].bitrate,
        is_mp4(vs[cur]) ==> forall|k: int|
            0 <= k < cur && is_mp4(#[trigger] vs[k]) ==> vs[k].bitrate < vs[cur].bitrate,
    ensures
        0 <= spec_select_from(vs, i, cur) < vs.len(),
        (exists|k: int| 0 <= k < vs.len() && is_mp4(#[trigger] vs[k])) ==> is_mp4(
            vs[spec_select_from(vs, i, cur)],
        ),
        forall|k: int|
            0 <= k < vs.len() && is_mp4(#[trigger] vs[k]) ==> vs[k].bitrate <= vs[
                spec_select_from(vs, i, cur)].bitrate,
        forall|k: int|
            0 <= k < spec_select_from(vs, i, cur) && is_mp4(#[trigger] vs[k]) ==> vs[k].bitrate
                < vs[spec_select_from(vs, i, cur)].bitrate,
        (forall|k: int| 0 <= k < vs.len() ==> !is_mp4(#[trigger] vs[k])) ==> spec_select_from(
            vs,
            i,
            cur,
        ) == cur,
    decreases vs.len() - i,
{
    if i == vs.len() {
        assert(spec_select_from(vs, i, cur) == cur);
        if exists|k: int| 0 <= k < vs.len() && is_mp4(vs[k]) {
            let w = choose|k: int| 0 <= k < vs.len() && is_mp4(vs[k]);
            assert(is_mp4(vs[cur]));
        }
    } else {
        let next = if replaces(vs, cur, i) {
            i
        } else {
            cur
        };
        lemma_select_from_max(vs, i + 1, next);
    }
}

/// The download instructions one media item emits: the selected video
/// variant as a `Movie`, a plain image as an `Image`, and nothing for a
/// video whose variant list is empty.
pub open spec fn spec_item_instructions(m: MediaItem) -> Seq<DownloadInstruction> {
    match m.video_variants {
        Some(vs) => if vs@.len() == 0 {
            Seq::empty()
        } else {
            seq![
                DownloadInstruction::Movie(
                    vs@[spec_select_variant(vs@)].content_subtype,
                    vs@[spec_select_variant(vs@)].url,
                ),
            ]
        },
        None => seq![DownloadInstruction::Image(m.media_url)],
    }
}

/// The instructions a list of media items emits, in item order.
pub open spec fn spec_media_instructions(ms: Seq<MediaItem>) -> Seq<DownloadInstruction>
    decreases ms.len(),
{
    if ms.len() == 0 {
        Seq::empty()
    } else {
        spec_media_instructions(ms.drop_last()) + spec_item_instructions(ms.last())
    }
}

/// Classify every attached media item and emit its download instruction, in
/// order: the selected variant of a video as `Movie(subtype, url)`, anything
/// else as `Image(direct url)`.
pub fn media_instructions(ms: &Vec<MediaItem>) -> (r: Vec<DownloadInstruction>)
    ensures
        r@ == spec_media_instructions(ms@),
{
    let mut out: Vec<DownloadInstruction> = Vec::new();
    let mut i: usize = 0;
    while i < ms.len()
        invariant
            i <= ms@.len(),
            out@ == spec_media_instructions(ms@.take(i as int)),
        decreases ms@.len() - i,
    {
        let ghost pre = ms@.take(i as int);
        let ghost out0 = out@;
        let ghost m = ms@[i as int];
        match &ms[i].video_variants {
            Some(vs) => {
                let sel = select_variant(vs);
                if let Some(s) = sel {
                    let inst = DownloadInstruction::Movie(
                        vs[s].content_subtype.clone(),
                        vs[s].url.clone(),
                    );
                    proof {
                        assert(s as int == spec_select_variant(vs@));
                        assert(inst == DownloadInstruction::Movie(
                            vs@[s as int].content_subtype,
                            vs@[s as int].url,
                        ));
                        assert(spec_item_instructions(m) =~= seq![inst]);
                    }
                    out.push(inst);
                    proof {
                        assert(out@ =~= out0 + spec_item_instructions(m));
                    }
                } else {
                    proof {
                        assert(spec_item_instructions(m) =~= Seq::empty());
                        assert(out@ =~= out0 + spec_item_instructions(m));
                    }
                }
            },
            None => {
                out.push(DownloadInstruction::Image(ms[i].media_url.clone()));
                proof {
                    assert(spec_item_instructions(m) =~= seq![
                        DownloadInstruction::Image(m.media_url),
                    ]);
                    assert(out@ =~= out0 + spec_item_instructions(m));
                }
            },
        }
        proof {
            assert(ms@.take(i + 1).drop_last() =~= pre);
            assert(ms@.take(i + 1).last() == ms@[i as int]);
            assert(out@ =~= spec_media_instructions(pre) + spec_item_instructions(m));
        }
        i += 1;
    }
    proof {
        assert(ms@.take(ms@.len() as int) =~= ms@);
    }
    out
}

/// The media instructions a profile emits, in order: background image and
/// banner when present, then always the avatar.
pub open spec fn spec_profile_instructions(p: Profile) -> Seq<DownloadInstruction> {
    (match p.background_url {
        Some(u) => seq![DownloadInstruction::ProfileMedia(u)],
        None => Seq::empty(),
    }) + (match p.banner_url {
        Some(u) => seq![DownloadInstruction::ProfileMedia(u)],
        None => Seq::empty(),
    }) + seq![DownloadInstruction::ProfileMedia(p.avatar_url)]
}

/// Emit the profile-media instructions of a newly fetched profile.
pub fn profile_instructions(p: &Profile) -> (r: Vec<DownloadInstruction>)
    ensures
        r@ == spec_profile_instructions(*p),
{
    let mut out: Vec<DownloadInstruction> = Vec::new();
    if let Some(u) = &p.background_url {
        out.push(DownloadInstruction::ProfileMedia(u.clone()));
    }
    if let Some(u) = &p.banner_url {
        out.push(DownloadInstruction::ProfileMedia(u.clone()));
    }
    out.push(DownloadInstruction::ProfileMedia(p.avatar_url.clone()));
    assert(out@ =~= spec_profile_instructions(*p));
    out
}

/// The download instructions a whole tweet emits: its own media, then the
/// quoted tweet's, then the retweeted original's.
pub open spec fn spec_tweet_instructions(t: Tweet) -> Seq<DownloadInstruction> {
    spec_media_instructions(t.media@) + (match t.quoted {
        Some(e) => spec_media_instructions(e.media@),
        None => Seq::empty(),
    }) + (match t.retweeted {
        Some(e) => spec_media_instructions(e.media@),
        None => Seq::empty(),
    })
}

/// Inspect a tweet's own content and its embedded quote and retweet, one
/// level deep, emitting every media instruction in order.
pub fn tweet_instructions(t: &Tweet) -> (r: Vec<DownloadInstruction>)
    ensures
        r@ == spec_tweet_instructions(*t),
{
    let mut out = media_instructions(&t.media);
    if let Some(e) = &t.quoted {
        let mut more = media_instructions(&e.media);
        out.append(&mut more);
    }
    if let Some(e) = &t.retweeted {
        let mut more = media_instructions(&e.media);
        out.append(&mut more);
    }
    assert(out@ =~= spec_tweet_instructions(*t));
    out
}

/// The download instructions of a whole fetched page of tweets, in fetch
/// order.
pub open spec fn spec_page_instructions(ts: Seq<Tweet>) -> Seq<DownloadInstruction>
    decreases ts.len(),
{
    if ts.len() == 0 {
        Seq::empty()
    } else {
        spec_page_instructions(ts.drop_last()) + spec_tweet_instructions(ts.last())
    }
}

/// Inspect every tweet of a fetched page, in order, collecting the media
/// instructions the page emits before it is appended to the aggregate.
pub fn page_instructions(page: &Vec<Tweet>) -> (r: Vec<DownloadInstruction>)
    ensures
        r@ == spec_page_instructions(page@),
{
    let mut out: Vec<DownloadInstruction> = Vec::new();
    let mut i: usize = 0;
    while i < page.len()
        invariant
            i <= page@.len(),
            out@ == spec_page_instructions(page@.take(i as int)),
        decreases page@.len() - i,
    {
        let ghost pre = page@.take(i as int);
        let mut more = tweet_instructions(&page[i]);
        out.append(&mut more);
        proof {
            assert(page@.take(i + 1).drop_last() =~= pre);
            assert(page@.take(i + 1).last() == page@[i as int]);
        }
        i += 1;
    }
    proof {
        assert(page@.take(page@.len() as int) =~= page@);
    }
    out
}

/// The author profile a tweet content asks to fetch: only when profile
/// fetching is enabled, the author is resolved, and it is not the owner.
pub open spec fn spec_author_to_fetch(
    author_id: Option<u64>,
    owner_id: u64,
    profiles_enabled: bool,
) -> Option<u64> {
    match author_id {
        Some(a) => if profiles_enabled && a != owner_id {
            Some(a)
        } else {
            None
        },
        None => None,
    }
}

/// Decide whether a tweet's author profile must be fetched and cached.
pub fn author_to_fetch(author_id: Option<u64>, owner_id: u64, profiles_enabled: bool) -> (r:
    Option<u64>)
    ensures
        r == spec_author_to_fetch(author_id, owner_id, profiles_enabled),
{
    match author_id {
        Some(a) => if profiles_enabled && a != owner_id {
            Some(a)
        } else {
            None
        },
        None => None,
    }
}

/// The author profiles a whole tweet asks to fetch, in inspection order:
/// its own author, the quoted tweet's, the retweeted original's; each only
/// when profile fetching is enabled, resolved, and not the owner.
pub open spec fn spec_profile_candidates(t: Tweet, owner_id: u64, enabled: bool) -> Seq<u64> {
    (match spec_author_to_fetch(t.author_id, owner_id, enabled) {
        Some(a) => seq![a],
        None => Seq::empty(),
    }) + (match t.quoted {
        Some(e) => match spec_author_to_fetch(e.author_id, owner_id, enabled) {
            Some(a) => seq![a],
            None => Seq::empty(),
        },
        None => Seq::empty(),
    }) + (match t.retweeted {
        Some(e) => match spec_author_to_fetch(e.author_id, owner_id, enabled) {
            Some(a) => seq![a],
            None => Seq::empty(),
        },
        None => Seq::empty(),
    })
}

/// Collect the author ids a tweet's inspection fetches profiles for: the
/// tweet's own author and the authors of its embedded quote and retweet.
pub fn profile_candidates(t: &Tweet, owner_id: u64, enabled: bool) -> (r: Vec<u64>)
    ensures
        r@ == spec_profile_candidates(*t, owner_id, enabled),
{
    let mut r: Vec<u64> = Vec::new();
    if let Some(a) = author_to_fetch(t.author_id, owner_id, enabled) {
        r.push(a);
    }
    if let Some(e) = &t.quoted {
        if let Some(a) = author_to_fetch(e.author_id, owner_id, enabled) {
            r.push(a);
        }
    }
    if let Some(e) = &t.retweeted {
        if let Some(a) = author_to_fetch(e.author_id, owner_id, enabled) {
            r.push(a);
        }
    }
    assert(r@ =~= spec_profile_candidates(*t, owner_id, enabled));
    r
}

/// Reply discovery runs only for the owner's tweets: when enabled, and the
/// author is the owner or unresolved (an unresolved author defaults to the
/// owner).
pub fn wants_reply_search(t: &Tweet, owner_id: u64, responses_enabled: bool) -> (r: bool)
    ensures
        r == (responses_enabled && (t.author_id is None || t.author_id == Some(owner_id))),
{
    responses_enabled && (match t.author_id {
        None => true,
        Some(a) => a == owner_id,
    })
}

/// Results requested per reply-search call.
pub const REPLY_SEARCH_PAGE_SIZE: u32 = 50;

/// The upstream search query that discovers replies: every tweet addressed
/// to the owner's handle; the search itself is anchored at the inspected
/// tweet's id, so only tweets posted at or after it come back.
pub fn reply_search_query(screen_name: &str) -> (r: String)
    ensures
        r@ == "to:"@ + screen_name@,
{
    String::from_str("to:").concat(screen_name)
}

/// Which search results count as replies to the tweet with id `tweet_id`.
pub open spec fn spec_filter_replies(results: Seq<Tweet>, tweet_id: u64) -> Seq<Tweet>
    decreases results.len(),
{
    if results.len() == 0 {
        Seq::empty()
    } else {
        spec_filter_replies(results.drop_last(), tweet_id) + if results.last().in_reply_to_status_id
            == Some(tweet_id) {
            seq![results.last()]
        } else {
            Seq::empty()
        }
    }
}

/// Keep exactly the search results whose `in_reply_to_status_id` equals the
/// inspected tweet's id, in result order; everything else is discarded.
pub fn filter_replies(results: Vec<Tweet>, tweet_id: u64) -> (r: Vec<Tweet>)
    ensures
        r@ == spec_filter_replies(results@, tweet_id),
        forall|i: int|
            0 <= i < r@.len() ==> (#[trigger] r@[i]).in_reply_to_status_id == Some(tweet_id),
{
    let ghost all = results@;
    let mut results = results;
    let mut out: Vec<Tweet> = Vec::new();
    while results.len() > 0
        invariant
            results@.len() <= all.len(),
            results@ == all.skip(all.len() - results@.len()),
            out@ == spec_filter_replies(all.take(all.len() - results@.len()), tweet_id),
            forall|i: int|
                0 <= i < out@.len() ==> (#[trigger] out@[i]).in_reply_to_status_id == Some(
                    tweet_id,
                ),
        decreases results@.len(),
    {
        let ghost n = all.len() - results@.len();
        let t = results.remove(0);
        assert(t == all[n]);
        assert(results@ == all.skip(n + 1));
        let keep = match t.in_reply_to_status_id {
            Some(r) => r == tweet_id,
            None => false,
        };
        if keep {
            out.push(t);
        }
        proof {
            assert(all.take(n + 1).drop_last() =~= all.take(n));
            assert(all.take(n + 1).last() == all[n]);
        }
    }
    proof {
        assert(all.take(all.len() as int) =~= all);
    }
    out
}

/// The media instructions of a sequence of reply tweets, in order: replies
/// found by search are inspected for their own content only.
pub open spec fn spec_replies_instructions(ts: Seq<Tweet>) -> Seq<DownloadInstruction>
    decreases ts.len(),
{
    if ts.len() == 0 {
        Seq::empty()
    } else {
        spec_replies_instructions(ts.drop_last()) + spec_media_instructions(ts.last().media@)
    }
}

/// Process the search results for replies to the tweet with id `tweet_id`:
/// keep exactly the results replying to it, emit every kept reply's media
/// instructions in order, and store the kept set under the tweet's id,
/// replacing any prior set for that id; reply sets stored under every
/// other tweet id are left exactly as they were.
pub fn discover_replies(responses: &mut ReplyMap, tweet_id: u64, results: Vec<Tweet>) -> (r: Vec<
    DownloadInstruction,
>)
    requires
        old(responses).wf(),
    ensures
        final(responses).wf(),
        final(responses).spec_contains(tweet_id),
        exists|i: int|
            0 <= i < final(responses).entries@.len()
                && (#[trigger] final(responses).entries@[i]).tweet_id == tweet_id
                && final(responses).entries@[i].replies@
                == spec_filter_replies(results@, tweet_id),
        old(responses).spec_contains(tweet_id) ==> final(responses).entries@.len() == old(
            responses,
        ).entries@.len(),
        !old(responses).spec_contains(tweet_id) ==> final(responses).entries@.len() == old(
            responses,
        ).entries@.len() + 1,
        forall|j: int|
            0 <= j < old(responses).entries@.len() && (#[trigger] old(
                responses,
            ).entries@[j]).tweet_id != tweet_id ==> final(responses).entries@[j] == old(
                responses,
            ).entries@[j],
        r@ == spec_replies_instructions(spec_filter_replies(results@, tweet_id)),
{
    let kept = filter_replies(results, tweet_id);
    let ghost kept_view = kept@;
    let mut out: Vec<DownloadInstruction> = Vec::new();
    let mut i: usize = 0;
    while i < kept.len()
        invariant
            i <= kept@.len(),
            kept@ == kept_view,
            out@ == spec_replies_instructions(kept@.take(i as int)),
        decreases kept@.len() - i,
    {
        let ghost pre = kept@.take(i as int);
        let mut more = media_instructions(&kept[i].media);
        out.append(&mut more);
        proof {
            assert(kept@.take(i + 1).drop_last() =~= pre);
            assert(kept@.take(i + 1).last() == kept@[i as int]);
        }
        i += 1;
    }
    proof {
        assert(kept@.take(kept@.len() as int) =~= kept@);
    }
    let ghost pre_entries = responses.entries@;
    responses.set(tweet_id, kept);
    proof {
        if old(responses).spec_contains(tweet_id) {
            let j = choose|j: int|
                0 <= j < pre_entries.len() && pre_entries[j].tweet_id == tweet_id
                    && responses.entries@ == pre_entries.update(
                    j,
                    crate::types::ReplySet { tweet_id, replies: kept },
                );
            assert(responses.entries@[j].tweet_id == tweet_id);
            assert(responses.entries@[j].replies@ == kept_view);
        } else {
            let j = pre_entries.len() as int;
            assert(responses.entries@[j].tweet_id == tweet_id);
            assert(responses.entries@[j].replies@ == kept_view);
        }
    }
    out
}

/// The media instructions a batch of fetched profiles emits, in order.
pub open spec fn spec_batch_instructions(ps: Seq<Profile>) -> Seq<DownloadInstruction>
    decreases ps.len(),
{
    if ps.len() == 0 {
        Seq::empty()
    } else {
        spec_batch_instructions(ps.drop_last()) + spec_profile_instructions(ps.last())
    }
}

/// Cache a batch of profiles fetched in one upstream lookup: every fetched
/// profile's media instructions are emitted, in order, and every fetched
/// id ends up cached; ids already cached keep their first entry.
pub fn cache_profiles_batch(cache: &mut ProfileCache, fetched: Vec<Profile>) -> (r: Vec<
    DownloadInstruction,
>)
    requires
        old(cache).wf(),
    ensures
        final(cache).wf(),
        r@ == spec_batch_instructions(fetched@),
        forall|k: int| 0 <= k < fetched@.len() ==> final(cache).spec_contains(fetched@[k].id),
        forall|id: u64| old(cache).spec_contains(id) ==> final(cache).spec_contains(id),
        old(cache).entries@.is_prefix_of(final(cache).entries@),
{
    let ghost all = fetched@;
    let mut fetched = fetched;
    let mut out: Vec<DownloadInstruction> = Vec::new();
    while fetched.len() > 0
        invariant
            fetched@.len() <= all.len(),
            fetched@ == all.skip(all.len() - fetched@.len()),
            cache.wf(),
            out@ == spec_batch_instructions(all.take(all.len() - fetched@.len())),
            forall|k: int| 0 <= k < all.len() - fetched@.len() ==> cache.spec_contains(
                all[k].id,
            ),
            forall|id: u64| old(cache).spec_contains(id) ==> cache.spec_contains(id),
            old(cache).entries@.is_prefix_of(cache.entries@),
        decreases fetched@.len(),
    {
        let ghost n = all.len() - fetched@.len();
        let ghost before = cache.entries@;
        let p = fetched.remove(0);
        assert(p == all[n]);
        assert(fetched@ == all.skip(n + 1));
        let mut more = profile_instructions(&p);
        out.append(&mut more);
        cache.insert(p);
        proof {
            assert(all.take(n + 1).drop_last() =~= all.take(n));
            assert(all.take(n + 1).last() == all[n]);
            assert forall|k: int| 0 <= k < n + 1 implies cache.spec_contains(all[k].id) by {
                if k < n {
                    let i = choose|i: int| 0 <= i < before.len() && before[i].id == all[k].id;
                    assert(cache.entries@[i].id == all[k].id);
                }
            }
            assert forall|id: u64| old(cache).spec_contains(id)
                implies cache.spec_contains(id) by {
                let i = choose|i: int| 0 <= i < before.len() && before[i].id == id;
                assert(cache.entries@[i].id == id);
            }
        }
    }
    proof {
        assert(all.take(all.len() as int) =~= all);
    }
    out
}

/// Process one page of a list's member crawl: append every member's id to
/// the accumulating member list, in page order, and cache every member
/// profile with its media instructions emitted.
pub fn process_member_page(
    cache: &mut ProfileCache,
    member_ids: &mut Vec<u64>,
    members: Vec<Profile>,
) -> (r: Vec<DownloadInstruction>)
    requires
        old(cache).wf(),
    ensures
        final(cache).wf(),
        r@ == spec_batch_instructions(members@),
        forall|k: int| 0 <= k < members@.len() ==> final(cache).spec_contains(members@[k].id),
        forall|id: u64| old(cache).spec_contains(id) ==> final(cache).spec_contains(id),
        final(member_ids)@.len() == old(member_ids)@.len() + members@.len(),
        forall|j: int|
            0 <= j < old(member_ids)@.len() ==> final(member_ids)@[j] == old(member_ids)@[j],
        forall|k: int|
            0 <= k < members@.len() ==> final(member_ids)@[old(member_ids)@.len() + k]
                == members@[k].id,
{
    let mut i: usize = 0;
    while i < members.len()
        invariant
            i <= members@.len(),
            member_ids@.len() == old(member_ids)@.len() + i,
            forall|j: int|
                0 <= j < old(member_ids)@.len() ==> member_ids@[j] == old(member_ids)@[j],
            forall|k: int|
                0 <= k < i ==> member_ids@[old(member_ids)@.len() + k] == members@[k].id,
        decreases members@.len() - i,
    {
        member_ids.push(members[i].id);
        i += 1;
    }
    cache_profiles_batch(cache, members)
}

/// Cache a fetched profile: a profile whose id is already cached changes
/// nothing and emits nothing; a new profile emits its media instructions
/// (background and banner when present, then the avatar) and is inserted.
pub fn cache_profile(cache: &mut ProfileCache, p: Profile) -> (r: Vec<DownloadInstruction>)
    requires
        old(cache).wf(),
    ensures
        final(cache).wf(),
        old(cache).spec_contains(p.id) ==> final(cache).entries@ == old(cache).entries@ && r@
            == Seq::<DownloadInstruction>::empty(),
        !old(cache).spec_contains(p.id) ==> final(cache).entries@ == old(cache).entries@.push(p)
            && r@ == spec_profile_instructions(p),
        final(cache).spec_contains(p.id),
{
    if cache.contains(p.id) {
        return Vec::new();
    }
    let r = profile_instructions(&p);
    cache.insert(p);
    r
}

} // verus!
