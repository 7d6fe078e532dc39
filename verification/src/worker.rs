//! The download worker's decisions: resolving a target file extension,
//! computing the stable file name, deduplicating against the media map, and
//! draining an instruction queue up to the terminating sentinel.

use vstd::prelude::*;
use vstd::string::*;
use crate::aggregate::MediaMap;
use crate::text::{
    dec_digits, fnv1a, spec_eq_ignore_ascii_case, spec_segment_extension, eq_ignore_ascii_case,
    fnv1a_hash, segment_extension, u64_to_decimal,
};
use crate::types::{DownloadInstruction, MediaRecord};

verus! {

/// The bound of the download instruction queue, applied at construction:
/// producers wait when the worker lags this far behind.
pub const DOWNLOAD_QUEUE_CAPACITY: usize = 4096;

/// The last segment of a URL's parsed path, or nothing when the URL does
/// not parse or has no segmented path. A function of the URL string alone.
pub uninterp spec fn last_segment_of(url: Seq<char>) -> Option<Seq<char>>;

/// Relies on url::Url::parse and url::Url::path_segments: parsing either
/// fails or yields a path whose last segment depends on the URL string
/// alone.
#[verifier::external_body]
fn last_path_segment(url: &str) -> (r: Option<String>)
    ensures
        r is Some <==> last_segment_of(url@) is Some,
        r is Some ==> r->Some_0@ == last_segment_of(url@)->Some_0,
{
    match url::Url::parse(url) {
        Ok(parsed) => match parsed.path_segments() {
            Some(segments) => segments.last().map(|s| s.to_string()),
            None => None,
        },
        Err(_) => None,
    }
}

/// The extension inferred from a URL's path: the extension of the last
/// path segment, defaulting to "png" when the URL does not parse, has no
/// segments, or its last segment has no extension.
pub open spec fn spec_extension_for_url(url: Seq<char>) -> Seq<char> {
    match last_segment_of(url) {
        Some(seg) => match spec_segment_extension(seg) {
            Some(e) => e,
            None => "png"@,
        },
        None => "png"@,
    }
}

/// Infer the target file extension from a URL's path.
pub fn extension_for_url(url: &str) -> (r: String)
    ensures
        r@ == spec_extension_for_url(url@),
{
    match last_path_segment(url) {
        Some(seg) => match segment_extension(seg.as_str()) {
            Some(e) => e,
            None => String::from_str("png"),
        },
        None => String::from_str("png"),
    }
}

/// The extension for a movie instruction: a known video container subtype
/// (compared up to ASCII case) maps to its own extension, anything else
/// falls back to inferring from the URL path.
pub open spec fn spec_movie_extension(subtype: Seq<char>, url: Seq<char>) -> Seq<char> {
    if spec_eq_ignore_ascii_case(subtype, "mp4"@) {
        "mp4"@
    } else if spec_eq_ignore_ascii_case(subtype, "avi"@) {
        "avi"@
    } else if spec_eq_ignore_ascii_case(subtype, "3gp"@) {
        "3gp"@
    } else if spec_eq_ignore_ascii_case(subtype, "mov"@) {
        "mov"@
    } else {
        spec_extension_for_url(url)
    }
}

/// Resolve the extension for a movie's content subtype and URL.
pub fn movie_extension(subtype: &str, url: &str) -> (r: String)
    ensures
        r@ == spec_movie_extension(subtype@, url@),
{
    if eq_ignore_ascii_case(subtype, "mp4") {
        String::from_str("mp4")
    } else if eq_ignore_ascii_case(subtype, "avi") {
        String::from_str("avi")
    } else if eq_ignore_ascii_case(subtype, "3gp") {
        String::from_str("3gp")
    } else if eq_ignore_ascii_case(subtype, "mov") {
        String::from_str("mov")
    } else {
        extension_for_url(url)
    }
}

/// The stable file name media bytes are written under: the FNV-1a hash of
/// the URL's bytes in decimal, a dot, and the resolved extension. The same
/// URL yields the same name on every run.
pub open spec fn spec_media_file_name(url: Seq<char>, ext: Seq<char>) -> Seq<char> {
    dec_digits(fnv1a(vstd::utf8::encode_utf8(url)) as nat) + "."@ + ext
}

/// Compute the stable file name for a media URL and extension.
pub fn media_file_name(url: &str, ext: &str) -> (r: String)
    ensures
        r@ == spec_media_file_name(url@, ext@),
{
    let h = fnv1a_hash(url);
    let d = u64_to_decimal(h);
    let dot = d.concat(".");
    let r = dot.concat(ext);
    assert(r@ =~= spec_media_file_name(url@, ext@));
    r
}

/// The URL an instruction asks to download, or nothing for the sentinel.
pub open spec fn spec_instruction_url(inst: DownloadInstruction) -> Option<Seq<char>> {
    match inst {
        DownloadInstruction::Image(u) => Some(u@),
        DownloadInstruction::Movie(st, u) => Some(u@),
        DownloadInstruction::ProfileMedia(u) => Some(u@),
        DownloadInstruction::Done => None,
    }
}

/// The URL and resolved extension an instruction asks to download, or
/// nothing for the terminating sentinel.
pub open spec fn spec_instruction_media(inst: DownloadInstruction) -> Option<
    (Seq<char>, Seq<char>),
> {
    match inst {
        DownloadInstruction::Image(u) => Some((u@, spec_extension_for_url(u@))),
        DownloadInstruction::Movie(st, u) => Some((u@, spec_movie_extension(st@, u@))),
        DownloadInstruction::ProfileMedia(u) => Some((u@, spec_extension_for_url(u@))),
        DownloadInstruction::Done => None,
    }
}

/// Resolve an instruction to the URL to fetch and the target extension;
/// the sentinel resolves to nothing.
pub fn instruction_media(inst: &DownloadInstruction) -> (r: Option<(String, String)>)
    ensures
        r is Some <==> spec_instruction_media(*inst) is Some,
        r is Some ==> r->Some_0.0@ == spec_instruction_media(*inst)->Some_0.0
            && r->Some_0.1@ == spec_instruction_media(*inst)->Some_0.1,
{
    match inst {
        DownloadInstruction::Image(u) => Some((u.clone(), extension_for_url(u.as_str()))),
        DownloadInstruction::Movie(st, u) => Some(
            (u.clone(), movie_extension(st.as_str(), u.as_str())),
        ),
        DownloadInstruction::ProfileMedia(u) => Some((u.clone(), extension_for_url(u.as_str()))),
        DownloadInstruction::Done => None,
    }
}

/// A download the worker decided to perform: the URL to fetch and the file
/// name to write under the media root.
pub struct PlannedDownload {
    pub url: String,
    pub file_name: String,
}

/// Decide whether an instruction leads to a download. Nothing is planned
/// when media download is disabled, for the sentinel, or for a URL already
/// recorded in the media map; otherwise the plan carries the instruction's
/// URL and its stable file name.
pub fn plan_download(inst: &DownloadInstruction, media: &MediaMap, media_enabled: bool) -> (r:
    Option<PlannedDownload>)
    ensures
        r is Some <==> media_enabled && spec_instruction_url(*inst) is Some && !media
            .spec_contains(spec_instruction_url(*inst)->Some_0),
        r is Some ==> r->Some_0.url@ == spec_instruction_url(*inst)->Some_0
            && r->Some_0.file_name@ == spec_media_file_name(
            spec_instruction_media(*inst)->Some_0.0,
            spec_instruction_media(*inst)->Some_0.1,
        ),
{
    if !media_enabled {
        return None;
    }
    match instruction_media(inst) {
        Some((url, ext)) => {
            if media.contains(&url) {
                None
            } else {
                let file_name = media_file_name(url.as_str(), ext.as_str());
                Some(PlannedDownload { url, file_name })
            }
        },
        None => None,
    }
}

/// The queue position of the first sentinel, or the queue's length when no
/// sentinel is queued: the worker consumes exactly the instructions before
/// it.
pub open spec fn spec_queue_end(insts: Seq<DownloadInstruction>) -> int
    decreases insts.len(),
{
    if insts.len() == 0 {
        0
    } else if insts[0] is Done {
        0
    } else {
        1 + spec_queue_end(insts.drop_first())
    }
}

proof fn lemma_queue_end_at(insts: Seq<DownloadInstruction>, i: int)
    requires
        0 <= i <= insts.len(),
        forall|k: int| 0 <= k < i ==> !((#[trigger] insts[k]) is Done),
        i < insts.len() ==> insts[i] is Done,
    ensures
        spec_queue_end(insts) == i,
    decreases insts.len(),
{
    if insts.len() > 0 && i > 0 {
        lemma_queue_end_at(insts.drop_first(), i - 1);
    }
}

/// Record the outcome of one attempted download, after the fetch and the
/// write: on success the URL is recorded under the plan's file name; on
/// failure the map is left unchanged, so the URL stays unrecorded and
/// eligible for a later attempt.
pub fn record_download(media: &mut MediaMap, plan: PlannedDownload, succeeded: bool)
    requires
        old(media).wf(),
    ensures
        final(media).wf(),
        !succeeded ==> *final(media) == *old(media),
        succeeded && old(media).spec_contains(plan.url@) ==> final(media).entries@ == old(
            media,
        ).entries@,
        succeeded && !old(media).spec_contains(plan.url@) ==> final(media).entries@ == old(
            media,
        ).entries@.push(MediaRecord { url: plan.url, path: plan.file_name }),
        succeeded ==> final(media).spec_contains(plan.url@),
        forall|u: Seq<char>| old(media).spec_contains(u) ==> final(media).spec_contains(u),
{
    if succeeded {
        media.record(plan.url, plan.file_name);
    }
}

/// The URL-and-file-name views of a run's performed downloads, in order.
pub open spec fn plan_views(ps: Seq<PlannedDownload>) -> Seq<(Seq<char>, Seq<char>)>
    decreases ps.len(),
{
    if ps.len() == 0 {
        Seq::empty()
    } else {
        plan_views(ps.drop_last()).push((ps.last().url@, ps.last().file_name@))
    }
}

/// The downloads one worker run performs and records, as URL-and-file-name
/// pairs in queue order. Instructions are consumed up to the first
/// sentinel. An instruction's URL is attempted when media download is
/// enabled and the URL is not recorded yet; `outcomes` says, position by
/// position, whether the fetch and write at that instruction succeed. A
/// successful attempt records the URL under its stable file name; a failed
/// one records nothing, so a later instruction with the same URL attempts
/// it again.
pub open spec fn spec_worker_run(
    insts: Seq<DownloadInstruction>,
    outcomes: Seq<bool>,
    recorded: Set<Seq<char>>,
    enabled: bool,
) -> Seq<(Seq<char>, Seq<char>)>
    decreases insts.len(),
{
    if insts.len() == 0 || insts[0] is Done {
        Seq::empty()
    } else {
        match spec_instruction_media(insts[0]) {
            Some(ue) => if enabled && !recorded.contains(ue.0) && outcomes.len() > 0
                && outcomes[0] {
                seq![(ue.0, spec_media_file_name(ue.0, ue.1))] + spec_worker_run(
                    insts.drop_first(),
                    outcomes.drop_first(),
                    recorded.insert(ue.0),
                    enabled,
                )
            } else {
                spec_worker_run(insts.drop_first(), outcomes.drop_first(), recorded, enabled)
            },
            // only the sentinel resolves to no URL, and it is handled above
            None => Seq::empty(),
        }
    }
}

/// Run the worker over an instruction queue, with `outcomes[k]` standing
/// for whether the fetch-and-write attempted at instruction `k` succeeds:
/// stop at the first sentinel, discard everything when media download is
/// disabled, skip URLs already recorded, and record a URL under its stable
/// file name only after its download succeeded. The performed downloads
/// are exactly `spec_worker_run` of the queue: first successful occurrence
/// of each fresh URL, in queue order, pairwise distinct, and the media map
/// grows by exactly their records; a URL whose attempts all fail stays
/// unrecorded.
#[verifier::rlimit(100)]
pub fn run_worker(
    insts: &Vec<DownloadInstruction>,
    outcomes: &Vec<bool>,
    media: &mut MediaMap,
    media_enabled: bool,
) -> (r: Vec<PlannedDownload>)
    requires
        old(media).wf(),
        outcomes@.len() == insts@.len(),
    ensures
        final(media).wf(),
        plan_views(r@) == spec_worker_run(
            insts@,
            outcomes@,
            old(media).spec_url_set(),
            media_enabled,
        ),
        final(media).entries@.len() == old(media).entries@.len() + r@.len(),
        forall|j: int|
            0 <= j < old(media).entries@.len() ==> final(media).entries@[j] == old(
                media,
            ).entries@[j],
        forall|a: int|
            0 <= a < r@.len() ==> final(media).entries@[old(media).entries@.len() + a]
                == (MediaRecord { url: (#[trigger] r@[a]).url, path: r@[a].file_name }),
        forall|a: int, b: int| 0 <= a < b < r@.len() ==> r@[a].url@ != r@[b].url@,
        forall|a: int| 0 <= a < r@.len() ==> !old(media).spec_contains(#[trigger] r@[a].url@),
        forall|a: int| 0 <= a < r@.len() ==> final(media).spec_contains(#[trigger] r@[a].url@),
        !media_enabled ==> r@.len() == 0 && *final(media) == *old(media),
        media_enabled ==> forall|k: int|
            0 <= k < spec_queue_end(insts@) && spec_instruction_url(
                #[trigger] insts@[k],
            ) is Some && outcomes@[k] ==> final(media).spec_contains(
                spec_instruction_url(insts@[k])->Some_0,
            ),
{
    let ghost full = spec_worker_run(insts@, outcomes@, old(media).spec_url_set(), media_enabled);
    let mut planned: Vec<PlannedDownload> = Vec::new();
    let n = insts.len();
    let mut i: usize = 0;
    let mut done = false;
    proof {
        assert(insts@.skip(0) =~= insts@);
        assert(outcomes@.skip(0) =~= outcomes@);
        assert(Seq::<(Seq<char>, Seq<char>)>::empty() + full =~= full);
    }
    while !done && i < n
        invariant
            0 <= i <= insts@.len(),
            n == insts@.len(),
            outcomes@.len() == insts@.len(),
            media.wf(),
            full == spec_worker_run(insts@, outcomes@, old(media).spec_url_set(), media_enabled),
            forall|k: int| 0 <= k < i ==> !((#[trigger] insts@[k]) is Done),
            done ==> i < insts@.len() && insts@[i as int] is Done,
            full == plan_views(planned@) + spec_worker_run(
                insts@.skip(i as int),
                outcomes@.skip(i as int),
                media.spec_url_set(),
                media_enabled,
            ),
            media.entries@.len() == old(media).entries@.len() + planned@.len(),
            forall|j: int|
                0 <= j < old(media).entries@.len() ==> media.entries@[j] == old(
                    media,
                ).entries@[j],
            forall|a: int|
                0 <= a < planned@.len() ==> media.entries@[old(media).entries@.len() + a]
                    == (MediaRecord {
                    url: (#[trigger] planned@[a]).url,
                    path: planned@[a].file_name,
                }),
            forall|a: int, b: int|
                0 <= a < b < planned@.len() ==> planned@[a].url@ != planned@[b].url@,
            forall|a: int|
                0 <= a < planned@.len() ==> !old(media).spec_contains(
                    #[trigger] planned@[a].url@,
                ),
            forall|a: int|
                0 <= a < planned@.len() ==> media.spec_contains(#[trigger] planned@[a].url@),
            !media_enabled ==> planned@.len() == 0 && *media == *old(media),
            media_enabled ==> forall|k: int|
                0 <= k < i && spec_instruction_url(#[trigger] insts@[k]) is Some && outcomes@[k]
                    ==> media.spec_contains(spec_instruction_url(insts@[k])->Some_0),
        decreases insts@.len() - i + (if done {
            0int
        } else {
            1int
        }),
    {
        proof {
            assert(insts@.skip(i as int)[0] == insts@[i as int]);
            assert(insts@.skip(i as int).drop_first() =~= insts@.skip(i + 1));
            assert(outcomes@.skip(i as int)[0] == outcomes@[i as int]);
            assert(outcomes@.skip(i as int).drop_first() =~= outcomes@.skip(i + 1));
        }
        let inst = &insts[i];
        if matches!(inst, DownloadInstruction::Done) {
            done = true;
        } else {
            let ghost media0 = *media;
            let ghost planned0 = planned@;
            match plan_download(inst, media, media_enabled) {
                Some(p) => {
                    if outcomes[i] {
                        let ghost u0 = p.url@;
                        let url = p.url.clone();
                        let path = p.file_name.clone();
                        media.record(url, path);
                        proof {
                            assert(media.entries@ == media0.entries@.push(
                                MediaRecord { url: p.url, path: p.file_name },
                            ));
                            assert(media.spec_contains(p.url@));
                            assert forall|x: Seq<char>| media.spec_contains(x)
                                implies x == u0 || media0.spec_contains(x) by {
                                let w = choose|w: int|
                                    0 <= w < media.entries@.len() && media.entries@[w].url@ == x;
                                if w < media0.entries@.len() {
                                    assert(media0.entries@[w].url@ == x);
                                }
                            }
                            assert(media.spec_url_set() =~= media0.spec_url_set().insert(u0));
                        }
                        planned.push(p);
                        proof {
                            assert(planned@.drop_last() =~= planned0);
                            assert(plan_views(planned@) == plan_views(planned0).push(
                                (planned@.last().url@, planned@.last().file_name@),
                            ));
                            assert(full =~= plan_views(planned@) + spec_worker_run(
                                insts@.skip(i + 1),
                                outcomes@.skip(i + 1),
                                media.spec_url_set(),
                                media_enabled,
                            ));
                        }
                    }
                },
                None => {
                },
            }
            i += 1;
        }
    }
    proof {
        lemma_queue_end_at(insts@, i as int);
        if i < insts@.len() {
            assert(insts@.skip(i as int)[0] == insts@[i as int]);
        }
        assert(plan_views(planned@) + Seq::<(Seq<char>, Seq<char>)>::empty() =~= plan_views(
            planned@,
        ));
    }
    planned
}

} // verus!
