//! The shared pagination pattern: cursor-based feeds walked to exhaustion,
//! with a checkpoint persisted after every page so a crawl can resume.

use vstd::prelude::*;

verus! {

/// Items requested per page of the owner's tweet timeline.
pub const TWEET_PAGE_SIZE: u32 = 50;

/// Items requested per page of the mentions timeline.
pub const MENTION_PAGE_SIZE: u32 = 50;

/// Ids requested per page of the follower and follow listings.
pub const ID_PAGE_SIZE: u32 = 50;

/// List ownerships requested per page.
pub const LIST_PAGE_SIZE: u32 = 500;

/// Members requested per page of one list's member crawl.
pub const LIST_MEMBER_PAGE_SIZE: u32 = 2000;

/// The index of the page that ends a crawl started at `start`: the first
/// empty page at or after `start`, or the feed's end when no page at or
/// after `start` is empty. An empty page is the authoritative end-of-feed
/// signal.
pub open spec fn stop_index<T>(pages: Seq<Seq<T>>, start: int) -> int
    decreases pages.len() - start,
{
    if start < 0 || start >= pages.len() {
        start
    } else if pages[start].len() == 0 {
        start
    } else {
        stop_index(pages, start + 1)
    }
}

/// The items of the pages with indexes in `[start, stop)`, in fetch order.
pub open spec fn flatten_range<T>(pages: Seq<Seq<T>>, start: int, stop: int) -> Seq<T>
    decreases stop - start,
{
    if start < 0 || start >= stop {
        Seq::empty()
    } else {
        pages[start] + flatten_range(pages, start + 1, stop)
    }
}

/// Where the crawl started at `start` stops: never before `start`, never
/// past the feed's end, on an empty page when one exists, with every page
/// before it non-empty.
pub proof fn lemma_stop_index_bounds<T>(pages: Seq<Seq<T>>, start: int)
    requires
        0 <= start <= pages.len(),
    ensures
        start <= stop_index(pages, start) <= pages.len(),
        stop_index(pages, start) < pages.len() ==> pages[stop_index(pages, start)].len() == 0,
        forall|p: int|
            start <= p < stop_index(pages, start) ==> (#[trigger] pages[p]).len() > 0,
    decreases pages.len() - start,
{
    if start < pages.len() && pages[start].len() > 0 {
        lemma_stop_index_bounds(pages, start + 1);
    }
}

/// A crawl that saw only non-empty pages up to `i` and an empty page (or
/// the feed's end) at `i` stops exactly at `i`.
proof fn lemma_stop_index_at<T>(pages: Seq<Seq<T>>, start: int, i: int)
    requires
        0 <= start <= i <= pages.len(),
        forall|p: int| start <= p < i ==> (#[trigger] pages[p]).len() > 0,
        i < pages.len() ==> pages[i].len() == 0,
    ensures
        stop_index(pages, start) == i,
    decreases i - start,
{
    if start < i {
        lemma_stop_index_at(pages, start + 1, i);
    }
}

/// Appending one more page to a flattened range appends its items.
proof fn lemma_flatten_range_snoc<T>(pages: Seq<Seq<T>>, start: int, i: int)
    requires
        0 <= start <= i < pages.len(),
    ensures
        flatten_range(pages, start, i + 1) == flatten_range(pages, start, i) + pages[i],
    decreases i - start,
{
    if start == i {
        assert(flatten_range(pages, start, i) == Seq::<T>::empty());
        assert(flatten_range(pages, i + 1, i + 1) == Seq::<T>::empty());
        assert(flatten_range(pages, start, i + 1) =~= flatten_range(pages, start, i)
            + pages[i]);
    } else {
        lemma_flatten_range_snoc(pages, start + 1, i);
        assert(flatten_range(pages, start, i + 1) =~= flatten_range(pages, start, i)
            + pages[i]);
    }
}

/// A flattened range splits at any midpoint into the two subranges'
/// flattenings, in order.
pub proof fn lemma_flatten_range_split<T>(pages: Seq<Seq<T>>, start: int, mid: int, stop: int)
    requires
        0 <= start <= mid <= stop,
    ensures
        flatten_range(pages, start, stop) == flatten_range(pages, start, mid) + flatten_range(
            pages,
            mid,
            stop,
        ),
    decreases mid - start,
{
    if start == mid {
        assert(flatten_range(pages, start, stop) =~= flatten_range(pages, start, mid)
            + flatten_range(pages, mid, stop));
    } else {
        lemma_flatten_range_split(pages, start + 1, mid, stop);
        assert(flatten_range(pages, start, stop) =~= flatten_range(pages, start, mid)
            + flatten_range(pages, mid, stop));
    }
}

/// Pagination resumption: a crawl checkpointed right after page N resumes
/// at page N + 1, stops where the uninterrupted crawl stops, and the items
/// already appended (pages 0 through N) followed by the resumed crawl's
/// items are exactly the uninterrupted crawl's items: no page is fetched
/// twice and none is skipped.
pub proof fn lemma_crawl_resumption<T>(pages: Seq<Seq<T>>, crash_after: int)
    requires
        0 <= crash_after < stop_index(pages, 0),
        stop_index(pages, 0) <= pages.len(),
    ensures
        stop_index(pages, crash_after + 1) == stop_index(pages, 0),
        flatten_range(pages, 0, stop_index(pages, 0)) == flatten_range(pages, 0, crash_after + 1)
            + flatten_range(pages, crash_after + 1, stop_index(pages, 0)),
{
    lemma_stop_index_bounds(pages, 0);
    lemma_stop_index_at(pages, crash_after + 1, stop_index(pages, 0));
    lemma_flatten_range_split(pages, 0, crash_after + 1, stop_index(pages, 0));
}

/// The progress of one feed's crawl: the checkpoint as it would be
/// persisted now, and whether the feed is exhausted.
pub struct FeedProgress {
    pub checkpoint: Option<u64>,
    pub finished: bool,
}

/// What one page call of a feed came back with: a page-level error, the
/// authoritative empty page, or a non-empty page with the next cursor.
pub enum PageOutcome {
    Failed,
    Empty,
    More(u64),
}

/// Initialize a feed's progress from its persisted checkpoint: absence
/// means "start from the beginning", presence means "resume from here".
pub fn feed_start(persisted: Option<u64>) -> (r: FeedProgress)
    ensures
        r.checkpoint == persisted,
        !r.finished,
{
    FeedProgress { checkpoint: persisted, finished: false }
}

/// Advance a feed's progress by one page call. A page-level error leaves
/// the progress unchanged, so the same cursor is retried without limit; an
/// empty page finishes the feed and clears the checkpoint; a non-empty page
/// advances the checkpoint to the page's next cursor.
pub fn feed_advance(progress: FeedProgress, outcome: &PageOutcome) -> (r: FeedProgress)
    ensures
        outcome is Failed ==> r == progress,
        outcome is Empty ==> r == (FeedProgress { checkpoint: None, finished: true }),
        forall|c: u64| outcome == PageOutcome::More(c) ==> r == (FeedProgress {
            checkpoint: Some(c),
            finished: false,
        }),
{
    match outcome {
        PageOutcome::Failed => progress,
        PageOutcome::Empty => FeedProgress { checkpoint: None, finished: true },
        PageOutcome::More(c) => FeedProgress { checkpoint: Some(*c), finished: false },
    }
}

/// What one finished crawl of a feed produced: the items appended, the
/// checkpoint left persisted, and the trace of every checkpoint write the
/// crawl made, in order.
pub struct CrawlRun<T> {
    pub items: Vec<T>,
    pub checkpoint: Option<u64>,
    pub trace: Vec<Option<u64>>,
}

/// The sequence of views of a feed's pages.
pub open spec fn pages_view<T>(pages: Seq<Vec<T>>) -> Seq<Seq<T>> {
    pages.map_values(|p: Vec<T>| p@)
}

/// Walk a feed to exhaustion, resuming from a persisted checkpoint. The
/// cursor of this model feed is the page index; page `i`'s next cursor is
/// `i + 1`, and the feed ends at its first empty page (or at the end of
/// the vector, standing for a feed that only signals empty thereafter).
/// The run yields exactly the items of the pages from the resume point up
/// to the stop page, in fetch order; it writes the checkpoint once after
/// every processed page and clears it at the end, leaving it absent.
pub fn crawl_feed<T>(pages: Vec<Vec<T>>, persisted: Option<u64>) -> (r: CrawlRun<T>)
    requires
        (match persisted {
            Some(c) => c as int,
            None => 0,
        }) <= pages@.len(),
    ensures
        ({
            let pv = pages_view(pages@);
            let start = match persisted {
                Some(c) => c as int,
                None => 0,
            };
            let stop = stop_index(pv, start);
            &&& r.items@ == flatten_range(pv, start, stop)
            &&& r.checkpoint is None
            &&& r.trace@ == Seq::new((stop - start) as nat, |j: int| Some((start + j + 1) as u64))
                .push(None)
        }),
{
    let ghost pv = pages_view(pages@);
    let ghost all = pages@;
    let n = pages.len();
    let start: usize = match persisted {
        Some(c) => c as usize,
        None => 0,
    };
    proof {
        lemma_stop_index_bounds(pv, start as int);
    }
    let mut pages = pages;
    let mut rest = pages.split_off(start);
    let mut items: Vec<T> = Vec::new();
    let mut trace: Vec<Option<u64>> = Vec::new();
    let mut i: usize = start;
    let mut done = false;
    while !done && i < n
        invariant
            start <= i <= all.len(),
            n == all.len(),
            pv == pages_view(all),
            rest@ == all.skip(i as int),
            forall|p: int| start <= p < i ==> (#[trigger] pv[p]).len() > 0,
            done ==> stop_index(pv, start as int) == i as int,
            items@ == flatten_range(pv, start as int, i as int),
            trace@ == Seq::new((i - start) as nat, |j: int| Some((start + j + 1) as u64)),
        decreases all.len() - i + (if done {
            0int
        } else {
            1int
        }),
    {
        proof {
            assert(rest@[0] == all[i as int]);
            assert(rest@[0]@ == pv[i as int]);
        }
        if rest[0].len() == 0 {
            proof {
                lemma_stop_index_at(pv, start as int, i as int);
            }
            done = true;
        } else {
            let mut page = rest.remove(0);
            proof {
                assert(page@ == pv[i as int]);
                assert(rest@ == all.skip(i + 1));
                lemma_flatten_range_snoc(pv, start as int, i as int);
            }
            items.append(&mut page);
            i += 1;
            trace.push(Some(i as u64));
            proof {
                assert(trace@ =~= Seq::new(
                    (i - start) as nat,
                    |j: int| Some((start + j + 1) as u64),
                ));
            }
        }
    }
    proof {
        if !done {
            lemma_stop_index_at(pv, start as int, i as int);
        }
        assert(stop_index(pv, start as int) == i);
    }
    trace.push(None);
    CrawlRun { items, checkpoint: None, trace }
}

} // verus!
