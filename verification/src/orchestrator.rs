//! Phase sequencing: which crawl phases run, in which fixed order, under
//! which progress labels and checkpoint keys.

use vstd::prelude::*;
use vstd::string::*;
use crate::text::dec_digits;
use crate::types::{CrawlOptions, Phase};

verus! {

/// The fixed phase order of a run, filtered by the enabled feature flags:
/// tweets, mentions, followers, follows, lists.
pub open spec fn spec_enabled_phases(opts: CrawlOptions) -> Seq<Phase> {
    (if opts.tweets {
        seq![Phase::Tweets]
    } else {
        Seq::empty()
    }) + (if opts.mentions {
        seq![Phase::Mentions]
    } else {
        Seq::empty()
    }) + (if opts.followers {
        seq![Phase::Followers]
    } else {
        Seq::empty()
    }) + (if opts.follows {
        seq![Phase::Follows]
    } else {
        Seq::empty()
    }) + (if opts.lists {
        seq![Phase::Lists]
    } else {
        Seq::empty()
    })
}

/// The phases a run executes, in their fixed order; a disabled phase is
/// skipped, never reordered.
pub fn enabled_phases(opts: &CrawlOptions) -> (r: Vec<Phase>)
    ensures
        r@ == spec_enabled_phases(*opts),
{
    let mut r: Vec<Phase> = Vec::new();
    if opts.tweets {
        r.push(Phase::Tweets);
    }
    if opts.mentions {
        r.push(Phase::Mentions);
    }
    if opts.followers {
        r.push(Phase::Followers);
    }
    if opts.follows {
        r.push(Phase::Follows);
    }
    if opts.lists {
        r.push(Phase::Lists);
    }
    assert(r@ =~= spec_enabled_phases(*opts));
    r
}

/// The progress label announced before a phase starts.
pub open spec fn spec_phase_label(p: Phase) -> Seq<char> {
    match p {
        Phase::Tweets => "User Tweets"@,
        Phase::Mentions => "User Mentions"@,
        Phase::Followers => "Followers"@,
        Phase::Follows => "Follows"@,
        Phase::Lists => "Lists"@,
    }
}

/// The text of the `Loading` progress event emitted before a phase.
pub fn phase_label(p: Phase) -> (r: String)
    ensures
        r@ == spec_phase_label(p),
{
    match p {
        Phase::Tweets => String::from_str("User Tweets"),
        Phase::Mentions => String::from_str("User Mentions"),
        Phase::Followers => String::from_str("Followers"),
        Phase::Follows => String::from_str("Follows"),
        Phase::Lists => String::from_str("Lists"),
    }
}

/// The persisted checkpoint key of a phase's feed.
pub open spec fn spec_phase_key(p: Phase) -> Seq<char> {
    match p {
        Phase::Tweets => "user_tweets"@,
        Phase::Mentions => "user_mentions"@,
        Phase::Followers => "followers"@,
        Phase::Follows => "follows"@,
        Phase::Lists => "lists"@,
    }
}

/// The key under which a phase's pagination cursor is persisted.
pub fn phase_key(p: Phase) -> (r: String)
    ensures
        r@ == spec_phase_key(p),
{
    match p {
        Phase::Tweets => String::from_str("user_tweets"),
        Phase::Mentions => String::from_str("user_mentions"),
        Phase::Followers => String::from_str("followers"),
        Phase::Follows => String::from_str("follows"),
        Phase::Lists => String::from_str("lists"),
    }
}

/// The checkpoint key of one list's member crawl: "list-" followed by the
/// list id in decimal, the same key across runs.
pub open spec fn spec_list_key(id: u64) -> Seq<char> {
    "list-"@ + dec_digits(id as nat)
}

/// Derive the persisted checkpoint key for a list's member crawl.
pub fn list_key(id: u64) -> (r: String)
    ensures
        r@ == spec_list_key(id),
{
    let d = crate::text::u64_to_decimal(id);
    let r = String::from_str("list-").concat(d.as_str());
    assert(r@ =~= spec_list_key(id));
    r
}

} // verus!
