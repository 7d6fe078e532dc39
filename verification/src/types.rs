//! The data model of the crawl engine: tweets, profiles, lists, media
//! records, download instructions, progress messages and feature flags.

use vstd::prelude::*;

verus! {

/// One selectable rendition of an attached video: the container subtype of
/// its content type (the part after the slash, e.g. "mp4"), its bitrate in
/// bits per second, and the URL of the bytes.
#[derive(Clone)]
pub struct VideoVariant {
    pub content_subtype: String,
    pub bitrate: u64,
    pub url: String,
}

/// One media item attached to a tweet: the direct media URL, and, for a
/// video, the list of its selectable variants; a plain image has none.
#[derive(Clone)]
pub struct MediaItem {
    pub media_url: String,
    pub video_variants: Option<Vec<VideoVariant>>,
}

/// A tweet embedded one level deep inside another (a quote or the retweeted
/// original). The upstream format guarantees no deeper nesting, so embedded
/// tweets carry no further embedded slots.
#[derive(Clone)]
pub struct EmbeddedTweet {
    pub id: u64,
    pub author_id: Option<u64>,
    pub media: Vec<MediaItem>,
}

/// A tweet as the crawl engine reads it. `author_id` is absent when upstream
/// did not resolve the author.
#[derive(Clone)]
pub struct Tweet {
    pub id: u64,
    pub author_id: Option<u64>,
    pub in_reply_to_status_id: Option<u64>,
    pub media: Vec<MediaItem>,
    pub quoted: Option<EmbeddedTweet>,
    pub retweeted: Option<EmbeddedTweet>,
}

/// A user profile, keyed by numeric id. Holds the media URLs the engine
/// inspects: the avatar is always present, banner and background images only
/// sometimes.
#[derive(Clone)]
pub struct Profile {
    pub id: u64,
    pub avatar_url: String,
    pub banner_url: Option<String>,
    pub background_url: Option<String>,
}

/// List metadata plus the resolved ordered member ids, created complete when
/// the member crawl of the list finishes.
#[derive(Clone)]
pub struct ListRecord {
    pub id: u64,
    pub name: String,
    pub members: Vec<u64>,
}

/// One downloaded media file: the source URL and the local path it was
/// written to.
#[derive(Clone)]
pub struct MediaRecord {
    pub url: String,
    pub path: String,
}

/// The replies discovered for one of the owner's tweets, keyed by that
/// tweet's id.
#[derive(Clone)]
pub struct ReplySet {
    pub tweet_id: u64,
    pub replies: Vec<Tweet>,
}

/// A unit of work for the download worker. `Done` is a sentinel that
/// terminates the worker loop, not a real payload.
#[derive(Clone)]
pub enum DownloadInstruction {
    Image(String),
    Movie(String, String),
    ProfileMedia(String),
    Done,
}

/// Progress events handed to the presentation layer, in order: a phase
/// announcement, the completed aggregate, or a fatal error description.
pub enum Message {
    Finished(crate::aggregate::CrawlAggregate),
    Loading(String),
    Error(String),
}

/// Feature flags deciding which crawl phases and behaviours run.
#[derive(Clone, Copy)]
pub struct CrawlOptions {
    pub tweets: bool,
    pub mentions: bool,
    pub followers: bool,
    pub follows: bool,
    pub lists: bool,
    pub tweet_profiles: bool,
    pub tweet_responses: bool,
    pub media: bool,
}

/// The crawl phases, in the fixed order the orchestrator runs them.
#[derive(Clone, Copy, Debug, PartialEq, Eq, Structural)]
pub enum Phase {
    Tweets,
    Mentions,
    Followers,
    Follows,
    Lists,
}

} // verus!
