use tweet_archiver::aggregate::{CrawlAggregate, MediaMap, ProfileCache, ReplyMap};
use tweet_archiver::inspect::process_member_page;
use tweet_archiver::orchestrator::{enabled_phases, list_key, phase_key, phase_label};
use tweet_archiver::pagination::{crawl_feed, feed_advance, feed_start, PageOutcome};
use tweet_archiver::rate_limit::{backoff_seconds, RateLimitStatus};
use tweet_archiver::types::{CrawlOptions, ListRecord, Phase, Profile, Tweet};

fn profile(id: u64) -> Profile {
    Profile {
        id,
        avatar_url: format!("https://cdn.example/avatar{id}.png"),
        banner_url: None,
        background_url: None,
    }
}

fn all_options() -> CrawlOptions {
    CrawlOptions {
        tweets: true,
        mentions: true,
        followers: true,
        follows: true,
        lists: true,
        tweet_profiles: true,
        tweet_responses: true,
        media: true,
    }
}

#[test]
fn profile_cache_holds_an_id_at_most_once() {
    let mut cache = ProfileCache::new();
    // several crawlers referencing the same id insert it repeatedly
    cache.insert(profile(7));
    cache.insert(profile(7));
    cache.insert(profile(9));
    cache.insert(profile(7));
    let ids: Vec<u64> = cache.entries.iter().map(|p| p.id).collect();
    assert_eq!(ids, vec![7, 9]);
    assert_eq!(ids.iter().filter(|i| **i == 7).count(), 1);
}

#[test]
fn profile_cache_batch_insert_deduplicates() {
    let mut cache = ProfileCache::new();
    cache.insert(profile(1));
    cache.insert_all(vec![profile(2), profile(1), profile(2), profile(3)]);
    let ids: Vec<u64> = cache.entries.iter().map(|p| p.id).collect();
    assert_eq!(ids, vec![1, 2, 3]);
}

#[test]
fn filter_unknown_keeps_only_uncached_ids() {
    let mut cache = ProfileCache::new();
    cache.insert(profile(1));
    cache.insert(profile(2));
    let unknown = cache.filter_unknown(&vec![1, 3, 2, 4]);
    assert_eq!(unknown, vec![3, 4]);
}

#[test]
fn media_map_records_a_url_once() {
    let mut map = MediaMap::new();
    map.record("https://a/x.png".to_string(), "1.png".to_string());
    map.record("https://a/x.png".to_string(), "2.png".to_string());
    map.record("https://a/y.png".to_string(), "3.png".to_string());
    assert_eq!(map.entries.len(), 2);
    assert_eq!(map.entries[0].url, "https://a/x.png");
    assert_eq!(map.entries[0].path, "1.png");
}

#[test]
fn reply_map_replaces_the_set_for_an_id() {
    let mut map = ReplyMap::new();
    map.set(42, vec![tweet(1)]);
    map.set(42, vec![tweet(2), tweet(3)]);
    map.set(7, vec![tweet(4)]);
    assert_eq!(map.entries.len(), 2);
    assert_eq!(map.entries[0].tweet_id, 42);
    assert_eq!(map.entries[0].replies.len(), 2);
    assert_eq!(map.entries[0].replies[0].id, 2);
}

fn tweet(id: u64) -> Tweet {
    Tweet {
        id,
        author_id: None,
        in_reply_to_status_id: None,
        media: Vec::new(),
        quoted: None,
        retweeted: None,
    }
}

#[test]
fn rate_limit_exhausted_quota_waits_for_reset_plus_grace() {
    let now = 1_000_000u64;
    let status = RateLimitStatus { remaining: 1, limit: 100, reset: now + 5 };
    assert_eq!(backoff_seconds(&status, Some(now)), Some(15));
}

#[test]
fn rate_limit_ample_quota_introduces_no_delay() {
    let now = 1_000_000u64;
    let status = RateLimitStatus { remaining: 50, limit: 100, reset: now + 5 };
    assert_eq!(backoff_seconds(&status, Some(now)), None);
}

#[test]
fn rate_limit_with_a_reset_in_the_past_wraps_the_unsigned_subtraction() {
    // now is 90 seconds past reset + grace: the unsigned difference wraps
    let status = RateLimitStatus { remaining: 1, limit: 100, reset: 0 };
    assert_eq!(backoff_seconds(&status, Some(100)), Some(u64::MAX - 89));
}

#[test]
fn rate_limit_without_a_clock_falls_back_to_long_sleep() {
    let status = RateLimitStatus { remaining: 0, limit: 100, reset: 5 };
    assert_eq!(backoff_seconds(&status, None), Some(1000));
}

#[test]
fn crawl_collects_three_pages_in_order_and_clears_checkpoint() {
    let pages = vec![vec![1, 2], vec![3], vec![4, 5, 6], vec![]];
    let run = crawl_feed(pages.clone(), None);
    assert_eq!(run.items, vec![1, 2, 3, 4, 5, 6]);
    assert_eq!(run.checkpoint, None);
    assert_eq!(run.trace, vec![Some(1), Some(2), Some(3), None]);
}

#[test]
fn crawl_resumes_from_checkpoint_without_loss_or_duplication() {
    let pages = vec![vec![1, 2], vec![3], vec![4, 5, 6], vec![]];
    // first run processes page 0 and page 1, checkpointing after each;
    // the crash leaves the checkpoint written after page 1
    let full = crawl_feed(pages.clone(), None);
    assert_eq!(full.trace[1], Some(2));
    let resumed = crawl_feed(pages.clone(), Some(2));
    assert_eq!(resumed.items, vec![4, 5, 6]);
    assert_eq!(resumed.checkpoint, None);
    // pages 0 and 1 were already appended before the crash
    let mut combined = vec![1, 2, 3];
    combined.extend(resumed.items.iter().copied());
    assert_eq!(combined, full.items);
}

#[test]
fn a_tweet_feed_crawls_the_same_way_as_an_id_feed() {
    let pages = vec![vec![tweet(1), tweet(2)], vec![tweet(3)], vec![]];
    let run = crawl_feed(pages, None);
    let ids: Vec<u64> = run.items.iter().map(|t| t.id).collect();
    assert_eq!(ids, vec![1, 2, 3]);
    assert_eq!(run.checkpoint, None);
    assert_eq!(run.trace, vec![Some(1), Some(2), None]);
}

#[test]
fn crawl_started_at_an_empty_page_appends_nothing() {
    let pages = vec![vec![1], vec![], vec![2]];
    let run = crawl_feed(pages.clone(), Some(1));
    assert!(run.items.is_empty());
    assert_eq!(run.checkpoint, None);
    assert_eq!(run.trace, vec![None]);
}

#[test]
fn feed_progress_advances_by_page_outcome() {
    let p = feed_start(Some(9));
    assert_eq!(p.checkpoint, Some(9));
    assert!(!p.finished);
    let p = feed_advance(p, &PageOutcome::Failed);
    assert_eq!(p.checkpoint, Some(9));
    assert!(!p.finished);
    let p = feed_advance(p, &PageOutcome::More(10));
    assert_eq!(p.checkpoint, Some(10));
    assert!(!p.finished);
    let p = feed_advance(p, &PageOutcome::Empty);
    assert_eq!(p.checkpoint, None);
    assert!(p.finished);
}

#[test]
fn phases_run_in_fixed_order() {
    let phases = enabled_phases(&all_options());
    assert_eq!(
        phases,
        vec![Phase::Tweets, Phase::Mentions, Phase::Followers, Phase::Follows, Phase::Lists]
    );
}

#[test]
fn disabled_phases_are_skipped_not_reordered() {
    let mut opts = all_options();
    opts.mentions = false;
    opts.follows = false;
    let phases = enabled_phases(&opts);
    assert_eq!(phases, vec![Phase::Tweets, Phase::Followers, Phase::Lists]);
}

#[test]
fn phase_labels_and_keys_match_the_persisted_names() {
    assert_eq!(phase_label(Phase::Tweets), "User Tweets");
    assert_eq!(phase_label(Phase::Mentions), "User Mentions");
    assert_eq!(phase_key(Phase::Tweets), "user_tweets");
    assert_eq!(phase_key(Phase::Mentions), "user_mentions");
    assert_eq!(phase_key(Phase::Followers), "followers");
    assert_eq!(phase_key(Phase::Follows), "follows");
    assert_eq!(phase_key(Phase::Lists), "lists");
}

#[test]
fn list_member_checkpoint_key_embeds_the_list_id() {
    assert_eq!(list_key(42), "list-42");
    assert_eq!(list_key(0), "list-0");
    assert_eq!(list_key(18446744073709551615), "list-18446744073709551615");
}

#[test]
fn a_finished_member_crawl_appends_one_complete_list_record() {
    let mut agg = CrawlAggregate::new(1);
    let mut member_ids: Vec<u64> = Vec::new();
    // two member pages, then the list record is created once, complete
    process_member_page(&mut agg.profiles, &mut member_ids, vec![profile(2), profile(3)]);
    process_member_page(&mut agg.profiles, &mut member_ids, vec![profile(3), profile(4)]);
    assert_eq!(member_ids, vec![2, 3, 3, 4]);
    let cached: Vec<u64> = agg.profiles.entries.iter().map(|p| p.id).collect();
    assert_eq!(cached, vec![2, 3, 4]);
    agg.push_list(ListRecord { id: 9, name: "friends".to_string(), members: member_ids });
    assert_eq!(agg.lists.len(), 1);
    assert_eq!(agg.lists[0].members, vec![2, 3, 3, 4]);
}

#[test]
fn aggregate_appends_pages_and_overwrites_id_sets() {
    let mut agg = CrawlAggregate::new(1);
    agg.append_tweets(vec![tweet(1), tweet(2)]);
    agg.append_tweets(vec![tweet(3)]);
    assert_eq!(agg.tweets.len(), 3);
    assert_eq!(agg.tweets[2].id, 3);
    agg.set_followers(vec![10, 11]);
    agg.set_followers(vec![10, 11, 12]);
    assert_eq!(agg.followers, vec![10, 11, 12]);
}
