use tweet_archiver::aggregate::{MediaMap, ProfileCache, ReplyMap};
use tweet_archiver::inspect::{
    cache_profile, cache_profiles_batch, discover_replies, filter_replies, media_instructions,
    page_instructions, profile_candidates, select_variant, tweet_instructions, author_to_fetch,
    wants_reply_search,
};
use tweet_archiver::text::eq_ignore_ascii_case;
use tweet_archiver::types::{
    DownloadInstruction, EmbeddedTweet, MediaItem, Profile, Tweet, VideoVariant,
};
use tweet_archiver::worker::{
    extension_for_url, media_file_name, movie_extension, plan_download, record_download,
    run_worker,
};

fn variant(subtype: &str, bitrate: u64, url: &str) -> VideoVariant {
    VideoVariant {
        content_subtype: subtype.to_string(),
        bitrate,
        url: url.to_string(),
    }
}

fn image_item(url: &str) -> MediaItem {
    MediaItem { media_url: url.to_string(), video_variants: None }
}

fn video_item(variants: Vec<VideoVariant>) -> MediaItem {
    MediaItem { media_url: "https://v/poster.jpg".to_string(), video_variants: Some(variants) }
}

fn tweet_with(id: u64, author: Option<u64>, media: Vec<MediaItem>) -> Tweet {
    Tweet {
        id,
        author_id: author,
        in_reply_to_status_id: None,
        media,
        quoted: None,
        retweeted: None,
    }
}

#[test]
fn selects_highest_bitrate_mp4_variant() {
    let vs = vec![
        variant("mp4", 300, "https://v/300.mp4"),
        variant("mp4", 900, "https://v/900.mp4"),
        variant("mp4", 600, "https://v/600.mp4"),
    ];
    assert_eq!(select_variant(&vs), Some(1));
}

#[test]
fn equal_bitrates_keep_the_earlier_variant() {
    let vs = vec![
        variant("mp4", 900, "https://v/first.mp4"),
        variant("mp4", 900, "https://v/second.mp4"),
        variant("mp4", 300, "https://v/300.mp4"),
    ];
    assert_eq!(select_variant(&vs), Some(0));
    let vs = vec![
        variant("mp4", 600, "https://v/600.mp4"),
        variant("mp4", 900, "https://v/first.mp4"),
        variant("mp4", 900, "https://v/second.mp4"),
    ];
    assert_eq!(select_variant(&vs), Some(1));
}

#[test]
fn non_mp4_variants_never_replace_the_selection() {
    let vs = vec![
        variant("mp4", 300, "https://v/300.mp4"),
        variant("webm", 900, "https://v/900.webm"),
    ];
    assert_eq!(select_variant(&vs), Some(0));
}

#[test]
fn an_mp4_variant_is_selected_over_a_higher_bitrate_foreign_format() {
    let vs = vec![
        variant("webm", 900, "https://v/900.webm"),
        variant("mp4", 300, "https://v/300.mp4"),
    ];
    assert_eq!(select_variant(&vs), Some(1));
    let vs = vec![
        variant("webm", 900, "https://v/900.webm"),
        variant("mp4", 300, "https://v/300.mp4"),
        variant("mp4", 600, "https://v/600.mp4"),
    ];
    assert_eq!(select_variant(&vs), Some(2));
}

#[test]
fn without_any_mp4_variant_the_first_stands() {
    let vs = vec![
        variant("webm", 300, "https://v/300.webm"),
        variant("webm", 900, "https://v/900.webm"),
    ];
    assert_eq!(select_variant(&vs), Some(0));
}

#[test]
fn video_media_emits_the_selected_movie_instruction() {
    let items = vec![video_item(vec![
        variant("mp4", 300, "https://v/300.mp4"),
        variant("mp4", 900, "https://v/900.mp4"),
        variant("mp4", 600, "https://v/600.mp4"),
    ])];
    let out = media_instructions(&items);
    assert_eq!(out.len(), 1);
    match &out[0] {
        DownloadInstruction::Movie(subtype, url) => {
            assert_eq!(subtype, "mp4");
            assert_eq!(url, "https://v/900.mp4");
        }
        _ => panic!("expected a movie instruction"),
    }
}

#[test]
fn image_media_emits_the_direct_url_and_empty_variants_emit_nothing() {
    let items = vec![image_item("https://i/a.png"), video_item(Vec::new())];
    let out = media_instructions(&items);
    assert_eq!(out.len(), 1);
    match &out[0] {
        DownloadInstruction::Image(url) => assert_eq!(url, "https://i/a.png"),
        _ => panic!("expected an image instruction"),
    }
}

#[test]
fn tweet_inspection_walks_quote_and_retweet_one_level() {
    let mut t = tweet_with(1, Some(5), vec![image_item("https://i/own.png")]);
    t.quoted = Some(EmbeddedTweet {
        id: 2,
        author_id: Some(6),
        media: vec![image_item("https://i/quoted.png")],
    });
    t.retweeted = Some(EmbeddedTweet {
        id: 3,
        author_id: Some(7),
        media: vec![image_item("https://i/retweeted.png")],
    });
    let out = tweet_instructions(&t);
    let urls: Vec<&str> = out
        .iter()
        .map(|i| match i {
            DownloadInstruction::Image(u) => u.as_str(),
            _ => panic!("expected images"),
        })
        .collect();
    assert_eq!(urls, vec!["https://i/own.png", "https://i/quoted.png", "https://i/retweeted.png"]);
}

#[test]
fn author_fetch_skips_the_owner_and_unresolved_authors() {
    assert_eq!(author_to_fetch(Some(5), 1, true), Some(5));
    assert_eq!(author_to_fetch(Some(1), 1, true), None);
    assert_eq!(author_to_fetch(None, 1, true), None);
    assert_eq!(author_to_fetch(Some(5), 1, false), None);
}

#[test]
fn profile_candidates_cover_the_embedded_slots_and_skip_the_owner() {
    let mut t = tweet_with(1, Some(5), Vec::new());
    t.quoted = Some(EmbeddedTweet { id: 2, author_id: Some(1), media: Vec::new() });
    t.retweeted = Some(EmbeddedTweet { id: 3, author_id: Some(6), media: Vec::new() });
    assert_eq!(profile_candidates(&t, 1, true), vec![5, 6]);
    assert_eq!(profile_candidates(&t, 1, false), Vec::<u64>::new());
}

#[test]
fn reply_search_runs_only_for_the_owners_tweets() {
    let owned = tweet_with(42, Some(1), Vec::new());
    let unresolved = tweet_with(43, None, Vec::new());
    let foreign = tweet_with(44, Some(9), Vec::new());
    assert!(wants_reply_search(&owned, 1, true));
    assert!(wants_reply_search(&unresolved, 1, true));
    assert!(!wants_reply_search(&foreign, 1, true));
    assert!(!wants_reply_search(&owned, 1, false));
}

#[test]
fn the_reply_search_query_addresses_the_owners_handle() {
    assert_eq!(tweet_archiver::inspect::reply_search_query("owner_handle"), "to:owner_handle");
}

#[test]
fn reply_discovery_keeps_exactly_the_matching_replies() {
    let mut r1 = tweet_with(100, Some(2), Vec::new());
    r1.in_reply_to_status_id = Some(42);
    let mut r2 = tweet_with(101, Some(3), Vec::new());
    r2.in_reply_to_status_id = Some(7);
    let mut r3 = tweet_with(102, Some(4), Vec::new());
    r3.in_reply_to_status_id = Some(42);
    let kept = filter_replies(vec![r1.clone(), r2.clone(), r3.clone()], 42);
    let ids: Vec<u64> = kept.iter().map(|t| t.id).collect();
    assert_eq!(ids, vec![100, 102]);

    let mut responses = ReplyMap::new();
    responses.set(7, vec![tweet_with(55, Some(9), Vec::new())]);
    discover_replies(&mut responses, 42, vec![r1, r2, r3]);
    assert_eq!(responses.entries.len(), 2);
    assert_eq!(responses.entries[1].tweet_id, 42);
    let stored: Vec<u64> = responses.entries[1].replies.iter().map(|t| t.id).collect();
    assert_eq!(stored, vec![100, 102]);
    // the reply set stored under the other tweet id is untouched
    assert_eq!(responses.entries[0].tweet_id, 7);
    assert_eq!(responses.entries[0].replies.len(), 1);
    assert_eq!(responses.entries[0].replies[0].id, 55);
}

#[test]
fn caching_a_profile_emits_its_media_in_order_once() {
    let p = Profile {
        id: 5,
        avatar_url: "https://i/avatar.png".to_string(),
        banner_url: Some("https://i/banner.png".to_string()),
        background_url: Some("https://i/background.png".to_string()),
    };
    let mut cache = ProfileCache::new();
    let out = cache_profile(&mut cache, p.clone());
    let urls: Vec<&str> = out
        .iter()
        .map(|i| match i {
            DownloadInstruction::ProfileMedia(u) => u.as_str(),
            _ => panic!("expected profile media"),
        })
        .collect();
    assert_eq!(
        urls,
        vec!["https://i/background.png", "https://i/banner.png", "https://i/avatar.png"]
    );
    let again = cache_profile(&mut cache, p);
    assert!(again.is_empty());
    assert_eq!(cache.entries.len(), 1);
}

#[test]
fn a_page_of_tweets_emits_instructions_in_fetch_order() {
    let page = vec![
        tweet_with(1, Some(2), vec![image_item("https://i/1.png")]),
        tweet_with(2, Some(3), vec![image_item("https://i/2.png"), image_item("https://i/3.png")]),
    ];
    let out = page_instructions(&page);
    let urls: Vec<&str> = out
        .iter()
        .map(|i| match i {
            DownloadInstruction::Image(u) => u.as_str(),
            _ => panic!("expected images"),
        })
        .collect();
    assert_eq!(urls, vec!["https://i/1.png", "https://i/2.png", "https://i/3.png"]);
}

#[test]
fn a_batch_of_profiles_is_cached_with_all_media_emitted() {
    let mut cache = ProfileCache::new();
    let p1 = Profile {
        id: 5,
        avatar_url: "https://i/a5.png".to_string(),
        banner_url: None,
        background_url: None,
    };
    let p2 = Profile {
        id: 6,
        avatar_url: "https://i/a6.png".to_string(),
        banner_url: Some("https://i/b6.png".to_string()),
        background_url: None,
    };
    let out = cache_profiles_batch(&mut cache, vec![p1, p2]);
    let urls: Vec<&str> = out
        .iter()
        .map(|i| match i {
            DownloadInstruction::ProfileMedia(u) => u.as_str(),
            _ => panic!("expected profile media"),
        })
        .collect();
    assert_eq!(urls, vec!["https://i/a5.png", "https://i/b6.png", "https://i/a6.png"]);
    let ids: Vec<u64> = cache.entries.iter().map(|p| p.id).collect();
    assert_eq!(ids, vec![5, 6]);
}

#[test]
fn extension_is_inferred_from_the_url_path() {
    assert_eq!(extension_for_url("https://example.com/a/b.jpg"), "jpg");
    assert_eq!(extension_for_url("https://example.com/pic.png?x=1"), "png");
    assert_eq!(extension_for_url("https://example.com/media/archive.tar.gz"), "gz");
    assert_eq!(extension_for_url("https://example.com/noext"), "png");
    assert_eq!(extension_for_url("https://example.com/"), "png");
    assert_eq!(extension_for_url("not a url"), "png");
}

#[test]
fn known_video_containers_map_to_their_extension() {
    assert_eq!(movie_extension("mp4", "https://v/x.bin"), "mp4");
    assert_eq!(movie_extension("MP4", "https://v/x.bin"), "mp4");
    assert_eq!(movie_extension("avi", "https://v/x.bin"), "avi");
    assert_eq!(movie_extension("3gp", "https://v/x.bin"), "3gp");
    assert_eq!(movie_extension("mov", "https://v/x.bin"), "mov");
    assert_eq!(movie_extension("webm", "https://v/clip.webm"), "webm");
    assert_eq!(movie_extension("webm", "https://v/clip"), "png");
}

#[test]
fn case_insensitive_comparison_is_ascii_only() {
    assert!(eq_ignore_ascii_case("MoV", "mov"));
    assert!(!eq_ignore_ascii_case("mov", "mp4"));
    assert!(!eq_ignore_ascii_case("mov", "movie"));
}

#[test]
fn media_file_names_are_stable_and_carry_the_extension() {
    let a = media_file_name("https://i/a.png", "png");
    let b = media_file_name("https://i/a.png", "png");
    let c = media_file_name("https://i/b.png", "png");
    assert_eq!(a, b);
    assert_ne!(a, c);
    assert!(a.ends_with(".png"));
    let stem = &a[..a.len() - 4];
    assert!(!stem.is_empty());
    assert!(stem.chars().all(|ch| ch.is_ascii_digit()));
}

#[test]
fn planning_skips_urls_already_recorded() {
    let mut map = MediaMap::new();
    map.record("https://i/a.png".to_string(), "old.png".to_string());
    let inst = DownloadInstruction::Image("https://i/a.png".to_string());
    assert!(plan_download(&inst, &map, true).is_none());
    let fresh = DownloadInstruction::Image("https://i/b.png".to_string());
    let planned = plan_download(&fresh, &map, true).expect("a new url is planned");
    assert_eq!(planned.url, "https://i/b.png");
    assert!(planned.file_name.ends_with(".png"));
    assert!(plan_download(&fresh, &map, false).is_none());
}

#[test]
fn the_worker_downloads_each_url_once_and_stops_at_done() {
    let mut map = MediaMap::new();
    let insts = vec![
        DownloadInstruction::Image("https://i/a.png".to_string()),
        DownloadInstruction::Image("https://i/a.png".to_string()),
        DownloadInstruction::Movie("mp4".to_string(), "https://v/clip.mp4".to_string()),
        DownloadInstruction::ProfileMedia("https://i/a.png".to_string()),
        DownloadInstruction::Done,
        DownloadInstruction::Image("https://i/after.png".to_string()),
    ];
    let outcomes = vec![true; insts.len()];
    let performed = run_worker(&insts, &outcomes, &mut map, true);
    let urls: Vec<&str> = performed.iter().map(|p| p.url.as_str()).collect();
    assert_eq!(urls, vec!["https://i/a.png", "https://v/clip.mp4"]);
    assert_eq!(map.entries.len(), 2);
    assert!(performed[1].file_name.ends_with(".mp4"));
}

#[test]
fn a_failed_download_stays_unrecorded_and_is_reattempted() {
    let mut map = MediaMap::new();
    let insts = vec![
        DownloadInstruction::Image("https://i/a.png".to_string()),
        DownloadInstruction::Image("https://i/a.png".to_string()),
        DownloadInstruction::Image("https://i/b.png".to_string()),
        DownloadInstruction::Done,
    ];
    // the first fetch of a.png fails, the retry succeeds, b.png fails
    let outcomes = vec![false, true, false, true];
    let performed = run_worker(&insts, &outcomes, &mut map, true);
    let urls: Vec<&str> = performed.iter().map(|p| p.url.as_str()).collect();
    assert_eq!(urls, vec!["https://i/a.png"]);
    assert_eq!(map.entries.len(), 1);
    assert_eq!(map.entries[0].url, "https://i/a.png");
    // b.png was never recorded, so a later run attempts it again
    let again = run_worker(&insts, &vec![true; insts.len()], &mut map, true);
    let urls: Vec<&str> = again.iter().map(|p| p.url.as_str()).collect();
    assert_eq!(urls, vec!["https://i/b.png"]);
}

#[test]
fn the_worker_with_media_disabled_discards_everything() {
    let mut map = MediaMap::new();
    let insts = vec![
        DownloadInstruction::Image("https://i/a.png".to_string()),
        DownloadInstruction::Done,
    ];
    let performed = run_worker(&insts, &vec![true, true], &mut map, false);
    assert!(performed.is_empty());
    assert!(map.entries.is_empty());
}

#[test]
fn recording_happens_only_on_a_successful_download() {
    let mut map = MediaMap::new();
    let inst = DownloadInstruction::Image("https://i/a.png".to_string());
    let plan = plan_download(&inst, &map, true).expect("fresh url is planned");
    record_download(&mut map, plan, false);
    assert!(map.entries.is_empty());
    let plan = plan_download(&inst, &map, true).expect("still eligible after the failure");
    let name = plan.file_name.clone();
    record_download(&mut map, plan, true);
    assert_eq!(map.entries.len(), 1);
    assert_eq!(map.entries[0].url, "https://i/a.png");
    assert_eq!(map.entries[0].path, name);
    assert!(plan_download(&inst, &map, true).is_none());
}
