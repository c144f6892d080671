use rate_governor::types::{dm_channel_name, filter_guild_channels, keep_dm_channel, Channel};
use rate_governor::workflow::{
    contains_substring, matches_query, message_action, message_timestamp_ms, token_user_prefix,
    webhook_owned_by, MessageAction, MessageMeta, PurgeFilter,
};

fn message(content: &str, timestamp_ms: u64, has_attachments: bool) -> MessageMeta {
    MessageMeta {
        id: "m".to_string(),
        content: content.to_string(),
        timestamp_ms,
        has_attachments,
    }
}

fn no_filter() -> PurgeFilter {
    PurgeFilter { start_time_ms: None, end_time_ms: None, search_query: None, only_attachments: false }
}

#[test]
fn substring_search_finds_inner_match() {
    assert!(contains_substring("hello world", "lo wo"));
    assert!(contains_substring("hello", "hello"));
    assert!(contains_substring("hello", ""));
    assert!(!contains_substring("hello", "world"));
    assert!(!contains_substring("hi", "hello"));
}

#[test]
fn query_match_is_case_insensitive() {
    assert!(matches_query("Hello World", Some("world")));
    assert!(matches_query("HELLO", Some("hello")));
    assert!(!matches_query("Hello World", Some("mars")));
    assert!(matches_query("anything", None));
}

#[test]
fn rfc3339_timestamps_become_unix_milliseconds() {
    assert_eq!(message_timestamp_ms("2023-01-01T00:00:00Z"), 1672531200000);
    assert_eq!(message_timestamp_ms("2023-01-01T00:00:00.500+00:00"), 1672531200500);
    assert_eq!(message_timestamp_ms("not a timestamp"), 0);
}

#[test]
fn purge_deletes_matching_message() {
    let f = PurgeFilter { search_query: Some("secret".to_string()), ..no_filter() };
    assert_eq!(message_action(&message("My Secret plan", 100, false), &f, true), MessageAction::Delete);
    assert_eq!(message_action(&message("nothing here", 100, false), &f, true), MessageAction::Skip);
}

#[test]
fn purge_without_filters_deletes_everything() {
    assert_eq!(message_action(&message("x", 5, false), &no_filter(), true), MessageAction::Delete);
}

#[test]
fn message_before_window_stops_channel_when_pages_remain() {
    let f = PurgeFilter { start_time_ms: Some(1000), ..no_filter() };
    assert_eq!(message_action(&message("x", 999, false), &f, true), MessageAction::StopChannel);
    assert_eq!(message_action(&message("x", 999, false), &f, false), MessageAction::Skip);
    assert_eq!(message_action(&message("x", 1000, false), &f, true), MessageAction::Delete);
}

#[test]
fn message_after_window_is_skipped() {
    let f = PurgeFilter { end_time_ms: Some(1000), ..no_filter() };
    assert_eq!(message_action(&message("x", 1001, false), &f, true), MessageAction::Skip);
    assert_eq!(message_action(&message("x", 1000, false), &f, true), MessageAction::Delete);
}

#[test]
fn attachment_filter_skips_bare_messages() {
    let f = PurgeFilter { only_attachments: true, ..no_filter() };
    assert_eq!(message_action(&message("x", 1, false), &f, true), MessageAction::Skip);
    assert_eq!(message_action(&message("x", 1, true), &f, true), MessageAction::Delete);
}

#[test]
fn token_prefix_ends_at_first_dot() {
    assert_eq!(token_user_prefix("abc.def.ghi"), "abc");
    assert_eq!(token_user_prefix("nodots"), "nodots");
    assert_eq!(token_user_prefix(".starts"), "");
}

#[test]
fn webhook_ownership_compares_creator_to_token_prefix() {
    assert!(webhook_owned_by("abc", "abc.def.ghi"));
    assert!(!webhook_owned_by("xyz", "abc.def.ghi"));
}

#[test]
fn guild_channel_filter_keeps_text_and_threads() {
    let chans = vec![
        Channel { id: "1".to_string(), name: None, channel_type: 0 },
        Channel { id: "2".to_string(), name: None, channel_type: 2 },
        Channel { id: "3".to_string(), name: None, channel_type: 11 },
        Channel { id: "4".to_string(), name: None, channel_type: 12 },
        Channel { id: "5".to_string(), name: None, channel_type: 4 },
    ];
    let kept = filter_guild_channels(&chans);
    let ids: Vec<&str> = kept.iter().map(|c| c.id.as_str()).collect();
    assert_eq!(ids, ["1", "3", "4"]);
}

#[test]
fn dm_channels_keep_direct_and_group_kinds() {
    assert!(keep_dm_channel(1));
    assert!(keep_dm_channel(3));
    assert!(!keep_dm_channel(0));
    assert!(!keep_dm_channel(2));
}

#[test]
fn dm_names_follow_recipients() {
    assert_eq!(dm_channel_name(1, Some("alice"), None), Some("DM with alice".to_string()));
    assert_eq!(dm_channel_name(1, None, None), None);
    assert_eq!(dm_channel_name(3, None, Some("friends".to_string())), Some("friends".to_string()));
    assert_eq!(dm_channel_name(3, None, None), Some("Unnamed Group DM".to_string()));
}
