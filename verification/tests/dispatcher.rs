use rate_governor::bucket::BucketInfo;
use rate_governor::dispatcher::{Admission, DispatcherCore, Feedback};
use rate_governor::route::{classify, RouteKey};

fn plain_feedback() -> Feedback {
    Feedback {
        remaining: None,
        reset_after_ms: None,
        limit: None,
        is_throttle: false,
        retry_after_ms: None,
        is_global: false,
    }
}

#[test]
fn classify_channel_messages_ignores_query() {
    let k = classify("https://discord.com/api/v9/channels/123/messages?limit=100&before=9");
    assert!(k.key_eq(&RouteKey::ChannelMessages { channel_id: "123".to_string() }));
}

#[test]
fn classify_channel_without_messages() {
    let k = classify("https://discord.com/api/v9/channels/42");
    assert!(k.key_eq(&RouteKey::Channel { channel_id: "42".to_string() }));
}

#[test]
fn classify_guild() {
    let k = classify("https://discord.com/api/v9/guilds/777/channels");
    assert!(k.key_eq(&RouteKey::Guild { guild_id: "777".to_string() }));
}

#[test]
fn classify_relationships() {
    let k = classify("https://discord.com/api/v9/users/@me/relationships/55");
    assert!(k.key_eq(&RouteKey::Relationships));
}

#[test]
fn classify_current_user() {
    let k = classify("https://discord.com/api/v9/users/@me/settings");
    assert!(k.key_eq(&RouteKey::CurrentUser));
}

#[test]
fn classify_unparsable_target_falls_back() {
    let k = classify("not a url at all");
    assert!(k.key_eq(&RouteKey::Fallback));
}

#[test]
fn classify_unknown_shape_falls_back() {
    let k = classify("https://discord.com/api/v9/gateway/bot");
    assert!(k.key_eq(&RouteKey::Fallback));
}

#[test]
fn classify_same_channel_same_bucket() {
    let a = classify("https://discord.com/api/v9/channels/9/messages?limit=100");
    let b = classify("https://discord.com/api/v9/channels/9/messages/111");
    assert!(a.key_eq(&b));
    let c = classify("https://discord.com/api/v9/channels/10/messages");
    assert!(!a.key_eq(&c));
}

#[test]
fn fresh_bucket_admits_immediately() {
    let mut core = DispatcherCore::new();
    let key = RouteKey::Fallback;
    assert_eq!(core.try_admit(&key, 0), Admission::Proceed);
}

#[test]
fn default_bucket_is_optimistic() {
    let b = BucketInfo::default();
    assert_eq!(b.remaining, 1);
    assert_eq!(b.limit, 1);
    assert_eq!(b.reset_at_ms, 0);
    assert_eq!(b.consecutive_throttles, 0);
}

#[test]
fn exhausted_window_waits_until_reset_with_buffer() {
    let mut core = DispatcherCore::new();
    let key = RouteKey::Channel { channel_id: "1".to_string() };
    let fb = Feedback { remaining: Some(0), reset_after_ms: Some(1000), limit: Some(5), ..plain_feedback() };
    core.apply_feedback(&key, &fb, 0);
    assert_eq!(core.try_admit(&key, 10), Admission::WaitBucket { until_ms: 1100 });
    // After the reset instant, the window rolls to the reported limit.
    assert_eq!(core.try_admit(&key, 1000), Admission::Proceed);
}

#[test]
fn limit_two_window_admits_exactly_two() {
    // A bucket with limit=2 and five pending requests: two proceed inside the
    // window, the rest must wait until at least the reset instant.
    let mut core = DispatcherCore::new();
    let key = RouteKey::ChannelMessages { channel_id: "c".to_string() };
    let fb = Feedback { remaining: Some(2), reset_after_ms: Some(1000), limit: Some(2), ..plain_feedback() };
    core.apply_feedback(&key, &fb, 0);
    assert_eq!(core.try_admit(&key, 1), Admission::Proceed);
    assert_eq!(core.try_admit(&key, 2), Admission::Proceed);
    // Requests three to five, still inside the window, all wait past the reset.
    for now in [3u64, 4, 5] {
        match core.try_admit(&key, now) {
            Admission::WaitBucket { until_ms } => assert!(until_ms >= 1000),
            other => panic!("request at {} was not made to wait: {:?}", now, other),
        }
    }
    // Once the window has reset, requests flow again, and the server's next
    // feedback re-establishes the window.
    assert_eq!(core.try_admit(&key, 1100), Admission::Proceed);
    let fb2 = Feedback { remaining: Some(1), reset_after_ms: Some(1000), limit: Some(2), ..plain_feedback() };
    core.apply_feedback(&key, &fb2, 1100);
    assert_eq!(core.try_admit(&key, 1105), Admission::Proceed);
    match core.try_admit(&key, 1106) {
        Admission::WaitBucket { until_ms } => assert!(until_ms >= 2100),
        other => panic!("third request in second window proceeded: {:?}", other),
    }
}

#[test]
fn route_throttle_shuts_only_its_bucket() {
    let mut core = DispatcherCore::new();
    let hot = RouteKey::Channel { channel_id: "hot".to_string() };
    let cold = RouteKey::Channel { channel_id: "cold".to_string() };
    let fb = Feedback { is_throttle: true, retry_after_ms: Some(2000), ..plain_feedback() };
    core.apply_feedback(&hot, &fb, 0);
    let b = core.bucket_snapshot(&hot).unwrap();
    assert_eq!(b.remaining, 0);
    assert!(b.reset_at_ms >= 2000);
    assert_eq!(core.try_admit(&hot, 100), Admission::WaitBucket { until_ms: b.reset_at_ms + 100 });
    // The other bucket is unaffected.
    assert_eq!(core.try_admit(&cold, 100), Admission::Proceed);
    assert_eq!(core.global_not_before(), 0);
}

#[test]
fn global_throttle_blocks_every_bucket() {
    let mut core = DispatcherCore::new();
    let key = RouteKey::Relationships;
    let fb = Feedback { is_throttle: true, retry_after_ms: Some(500), is_global: true, ..plain_feedback() };
    core.apply_feedback(&key, &fb, 100);
    assert_eq!(core.global_not_before(), 600);
    // The throttled route and a route never seen before are both blocked.
    assert_eq!(core.try_admit(&key, 300), Admission::WaitGlobal { until_ms: 600 });
    let fresh = RouteKey::Guild { guild_id: "g".to_string() };
    assert_eq!(core.try_admit(&fresh, 599), Admission::WaitGlobal { until_ms: 600 });
    // Once the deadline passes, requests flow again.
    assert_eq!(core.try_admit(&fresh, 600), Admission::Proceed);
}

#[test]
fn consecutive_throttles_count_up_and_reset() {
    let mut core = DispatcherCore::new();
    let key = RouteKey::CurrentUser;
    let throttle = Feedback { is_throttle: true, retry_after_ms: Some(100), ..plain_feedback() };
    core.apply_feedback(&key, &throttle, 0);
    assert_eq!(core.bucket_snapshot(&key).unwrap().consecutive_throttles, 1);
    core.apply_feedback(&key, &throttle, 200);
    assert_eq!(core.bucket_snapshot(&key).unwrap().consecutive_throttles, 2);
    core.apply_feedback(&key, &throttle, 400);
    assert_eq!(core.bucket_snapshot(&key).unwrap().consecutive_throttles, 3);
    core.apply_feedback(&key, &plain_feedback(), 600);
    assert_eq!(core.bucket_snapshot(&key).unwrap().consecutive_throttles, 0);
}

#[test]
fn repeated_throttles_add_exponential_penalty() {
    let mut core = DispatcherCore::new();
    let key = RouteKey::Fallback;
    let throttle = Feedback { is_throttle: true, retry_after_ms: Some(1000), ..plain_feedback() };
    core.apply_feedback(&key, &throttle, 0);
    // First throttle: no penalty yet.
    assert_eq!(core.bucket_snapshot(&key).unwrap().reset_at_ms, 1000);
    core.apply_feedback(&key, &throttle, 0);
    // Second throttle in a row: retry-after plus 2^2 seconds.
    assert_eq!(core.bucket_snapshot(&key).unwrap().reset_at_ms, 1000 + 4000);
    core.apply_feedback(&key, &throttle, 0);
    assert_eq!(core.bucket_snapshot(&key).unwrap().reset_at_ms, 1000 + 8000);
}

#[test]
fn throttle_without_retry_after_uses_default() {
    let mut core = DispatcherCore::new();
    let key = RouteKey::Fallback;
    let throttle = Feedback { is_throttle: true, ..plain_feedback() };
    core.apply_feedback(&key, &throttle, 0);
    assert_eq!(core.bucket_snapshot(&key).unwrap().reset_at_ms, 1000);
}

#[test]
fn feedback_headers_overwrite_bucket_fields() {
    let mut core = DispatcherCore::new();
    let key = RouteKey::Fallback;
    let fb = Feedback { remaining: Some(7), reset_after_ms: Some(300), limit: Some(9), ..plain_feedback() };
    core.apply_feedback(&key, &fb, 50);
    let b = core.bucket_snapshot(&key).unwrap();
    assert_eq!(b.remaining, 7);
    assert_eq!(b.reset_at_ms, 350);
    assert_eq!(b.limit, 9);
}

#[test]
fn snapshot_of_unseen_route_is_none() {
    let core = DispatcherCore::new();
    assert!(core.bucket_snapshot(&RouteKey::Relationships).is_none());
}
