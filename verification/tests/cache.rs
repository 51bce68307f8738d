use up_linux_streamer::cache::{record_from, RefreshReport, SubscriptionCache};
use up_linux_streamer::static_file::{FileRead, USubscriptionStaticFile};
use up_linux_streamer::status::{Code, Status};
use up_linux_streamer::subscription::{
    EventDeliveryConfig, FetchSubscriptionsResponse, SubscribeAttributes, SubscriberInfo,
    Subscription, SubscriptionInformation, SubscriptionState, SubscriptionStatus,
};
use up_linux_streamer::uri::{TopicNormalization, Uri};

fn addr(authority: &str, ue_id: u32, resource: u32) -> Uri {
    Uri { authority_name: authority.to_string(), ue_id, ue_version_major: 1, resource_id: resource }
}

fn record(topic: Uri, subscriber: Uri, state: SubscriptionState) -> SubscriptionInformation {
    SubscriptionInformation {
        topic,
        subscriber: SubscriberInfo { uri: subscriber },
        status: SubscriptionStatus { state, message: String::new() },
        attributes: SubscribeAttributes::default(),
        config: EventDeliveryConfig::default(),
    }
}

fn uris(mut found: Vec<SubscriberInfo>) -> Vec<String> {
    let mut names: Vec<String> = found.drain(..).map(|s| s.uri.authority_name).collect();
    names.sort();
    names
}

fn file_source() -> USubscriptionStaticFile {
    USubscriptionStaticFile::with_normalization("subscriptions.json".to_string(), TopicNormalization::Keep)
}

#[test]
fn an_empty_cache_knows_nobody() {
    let cache = SubscriptionCache::empty();
    assert_eq!(cache.len(), 0);
    assert!(cache.fetch(&addr("t", 1, 0x8001)).is_empty());
    assert!(!cache.has_subscribers(&addr("t", 1, 0x8001)));
    assert!(cache.fetch_cache().is_empty());
    assert!(cache.fetch_cache_entry("anything".to_string()).is_none());
}

#[test]
fn defaults_are_unset() {
    let status = SubscriptionStatus::default();
    assert_eq!(status.state, SubscriptionState::Unsubscribed);
    assert_eq!(status.message, "");
    assert_eq!(SubscriptionStatus::subscribed().state, SubscriptionState::Subscribed);
    assert_eq!(SubscribeAttributes::default(), SubscribeAttributes { expire: None, sample_period_ms: None });
    let config = EventDeliveryConfig::default();
    assert_eq!(config.id, "");
    assert_eq!(config.delivery_type, "");
}

#[test]
fn record_from_needs_a_topic_and_a_subscriber() {
    let full = Subscription::declared(addr("t", 1, 1), addr("s", 2, 0));
    let made = record_from(&full).expect("topic and subscriber are there");
    assert_eq!(made.topic, addr("t", 1, 1));
    assert_eq!(made.subscriber.uri, addr("s", 2, 0));
    assert_eq!(made.status.state, SubscriptionState::Subscribed);
    assert_eq!(made.attributes, SubscribeAttributes::default());

    let mut without_topic = full.clone();
    without_topic.topic = None;
    assert!(record_from(&without_topic).is_none());
    let mut without_subscriber = full.clone();
    without_subscriber.subscriber = None;
    assert!(record_from(&without_subscriber).is_none());

    let bare = Subscription {
        topic: Some(addr("t", 1, 1)),
        subscriber: Some(SubscriberInfo { uri: addr("s", 2, 0) }),
        status: None,
        attributes: Some(SubscribeAttributes { expire: Some(9), sample_period_ms: Some(20) }),
        config: Some(EventDeliveryConfig { id: "i".to_string(), delivery_type: "k".to_string() }),
    };
    let made = record_from(&bare).unwrap();
    assert_eq!(made.status.state, SubscriptionState::Unsubscribed);
    assert_eq!(made.attributes.sample_period_ms, Some(20));
    assert_eq!(made.attributes.expire, Some(9));
    assert_eq!(made.config.id, "i");
    assert_eq!(made.config.delivery_type, "k");
}

#[test]
fn new_holds_what_the_response_reports() {
    let response = FetchSubscriptionsResponse {
        subscriptions: vec![
            Subscription::declared(addr("t", 1, 1), addr("a", 2, 0)),
            Subscription::declared(addr("t", 1, 1), addr("b", 3, 0)),
            Subscription { topic: None, subscriber: None, status: None, attributes: None, config: None },
            Subscription::declared(addr("u", 1, 1), addr("a", 2, 0)),
            Subscription::declared(addr("t", 1, 1), addr("a", 2, 0)),
        ],
    };
    let cache = SubscriptionCache::new(response);
    assert_eq!(cache.len(), 3);
    assert_eq!(uris(cache.fetch(&addr("t", 1, 1))), vec!["a", "b"]);
    assert_eq!(uris(cache.fetch(&addr("u", 1, 1))), vec!["a"]);
    assert!(cache.fetch(&addr("t", 1, 2)).is_empty());
    assert!(cache.has_subscribers(&addr("u", 1, 1)));
    assert!(!cache.has_subscribers(&addr("v", 1, 1)));
}

#[test]
fn of_two_reports_for_one_pair_the_later_stays() {
    let mut first = Subscription::declared(addr("t", 1, 1), addr("a", 2, 0));
    first.status = Some(SubscriptionStatus { state: SubscriptionState::SubscribePending, message: "one".to_string() });
    let mut second = Subscription::declared(addr("t", 1, 1), addr("a", 2, 0));
    second.status = Some(SubscriptionStatus { state: SubscriptionState::UnsubscribePending, message: "two".to_string() });
    let cache = SubscriptionCache::new(FetchSubscriptionsResponse { subscriptions: vec![first, second] });
    let all = cache.fetch_cache();
    assert_eq!(all.len(), 1);
    assert_eq!(all[0].status.state, SubscriptionState::UnsubscribePending);
    assert_eq!(all[0].status.message, "two");
}

#[test]
fn upsert_replaces_and_remove_forgets() {
    let mut cache = SubscriptionCache::empty();
    let topic = addr("t", 1, 0x8001);
    cache.upsert(topic.clone(), record(topic.clone(), addr("a", 2, 0), SubscriptionState::SubscribePending));
    cache.upsert(topic.clone(), record(topic.clone(), addr("b", 3, 0), SubscriptionState::Subscribed));
    cache.upsert(topic.clone(), record(topic.clone(), addr("a", 2, 0), SubscriptionState::Subscribed));
    assert_eq!(cache.len(), 2);
    assert_eq!(uris(cache.fetch(&topic)), vec!["a", "b"]);
    let all = cache.fetch_cache();
    let a = all.iter().find(|r| r.subscriber.uri == addr("a", 2, 0)).unwrap();
    assert_eq!(a.status.state, SubscriptionState::Subscribed);
    let b = cache.record(&topic, &addr("b", 3, 0)).expect("b subscribed");
    assert_eq!(b.subscriber.uri, addr("b", 3, 0));
    assert_eq!(b.topic, topic);
    assert!(cache.record(&topic, &addr("c", 4, 0)).is_none());
    assert!(cache.record(&addr("other", 1, 0x8001), &addr("b", 3, 0)).is_none());

    assert!(cache.remove(&topic, &addr("a", 2, 0)));
    assert!(!cache.remove(&topic, &addr("a", 2, 0)));
    assert!(!cache.remove(&addr("other", 1, 0x8001), &addr("b", 3, 0)));
    assert_eq!(uris(cache.fetch(&topic)), vec!["b"]);
    assert!(cache.remove(&topic, &addr("b", 3, 0)));
    assert!(cache.fetch(&topic).is_empty());
    assert_eq!(cache.len(), 0);
}

#[test]
fn upsert_files_the_record_under_the_topic_given() {
    let mut cache = SubscriptionCache::empty();
    cache.upsert(addr("t", 1, 1), record(addr("elsewhere", 9, 9), addr("a", 2, 0), SubscriptionState::Subscribed));
    assert_eq!(uris(cache.fetch(&addr("t", 1, 1))), vec!["a"]);
    assert!(cache.fetch(&addr("elsewhere", 9, 9)).is_empty());
    assert_eq!(cache.fetch_cache()[0].topic, addr("t", 1, 1));
}

#[test]
fn records_compare_by_subscriber_alone() {
    let one = record(addr("t", 1, 1), addr("a", 2, 0), SubscriptionState::Subscribed);
    let other = record(addr("u", 5, 5), addr("a", 2, 0), SubscriptionState::Unsubscribed);
    assert!(one == other);
    assert!(one != record(addr("t", 1, 1), addr("b", 2, 0), SubscriptionState::Subscribed));
    let copy = one.clone();
    assert_eq!(copy.topic, one.topic);
    assert_eq!(copy.status.state, one.status.state);
    assert!(SubscriberInfo { uri: addr("a", 2, 0) } == SubscriberInfo { uri: addr("a", 2, 0) });
}

#[test]
fn fetch_cache_entry_selects_by_subscriber_authority() {
    let mut cache = SubscriptionCache::empty();
    cache.upsert(addr("t", 1, 1), record(addr("t", 1, 1), addr("linux", 2, 0), SubscriptionState::Subscribed));
    cache.upsert(addr("u", 1, 1), record(addr("u", 1, 1), addr("linux", 2, 0), SubscriptionState::Subscribed));
    cache.upsert(addr("t", 1, 1), record(addr("t", 1, 1), addr("me", 3, 0), SubscriptionState::Subscribed));
    let linux = cache.fetch_cache_entry("linux".to_string()).expect("two records");
    let mut topics: Vec<String> = linux.iter().map(|r| r.topic.authority_name.clone()).collect();
    topics.sort();
    assert_eq!(topics, vec!["t", "u"]);
    assert!(linux.iter().all(|r| r.subscriber.uri.authority_name == "linux"));
    assert_eq!(cache.fetch_cache_entry("me".to_string()).unwrap().len(), 1);
    assert!(cache.fetch_cache_entry("nobody".to_string()).is_none());
    assert_eq!(cache.fetch_cache().len(), 3);
}

#[test]
fn refresh_replaces_everything() {
    let mut cache = SubscriptionCache::empty();
    cache.upsert(addr("old", 1, 1), record(addr("old", 1, 1), addr("a", 2, 0), SubscriptionState::Subscribed));
    let response = FetchSubscriptionsResponse {
        subscriptions: vec![
            Subscription::declared(addr("new", 1, 1), addr("b", 3, 0)),
            Subscription { topic: Some(addr("new", 1, 1)), subscriber: None, status: None, attributes: None, config: None },
        ],
    };
    let report = cache.refresh(Ok(response)).expect("the source answered");
    assert_eq!(report, RefreshReport { records: 1, skipped: 1 });
    assert!(cache.fetch(&addr("old", 1, 1)).is_empty());
    assert_eq!(uris(cache.fetch(&addr("new", 1, 1))), vec!["b"]);
}

#[test]
fn a_failed_source_leaves_the_cache_as_it_was() {
    let mut cache = SubscriptionCache::empty();
    cache.upsert(addr("t", 1, 1), record(addr("t", 1, 1), addr("a", 2, 0), SubscriptionState::Subscribed));
    let failure = Status::fail_with_code(Code::Unavailable, "later".to_string());
    let status = cache.refresh(Err(failure)).unwrap_err();
    assert_eq!(status.code, Code::Unavailable);
    assert_eq!(status.message, "later");
    assert_eq!(uris(cache.fetch(&addr("t", 1, 1))), vec!["a"]);
}

#[test]
fn fetch_after_refresh_gives_the_declared_set_without_duplicates() {
    let text = r#"{
        "//t/1/1/8001": ["//a/2/1/0", "//b/3/1/0", "//a/2/1/0", "//a/2/1/0"],
        "//u/1/1/8001": ["//c/4/1/0"],
        "up://t/1/1/8001": ["//d/5/1/0"]
    }"#;
    let mut cache = SubscriptionCache::empty();
    let report = cache.refresh_from_file(&file_source(), FileRead::Contents(text.to_string())).unwrap();
    assert_eq!(report.skipped, 0);
    assert_eq!(report.records, 4);
    assert_eq!(uris(cache.fetch(&addr("t", 1, 0x8001))), vec!["a", "b", "d"]);
    assert_eq!(uris(cache.fetch(&addr("u", 1, 0x8001))), vec!["c"]);
    assert!(cache.fetch(&addr("v", 1, 0x8001)).is_empty());
}

#[test]
fn malformed_json_fails_the_refresh_and_keeps_the_contents() {
    let mut cache = SubscriptionCache::empty();
    cache
        .refresh_from_file(&file_source(), FileRead::Contents(r#"{"//t/1/1/8001": ["//a/2/1/0"]}"#.to_string()))
        .unwrap();
    let status = cache
        .refresh_from_file(&file_source(), FileRead::Contents("{\"//t/1/1/8001\": [".to_string()))
        .unwrap_err();
    assert_eq!(status.code, Code::InvalidArgument);
    assert_eq!(uris(cache.fetch(&addr("t", 1, 0x8001))), vec!["a"]);
    assert_eq!(cache.len(), 1);

    let missing = cache.refresh_from_file(&file_source(), FileRead::NotFound("gone".to_string())).unwrap_err();
    assert_eq!(missing.code, Code::NotFound);
    let unreadable = cache.refresh_from_file(&file_source(), FileRead::Unreadable("io".to_string())).unwrap_err();
    assert_eq!(unreadable.code, Code::Internal);
    assert_eq!(cache.len(), 1);
}
