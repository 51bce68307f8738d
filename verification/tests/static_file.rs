use up_linux_streamer::json::Json;
use up_linux_streamer::static_file::{
    holds_uri, rejected_in_member, spelled_by, subscribers_of_member, FileRead, Rejections,
    USubscriptionStaticFile,
};
use up_linux_streamer::status::Code;
use up_linux_streamer::subscription::SubscriptionState;
use up_linux_streamer::uri::{TopicNormalization, Uri, NOTIFICATION_RESOURCE_ID};

fn uri(authority: &str, ue_id: u32, version: u32, resource: u32) -> Uri {
    Uri {
        authority_name: authority.to_string(),
        ue_id,
        ue_version_major: version,
        resource_id: resource,
    }
}

fn contents(text: &str) -> FileRead {
    FileRead::Contents(text.to_string())
}

fn source() -> USubscriptionStaticFile {
    USubscriptionStaticFile::new("static-configs/testdata.json".to_string())
}

fn keeping() -> USubscriptionStaticFile {
    USubscriptionStaticFile::with_normalization(
        "static-configs/testdata.json".to_string(),
        TopicNormalization::Keep,
    )
}

#[test]
fn uri_parse_reads_the_four_fields() {
    let parsed = Uri::parse("//topic_authority/1236/1/8001").expect("a well-formed address");
    assert_eq!(parsed.authority_name, "topic_authority");
    assert_eq!(parsed.ue_id, 0x1236);
    assert_eq!(parsed.ue_version_major, 1);
    assert_eq!(parsed.resource_id, 0x8001);
}

#[test]
fn uri_parse_takes_the_scheme_and_a_missing_authority() {
    assert_eq!(Uri::parse("up://vin.vehicles/A8000/2/1A50"), Some(uri("vin.vehicles", 0xA8000, 2, 0x1A50)));
    assert_eq!(Uri::parse("/1A8000/2/1A50"), Some(uri("", 0x1A8000, 2, 0x1A50)));
}

#[test]
fn uri_parse_rejects_what_is_no_address() {
    assert_eq!(Uri::parse(""), None);
    assert_eq!(Uri::parse("not a uri"), None);
    assert_eq!(Uri::parse("//authority/1236/1"), None);
    assert_eq!(Uri::parse("//authority/1236/1/8001/7"), None);
    assert_eq!(Uri::parse("//authority/xyz/1/8001"), None);
    assert_eq!(Uri::parse("//authority/1236/100/8001"), None);
    assert_eq!(Uri::parse("//authority/1236/1/10000"), None);
    assert_eq!(Uri::parse("http://authority/1236/1/8001"), None);
    assert_eq!(Uri::parse("//authority/1236/1/8001?x=1"), None);
}

#[test]
fn uri_equality_is_by_all_four_fields() {
    let a = uri("a", 1, 2, 3);
    assert!(a.same(&uri("a", 1, 2, 3)));
    assert!(a == uri("a", 1, 2, 3));
    assert!(!a.same(&uri("b", 1, 2, 3)));
    assert!(!a.same(&uri("a", 9, 2, 3)));
    assert!(!a.same(&uri("a", 1, 9, 3)));
    assert!(a != uri("a", 1, 2, 9));
    assert_eq!(a.clone(), a);
}

#[test]
fn normalization_replaces_only_the_resource_id() {
    assert_eq!(NOTIFICATION_RESOURCE_ID, 0x8001);
    assert_eq!(TopicNormalization::notification(), TopicNormalization::ResourceId(0x8001));
    assert_eq!(TopicNormalization::notification().normalize(uri("a", 1, 2, 3)), uri("a", 1, 2, 0x8001));
    assert_eq!(TopicNormalization::ResourceId(7).normalize(uri("a", 1, 2, 3)), uri("a", 1, 2, 7));
    assert_eq!(TopicNormalization::Keep.normalize(uri("a", 1, 2, 3)), uri("a", 1, 2, 3));
}

#[test]
fn json_parse_keeps_structure() {
    let document = Json::parse("doc", r#"{"a": [1, "x", null, true, {"b": []}], "c": "d"}"#).expect("valid JSON");
    match document {
        Json::Object(members) => {
            assert_eq!(members.len(), 2);
            assert_eq!(members[0].0, "a");
            match &members[0].1 {
                Json::Array(elements) => {
                    assert_eq!(elements.len(), 5);
                    assert!(matches!(&elements[0], Json::Number(n) if n == "1"));
                    assert!(matches!(&elements[1], Json::Text(t) if t == "x"));
                    assert!(matches!(&elements[2], Json::Null));
                    assert!(matches!(&elements[3], Json::Bool(true)));
                    assert!(matches!(&elements[4], Json::Object(inner) if inner.len() == 1));
                }
                other => panic!("expected an array, found {other:?}"),
            }
            assert_eq!(members[1].0, "c");
            assert!(matches!(&members[1].1, Json::Text(t) if t == "d"));
        }
        other => panic!("expected an object, found {other:?}"),
    }
}

#[test]
fn json_parse_failure_is_an_invalid_argument_that_names_the_document() {
    let status = Json::parse("subscriptions.json", "{ not json").expect_err("malformed JSON");
    assert_eq!(status.code, Code::InvalidArgument);
    assert_eq!(status.get_code(), Code::InvalidArgument);
    assert!(status.message.starts_with("Unable to parse JSON in subscriptions.json: "));
    assert_eq!(status.get_message(), status.message);
}

#[test]
fn json_get_finds_the_member() {
    let document = Json::parse("doc", r#"{"a": 1, "b": "two"}"#).unwrap();
    assert!(matches!(document.get("b"), Some(Json::Text(t)) if t == "two"));
    assert!(matches!(document.get("a"), Some(Json::Number(n)) if n == "1"));
    assert!(document.get("c").is_none());
    assert!(Json::Array(vec![]).get("a").is_none());
}

#[test]
fn new_keeps_the_path_and_normalizes_to_the_notification_resource() {
    let source = USubscriptionStaticFile::new("some/file.json".to_string());
    assert_eq!(source.static_file(), "some/file.json");
    assert_eq!(source.normalization(), TopicNormalization::ResourceId(0x8001));
    assert_eq!(keeping().normalization(), TopicNormalization::Keep);
    let default = USubscriptionStaticFile::default();
    assert_eq!(default.static_file(), "static-configs/testdata.json");
    assert_eq!(default.static_file(), up_linux_streamer::static_file::DEFAULT_STATIC_FILE);
    assert_eq!(default.normalization(), TopicNormalization::ResourceId(0x8001));
}

#[test]
fn subscriptions_of_the_documented_file() {
    let text = r#"{
  "//topic_authority/1236/1/8001": [
    "//subscriber_authority/1234/1/0"
  ]
}"#;
    let response = source().fetch_subscriptions(contents(text)).expect("a well-formed file");
    assert_eq!(response.subscriptions.len(), 1);
    let subscription = &response.subscriptions[0];
    assert_eq!(subscription.topic, Some(uri("topic_authority", 0x1236, 1, 0x8001)));
    assert_eq!(
        subscription.subscriber.as_ref().map(|s| s.uri.clone()),
        Some(uri("subscriber_authority", 0x1234, 1, 0))
    );
    assert_eq!(subscription.status.as_ref().map(|s| s.state), Some(SubscriptionState::Subscribed));
    assert_eq!(subscription.status.as_ref().map(|s| s.message.clone()), Some(String::new()));
    assert!(subscription.attributes.is_none());
    assert!(subscription.config.is_none());
}

#[test]
fn topics_are_mapped_onto_the_notification_resource_unless_kept() {
    let text = r#"{"//t/1/1/1234": ["//s/1/1/0"]}"#;
    let normalized = source().fetch_subscriptions(contents(text)).unwrap();
    assert_eq!(normalized.subscriptions[0].topic, Some(uri("t", 1, 1, 0x8001)));
    let kept = keeping().fetch_subscriptions(contents(text)).unwrap();
    assert_eq!(kept.subscriptions[0].topic, Some(uri("t", 1, 1, 0x1234)));
}

#[test]
fn malformed_keys_and_elements_are_left_out_one_by_one() {
    let text = r#"{
        "//a/1/1/8001": ["//s1/1/1/0", "garbage here", 17, null, "//s2/2/1/0"],
        "no topic": ["//s3/3/1/0"],
        "//b/2/1/8001": "not an array",
        "//c/3/1/8001": ["//s4/4/1/0"]
    }"#;
    let response = keeping().fetch_subscriptions(contents(text)).unwrap();
    let pairs: Vec<(Uri, Uri)> = response
        .subscriptions
        .iter()
        .map(|s| (s.topic.clone().unwrap(), s.subscriber.clone().unwrap().uri))
        .collect();
    assert_eq!(
        pairs,
        vec![
            (uri("a", 1, 1, 0x8001), uri("s1", 1, 1, 0)),
            (uri("a", 1, 1, 0x8001), uri("s2", 2, 1, 0)),
            (uri("c", 3, 1, 0x8001), uri("s4", 4, 1, 0)),
        ]
    );
}

#[test]
fn a_repeated_subscriber_is_declared_once() {
    let text = r#"{"//a/1/1/8001": ["//s/1/1/0", "//r/2/1/0", "//s/1/1/0", "up://s/1/1/0"]}"#;
    let response = source().fetch_subscriptions(contents(text)).unwrap();
    let subscribers: Vec<Uri> =
        response.subscriptions.iter().map(|s| s.subscriber.clone().unwrap().uri).collect();
    assert_eq!(subscribers, vec![uri("s", 1, 1, 0), uri("r", 2, 1, 0)]);
}

#[test]
fn a_document_that_is_no_object_declares_nothing() {
    assert!(source().fetch_subscriptions(contents("[]")).unwrap().subscriptions.is_empty());
    assert!(source().fetch_subscriptions(contents("\"text\"")).unwrap().subscriptions.is_empty());
    assert!(source().fetch_subscriptions(contents("{}")).unwrap().subscriptions.is_empty());
    assert!(source().subscriptions_in(&Json::Null).subscriptions.is_empty());
    assert!(source().subscribers_in(&Json::Bool(true)).is_empty());
}

#[test]
fn subscriptions_in_works_on_a_document_built_by_hand() {
    let document = Json::Object(vec![
        (
            "//a/1/1/5".to_string(),
            Json::Array(vec![Json::Text("//s/1/1/0".to_string()), Json::Number("3".to_string())]),
        ),
        ("//b/1/1/5".to_string(), Json::Null),
    ]);
    let response = source().subscriptions_in(&document);
    assert_eq!(response.subscriptions.len(), 1);
    assert_eq!(response.subscriptions[0].topic, Some(uri("a", 1, 1, 0x8001)));
}

#[test]
fn each_failed_read_has_its_code() {
    let missing = source().fetch_subscriptions(FileRead::NotFound("No such file".to_string())).unwrap_err();
    assert_eq!(missing.code, Code::NotFound);
    assert_eq!(
        missing.message,
        "Static subscription file not found: static-configs/testdata.json: No such file"
    );
    let unreadable = source().fetch_subscriptions(FileRead::Unreadable("denied".to_string())).unwrap_err();
    assert_eq!(unreadable.code, Code::Internal);
    assert_eq!(unreadable.message, "Unable to read file: static-configs/testdata.json: denied");
    let malformed = source().fetch_subscriptions(contents("{\"a\": [")).unwrap_err();
    assert_eq!(malformed.code, Code::InvalidArgument);
    assert!(malformed.message.starts_with("Unable to parse JSON in static-configs/testdata.json: "));
}

#[test]
fn read_document_hands_the_document_out() {
    let document = source().read_document(contents("{\"k\": []}")).unwrap();
    assert!(matches!(document, Json::Object(ref members) if members.len() == 1));
    assert_eq!(source().read_document(contents("nope")).unwrap_err().code, Code::InvalidArgument);
}

#[test]
fn subscribers_of_member_keeps_first_occurrences() {
    let value = Json::Array(vec![
        Json::Text("//b/2/1/0".to_string()),
        Json::Text("//a/1/1/0".to_string()),
        Json::Text("//b/2/1/0".to_string()),
        Json::Bool(false),
        Json::Text("??".to_string()),
    ]);
    assert_eq!(subscribers_of_member(&value), vec![uri("b", 2, 1, 0), uri("a", 1, 1, 0)]);
    assert!(subscribers_of_member(&Json::Text("//a/1/1/0".to_string())).is_empty());
    assert_eq!(spelled_by(&Json::Text("//a/1/1/0".to_string())), Some(uri("a", 1, 1, 0)));
    assert_eq!(spelled_by(&Json::Text("a".to_string())), None);
    assert_eq!(spelled_by(&Json::Number("1".to_string())), None);
    let held = vec![uri("a", 1, 1, 0)];
    assert!(holds_uri(&held, &uri("a", 1, 1, 0)));
    assert!(!holds_uri(&held, &uri("a", 1, 1, 1)));
}

#[test]
fn fetch_subscribers_gives_each_topic_once() {
    let text = r#"{
        "//a/1/1/1": ["//s1/1/1/0", "//s1/1/1/0", "bad"],
        "//b/2/1/2": [],
        "nonsense": ["//s9/9/1/0"],
        "//c/3/1/3": ["//s2/2/1/0", "//s3/3/1/0"]
    }"#;
    let asked = uri("whatever", 0, 0, 0);
    let entries = keeping().fetch_subscribers(&asked, contents(text)).unwrap();
    assert_eq!(
        entries,
        vec![
            (uri("a", 1, 1, 1), vec![uri("s1", 1, 1, 0)]),
            (uri("b", 2, 1, 2), vec![]),
            (uri("c", 3, 1, 3), vec![uri("s2", 2, 1, 0), uri("s3", 3, 1, 0)]),
        ]
    );
}

#[test]
fn fetch_subscribers_lets_the_later_of_two_equal_topics_stay() {
    let text = r#"{
        "//a/1/1/1": ["//s1/1/1/0"],
        "//b/2/1/2": ["//s2/2/1/0"],
        "//a/1/1/7": ["//s3/3/1/0"]
    }"#;
    let asked = uri("whatever", 0, 0, 0);
    let entries = source().fetch_subscribers(&asked, contents(text)).unwrap();
    assert_eq!(
        entries,
        vec![
            (uri("a", 1, 1, 0x8001), vec![uri("s3", 3, 1, 0)]),
            (uri("b", 2, 1, 0x8001), vec![uri("s2", 2, 1, 0)]),
        ]
    );
}

#[test]
fn fetch_subscribers_fails_as_fetch_subscriptions_does() {
    let asked = uri("whatever", 0, 0, 0);
    assert_eq!(
        source().fetch_subscribers(&asked, FileRead::NotFound(String::new())).unwrap_err().code,
        Code::NotFound
    );
    assert_eq!(
        source().fetch_subscribers(&asked, FileRead::Unreadable(String::new())).unwrap_err().code,
        Code::Internal
    );
    assert_eq!(source().fetch_subscribers(&asked, contents("{")).unwrap_err().code, Code::InvalidArgument);
}

#[test]
fn rejections_count_what_spells_no_address() {
    let document = Json::parse(
        "doc",
        r#"{
            "//a/1/1/8001": ["//s1/1/1/0", "garbage here", 17, null, "//s2/2/1/0"],
            "no topic": ["//s3/3/1/0", false],
            "//b/2/1/8001": "not an array",
            "//c/3/1/8001": []
        }"#,
    )
    .unwrap();
    assert_eq!(source().rejections_in(&document), Rejections { keys: 1, elements: 4 });
    assert_eq!(source().rejections_in(&Json::Array(vec![Json::Null])), Rejections { keys: 0, elements: 0 });
    assert_eq!(rejected_in_member(&Json::Array(vec![Json::Null, Json::Text("//a/1/1/0".to_string())])), 1);
    assert_eq!(rejected_in_member(&Json::Null), 0);
}

#[test]
fn addresses_hash_as_they_compare() {
    let mut seen = std::collections::HashSet::new();
    assert!(seen.insert(uri("a", 1, 1, 0)));
    assert!(!seen.insert(uri("a", 1, 1, 0)));
    assert!(seen.insert(uri("a", 1, 1, 1)));
    assert_eq!(seen.len(), 2);
}
