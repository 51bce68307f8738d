//! A subscription source that reads a static JSON file.
//!
//! Reading the file from disk is left to the caller, who hands in what came
//! of it as a [`FileRead`]. What the text of the file declares is defined in
//! [`crate::document`].

use crate::document::{
    capped, declared_subscriptions, declared_topics, distinct, distinct_topics, element_uri,
    entry_views, lemma_topics_map_update, member_subscribers, member_subscriptions, member_topic,
    rejected_elements, rejected_elements_of, rejected_keys, spelled_uris, topics_map, uri_views,
};
use crate::json::{
    json_from_str, json_views, lemma_json_view, member_views, parse_failure_prefix, Json, JsonView,
};
use crate::status::{Code, Status};
use crate::subscription::{
    subscription_views, FetchSubscriptionsResponse, Subscription, SubscriptionView,
};
use crate::uri::{TopicNormalization, Uri, UriView, NOTIFICATION_RESOURCE_ID};
use vstd::prelude::*;

verus! {

/// What came of reading the subscription file from disk.
#[derive(Debug)]
pub enum FileRead {
    /// There is no such file; the words of the operating system follow.
    NotFound(String),
    /// The file is there and could not be read.
    Unreadable(String),
    /// The text of the file.
    Contents(String),
}

impl FileRead {
    /// The document that was read: there is none where the file was not
    /// read, or where its text is not JSON.
    pub open spec fn document(self) -> Option<JsonView> {
        match self {
            FileRead::Contents(text) => json_from_str(text@),
            _ => None,
        }
    }

    /// The words that the report of a read without a document starts with;
    /// the path of the file follows them.
    pub open spec fn failure_prefix(self) -> Seq<char> {
        match self {
            FileRead::NotFound(_) => "Static subscription file not found: "@,
            FileRead::Unreadable(_) => "Unable to read file: "@,
            FileRead::Contents(_) => parse_failure_prefix(),
        }
    }

    /// Whether `message` reports this read as a failure of the file at
    /// `path`.
    pub open spec fn reported_by(self, path: Seq<char>, message: Seq<char>) -> bool {
        (self.failure_prefix() + path).is_prefix_of(message)
    }

    /// The kind of failure that a read without a document is reported as.
    pub open spec fn failure_code(self) -> Code {
        match self {
            FileRead::NotFound(_) => Code::NotFound,
            FileRead::Unreadable(_) => Code::Internal,
            FileRead::Contents(_) => Code::InvalidArgument,
        }
    }
}

/// How much of a document was left out because it spells no address.
#[derive(Clone, Copy, Debug, PartialEq, Eq, Structural)]
pub struct Rejections {
    /// The number of keys that spell no topic.
    pub keys: usize,
    /// The number of array elements that spell no subscriber, over all
    /// members; `usize::MAX` where there are more.
    pub elements: usize,
}

/// A subscription source backed by one static JSON file.
#[derive(Debug)]
pub struct USubscriptionStaticFile {
    static_file: String,
    normalization: TopicNormalization,
}

/// The file that a source reads where it is told of no other.
pub const DEFAULT_STATIC_FILE: &'static str = "static-configs/testdata.json";

impl Default for USubscriptionStaticFile {
    /// A source that reads [`DEFAULT_STATIC_FILE`].
    fn default() -> (r: Self)
        ensures
            r.spec_static_file() == DEFAULT_STATIC_FILE@,
            r.spec_normalization() == TopicNormalization::ResourceId(NOTIFICATION_RESOURCE_ID),
    {
        USubscriptionStaticFile::new(DEFAULT_STATIC_FILE.to_owned())
    }
}

impl USubscriptionStaticFile {
    /// The path of the file that is read.
    pub closed spec fn spec_static_file(&self) -> Seq<char> {
        self.static_file@
    }

    /// The rule applied to every topic that is read.
    pub closed spec fn spec_normalization(&self) -> TopicNormalization {
        self.normalization
    }

    /// A source that reads `static_file` and maps every topic onto the
    /// well-known notification resource id.
    ///
    /// Static documents name topics under resource ids of their own, while
    /// the messages to be matched against them arrive under the one
    /// notification resource id. Mapping the topics on reading lets the two
    /// agree. Where the document already names topics as they arrive, use
    /// [`USubscriptionStaticFile::with_normalization`] with
    /// [`TopicNormalization::Keep`].
    pub fn new(static_file: String) -> (r: Self)
        ensures
            r.spec_static_file() == static_file@,
            r.spec_normalization() == TopicNormalization::ResourceId(NOTIFICATION_RESOURCE_ID),
    {
        USubscriptionStaticFile { static_file, normalization: TopicNormalization::notification() }
    }

    /// A source that reads `static_file` and applies `normalization` to every
    /// topic.
    pub fn with_normalization(static_file: String, normalization: TopicNormalization) -> (r: Self)
        ensures
            r.spec_static_file() == static_file@,
            r.spec_normalization() == normalization,
    {
        USubscriptionStaticFile { static_file, normalization }
    }

    pub fn static_file(&self) -> (r: &String)
        ensures
            r@ == self.spec_static_file(),
    {
        &self.static_file
    }

    pub fn normalization(&self) -> (r: TopicNormalization)
        ensures
            r == self.spec_normalization(),
    {
        self.normalization
    }

    /// The subscriptions that a parsed document declares. A document that is
    /// no object declares none.
    pub fn subscriptions_in(&self, document: &Json) -> (r: FetchSubscriptionsResponse)
        ensures
            r@ == declared_subscriptions(self.spec_normalization(), document@.members()),
    {
        proof {
            lemma_json_view(*document);
        }
        let mut subscriptions: Vec<Subscription> = Vec::new();
        let ghost rule = self.normalization;
        assert(subscription_views(subscriptions@) =~= Seq::<SubscriptionView>::empty());
        match document {
            Json::Object(members) => {
                let ghost all = member_views(members@);
                let mut i: usize = 0;
                assert(all.take(0) =~= Seq::<(Seq<char>, JsonView)>::empty());
                while i < members.len()
                    invariant
                        i <= members.len(),
                        rule == self.normalization,
                        all == member_views(members@),
                        subscription_views(subscriptions@) == declared_subscriptions(
                            rule,
                            all.take(i as int),
                        ),
                    decreases members.len() - i,
                {
                    let ghost upto = all.take(i as int + 1);
                    assert(upto.drop_last() =~= all.take(i as int));
                    assert(upto.last() == (members@[i as int].0@, members@[i as int].1@));
                    let member = &members[i];
                    let ghost declared_before = subscription_views(subscriptions@);
                    let ghost of_member = member_subscriptions(rule, member.0@, member.1@);
                    let subscribers = subscribers_of_member(&member.1);
                    match Uri::parse(member.0.as_str()) {
                        Some(parsed) => {
                            let topic = self.normalization.normalize(parsed);
                            let mut k: usize = 0;
                            assert(declared_before + of_member.take(0) =~= declared_before);
                            while k < subscribers.len()
                                invariant
                                    k <= subscribers.len(),
                                    member_topic(rule, member.0@) == Some(topic@),
                                    uri_views(subscribers@) == member_subscribers(member.1@),
                                    of_member == member_subscriptions(rule, member.0@, member.1@),
                                    subscription_views(subscriptions@) == declared_before
                                        + of_member.take(k as int),
                                decreases subscribers.len() - k,
                            {
                                let ghost so_far = subscription_views(subscriptions@);
                                let subscription = Subscription::declared(
                                    topic.clone(),
                                    subscribers[k].clone(),
                                );
                                assert(uri_views(subscribers@)[k as int] == subscribers@[k as int]@);
                                subscriptions.push(subscription);
                                assert(subscription_views(subscriptions@) =~= so_far.push(
                                    subscription@,
                                ));
                                assert(declared_before + of_member.take(k as int + 1)
                                    =~= so_far.push(subscription@));
                                k += 1;
                            }
                            assert(of_member.take(k as int) =~= of_member);
                        },
                        None => {
                            assert(declared_before + of_member =~= declared_before);
                        },
                    }
                    i += 1;
                }
                assert(all.take(i as int) =~= all);
            },
            _ => {},
        }
        FetchSubscriptionsResponse { subscriptions }
    }

    /// The subscriptions that the file declares, given what came of reading
    /// it.
    ///
    /// Fails with `NotFound` where the file is missing, with `Internal`
    /// where it could not be read, and with `InvalidArgument` where its text
    /// is not JSON; the message names the file. Otherwise the answer holds
    /// the subscriptions that the parsed document declares.
    pub fn fetch_subscriptions(&self, read: FileRead) -> (r: Result<
        FetchSubscriptionsResponse,
        Status,
    >)
        ensures
            r is Ok == read.document() is Some,
            r matches Ok(response) ==> response@ == declared_subscriptions(
                self.spec_normalization(),
                read.document().unwrap().members(),
            ),
            r matches Err(status) ==> status.code == read.failure_code() && read.reported_by(
                self.spec_static_file(),
                status.message@,
            ),
    {
        match self.read_document(read) {
            Ok(document) => Ok(self.subscriptions_in(&document)),
            Err(status) => Err(status),
        }
    }

    /// How much of a parsed document is left out when it is read: the keys
    /// and the array elements that spell no address.
    pub fn rejections_in(&self, document: &Json) -> (r: Rejections)
        ensures
            r.keys == rejected_keys(document@.members()),
            r.elements == capped(rejected_elements_of(document@.members())),
    {
        proof {
            lemma_json_view(*document);
        }
        let mut keys: usize = 0;
        let mut elements: usize = 0;
        match document {
            Json::Object(members) => {
                let ghost all = member_views(members@);
                let mut i: usize = 0;
                assert(all.take(0) =~= Seq::<(Seq<char>, JsonView)>::empty());
                while i < members.len()
                    invariant
                        i <= members.len(),
                        all == member_views(members@),
                        keys <= i,
                        keys == rejected_keys(all.take(i as int)),
                        elements == capped(rejected_elements_of(all.take(i as int))),
                    decreases members.len() - i,
                {
                    proof {
                        let upto = all.take(i as int + 1);
                        assert(upto.drop_last() =~= all.take(i as int));
                        assert(upto.last() == (members@[i as int].0@, members@[i as int].1@));
                    }
                    if Uri::parse(members[i].0.as_str()).is_none() {
                        keys += 1;
                    }
                    elements = elements.saturating_add(rejected_in_member(&members[i].1));
                    i += 1;
                }
                assert(all.take(i as int) =~= all);
            },
            _ => {},
        }
        Rejections { keys, elements }
    }

    /// The subscribers of each topic that a parsed document declares, each
    /// topic once. A document that is no object declares none.
    pub fn subscribers_in(&self, document: &Json) -> (r: Vec<(Uri, Vec<Uri>)>)
        ensures
            distinct_topics(entry_views(r@)),
            topics_map(entry_views(r@)) == declared_topics(
                self.spec_normalization(),
                document@.members(),
            ),
    {
        proof {
            lemma_json_view(*document);
        }
        let mut entries: Vec<(Uri, Vec<Uri>)> = Vec::new();
        let ghost rule = self.normalization;
        assert(entry_views(entries@) =~= Seq::<(UriView, Seq<UriView>)>::empty());
        match document {
            Json::Object(members) => {
                let ghost all = member_views(members@);
                let mut i: usize = 0;
                assert(all.take(0) =~= Seq::<(Seq<char>, JsonView)>::empty());
                while i < members.len()
                    invariant
                        i <= members.len(),
                        rule == self.normalization,
                        all == member_views(members@),
                        distinct_topics(entry_views(entries@)),
                        topics_map(entry_views(entries@)) == declared_topics(
                            rule,
                            all.take(i as int),
                        ),
                    decreases members.len() - i,
                {
                    proof {
                        let upto = all.take(i as int + 1);
                        assert(upto.drop_last() =~= all.take(i as int));
                        assert(upto.last() == (members@[i as int].0@, members@[i as int].1@));
                    }
                    let member = &members[i];
                    let subscribers = subscribers_of_member(&member.1);
                    match Uri::parse(member.0.as_str()) {
                        Some(parsed) => {
                            let topic = self.normalization.normalize(parsed);
                            let ghost before = entry_views(entries@);
                            let ghost entry = (topic@, uri_views(subscribers@));
                            let ghost prior = entries@;
                            match topic_position(&entries, &topic) {
                                Some(j) => {
                                    proof {
                                        assert(before[j as int].0 == entries@[j as int].0@);
                                        lemma_topics_map_update(before, j as int, entry.1);
                                    }
                                    entries.set(j, (topic, subscribers));
                                    assert(entry_views(entries@) =~= before.update(j as int, entry));
                                },
                                None => {
                                    entries.push((topic, subscribers));
                                    proof {
                                        let after = entry_views(entries@);
                                        assert(after =~= before.push(entry));
                                        assert(after.drop_last() =~= before);
                                        assert forall|a: int, b: int|
                                            0 <= a < b < after.len() implies (
                                        #[trigger] after[a]).0 != (#[trigger] after[b]).0 by {
                                            if b < before.len() {
                                                assert(before[a].0 != before[b].0);
                                            } else {
                                                assert(before[a].0 == prior[a].0@);
                                            }
                                        }
                                    }
                                },
                            }
                        },
                        None => {},
                    }
                    i += 1;
                }
                assert(all.take(i as int) =~= all);
            },
            _ => {},
        }
        entries
    }

    /// The subscribers of each topic that the file declares, given what came
    /// of reading it. The file is static: the answer is the same whatever
    /// `topic` is asked for.
    ///
    /// Fails as [`USubscriptionStaticFile::fetch_subscriptions`] does.
    #[allow(unused_variables)]
    pub fn fetch_subscribers(&self, topic: &Uri, read: FileRead) -> (r: Result<
        Vec<(Uri, Vec<Uri>)>,
        Status,
    >)
        ensures
            r is Ok == read.document() is Some,
            r matches Ok(entries) ==> distinct_topics(entry_views(entries@)) && topics_map(
                entry_views(entries@),
            ) == declared_topics(self.spec_normalization(), read.document().unwrap().members()),
            r matches Err(status) ==> status.code == read.failure_code() && read.reported_by(
                self.spec_static_file(),
                status.message@,
            ),
    {
        match self.read_document(read) {
            Ok(document) => Ok(self.subscribers_in(&document)),
            Err(status) => Err(status),
        }
    }

    /// The document that was read, or the failure that the read is reported
    /// as: `NotFound` where the file is missing, `Internal` where it could
    /// not be read, `InvalidArgument` where its text is not JSON.
    pub fn read_document(&self, read: FileRead) -> (r: Result<Json, Status>)
        ensures
            r is Ok == read.document() is Some,
            r matches Ok(document) ==> document@ == read.document().unwrap(),
            r matches Err(status) ==> status.code == read.failure_code() && read.reported_by(
                self.spec_static_file(),
                status.message@,
            ),
    {
        let path = self.static_file.as_str();
        match read {
            FileRead::NotFound(detail) => {
                let status = Status::describe(
                    Code::NotFound,
                    "Static subscription file not found: ",
                    path,
                    detail.as_str(),
                );
                assert(status.message@ =~= ("Static subscription file not found: "@ + path@) + (
                ": "@ + detail@));
                Err(status)
            },
            FileRead::Unreadable(detail) => {
                let status = Status::describe(
                    Code::Internal,
                    "Unable to read file: ",
                    path,
                    detail.as_str(),
                );
                assert(status.message@ =~= ("Unable to read file: "@ + path@) + (": "@ + detail@));
                Err(status)
            },
            FileRead::Contents(text) => Json::parse(path, text.as_str()),
        }
    }
}

/// Whether `uris` holds the address `uri`.
pub fn holds_uri(uris: &Vec<Uri>, uri: &Uri) -> (r: bool)
    ensures
        r == uri_views(uris@).contains(uri@),
{
    let mut i: usize = 0;
    while i < uris.len()
        invariant
            i <= uris.len(),
            forall|j: int| 0 <= j < i ==> uris@[j]@ != uri@,
        decreases uris.len() - i,
    {
        if uris[i].same(uri) {
            assert(uri_views(uris@)[i as int] == uri@);
            return true;
        }
        i += 1;
    }
    false
}

/// The address that an array element spells, if it is a string that spells
/// one.
pub fn spelled_by(element: &Json) -> (r: Option<Uri>)
    ensures
        r is Some == element_uri(element@) is Some,
        r matches Some(uri) ==> element_uri(element@) == Some(uri@),
{
    proof {
        lemma_json_view(*element);
    }
    match element {
        Json::Text(text) => Uri::parse(text.as_str()),
        _ => None,
    }
}

/// The subscribers that the value of one member declares, each once, in the
/// order in which they first occur.
pub fn subscribers_of_member(value: &Json) -> (r: Vec<Uri>)
    ensures
        uri_views(r@) == member_subscribers(value@),
{
    proof {
        lemma_json_view(*value);
    }
    let mut subscribers: Vec<Uri> = Vec::new();
    assert(uri_views(subscribers@) =~= Seq::<UriView>::empty());
    match value {
        Json::Array(elements) => {
            let ghost all = json_views(elements@);
            let mut i: usize = 0;
            assert(all.take(0) =~= Seq::<JsonView>::empty());
            while i < elements.len()
                invariant
                    i <= elements.len(),
                    all == json_views(elements@),
                    uri_views(subscribers@) == distinct(spelled_uris(all.take(i as int))),
                decreases elements.len() - i,
            {
                let ghost before = all.take(i as int);
                let ghost upto = all.take(i as int + 1);
                assert(upto.drop_last() =~= before);
                assert(upto.last() == elements@[i as int]@);
                let ghost old_views = uri_views(subscribers@);
                match spelled_by(&elements[i]) {
                    Some(uri) => {
                        assert(spelled_uris(upto).drop_last() =~= spelled_uris(before));
                        if !holds_uri(&subscribers, &uri) {
                            subscribers.push(uri);
                            assert(uri_views(subscribers@) =~= old_views.push(uri@));
                        }
                    },
                    None => {},
                }
                i += 1;
            }
            assert(all.take(i as int) =~= all);
        },
        _ => {},
    }
    subscribers
}

/// How many elements of the array `value` spell no address; none where
/// `value` is no array.
pub fn rejected_in_member(value: &Json) -> (r: usize)
    ensures
        r == rejected_elements(value@.elements()),
{
    proof {
        lemma_json_view(*value);
    }
    let mut rejected: usize = 0;
    match value {
        Json::Array(elements) => {
            let ghost all = json_views(elements@);
            let mut i: usize = 0;
            assert(all.take(0) =~= Seq::<JsonView>::empty());
            while i < elements.len()
                invariant
                    i <= elements.len(),
                    all == json_views(elements@),
                    rejected <= i,
                    rejected == rejected_elements(all.take(i as int)),
                decreases elements.len() - i,
            {
                proof {
                    let upto = all.take(i as int + 1);
                    assert(upto.drop_last() =~= all.take(i as int));
                    assert(upto.last() == elements@[i as int]@);
                }
                if spelled_by(&elements[i]).is_none() {
                    rejected += 1;
                }
                i += 1;
            }
            assert(all.take(i as int) =~= all);
        },
        _ => {},
    }
    rejected
}

/// Where the entry of `topic` stands in `entries`.
fn topic_position(entries: &Vec<(Uri, Vec<Uri>)>, topic: &Uri) -> (r: Option<usize>)
    ensures
        r matches Some(i) ==> i < entries.len() && entries@[i as int].0@ == topic@,
        r is None ==> forall|i: int| 0 <= i < entries.len() ==> (#[trigger] entries@[i]).0@ != topic@,
{
    let mut i: usize = 0;
    while i < entries.len()
        invariant
            i <= entries.len(),
            forall|j: int| 0 <= j < i ==> (#[trigger] entries@[j]).0@ != topic@,
        decreases entries.len() - i,
    {
        if entries[i].0.same(topic) {
            return Some(i);
        }
        i += 1;
    }
    None
}

} // verus!
