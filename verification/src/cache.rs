//! The subscription cache: which subscribers want which topics.
//!
//! The cache is a finite map from a pair (topic, subscriber address) to the
//! record of that subscription. A subscriber therefore occurs at most once
//! under a topic, and putting a record in replaces the one that was there.

use crate::document::declared_subscriptions;
use crate::laws::{declared_subscribers, law_refresh_then_fetch};
use crate::static_file::{FileRead, USubscriptionStaticFile};
use crate::status::Status;
use crate::subscription::{
    EventDeliveryConfig, FetchSubscriptionsResponse, SubscribeAttributes, SubscriberInfo,
    SubscriberInfoView, Subscription, SubscriptionInformation, SubscriptionInformationView,
    SubscriptionStatus, SubscriptionView,
};
use crate::uri::{Uri, UriView};
use vstd::prelude::*;

verus! {

/// The contents of a cache: records by topic and subscriber address.
pub type CacheView = Map<(UriView, UriView), SubscriptionInformationView>;

/// The records in `records`, each taken by its value.
pub open spec fn info_views(records: Seq<SubscriptionInformation>) -> Seq<
    SubscriptionInformationView,
> {
    Seq::new(records.len(), |i: int| records[i]@)
}

/// The subscribers in `subscribers`, each taken by its value.
pub open spec fn subscriber_views(subscribers: Seq<SubscriberInfo>) -> Seq<SubscriberInfoView> {
    Seq::new(subscribers.len(), |i: int| subscribers[i]@)
}

/// The pair under which a record is kept.
pub open spec fn record_key(record: SubscriptionInformationView) -> (UriView, UriView) {
    (record.topic, record.subscriber.uri)
}

/// No two records of `records` stand under the same key.
pub open spec fn distinct_keys(records: Seq<SubscriptionInformationView>) -> bool {
    forall|i: int, j: int|
        0 <= i < j < records.len() ==> #[trigger] record_key(records[i]) != #[trigger] record_key(
            records[j],
        )
}

/// The map that results from putting the records of `records` in, one after
/// the other.
pub open spec fn records_map(records: Seq<SubscriptionInformationView>) -> CacheView
    decreases records.len(),
{
    if records.len() == 0 {
        Map::empty()
    } else {
        records_map(records.drop_last()).insert(record_key(records.last()), records.last())
    }
}

/// The record that a reported subscription stands for. A subscription
/// without a topic or without a subscriber stands for none; a missing status,
/// missing hints or a missing delivery configuration are taken as unset.
pub open spec fn record_of(subscription: SubscriptionView) -> Option<SubscriptionInformationView> {
    if subscription.topic is Some && subscription.subscriber is Some {
        Some(
            SubscriptionInformationView {
                topic: subscription.topic.unwrap(),
                subscriber: subscription.subscriber.unwrap(),
                status: match subscription.status {
                    Some(status) => status,
                    None => SubscriptionStatus::spec_unset(),
                },
                attributes: match subscription.attributes {
                    Some(attributes) => attributes,
                    None => SubscribeAttributes::spec_unset(),
                },
                config: match subscription.config {
                    Some(config) => config,
                    None => EventDeliveryConfig::spec_unset(),
                },
            },
        )
    } else {
        None
    }
}

/// The cache contents that a list of reported subscriptions stands for: the
/// record of each, put in one after the other, so that of two subscriptions
/// of one subscriber to one topic the later one stays.
pub open spec fn snapshot(subscriptions: Seq<SubscriptionView>) -> CacheView
    decreases subscriptions.len(),
{
    if subscriptions.len() == 0 {
        Map::empty()
    } else {
        let before = snapshot(subscriptions.drop_last());
        match record_of(subscriptions.last()) {
            Some(record) => before.insert(record_key(record), record),
            None => before,
        }
    }
}

/// How many of `subscriptions` stand for no record.
pub open spec fn skipped(subscriptions: Seq<SubscriptionView>) -> nat
    decreases subscriptions.len(),
{
    if subscriptions.len() == 0 {
        0
    } else {
        skipped(subscriptions.drop_last()) + if record_of(subscriptions.last()) is None {
            1nat
        } else {
            0nat
        }
    }
}

/// Every record of `cache` stands under its own topic and subscriber.
pub open spec fn consistent(cache: CacheView) -> bool {
    forall|key: (UriView, UriView)| #[trigger]
        cache.dom().contains(key) ==> record_key(cache[key]) == key
}

/// The subscribers that `cache` knows for `topic`.
pub open spec fn subscribers_of(cache: CacheView, topic: UriView) -> Set<SubscriberInfoView> {
    Set::new(|subscriber: SubscriberInfoView| cache.dom().contains((topic, subscriber.uri)))
}

/// Whether `cache` knows any subscriber for `topic`.
pub open spec fn has_subscribers(cache: CacheView, topic: UriView) -> bool {
    exists|subscriber: SubscriberInfoView| subscribers_of(cache, topic).contains(subscriber)
}

/// The part of `cache` whose subscribers live under the authority `name`.
pub open spec fn under_authority(cache: CacheView, name: Seq<char>) -> CacheView {
    cache.restrict(Set::new(|key: (UriView, UriView)| key.1.authority_name == name))
}

/// The subscribers of the records of `records` that stand under `topic`, in
/// the order of the records.
pub open spec fn subscribers_in(records: Seq<SubscriptionInformationView>, topic: UriView) -> Seq<
    SubscriberInfoView,
>
    decreases records.len(),
{
    if records.len() == 0 {
        Seq::empty()
    } else {
        let before = subscribers_in(records.drop_last(), topic);
        if records.last().topic == topic {
            before.push(records.last().subscriber)
        } else {
            before
        }
    }
}

/// Whether the `n`-th of `subscriptions` stands for a record under `key`.
pub open spec fn reports_at(
    subscriptions: Seq<SubscriptionView>,
    n: int,
    key: (UriView, UriView),
) -> bool {
    0 <= n < subscriptions.len() && record_of(subscriptions[n]) is Some && record_key(
        record_of(subscriptions[n]).unwrap(),
    ) == key
}

/// What a refresh did: how many records the cache holds after it, and how
/// many reported subscriptions were left out because they name no topic or
/// no subscriber.
#[derive(Clone, Copy, Debug, PartialEq, Eq, Structural)]
pub struct RefreshReport {
    pub records: usize,
    pub skipped: usize,
}

/// The subscription cache.
#[derive(Debug)]
pub struct SubscriptionCache {
    records: Vec<SubscriptionInformation>,
}

impl View for SubscriptionCache {
    type V = CacheView;

    closed spec fn view(&self) -> CacheView {
        records_map(info_views(self.records@))
    }
}

impl SubscriptionCache {
    #[verifier::type_invariant]
    spec fn well_formed(&self) -> bool {
        distinct_keys(info_views(self.records@))
    }

    /// A cache that knows no subscription.
    pub fn empty() -> (r: Self)
        ensures
            r@ == CacheView::empty(),
    {
        let records: Vec<SubscriptionInformation> = Vec::new();
        assert(info_views(records@) =~= Seq::<SubscriptionInformationView>::empty());
        SubscriptionCache { records }
    }

    /// A cache that holds what `response` reports.
    pub fn new(response: FetchSubscriptionsResponse) -> (r: Self)
        ensures
            r@ == snapshot(response@),
    {
        let (records, _) = records_from(&response);
        SubscriptionCache { records }
    }

    /// The number of records. There are finitely many, and each stands
    /// under its own topic and subscriber.
    pub fn len(&self) -> (r: usize)
        ensures
            self@.dom().finite(),
            consistent(self@),
            r == self@.dom().len(),
    {
        proof {
            use_type_invariant(self);
            lemma_records_map_len(info_views(self.records@));
            lemma_records_map_consistent(info_views(self.records@));
        }
        self.records.len()
    }

    /// The record of the subscription of `subscriber` to `topic`, if there
    /// is one.
    pub fn record(&self, topic: &Uri, subscriber: &Uri) -> (r: Option<SubscriptionInformation>)
        ensures
            r is Some == self@.dom().contains((topic@, subscriber@)),
            r matches Some(record) ==> record@ == self@[(topic@, subscriber@)],
    {
        proof {
            use_type_invariant(self);
            lemma_records_map_dom(info_views(self.records@));
        }
        let ghost views = info_views(self.records@);
        match position(&self.records, topic, subscriber) {
            Some(i) => {
                proof {
                    assert(views[i as int] == self.records@[i as int]@);
                    lemma_records_map_value(views, i as int);
                }
                Some(self.records[i].clone())
            },
            None => {
                proof {
                    if self@.dom().contains((topic@, subscriber@)) {
                        let j = choose|j: int|
                            0 <= j < views.len() && #[trigger] record_key(views[j]) == (
                                topic@,
                                subscriber@,
                            );
                        assert(views[j] == self.records@[j]@);
                    }
                }
                None
            },
        }
    }

    /// The subscribers known for exactly the topic `topic`, each once; none
    /// for a topic that the cache does not know.
    pub fn fetch(&self, topic: &Uri) -> (r: Vec<SubscriberInfo>)
        ensures
            subscriber_views(r@).no_duplicates(),
            subscriber_views(r@).to_set() == subscribers_of(self@, topic@),
    {
        proof {
            use_type_invariant(self);
        }
        let ghost views = info_views(self.records@);
        let mut found: Vec<SubscriberInfo> = Vec::new();
        let mut i: usize = 0;
        assert(views.take(0) =~= Seq::<SubscriptionInformationView>::empty());
        assert(subscriber_views(found@) =~= Seq::<SubscriberInfoView>::empty());
        while i < self.records.len()
            invariant
                i <= self.records.len(),
                views == info_views(self.records@),
                subscriber_views(found@) == subscribers_in(views.take(i as int), topic@),
            decreases self.records.len() - i,
        {
            let ghost before = subscriber_views(found@);
            proof {
                let upto = views.take(i as int + 1);
                assert(upto.drop_last() =~= views.take(i as int));
                assert(upto.last() == self.records@[i as int]@);
            }
            if self.records[i].topic.same(topic) {
                let subscriber = self.records[i].subscriber.clone();
                found.push(subscriber);
                assert(subscriber_views(found@) =~= before.push(subscriber@));
            }
            i += 1;
        }
        proof {
            assert(views.take(i as int) =~= views);
            lemma_subscribers_in(views, topic@);
            lemma_records_map_dom(views);
            let out = subscriber_views(found@);
            assert forall|s: SubscriberInfoView| out.to_set().contains(s) <==> subscribers_of(
                self@,
                topic@,
            ).contains(s) by {
                assert(out.to_set().contains(s) <==> out.contains(s));
            }
            assert(out.to_set() =~= subscribers_of(self@, topic@));
        }
        found
    }

    /// Whether any subscriber is known for exactly the topic `topic`.
    pub fn has_subscribers(&self, topic: &Uri) -> (r: bool)
        ensures
            r == has_subscribers(self@, topic@),
    {
        let ghost views = info_views(self.records@);
        let mut i: usize = 0;
        while i < self.records.len()
            invariant
                i <= self.records.len(),
                views == info_views(self.records@),
                forall|j: int| 0 <= j < i ==> (#[trigger] views[j]).topic != topic@,
            decreases self.records.len() - i,
        {
            if self.records[i].topic.same(topic) {
                proof {
                    lemma_records_map_dom(views);
                    assert(views[i as int] == self.records@[i as int]@);
                    assert(record_key(views[i as int]) == (topic@, views[i as int].subscriber.uri));
                    assert(subscribers_of(self@, topic@).contains(views[i as int].subscriber));
                }
                return true;
            }
            assert(views[i as int] == self.records@[i as int]@);
            i += 1;
        }
        proof {
            lemma_records_map_dom(views);
            if has_subscribers(self@, topic@) {
                let s = choose|s: SubscriberInfoView| subscribers_of(self@, topic@).contains(s);
                let j = choose|j: int|
                    0 <= j < views.len() && #[trigger] record_key(views[j]) == (topic@, s.uri);
                assert(views[j].topic == topic@);
            }
        }
        false
    }

    /// Replaces the whole contents by what a subscription source answered.
    ///
    /// Where the source failed, its failure is handed on and the cache is
    /// left as it was. Otherwise the cache holds exactly what the answer
    /// reports; subscriptions that name no topic or no subscriber are left
    /// out and counted.
    pub fn refresh(&mut self, fetched: Result<FetchSubscriptionsResponse, Status>) -> (r: Result<
        RefreshReport,
        Status,
    >)
        ensures
            r is Ok == fetched is Ok,
            match fetched {
                Ok(response) => final(self)@ == snapshot(response@) && r == Ok::<
                    RefreshReport,
                    Status,
                >(
                    RefreshReport {
                        records: snapshot(response@).dom().len() as usize,
                        skipped: skipped(response@) as usize,
                    },
                ),
                Err(status) => final(self)@ == old(self)@ && r == Err::<RefreshReport, Status>(
                    status,
                ),
            },
    {
        match fetched {
            Ok(response) => {
                let (records, left_out) = records_from(&response);
                proof {
                    lemma_records_map_len(info_views(records@));
                }
                let report = RefreshReport { records: records.len(), skipped: left_out };
                self.records = records;
                Ok(report)
            },
            Err(status) => Err(status),
        }
    }

    /// Replaces the whole contents by what the static file of `source`
    /// declares, given what came of reading that file.
    ///
    /// Fails with `NotFound` where the file is missing, with `Internal`
    /// where it could not be read, and with `InvalidArgument` where its text
    /// is not JSON; the cache is then left as it was. Otherwise the cache
    /// knows for every topic exactly the subscribers that the document
    /// declares for it.
    pub fn refresh_from_file(&mut self, source: &USubscriptionStaticFile, read: FileRead) -> (r:
        Result<RefreshReport, Status>)
        ensures
            r is Ok == read.document() is Some,
            r is Ok ==> final(self)@ == snapshot(
                declared_subscriptions(
                    source.spec_normalization(),
                    read.document().unwrap().members(),
                ),
            ),
            r is Ok ==> forall|topic: UriView| #[trigger]
                subscribers_of(final(self)@, topic) == declared_subscribers(
                    source.spec_normalization(),
                    read.document().unwrap().members(),
                    topic,
                ),
            r matches Err(status) ==> final(self)@ == old(self)@ && status.code
                == read.failure_code() && read.reported_by(
                source.spec_static_file(),
                status.message@,
            ),
    {
        let ghost members = read.document().unwrap().members();
        let fetched = source.fetch_subscriptions(read);
        proof {
            if fetched is Ok {
                assert forall|topic: UriView| #[trigger]
                    subscribers_of(
                        snapshot(declared_subscriptions(source.spec_normalization(), members)),
                        topic,
                    ) == declared_subscribers(source.spec_normalization(), members, topic) by {
                    law_refresh_then_fetch(source.spec_normalization(), members, topic);
                }
            }
        }
        self.refresh(fetched)
    }

    /// Records that `record.subscriber` subscribes to `topic`, in place of
    /// what was known of that subscriber under that topic.
    pub fn upsert(&mut self, topic: Uri, record: SubscriptionInformation)
        ensures
            final(self)@ == old(self)@.insert(
                (topic@, record@.subscriber.uri),
                SubscriptionInformationView { topic: topic@, ..record@ },
            ),
    {
        proof {
            use_type_invariant(&*self);
        }
        let stored = SubscriptionInformation {
            topic,
            subscriber: record.subscriber,
            status: record.status,
            attributes: record.attributes,
            config: record.config,
        };
        let mut records: Vec<SubscriptionInformation> = Vec::new();
        assert(distinct_keys(info_views(records@)));
        std::mem::swap(&mut records, &mut self.records);
        put(&mut records, stored);
        self.records = records;
    }

    /// Forgets that `subscriber` subscribes to `topic`. Says whether there
    /// was such a record.
    pub fn remove(&mut self, topic: &Uri, subscriber: &Uri) -> (r: bool)
        ensures
            r == old(self)@.dom().contains((topic@, subscriber@)),
            final(self)@ == old(self)@.remove((topic@, subscriber@)),
    {
        proof {
            use_type_invariant(&*self);
            lemma_records_map_dom(info_views(self.records@));
        }
        let ghost before = info_views(self.records@);
        match position(&self.records, topic, subscriber) {
            Some(i) => {
                proof {
                    assert(before[i as int] == self.records@[i as int]@);
                    lemma_records_map_remove(before, i as int);
                }
                let mut records: Vec<SubscriptionInformation> = Vec::new();
                assert(distinct_keys(info_views(records@)));
                std::mem::swap(&mut records, &mut self.records);
                records.remove(i);
                assert(info_views(records@) =~= before.remove(i as int));
                self.records = records;
                true
            },
            None => {
                proof {
                    if self@.dom().contains((topic@, subscriber@)) {
                        let j = choose|j: int|
                            0 <= j < before.len() && #[trigger] record_key(before[j]) == (
                                topic@,
                                subscriber@,
                            );
                        assert(before[j] == self.records@[j]@);
                    }
                    assert(self@.remove((topic@, subscriber@)) =~= self@);
                }
                false
            },
        }
    }

    /// The records of the subscribers that live under the authority
    /// `entry`, or `None` where there is none.
    pub fn fetch_cache_entry(&self, entry: String) -> (r: Option<Vec<SubscriptionInformation>>)
        ensures
            r is None <==> under_authority(self@, entry@) == CacheView::empty(),
            r matches Some(records) ==> distinct_keys(info_views(records@)) && records_map(
                info_views(records@),
            ) == under_authority(self@, entry@),
    {
        proof {
            use_type_invariant(self);
        }
        let ghost views = info_views(self.records@);
        let mut found: Vec<SubscriptionInformation> = Vec::new();
        let mut i: usize = 0;
        assert(views.take(0) =~= Seq::<SubscriptionInformationView>::empty());
        assert(records_map(info_views(found@)) =~= under_authority(
            records_map(views.take(0)),
            entry@,
        ));
        while i < self.records.len()
            invariant
                i <= self.records.len(),
                views == info_views(self.records@),
                distinct_keys(views),
                distinct_keys(info_views(found@)),
                records_map(info_views(found@)) == under_authority(
                    records_map(views.take(i as int)),
                    entry@,
                ),
            decreases self.records.len() - i,
        {
            let ghost before = info_views(found@);
            let ghost seen = views.take(i as int);
            let ghost upto = views.take(i as int + 1);
            proof {
                assert(upto.drop_last() =~= seen);
                assert(upto.last() == views[i as int]);
                assert(views[i as int] == self.records@[i as int]@);
            }
            if self.records[i].subscriber.uri.authority_name == entry {
                found.push(self.records[i].clone());
                proof {
                    let after = info_views(found@);
                    assert(after =~= before.push(views[i as int]));
                    assert(after.drop_last() =~= before);
                    assert(records_map(after) =~= under_authority(records_map(upto), entry@));
                    lemma_records_map_dom(before);
                    lemma_records_map_dom(seen);
                    assert forall|a: int, b: int| 0 <= a < b < after.len() implies #[trigger] record_key(
                        after[a],
                    ) != #[trigger] record_key(after[b]) by {
                        if b < before.len() {
                            assert(record_key(before[a]) != record_key(before[b]));
                        } else {
                            assert(after[a] == before[a]);
                            assert(records_map(before).dom().contains(record_key(before[a])));
                            assert(records_map(seen).dom().contains(record_key(before[a])));
                            let j = choose|j: int|
                                0 <= j < seen.len() && #[trigger] record_key(seen[j]) == record_key(
                                    before[a],
                                );
                            assert(record_key(views[j]) != record_key(views[i as int]));
                        }
                    }
                }
            } else {
                assert(records_map(before) =~= under_authority(records_map(upto), entry@));
            }
            i += 1;
        }
        assert(views.take(i as int) =~= views);
        if found.len() == 0 {
            assert(info_views(found@) =~= Seq::<SubscriptionInformationView>::empty());
            None
        } else {
            proof {
                let after = info_views(found@);
                assert(records_map(after).dom().contains(record_key(after.last())));
            }
            Some(found)
        }
    }

    /// Every record of the cache, each once.
    pub fn fetch_cache(&self) -> (r: Vec<SubscriptionInformation>)
        ensures
            distinct_keys(info_views(r@)),
            records_map(info_views(r@)) == self@,
    {
        proof {
            use_type_invariant(self);
        }
        let mut all: Vec<SubscriptionInformation> = Vec::new();
        let mut i: usize = 0;
        while i < self.records.len()
            invariant
                i <= self.records.len(),
                all@ == self.records@.take(i as int),
            decreases self.records.len() - i,
        {
            all.push(self.records[i].clone());
            assert(all@ =~= self.records@.take(i as int + 1));
            i += 1;
        }
        assert(self.records@.take(i as int) =~= self.records@);
        all
    }
}

/// The record that a reported subscription stands for, if it names a topic
/// and a subscriber.
pub fn record_from(subscription: &Subscription) -> (r: Option<SubscriptionInformation>)
    ensures
        r is Some == record_of(subscription@) is Some,
        r matches Some(record) ==> record_of(subscription@) == Some(record@),
{
    let topic = match &subscription.topic {
        Some(topic) => topic.clone(),
        None => {
            return None;
        },
    };
    let subscriber = match &subscription.subscriber {
        Some(subscriber) => subscriber.clone(),
        None => {
            return None;
        },
    };
    let status = match &subscription.status {
        Some(status) => status.clone(),
        None => SubscriptionStatus::default(),
    };
    let attributes = match subscription.attributes {
        Some(attributes) => attributes,
        None => SubscribeAttributes::default(),
    };
    let config = match &subscription.config {
        Some(config) => config.clone(),
        None => EventDeliveryConfig::default(),
    };
    Some(SubscriptionInformation { topic, subscriber, status, attributes, config })
}

/// Where the record under (`topic`, `subscriber`) stands in `records`.
fn position(records: &Vec<SubscriptionInformation>, topic: &Uri, subscriber: &Uri) -> (r: Option<
    usize,
>)
    ensures
        r matches Some(i) ==> i < records.len() && record_key(records@[i as int]@) == (
            topic@,
            subscriber@,
        ),
        r is None ==> forall|i: int|
            0 <= i < records.len() ==> record_key(#[trigger] records@[i]@) != (topic@, subscriber@),
{
    let mut i: usize = 0;
    while i < records.len()
        invariant
            i <= records.len(),
            forall|j: int|
                0 <= j < i ==> record_key(#[trigger] records@[j]@) != (topic@, subscriber@),
        decreases records.len() - i,
    {
        if records[i].topic.same(topic) && records[i].subscriber.uri.same(subscriber) {
            return Some(i);
        }
        i += 1;
    }
    None
}

/// Puts `record` into `records`: in place of the record with its key, or at
/// the end where there is none.
fn put(records: &mut Vec<SubscriptionInformation>, record: SubscriptionInformation)
    requires
        distinct_keys(info_views(old(records)@)),
    ensures
        distinct_keys(info_views(final(records)@)),
        records_map(info_views(final(records)@)) == records_map(info_views(old(records)@)).insert(
            record_key(record@),
            record@,
        ),
{
    let ghost before = info_views(records@);
    match position(records, &record.topic, &record.subscriber.uri) {
        Some(i) => {
            proof {
                assert(before[i as int] == records@[i as int]@);
                lemma_records_map_update(before, i as int, record@);
            }
            records.set(i, record);
            assert(info_views(records@) =~= before.update(i as int, record@));
        },
        None => {
            records.push(record);
            proof {
                let after = info_views(records@);
                assert(after =~= before.push(record@));
                assert(after.drop_last() =~= before);
                assert forall|a: int, b: int| 0 <= a < b < after.len() implies #[trigger] record_key(
                    after[a],
                ) != #[trigger] record_key(after[b]) by {
                    if b < before.len() {
                        assert(record_key(before[a]) != record_key(before[b]));
                    } else {
                        assert(before[a] == old(records)@[a]@);
                    }
                }
            }
        },
    }
}

/// The records that `response` stands for, with distinct keys, and the
/// number of subscriptions that stand for none.
fn records_from(response: &FetchSubscriptionsResponse) -> (r: (Vec<SubscriptionInformation>, usize))
    ensures
        distinct_keys(info_views(r.0@)),
        records_map(info_views(r.0@)) == snapshot(response@),
        r.1 == skipped(response@),
{
    let mut records: Vec<SubscriptionInformation> = Vec::new();
    let mut left_out: usize = 0;
    let mut i: usize = 0;
    assert(response@.take(0) =~= Seq::<SubscriptionView>::empty());
    while i < response.subscriptions.len()
        invariant
            i <= response.subscriptions.len(),
            left_out <= i,
            distinct_keys(info_views(records@)),
            records_map(info_views(records@)) == snapshot(response@.take(i as int)),
            left_out == skipped(response@.take(i as int)),
        decreases response.subscriptions.len() - i,
    {
        proof {
            let upto = response@.take(i as int + 1);
            assert(upto.drop_last() =~= response@.take(i as int));
            assert(upto.last() == response.subscriptions@[i as int]@);
        }
        match record_from(&response.subscriptions[i]) {
            Some(record) => {
                put(&mut records, record);
            },
            None => {
                left_out += 1;
            },
        }
        i += 1;
    }
    assert(response@.take(i as int) =~= response@);
    (records, left_out)
}

/// The keys of the map of a list are the keys of its records, and there are
/// finitely many.
pub proof fn lemma_records_map_dom(records: Seq<SubscriptionInformationView>)
    ensures
        forall|key: (UriView, UriView)|
            records_map(records).dom().contains(key) <==> exists|i: int|
                0 <= i < records.len() && #[trigger] record_key(records[i]) == key,
        records_map(records).dom().finite(),
    decreases records.len(),
{
    if records.len() > 0 {
        let before = records.drop_last();
        lemma_records_map_dom(before);
        assert forall|key: (UriView, UriView)|
            records_map(records).dom().contains(key) <==> exists|i: int|
                0 <= i < records.len() && #[trigger] record_key(records[i]) == key by {
            if records_map(records).dom().contains(key) {
                if key == record_key(records.last()) {
                    assert(record_key(records[records.len() - 1]) == key);
                } else {
                    let i = choose|i: int|
                        0 <= i < before.len() && #[trigger] record_key(before[i]) == key;
                    assert(record_key(records[i]) == key);
                }
            }
            if exists|i: int| 0 <= i < records.len() && #[trigger] record_key(records[i]) == key {
                let i = choose|i: int|
                    0 <= i < records.len() && #[trigger] record_key(records[i]) == key;
                if i < records.len() - 1 {
                    assert(record_key(before[i]) == key);
                }
            }
        }
    }
}

/// In the map of a list with distinct keys, every record of the list stands
/// under its key.
pub proof fn lemma_records_map_value(records: Seq<SubscriptionInformationView>, i: int)
    requires
        distinct_keys(records),
        0 <= i < records.len(),
    ensures
        records_map(records).dom().contains(record_key(records[i])),
        records_map(records)[record_key(records[i])] == records[i],
    decreases records.len(),
{
    let before = records.drop_last();
    if i < records.len() - 1 {
        assert(distinct_keys(before)) by {
            assert forall|a: int, b: int| 0 <= a < b < before.len() implies #[trigger] record_key(
                before[a],
            ) != #[trigger] record_key(before[b]) by {
                assert(record_key(records[a]) != record_key(records[b]));
            }
        }
        lemma_records_map_value(before, i);
        assert(record_key(records[i]) != record_key(records[records.len() - 1]));
    }
}

/// The map of a list is consistent.
pub proof fn lemma_records_map_consistent(records: Seq<SubscriptionInformationView>)
    ensures
        consistent(records_map(records)),
    decreases records.len(),
{
    if records.len() > 0 {
        lemma_records_map_consistent(records.drop_last());
    }
}

/// A list with distinct keys keeps them when its last record is dropped.
proof fn lemma_distinct_drop_last(records: Seq<SubscriptionInformationView>)
    requires
        distinct_keys(records),
        records.len() > 0,
    ensures
        distinct_keys(records.drop_last()),
{
    let before = records.drop_last();
    assert forall|a: int, b: int| 0 <= a < b < before.len() implies #[trigger] record_key(
        before[a],
    ) != #[trigger] record_key(before[b]) by {
        assert(record_key(records[a]) != record_key(records[b]));
    }
}

/// Replacing a record by one with the same key is putting that one in.
pub proof fn lemma_records_map_update(
    records: Seq<SubscriptionInformationView>,
    j: int,
    record: SubscriptionInformationView,
)
    requires
        distinct_keys(records),
        0 <= j < records.len(),
        record_key(record) == record_key(records[j]),
    ensures
        distinct_keys(records.update(j, record)),
        records_map(records.update(j, record)) == records_map(records).insert(
            record_key(record),
            record,
        ),
    decreases records.len(),
{
    let updated = records.update(j, record);
    assert forall|a: int, b: int| 0 <= a < b < updated.len() implies #[trigger] record_key(
        updated[a],
    ) != #[trigger] record_key(updated[b]) by {
        assert(record_key(records[a]) != record_key(records[b]));
    }
    let before = records.drop_last();
    if j == records.len() - 1 {
        assert(updated.drop_last() =~= before);
        assert(records_map(updated) =~= records_map(records).insert(record_key(record), record));
    } else {
        lemma_distinct_drop_last(records);
        lemma_records_map_update(before, j, record);
        assert(updated.drop_last() =~= before.update(j, record));
        assert(updated.last() == records.last());
        assert(record_key(records[j]) != record_key(records[records.len() - 1]));
        assert(records_map(updated) =~= records_map(records).insert(record_key(record), record));
    }
}

/// Taking a record out of the list takes its key out of the map.
pub proof fn lemma_records_map_remove(records: Seq<SubscriptionInformationView>, j: int)
    requires
        distinct_keys(records),
        0 <= j < records.len(),
    ensures
        distinct_keys(records.remove(j)),
        records_map(records.remove(j)) == records_map(records).remove(record_key(records[j])),
    decreases records.len(),
{
    let removed = records.remove(j);
    assert forall|a: int, b: int| 0 <= a < b < removed.len() implies #[trigger] record_key(
        removed[a],
    ) != #[trigger] record_key(removed[b]) by {
        let a0 = if a < j { a } else { a + 1 };
        let b0 = if b < j { b } else { b + 1 };
        assert(record_key(records[a0]) != record_key(records[b0]));
    }
    let before = records.drop_last();
    lemma_distinct_drop_last(records);
    if j == records.len() - 1 {
        assert(removed =~= before);
        lemma_records_map_dom(before);
        assert(!records_map(before).dom().contains(record_key(records[j]))) by {
            if records_map(before).dom().contains(record_key(records[j])) {
                let i = choose|i: int|
                    0 <= i < before.len() && #[trigger] record_key(before[i]) == record_key(
                        records[j],
                    );
                assert(record_key(records[i]) != record_key(records[j]));
            }
        }
        assert(records_map(removed) =~= records_map(records).remove(record_key(records[j])));
    } else {
        lemma_records_map_remove(before, j);
        assert(removed.drop_last() =~= before.remove(j));
        assert(removed.last() == records.last());
        assert(record_key(records[j]) != record_key(records[records.len() - 1]));
        assert(records_map(removed) =~= records_map(records).remove(record_key(records[j])));
    }
}

/// A list with distinct keys has as many records as its map has keys.
pub proof fn lemma_records_map_len(records: Seq<SubscriptionInformationView>)
    requires
        distinct_keys(records),
    ensures
        records_map(records).dom().finite(),
        records_map(records).dom().len() == records.len(),
    decreases records.len(),
{
    lemma_records_map_dom(records);
    if records.len() > 0 {
        let before = records.drop_last();
        lemma_distinct_drop_last(records);
        lemma_records_map_len(before);
        lemma_records_map_dom(before);
        if records_map(before).dom().contains(record_key(records.last())) {
            let i = choose|i: int|
                0 <= i < before.len() && #[trigger] record_key(before[i]) == record_key(
                    records.last(),
                );
            assert(record_key(records[i]) != record_key(records[records.len() - 1]));
        }
    }
}

/// In a list with distinct keys, the subscribers under a topic are those
/// whose key the list holds, each once.
pub proof fn lemma_subscribers_in(records: Seq<SubscriptionInformationView>, topic: UriView)
    requires
        distinct_keys(records),
    ensures
        subscribers_in(records, topic).no_duplicates(),
        forall|s: SubscriberInfoView|
            subscribers_in(records, topic).contains(s) <==> exists|j: int|
                0 <= j < records.len() && #[trigger] record_key(records[j]) == (topic, s.uri),
    decreases records.len(),
{
    if records.len() > 0 {
        let before = records.drop_last();
        let last = records.last();
        lemma_distinct_drop_last(records);
        lemma_subscribers_in(before, topic);
        let b = subscribers_in(before, topic);
        let r = subscribers_in(records, topic);
        if last.topic == topic {
            assert(!b.contains(last.subscriber)) by {
                if b.contains(last.subscriber) {
                    let j = choose|j: int|
                        0 <= j < before.len() && #[trigger] record_key(before[j]) == (
                            topic,
                            last.subscriber.uri,
                        );
                    assert(record_key(records[j]) != record_key(records[records.len() - 1]));
                }
            }
            assert forall|x: int, y: int| 0 <= x < r.len() && 0 <= y < r.len() && x != y implies r[x]
                != r[y] by {
                if x < b.len() && y < b.len() {
                    assert(b[x] != b[y]);
                } else if x < b.len() {
                    assert(b.contains(b[x]));
                } else {
                    assert(b.contains(b[y]));
                }
            }
        }
        assert forall|s: SubscriberInfoView|
            r.contains(s) <==> exists|j: int|
                0 <= j < records.len() && #[trigger] record_key(records[j]) == (topic, s.uri) by {
            if r.contains(s) {
                let x = choose|x: int| 0 <= x < r.len() && r[x] == s;
                if x < b.len() {
                    assert(b[x] == s);
                    assert(b.contains(s));
                    let j = choose|j: int|
                        0 <= j < before.len() && #[trigger] record_key(before[j]) == (topic, s.uri);
                    assert(record_key(records[j]) == (topic, s.uri));
                } else {
                    assert(record_key(records[records.len() - 1]) == (topic, s.uri));
                }
            }
            if exists|j: int|
                0 <= j < records.len() && #[trigger] record_key(records[j]) == (topic, s.uri) {
                let j = choose|j: int|
                    0 <= j < records.len() && #[trigger] record_key(records[j]) == (topic, s.uri);
                if j < before.len() {
                    assert(record_key(before[j]) == (topic, s.uri));
                    assert(b.contains(s));
                    let x = choose|x: int| 0 <= x < b.len() && b[x] == s;
                    assert(r[x] == s);
                } else {
                    assert(r[r.len() - 1] == s);
                }
            }
        }
    }
}

/// The keys of a snapshot are those for which one of the reported
/// subscriptions stands.
pub proof fn lemma_snapshot_dom(subscriptions: Seq<SubscriptionView>)
    ensures
        forall|key: (UriView, UriView)|
            snapshot(subscriptions).dom().contains(key) <==> exists|n: int|
                reports_at(subscriptions, n, key),
    decreases subscriptions.len(),
{
    if subscriptions.len() > 0 {
        let before = subscriptions.drop_last();
        lemma_snapshot_dom(before);
        assert forall|key: (UriView, UriView)|
            snapshot(subscriptions).dom().contains(key) <==> exists|n: int|
                reports_at(subscriptions, n, key) by {
            if snapshot(subscriptions).dom().contains(key) {
                if snapshot(before).dom().contains(key) {
                    let n = choose|n: int| reports_at(before, n, key);
                    assert(before[n] == subscriptions[n]);
                    assert(reports_at(subscriptions, n, key));
                } else {
                    assert(reports_at(subscriptions, subscriptions.len() - 1, key));
                }
            }
            if exists|n: int| reports_at(subscriptions, n, key) {
                let n = choose|n: int| reports_at(subscriptions, n, key);
                if n < before.len() {
                    assert(before[n] == subscriptions[n]);
                    assert(reports_at(before, n, key));
                    assert(snapshot(before).dom().contains(key));
                } else {
                    assert(subscriptions[n] == subscriptions.last());
                }
            }
        }
    }
}

} // verus!
