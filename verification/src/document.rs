//! What a static subscription document declares.
//!
//! The document is a JSON object. Each key spells a topic address and each
//! value is an array whose elements spell subscriber addresses:
//!
//! ```json
//! { "//topic_authority/1236/1/8001": [ "//subscriber_authority/1234/1/0" ] }
//! ```
//!
//! A key or an element that does not spell an address is left out; the rest
//! of the document still counts.

use crate::json::JsonView;
use crate::subscription::{Subscription, SubscriptionView};
use crate::uri::{uri_from_str, TopicNormalization, Uri, UriView};
use vstd::prelude::*;

verus! {

/// The addresses in `uris`, each taken by its value.
pub open spec fn uri_views(uris: Seq<Uri>) -> Seq<UriView> {
    Seq::new(uris.len(), |i: int| uris[i]@)
}

/// The address that an array element spells, if it is a string that spells
/// one.
pub open spec fn element_uri(element: JsonView) -> Option<UriView> {
    match element.text() {
        Some(text) => uri_from_str(text),
        None => None,
    }
}

/// The addresses that `elements` spell, in their order. Elements that spell
/// none are left out.
pub open spec fn spelled_uris(elements: Seq<JsonView>) -> Seq<UriView>
    decreases elements.len(),
{
    if elements.len() == 0 {
        Seq::empty()
    } else {
        let before = spelled_uris(elements.drop_last());
        match element_uri(elements.last()) {
            Some(uri) => before.push(uri),
            None => before,
        }
    }
}

/// `uris` without repetitions: each address stands where it first occurs.
pub open spec fn distinct(uris: Seq<UriView>) -> Seq<UriView>
    decreases uris.len(),
{
    if uris.len() == 0 {
        Seq::empty()
    } else {
        let before = distinct(uris.drop_last());
        if before.contains(uris.last()) {
            before
        } else {
            before.push(uris.last())
        }
    }
}

/// The subscribers that the value of one member declares.
pub open spec fn member_subscribers(value: JsonView) -> Seq<UriView> {
    distinct(spelled_uris(value.elements()))
}

/// The topic that the key of one member declares under `rule`, if the key
/// spells an address.
pub open spec fn member_topic(rule: TopicNormalization, key: Seq<char>) -> Option<UriView> {
    match uri_from_str(key) {
        Some(topic) => Some(rule.apply(topic)),
        None => None,
    }
}

/// The subscriptions that one member declares: one for each of its
/// subscribers, or none where its key spells no address.
pub open spec fn member_subscriptions(
    rule: TopicNormalization,
    key: Seq<char>,
    value: JsonView,
) -> Seq<SubscriptionView> {
    match member_topic(rule, key) {
        Some(topic) => {
            let subscribers = member_subscribers(value);
            Seq::new(
                subscribers.len(),
                |i: int| Subscription::spec_declared(topic, subscribers[i]),
            )
        },
        None => Seq::empty(),
    }
}

/// The subscriptions that `members` declare, member after member.
pub open spec fn declared_subscriptions(
    rule: TopicNormalization,
    members: Seq<(Seq<char>, JsonView)>,
) -> Seq<SubscriptionView>
    decreases members.len(),
{
    if members.len() == 0 {
        Seq::empty()
    } else {
        declared_subscriptions(rule, members.drop_last()) + member_subscriptions(
            rule,
            members.last().0,
            members.last().1,
        )
    }
}

/// Whether the `k`-th element of `elements` spells the address `uri`.
pub open spec fn spells_at(elements: Seq<JsonView>, k: int, uri: UriView) -> bool {
    0 <= k < elements.len() && element_uri(elements[k]) == Some(uri)
}

/// Whether the `k`-th element of the `i`-th member of `members` declares
/// that `subscriber` subscribes to `topic`.
pub open spec fn declares_at(
    rule: TopicNormalization,
    members: Seq<(Seq<char>, JsonView)>,
    i: int,
    k: int,
    topic: UriView,
    subscriber: UriView,
) -> bool {
    &&& 0 <= i < members.len()
    &&& member_topic(rule, members[i].0) == Some(topic)
    &&& spells_at(members[i].1.elements(), k, subscriber)
}

/// Whether `members` declare that `subscriber` subscribes to `topic`: some
/// member has a key that spells `topic`, up to `rule`, and an array with an
/// element that spells `subscriber`.
pub open spec fn declares(
    rule: TopicNormalization,
    members: Seq<(Seq<char>, JsonView)>,
    topic: UriView,
    subscriber: UriView,
) -> bool {
    exists|i: int, k: int| declares_at(rule, members, i, k, topic, subscriber)
}

/// The entries in `entries`, each taken by its value: a topic and its
/// subscribers.
pub open spec fn entry_views(entries: Seq<(Uri, Vec<Uri>)>) -> Seq<(UriView, Seq<UriView>)> {
    Seq::new(entries.len(), |i: int| (entries[i].0@, uri_views(entries[i].1@)))
}

/// No two entries of `entries` stand under the same topic.
pub open spec fn distinct_topics(entries: Seq<(UriView, Seq<UriView>)>) -> bool {
    forall|i: int, j: int|
        0 <= i < j < entries.len() ==> (#[trigger] entries[i]).0 != (#[trigger] entries[j]).0
}

/// The map that results from putting the entries of `entries` in, one after
/// the other.
pub open spec fn topics_map(entries: Seq<(UriView, Seq<UriView>)>) -> Map<UriView, Seq<UriView>>
    decreases entries.len(),
{
    if entries.len() == 0 {
        Map::empty()
    } else {
        topics_map(entries.drop_last()).insert(entries.last().0, entries.last().1)
    }
}

/// The subscribers of each topic as `members` declare them, member after
/// member: of two members that declare the same topic, the later one stays.
pub open spec fn declared_topics(rule: TopicNormalization, members: Seq<(Seq<char>, JsonView)>) -> Map<
    UriView,
    Seq<UriView>,
>
    decreases members.len(),
{
    if members.len() == 0 {
        Map::empty()
    } else {
        let before = declared_topics(rule, members.drop_last());
        match member_topic(rule, members.last().0) {
            Some(topic) => before.insert(topic, member_subscribers(members.last().1)),
            None => before,
        }
    }
}

/// How many of `elements` spell no address.
pub open spec fn rejected_elements(elements: Seq<JsonView>) -> nat
    decreases elements.len(),
{
    if elements.len() == 0 {
        0
    } else {
        rejected_elements(elements.drop_last()) + if element_uri(elements.last()) is None {
            1nat
        } else {
            0nat
        }
    }
}

/// How many keys of `members` spell no address.
pub open spec fn rejected_keys(members: Seq<(Seq<char>, JsonView)>) -> nat
    decreases members.len(),
{
    if members.len() == 0 {
        0
    } else {
        rejected_keys(members.drop_last()) + if uri_from_str(members.last().0) is None {
            1nat
        } else {
            0nat
        }
    }
}

/// How many array elements of all the members of `members` spell no
/// address.
pub open spec fn rejected_elements_of(members: Seq<(Seq<char>, JsonView)>) -> nat
    decreases members.len(),
{
    if members.len() == 0 {
        0
    } else {
        rejected_elements_of(members.drop_last()) + rejected_elements(members.last().1.elements())
    }
}

/// `n`, or the largest `usize` where `n` is larger.
pub open spec fn capped(n: nat) -> usize {
    if n <= usize::MAX {
        n as usize
    } else {
        usize::MAX
    }
}

/// The addresses that `elements` spell are those that one of them spells.
pub proof fn lemma_spelled_uris(elements: Seq<JsonView>)
    ensures
        forall|uri: UriView|
            spelled_uris(elements).contains(uri) <==> exists|k: int| spells_at(elements, k, uri),
    decreases elements.len(),
{
    if elements.len() > 0 {
        let before = elements.drop_last();
        lemma_spelled_uris(before);
        let b = spelled_uris(before);
        let r = spelled_uris(elements);
        assert forall|uri: UriView|
            r.contains(uri) <==> exists|k: int| spells_at(elements, k, uri) by {
            if r.contains(uri) {
                let x = choose|x: int| 0 <= x < r.len() && r[x] == uri;
                if x < b.len() {
                    assert(b[x] == uri);
                    assert(b.contains(uri));
                    let k = choose|k: int| spells_at(before, k, uri);
                    assert(spells_at(elements, k, uri));
                } else {
                    assert(spells_at(elements, elements.len() - 1, uri));
                }
            }
            if exists|k: int| spells_at(elements, k, uri) {
                let k = choose|k: int| spells_at(elements, k, uri);
                if k < before.len() {
                    assert(spells_at(before, k, uri));
                    assert(b.contains(uri));
                    let x = choose|x: int| 0 <= x < b.len() && b[x] == uri;
                    assert(r[x] == uri);
                } else {
                    assert(r[r.len() - 1] == uri);
                }
            }
        }
    }
}

/// Leaving repetitions out keeps every address, each once.
pub proof fn lemma_distinct(uris: Seq<UriView>)
    ensures
        distinct(uris).no_duplicates(),
        forall|uri: UriView| distinct(uris).contains(uri) <==> uris.contains(uri),
    decreases uris.len(),
{
    if uris.len() > 0 {
        let before = uris.drop_last();
        lemma_distinct(before);
        let b = distinct(before);
        let r = distinct(uris);
        assert forall|uri: UriView| r.contains(uri) <==> uris.contains(uri) by {
            if r.contains(uri) {
                let x = choose|x: int| 0 <= x < r.len() && r[x] == uri;
                if x < b.len() {
                    assert(b[x] == uri);
                    assert(b.contains(uri));
                    assert(before.contains(uri));
                    let y = choose|y: int| 0 <= y < before.len() && before[y] == uri;
                    assert(uris[y] == uri);
                } else {
                    assert(uris[uris.len() - 1] == uri);
                }
            }
            if uris.contains(uri) {
                let y = choose|y: int| 0 <= y < uris.len() && uris[y] == uri;
                if y < before.len() {
                    assert(before[y] == uri);
                    assert(before.contains(uri));
                    assert(b.contains(uri));
                }
                if b.contains(uri) {
                    let x = choose|x: int| 0 <= x < b.len() && b[x] == uri;
                    assert(r[x] == uri);
                } else {
                    assert(r[r.len() - 1] == uri);
                }
            }
        }
        if !b.contains(uris.last()) {
            assert forall|x: int, y: int| 0 <= x < r.len() && 0 <= y < r.len() && x != y implies r[x]
                != r[y] by {
                if x < b.len() && y < b.len() {
                    assert(b[x] != b[y]);
                } else if x < b.len() {
                    assert(b.contains(b[x]));
                } else {
                    assert(b.contains(b[y]));
                }
            }
        }
    }
}

/// The subscriptions that `members` declare are those that one member
/// declares.
pub proof fn lemma_declared_subscriptions(rule: TopicNormalization, members: Seq<(Seq<char>, JsonView)>)
    ensures
        forall|subscription: SubscriptionView|
            declared_subscriptions(rule, members).contains(subscription) <==> exists|i: int|
                0 <= i < members.len() && #[trigger] member_subscriptions(
                    rule,
                    members[i].0,
                    members[i].1,
                ).contains(subscription),
    decreases members.len(),
{
    if members.len() > 0 {
        let before = members.drop_last();
        lemma_declared_subscriptions(rule, before);
        let b = declared_subscriptions(rule, before);
        let m = member_subscriptions(rule, members.last().0, members.last().1);
        let r = declared_subscriptions(rule, members);
        assert forall|subscription: SubscriptionView|
            r.contains(subscription) <==> exists|i: int|
                0 <= i < members.len() && #[trigger] member_subscriptions(
                    rule,
                    members[i].0,
                    members[i].1,
                ).contains(subscription) by {
            if r.contains(subscription) {
                let x = choose|x: int| 0 <= x < r.len() && r[x] == subscription;
                if x < b.len() {
                    assert(b[x] == subscription);
                    assert(b.contains(subscription));
                    let i = choose|i: int|
                        0 <= i < before.len() && #[trigger] member_subscriptions(
                            rule,
                            before[i].0,
                            before[i].1,
                        ).contains(subscription);
                    assert(member_subscriptions(rule, members[i].0, members[i].1).contains(
                        subscription,
                    ));
                } else {
                    assert(m[x - b.len()] == subscription);
                    assert(member_subscriptions(
                        rule,
                        members[members.len() - 1].0,
                        members[members.len() - 1].1,
                    ).contains(subscription));
                }
            }
            if exists|i: int|
                0 <= i < members.len() && #[trigger] member_subscriptions(
                    rule,
                    members[i].0,
                    members[i].1,
                ).contains(subscription) {
                let i = choose|i: int|
                    0 <= i < members.len() && #[trigger] member_subscriptions(
                        rule,
                        members[i].0,
                        members[i].1,
                    ).contains(subscription);
                if i < before.len() {
                    assert(member_subscriptions(rule, before[i].0, before[i].1).contains(
                        subscription,
                    ));
                    assert(b.contains(subscription));
                    let x = choose|x: int| 0 <= x < b.len() && b[x] == subscription;
                    assert(r[x] == subscription);
                } else {
                    let y = choose|y: int| 0 <= y < m.len() && m[y] == subscription;
                    assert(r[b.len() + y] == subscription);
                }
            }
        }
    }
}

/// Giving an entry other subscribers is putting its topic in again.
pub proof fn lemma_topics_map_update(
    entries: Seq<(UriView, Seq<UriView>)>,
    j: int,
    subscribers: Seq<UriView>,
)
    requires
        distinct_topics(entries),
        0 <= j < entries.len(),
    ensures
        distinct_topics(entries.update(j, (entries[j].0, subscribers))),
        topics_map(entries.update(j, (entries[j].0, subscribers))) == topics_map(entries).insert(
            entries[j].0,
            subscribers,
        ),
    decreases entries.len(),
{
    let updated = entries.update(j, (entries[j].0, subscribers));
    assert forall|a: int, b: int| 0 <= a < b < updated.len() implies (#[trigger] updated[a]).0 != (
    #[trigger] updated[b]).0 by {
        assert(entries[a].0 != entries[b].0);
    }
    let before = entries.drop_last();
    if j == entries.len() - 1 {
        assert(updated.drop_last() =~= before);
        assert(topics_map(updated) =~= topics_map(entries).insert(entries[j].0, subscribers));
    } else {
        assert forall|a: int, b: int| 0 <= a < b < before.len() implies (#[trigger] before[a]).0 != (
        #[trigger] before[b]).0 by {
            assert(entries[a].0 != entries[b].0);
        }
        lemma_topics_map_update(before, j, subscribers);
        assert(updated.drop_last() =~= before.update(j, (entries[j].0, subscribers)));
        assert(updated.last() == entries.last());
        assert(entries[j].0 != entries[entries.len() - 1].0);
        assert(topics_map(updated) =~= topics_map(entries).insert(entries[j].0, subscribers));
    }
}

} // verus!
