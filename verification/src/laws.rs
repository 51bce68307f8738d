//! Laws of the forwarding engine: what holds of every router, cache and
//! message, proved from the definitions that the contracts use.

use crate::cache::{
    has_subscribers, lemma_snapshot_dom, record_key, record_of, reports_at, snapshot,
    subscribers_of, CacheView,
};
use crate::document::{
    declared_subscriptions, declares, declares_at, lemma_declared_subscriptions, lemma_distinct,
    lemma_spelled_uris, member_subscribers, member_subscriptions, member_topic, spelled_uris,
    spells_at,
};
use crate::endpoint::EndpointView;
use crate::json::JsonView;
use crate::message::{MessageKind, MessageView};
use crate::router::{
    active_listeners, added, decide, decide_at, outgoing, pair_active, removed, runs_between,
    unique_active, DispatchView, DropReason, RuleView,
};
use crate::subscription::{SubscriberInfoView, Subscription, SubscriptionInformationView};
use crate::uri::{TopicNormalization, UriView};
use vstd::prelude::*;

verus! {

/// Asking for a rule never makes two running rules for one pair.
pub proof fn law_adding_keeps_rules_unique(
    rules: Seq<RuleView>,
    source: EndpointView,
    destination: EndpointView,
)
    requires
        unique_active(rules),
    ensures
        unique_active(added(rules, source, destination)),
        pair_active(added(rules, source, destination), source, destination),
{
    let after = added(rules, source, destination);
    if pair_active(rules, source, destination) {
    } else {
        assert(runs_between(after, rules.len() as int, source, destination));
        assert forall|i: int, j: int|
            0 <= i < j < after.len() && (#[trigger] after[i]).running && (
            #[trigger] after[j]).running implies !(after[i].source == after[j].source
            && after[i].destination == after[j].destination) by {
            if j < rules.len() {
                assert(rules[i].running && rules[j].running);
            } else {
                assert(!runs_between(rules, i, source, destination));
            }
        }
    }
}

/// Adding the same rule twice: the second call finds the rule active, so it
/// is refused and changes nothing, and exactly one listener is active for
/// the pair.
pub proof fn law_second_add_is_refused(
    rules: Seq<RuleView>,
    source: EndpointView,
    destination: EndpointView,
)
    requires
        unique_active(rules),
    ensures
        pair_active(added(rules, source, destination), source, destination),
        added(added(rules, source, destination), source, destination) == added(
            rules,
            source,
            destination,
        ),
        active_listeners(added(rules, source, destination), source, destination).finite(),
        active_listeners(added(rules, source, destination), source, destination).len() == 1,
{
    let once = added(rules, source, destination);
    law_adding_keeps_rules_unique(rules, source, destination);
    let i = choose|i: int| runs_between(once, i, source, destination);
    let listeners = active_listeners(once, source, destination);
    assert forall|j: int| listeners.contains(j) implies j == i by {
        if j < i {
            assert(once[j].running && once[i].running);
        } else if i < j {
            assert(once[i].running && once[j].running);
        }
    }
    assert(listeners =~= Set::<int>::empty().insert(i));
}

/// Asking for a rule changes nothing for any other pair of endpoints: a
/// rule in one direction never stands in the way of the rule in the other.
pub proof fn law_pairs_are_independent(
    rules: Seq<RuleView>,
    source: EndpointView,
    destination: EndpointView,
    other_source: EndpointView,
    other_destination: EndpointView,
)
    requires
        !(source == other_source && destination == other_destination),
    ensures
        pair_active(added(rules, source, destination), other_source, other_destination)
            == pair_active(rules, other_source, other_destination),
{
    let after = added(rules, source, destination);
    if pair_active(rules, other_source, other_destination) {
        let i = choose|i: int| runs_between(rules, i, other_source, other_destination);
        assert(runs_between(after, i, other_source, other_destination));
    }
    if pair_active(after, other_source, other_destination) {
        let i = choose|i: int| runs_between(after, i, other_source, other_destination);
        assert(runs_between(rules, i, other_source, other_destination));
    }
}

/// A publication on a topic for which the cache knows no subscriber is
/// never sent: it is dropped under every rule, and under a running rule for
/// want of subscribers.
pub proof fn law_publication_without_subscribers_is_dropped(
    rule: RuleView,
    cache: CacheView,
    message: MessageView,
)
    requires
        message.kind == MessageKind::Publish,
        subscribers_of(cache, message.source) == Set::<SubscriberInfoView>::empty(),
    ensures
        decide(rule, cache, message) is Dropped,
        rule.running ==> decide(rule, cache, message) == DispatchView::Dropped(
            DropReason::NoSubscribers,
        ),
{
    assert(!has_subscribers(cache, message.source));
}

/// A request that does not come from the authority of the destination is
/// sent on under every running rule, whatever the cache knows.
pub proof fn law_request_is_forwarded(rule: RuleView, cache: CacheView, message: MessageView)
    requires
        rule.running,
        message.kind == MessageKind::Request,
        message.source.authority_name != rule.destination.authority,
    ensures
        decide(rule, cache, message) == (DispatchView::Forward {
            transport: rule.destination.transport,
            message: outgoing(rule.destination, message),
        }),
{
}

/// What is sent on keeps its sink, its kind, its time to live and its
/// payload, and all of its source but the authority.
pub proof fn law_outgoing_keeps_addressing(destination: EndpointView, message: MessageView)
    ensures
        outgoing(destination, message).sink == message.sink,
        outgoing(destination, message).kind == message.kind,
        outgoing(destination, message).ttl == message.ttl,
        outgoing(destination, message).payload == message.payload,
        outgoing(destination, message).source.ue_id == message.source.ue_id,
        outgoing(destination, message).source.ue_version_major == message.source.ue_version_major,
        outgoing(destination, message).source.resource_id == message.source.resource_id,
        outgoing(destination, message).well_formed() == message.well_formed(),
{
}

/// Once a rule is removed, no message is forwarded under it, and removing
/// it again changes nothing.
pub proof fn law_removed_rule_forwards_nothing(
    rules: Seq<RuleView>,
    index: int,
    cache: CacheView,
    message: MessageView,
)
    ensures
        decide_at(removed(rules, index), index, cache, message) == DispatchView::Dropped(
            DropReason::RuleNotRunning,
        ),
        removed(removed(rules, index), index) == removed(rules, index),
        unique_active(rules) ==> unique_active(removed(rules, index)),
{
    let after = removed(rules, index);
    if unique_active(rules) {
        assert forall|i: int, j: int|
            0 <= i < j < after.len() && (#[trigger] after[i]).running && (
            #[trigger] after[j]).running implies !(after[i].source == after[j].source
            && after[i].destination == after[j].destination) by {
            assert(rules[i].running && rules[j].running);
        }
    }
}

/// Removing one rule leaves every other rule as it was.
pub proof fn law_removal_touches_one_rule(rules: Seq<RuleView>, index: int, other: int)
    requires
        other != index,
        0 <= other < rules.len(),
    ensures
        removed(rules, index).len() == rules.len(),
        removed(rules, index)[other] == rules[other],
{
}

/// The subscribers that a document declares for `topic`.
pub open spec fn declared_subscribers(
    rule: TopicNormalization,
    members: Seq<(Seq<char>, JsonView)>,
    topic: UriView,
) -> Set<SubscriberInfoView> {
    Set::new(|subscriber: SubscriberInfoView| declares(rule, members, topic, subscriber.uri))
}

/// A cache that was refreshed from a document knows for every topic exactly
/// the subscribers that the document declares for it, however often the
/// document repeats one.
pub proof fn law_refresh_then_fetch(
    rule: TopicNormalization,
    members: Seq<(Seq<char>, JsonView)>,
    topic: UriView,
)
    ensures
        subscribers_of(snapshot(declared_subscriptions(rule, members)), topic)
            == declared_subscribers(rule, members, topic),
{
    let declared = declared_subscriptions(rule, members);
    let known = subscribers_of(snapshot(declared), topic);
    lemma_snapshot_dom(declared);
    lemma_declared_subscriptions(rule, members);
    assert forall|s: SubscriberInfoView|
        known.contains(s) <==> declared_subscribers(rule, members, topic).contains(s) by {
        let key = (topic, s.uri);
        if known.contains(s) {
            let n = choose|n: int| reports_at(declared, n, key);
            let subscription = declared[n];
            assert(declared.contains(subscription));
            let i = choose|i: int|
                0 <= i < members.len() && #[trigger] member_subscriptions(
                    rule,
                    members[i].0,
                    members[i].1,
                ).contains(subscription);
            let of_member = member_subscriptions(rule, members[i].0, members[i].1);
            let m = choose|m: int| 0 <= m < of_member.len() && of_member[m] == subscription;
            let subscribers = member_subscribers(members[i].1);
            assert(member_topic(rule, members[i].0) is Some);
            let t = member_topic(rule, members[i].0).unwrap();
            assert(subscription == Subscription::spec_declared(t, subscribers[m]));
            assert(t == topic && subscribers[m] == s.uri);
            assert(subscribers.contains(s.uri));
            lemma_distinct(spelled_uris(members[i].1.elements()));
            lemma_spelled_uris(members[i].1.elements());
            assert(spelled_uris(members[i].1.elements()).contains(s.uri));
            let k = choose|k: int| spells_at(members[i].1.elements(), k, s.uri);
            assert(declares_at(rule, members, i, k, topic, s.uri));
        }
        if declares(rule, members, topic, s.uri) {
            let (i, k) = choose|i: int, k: int| declares_at(rule, members, i, k, topic, s.uri);
            lemma_spelled_uris(members[i].1.elements());
            lemma_distinct(spelled_uris(members[i].1.elements()));
            let subscribers = member_subscribers(members[i].1);
            assert(spelled_uris(members[i].1.elements()).contains(s.uri));
            assert(subscribers.contains(s.uri));
            let m = choose|m: int| 0 <= m < subscribers.len() && subscribers[m] == s.uri;
            let of_member = member_subscriptions(rule, members[i].0, members[i].1);
            let subscription = Subscription::spec_declared(topic, s.uri);
            assert(of_member[m] == subscription);
            assert(of_member.contains(subscription));
            assert(declared.contains(subscription));
            let n = choose|n: int| 0 <= n < declared.len() && declared[n] == subscription;
            assert(record_of(subscription) is Some);
            assert(record_key(record_of(subscription).unwrap()) == key);
            assert(reports_at(declared, n, key));
        }
    }
    assert(known =~= declared_subscribers(rule, members, topic));
}

/// After a subscription is recorded, its subscriber is known for its topic;
/// for every other topic the cache knows whom it knew.
pub proof fn law_upsert_then_fetch(
    cache: CacheView,
    topic: UriView,
    record: SubscriptionInformationView,
    other: UriView,
)
    requires
        other != topic,
    ensures
        subscribers_of(cache.insert((topic, record.subscriber.uri), record), topic)
            == subscribers_of(cache, topic).insert(record.subscriber),
        subscribers_of(cache.insert((topic, record.subscriber.uri), record), other)
            == subscribers_of(cache, other),
{
    let after = cache.insert((topic, record.subscriber.uri), record);
    assert(subscribers_of(after, topic) =~= subscribers_of(cache, topic).insert(
        record.subscriber,
    ));
    assert(subscribers_of(after, other) =~= subscribers_of(cache, other));
}

/// After a subscription is forgotten, its subscriber is no longer known for
/// its topic, and nothing else changes: once the last subscriber of a topic
/// is forgotten, publications on it are dropped.
pub proof fn law_remove_then_fetch(
    cache: CacheView,
    topic: UriView,
    subscriber: UriView,
    other: UriView,
)
    requires
        other != topic,
    ensures
        subscribers_of(cache.remove((topic, subscriber)), topic) == subscribers_of(
            cache,
            topic,
        ).remove(SubscriberInfoView { uri: subscriber }),
        subscribers_of(cache.remove((topic, subscriber)), other) == subscribers_of(cache, other),
        subscribers_of(cache, topic) == Set::<SubscriberInfoView>::empty().insert(
            SubscriberInfoView { uri: subscriber },
        ) ==> !has_subscribers(cache.remove((topic, subscriber)), topic),
{
    let after = cache.remove((topic, subscriber));
    let gone = SubscriberInfoView { uri: subscriber };
    assert(subscribers_of(after, topic) =~= subscribers_of(cache, topic).remove(gone));
    assert(subscribers_of(after, other) =~= subscribers_of(cache, other));
    if subscribers_of(cache, topic) == Set::<SubscriberInfoView>::empty().insert(gone) {
        assert forall|s: SubscriberInfoView| !subscribers_of(after, topic).contains(s) by {
            if s != gone {
                assert(!subscribers_of(cache, topic).contains(s));
            }
        }
    }
}

} // verus!
