//! Subscription records: who wants which topic, and in what state.

use crate::uri::{Uri, UriView};
use vstd::prelude::*;

verus! {

/// Where a subscription of one subscriber to one topic stands.
#[derive(Clone, Copy, Debug, PartialEq, Eq, Structural)]
pub enum SubscriptionState {
    Unsubscribed,
    SubscribePending,
    Subscribed,
    UnsubscribePending,
}

pub struct SubscriptionStatusView {
    pub state: SubscriptionState,
    pub message: Seq<char>,
}

/// The state of a subscription and a message that explains it.
#[derive(Debug)]
pub struct SubscriptionStatus {
    pub state: SubscriptionState,
    pub message: String,
}

impl View for SubscriptionStatus {
    type V = SubscriptionStatusView;

    open spec fn view(&self) -> SubscriptionStatusView {
        SubscriptionStatusView { state: self.state, message: self.message@ }
    }
}

impl Clone for SubscriptionStatus {
    fn clone(&self) -> (r: Self)
        ensures
            r == *self,
    {
        SubscriptionStatus { state: self.state, message: self.message.clone() }
    }
}

impl Default for SubscriptionStatus {
    fn default() -> (r: Self)
        ensures
            r@ == SubscriptionStatus::spec_unset(),
    {
        SubscriptionStatus { state: SubscriptionState::Unsubscribed, message: String::new() }
    }
}

impl SubscriptionStatus {
    /// The status of a record that carries none: not subscribed, no message.
    pub open spec fn spec_unset() -> SubscriptionStatusView {
        SubscriptionStatusView { state: SubscriptionState::Unsubscribed, message: Seq::empty() }
    }

    /// The status of an established subscription, as a static document
    /// declares it.
    pub open spec fn spec_subscribed() -> SubscriptionStatusView {
        SubscriptionStatusView { state: SubscriptionState::Subscribed, message: Seq::empty() }
    }

    pub fn subscribed() -> (r: Self)
        ensures
            r@ == SubscriptionStatus::spec_subscribed(),
    {
        SubscriptionStatus { state: SubscriptionState::Subscribed, message: String::new() }
    }
}

/// Delivery hints that a subscriber gave. They are carried along and never
/// read by a routing decision.
#[derive(Clone, Copy, Debug, PartialEq, Eq, Structural)]
pub struct SubscribeAttributes {
    /// When the subscription expires, in seconds since the epoch.
    pub expire: Option<u64>,
    /// The sampling period that the subscriber wishes for, in milliseconds.
    pub sample_period_ms: Option<u32>,
}

impl Default for SubscribeAttributes {
    fn default() -> (r: Self)
        ensures
            r == SubscribeAttributes::spec_unset(),
    {
        SubscribeAttributes { expire: None, sample_period_ms: None }
    }
}

impl SubscribeAttributes {
    pub open spec fn spec_unset() -> SubscribeAttributes {
        SubscribeAttributes { expire: None, sample_period_ms: None }
    }
}

pub struct EventDeliveryConfigView {
    pub id: Seq<char>,
    pub delivery_type: Seq<char>,
}

/// How events reach a subscriber. Carried along and never read by a routing
/// decision.
#[derive(Debug)]
pub struct EventDeliveryConfig {
    pub id: String,
    pub delivery_type: String,
}

impl View for EventDeliveryConfig {
    type V = EventDeliveryConfigView;

    open spec fn view(&self) -> EventDeliveryConfigView {
        EventDeliveryConfigView { id: self.id@, delivery_type: self.delivery_type@ }
    }
}

impl Clone for EventDeliveryConfig {
    fn clone(&self) -> (r: Self)
        ensures
            r == *self,
    {
        EventDeliveryConfig { id: self.id.clone(), delivery_type: self.delivery_type.clone() }
    }
}

impl Default for EventDeliveryConfig {
    fn default() -> (r: Self)
        ensures
            r@ == EventDeliveryConfig::spec_unset(),
    {
        EventDeliveryConfig { id: String::new(), delivery_type: String::new() }
    }
}

impl EventDeliveryConfig {
    pub open spec fn spec_unset() -> EventDeliveryConfigView {
        EventDeliveryConfigView { id: Seq::empty(), delivery_type: Seq::empty() }
    }
}

pub struct SubscriberInfoView {
    pub uri: UriView,
}

/// A subscriber, identified by its address.
#[derive(Debug)]
pub struct SubscriberInfo {
    pub uri: Uri,
}

impl View for SubscriberInfo {
    type V = SubscriberInfoView;

    open spec fn view(&self) -> SubscriberInfoView {
        SubscriberInfoView { uri: self.uri@ }
    }
}

impl Clone for SubscriberInfo {
    fn clone(&self) -> (r: Self)
        ensures
            r == *self,
    {
        SubscriberInfo { uri: self.uri.clone() }
    }
}

impl PartialEq for SubscriberInfo {
    fn eq(&self, other: &Self) -> (r: bool) {
        self.uri.same(&other.uri)
    }
}

impl Eq for SubscriberInfo {

}

impl vstd::std_specs::cmp::PartialEqSpecImpl for SubscriberInfo {
    open spec fn obeys_eq_spec() -> bool {
        true
    }

    open spec fn eq_spec(&self, other: &Self) -> bool {
        self@ == other@
    }
}

pub struct SubscriptionView {
    pub topic: Option<UriView>,
    pub subscriber: Option<SubscriberInfoView>,
    pub status: Option<SubscriptionStatusView>,
    pub attributes: Option<SubscribeAttributes>,
    pub config: Option<EventDeliveryConfigView>,
}

/// One subscription as a subscription source reports it. Any part may be
/// missing.
#[derive(Debug)]
pub struct Subscription {
    pub topic: Option<Uri>,
    pub subscriber: Option<SubscriberInfo>,
    pub status: Option<SubscriptionStatus>,
    pub attributes: Option<SubscribeAttributes>,
    pub config: Option<EventDeliveryConfig>,
}

impl View for Subscription {
    type V = SubscriptionView;

    open spec fn view(&self) -> SubscriptionView {
        SubscriptionView {
            topic: match self.topic {
                Some(topic) => Some(topic@),
                None => None,
            },
            subscriber: match self.subscriber {
                Some(subscriber) => Some(subscriber@),
                None => None,
            },
            status: match self.status {
                Some(status) => Some(status@),
                None => None,
            },
            attributes: self.attributes,
            config: match self.config {
                Some(config) => Some(config@),
                None => None,
            },
        }
    }
}

impl Clone for Subscription {
    fn clone(&self) -> (r: Self)
        ensures
            r == *self,
    {
        Subscription {
            topic: match &self.topic {
                Some(topic) => Some(topic.clone()),
                None => None,
            },
            subscriber: match &self.subscriber {
                Some(subscriber) => Some(subscriber.clone()),
                None => None,
            },
            status: match &self.status {
                Some(status) => Some(status.clone()),
                None => None,
            },
            attributes: self.attributes,
            config: match &self.config {
                Some(config) => Some(config.clone()),
                None => None,
            },
        }
    }
}

impl Subscription {
    /// The subscription of `subscriber` to `topic` that a static document
    /// declares: established, with no hints and no delivery configuration.
    pub open spec fn spec_declared(topic: UriView, subscriber: UriView) -> SubscriptionView {
        SubscriptionView {
            topic: Some(topic),
            subscriber: Some(SubscriberInfoView { uri: subscriber }),
            status: Some(SubscriptionStatus::spec_subscribed()),
            attributes: None,
            config: None,
        }
    }

    pub fn declared(topic: Uri, subscriber: Uri) -> (r: Subscription)
        ensures
            r@ == Subscription::spec_declared(topic@, subscriber@),
    {
        Subscription {
            topic: Some(topic),
            subscriber: Some(SubscriberInfo { uri: subscriber }),
            status: Some(SubscriptionStatus::subscribed()),
            attributes: None,
            config: None,
        }
    }
}

/// The subscriptions in `subscriptions`, each taken by its value.
pub open spec fn subscription_views(subscriptions: Seq<Subscription>) -> Seq<SubscriptionView> {
    Seq::new(subscriptions.len(), |i: int| subscriptions[i]@)
}

/// What a subscription source answers: the subscriptions it knows, in its
/// order.
#[derive(Debug)]
pub struct FetchSubscriptionsResponse {
    pub subscriptions: Vec<Subscription>,
}

impl View for FetchSubscriptionsResponse {
    type V = Seq<SubscriptionView>;

    open spec fn view(&self) -> Seq<SubscriptionView> {
        subscription_views(self.subscriptions@)
    }
}

pub struct SubscriptionInformationView {
    pub topic: UriView,
    pub subscriber: SubscriberInfoView,
    pub status: SubscriptionStatusView,
    pub attributes: SubscribeAttributes,
    pub config: EventDeliveryConfigView,
}

/// A record of the subscription cache: one subscriber's subscription to one
/// topic. Two records are the same record exactly when they name the same
/// subscriber.
#[derive(Debug)]
pub struct SubscriptionInformation {
    pub topic: Uri,
    pub subscriber: SubscriberInfo,
    pub status: SubscriptionStatus,
    pub attributes: SubscribeAttributes,
    pub config: EventDeliveryConfig,
}

impl View for SubscriptionInformation {
    type V = SubscriptionInformationView;

    open spec fn view(&self) -> SubscriptionInformationView {
        SubscriptionInformationView {
            topic: self.topic@,
            subscriber: self.subscriber@,
            status: self.status@,
            attributes: self.attributes,
            config: self.config@,
        }
    }
}

impl Clone for SubscriptionInformation {
    fn clone(&self) -> (r: Self)
        ensures
            r == *self,
    {
        Self {
            topic: self.topic.clone(),
            subscriber: self.subscriber.clone(),
            status: self.status.clone(),
            attributes: self.attributes,
            config: self.config.clone(),
        }
    }
}

impl PartialEq for SubscriptionInformation {
    fn eq(&self, other: &Self) -> (r: bool) {
        self.subscriber == other.subscriber
    }
}

impl Eq for SubscriptionInformation {

}

impl vstd::std_specs::cmp::PartialEqSpecImpl for SubscriptionInformation {
    open spec fn obeys_eq_spec() -> bool {
        true
    }

    open spec fn eq_spec(&self, other: &Self) -> bool {
        self.subscriber@ == other.subscriber@
    }
}

} // verus!
