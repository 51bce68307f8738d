//! The streaming router: which forwarding rules are active, and what becomes
//! of a message that arrives under one of them.
//!
//! The router performs no I/O. Adding a rule says which listener to register
//! on the source transport, removing it says which to deregister, and
//! [`StreamingRouter::dispatch`] says for one message whether it is dropped
//! or sent, where, and in what form. Whoever runs the router carries that
//! out.

use crate::cache::{
    has_subscribers, skipped, snapshot, CacheView, RefreshReport, SubscriptionCache,
};
use crate::endpoint::{Endpoint, EndpointView};
use crate::message::{Message, MessageView};
use crate::queue::MessageQueue;
use crate::status::{Code, Status};
use crate::subscription::{
    FetchSubscriptionsResponse, SubscriptionInformation, SubscriptionInformationView,
};
use crate::uri::{Uri, UriView, WILDCARD_AUTHORITY};
use vstd::prelude::*;

verus! {

/// Mathematical value of a [`ForwardingRule`].
pub struct RuleView {
    pub source: EndpointView,
    pub destination: EndpointView,
    pub running: bool,
}

/// A directed bridge from one endpoint to another. It runs from the moment
/// it is added until it is removed; a removed rule stays on record as
/// cancelled.
#[derive(Debug)]
pub struct ForwardingRule {
    source: Endpoint,
    destination: Endpoint,
    running: bool,
}

impl View for ForwardingRule {
    type V = RuleView;

    closed spec fn view(&self) -> RuleView {
        RuleView { source: self.source@, destination: self.destination@, running: self.running }
    }
}

impl ForwardingRule {
    pub fn source(&self) -> (r: &Endpoint)
        ensures
            r@ == self@.source,
    {
        &self.source
    }

    pub fn destination(&self) -> (r: &Endpoint)
        ensures
            r@ == self@.destination,
    {
        &self.destination
    }

    /// Whether the rule still forwards; `false` once it was removed.
    pub fn is_running(&self) -> (r: bool)
        ensures
            r == self@.running,
    {
        self.running
    }
}

/// Names one rule of one router: the rule that was added as the
/// `index`-th.
#[derive(Clone, Copy, Debug, PartialEq, Eq, Structural)]
pub struct RuleHandle {
    pub index: usize,
}

/// Mathematical value of a [`Listener`].
pub struct ListenerView {
    pub transport: u64,
    pub sink_authority: Seq<char>,
}

impl ListenerView {
    /// The traffic that the listener is meant for: messages addressed to a
    /// sink under its authority, and messages addressed to no sink.
    pub open spec fn accepts(self, message: MessageView) -> bool {
        match message.sink {
            Some(sink) => sink.authority_name == self.sink_authority,
            None => true,
        }
    }
}

/// The listener of a rule: on which transport it listens, and for which
/// sink authority.
#[derive(Debug)]
pub struct Listener {
    pub transport: u64,
    pub sink_authority: String,
}

impl View for Listener {
    type V = ListenerView;

    open spec fn view(&self) -> ListenerView {
        ListenerView { transport: self.transport, sink_authority: self.sink_authority@ }
    }
}

impl Listener {
    /// The source filter to register the listener with: any source.
    pub fn source_filter(&self) -> (r: Uri)
        ensures
            r@ == Uri::spec_any_under(WILDCARD_AUTHORITY@),
    {
        Uri::any()
    }

    /// The sink filter to register the listener with: any sink under the
    /// authority that the listener is meant for.
    pub fn sink_filter(&self) -> (r: Uri)
        ensures
            r@ == Uri::spec_any_under(self@.sink_authority),
    {
        Uri::any_under(self.sink_authority.as_str())
    }

    /// Whether `message` is traffic that this listener is meant for.
    pub fn accepts(&self, message: &Message) -> (r: bool)
        ensures
            r == self@.accepts(message@),
    {
        match message.sink() {
            Some(sink) => sink.authority_name == self.sink_authority,
            None => true,
        }
    }
}

/// Why a message was not forwarded.
#[derive(Clone, Copy, Debug, PartialEq, Eq, Structural)]
pub enum DropReason {
    /// The rule was removed, or was never added.
    RuleNotRunning,
    /// Nobody subscribed to the topic. This is the normal fate of a
    /// publication that nobody wants, and no failure.
    NoSubscribers,
    /// The message comes from the authority that it would be sent to.
    SameAuthority,
}

/// Mathematical value of a [`Dispatch`].
pub enum DispatchView {
    Forward { transport: u64, message: MessageView },
    Dropped(DropReason),
}

/// What becomes of a message.
#[derive(Debug)]
pub enum Dispatch {
    /// Send `message` on the transport numbered `transport`.
    Forward { transport: u64, message: Message },
    /// Send nothing.
    Dropped(DropReason),
}

impl View for Dispatch {
    type V = DispatchView;

    open spec fn view(&self) -> DispatchView {
        match self {
            Dispatch::Forward { transport, message } => DispatchView::Forward {
                transport: *transport,
                message: message@,
            },
            Dispatch::Dropped(reason) => DispatchView::Dropped(*reason),
        }
    }
}

/// What the dispatch loop of a rule does next.
#[derive(Debug)]
pub enum LoopStep {
    /// The rule was removed. Leave the loop; its listener must not stay
    /// registered.
    Stop,
    /// Nothing waits. Wait for the next message, no longer than one wait
    /// timeout, and ask again.
    Wait,
    /// A message was taken from the queue. Carry out what was decided for
    /// it, and ask again.
    Handle(Dispatch),
}

/// The rules in `rules`, each taken by its value.
pub open spec fn rule_views(rules: Seq<ForwardingRule>) -> Seq<RuleView> {
    Seq::new(rules.len(), |i: int| rules[i]@)
}

/// Whether the `i`-th rule of `rules` runs and leads from `source` to
/// `destination`.
pub open spec fn runs_between(
    rules: Seq<RuleView>,
    i: int,
    source: EndpointView,
    destination: EndpointView,
) -> bool {
    0 <= i < rules.len() && rules[i].running && rules[i].source == source && rules[i].destination
        == destination
}

/// Whether a rule from `source` to `destination` is active.
pub open spec fn pair_active(
    rules: Seq<RuleView>,
    source: EndpointView,
    destination: EndpointView,
) -> bool {
    exists|i: int| runs_between(rules, i, source, destination)
}

/// The rules that listen for the pair (`source`, `destination`), by their
/// place.
pub open spec fn active_listeners(
    rules: Seq<RuleView>,
    source: EndpointView,
    destination: EndpointView,
) -> Set<int> {
    Set::new(|i: int| runs_between(rules, i, source, destination))
}

/// No two running rules lead from the same source to the same destination.
pub open spec fn unique_active(rules: Seq<RuleView>) -> bool {
    forall|i: int, j: int|
        0 <= i < j < rules.len() && (#[trigger] rules[i]).running && (#[trigger] rules[j]).running
            ==> !(rules[i].source == rules[j].source && rules[i].destination
            == rules[j].destination)
}

/// The rules after a rule from `source` to `destination` was asked for:
/// unchanged where such a rule is active, one more otherwise.
pub open spec fn added(rules: Seq<RuleView>, source: EndpointView, destination: EndpointView) -> Seq<
    RuleView,
> {
    if pair_active(rules, source, destination) {
        rules
    } else {
        rules.push(RuleView { source, destination, running: true })
    }
}

/// The rules after the `index`-th was removed: that rule is cancelled, if
/// there is such a rule and it ran.
pub open spec fn removed(rules: Seq<RuleView>, index: int) -> Seq<RuleView> {
    if 0 <= index < rules.len() && rules[index].running {
        rules.update(index, RuleView { running: false, ..rules[index] })
    } else {
        rules
    }
}

/// `message` as it is sent on through `destination`: its source is placed
/// under the authority of `destination` where that endpoint requires it.
/// The sink is never touched.
pub open spec fn outgoing(destination: EndpointView, message: MessageView) -> MessageView {
    if destination.rewrites_authority {
        MessageView {
            source: UriView { authority_name: destination.authority, ..message.source },
            ..message
        }
    } else {
        message
    }
}

/// What becomes of `message` under `rule`, given what `cache` knows.
///
/// 1. A rule that does not run forwards nothing.
/// 2. A publication or notification on a topic without subscribers is
///    dropped. Requests and responses are never held to the cache.
/// 3. A message that comes from the authority of the destination is not
///    sent back there.
/// 4. Everything else is sent on the destination's transport.
pub open spec fn decide(rule: RuleView, cache: CacheView, message: MessageView) -> DispatchView {
    if !rule.running {
        DispatchView::Dropped(DropReason::RuleNotRunning)
    } else if message.kind.spec_is_subscription_filtered() && !has_subscribers(
        cache,
        message.source,
    ) {
        DispatchView::Dropped(DropReason::NoSubscribers)
    } else if message.source.authority_name == rule.destination.authority {
        DispatchView::Dropped(DropReason::SameAuthority)
    } else {
        DispatchView::Forward {
            transport: rule.destination.transport,
            message: outgoing(rule.destination, message),
        }
    }
}

/// What becomes of `message` under the `index`-th rule of `rules`.
pub open spec fn decide_at(
    rules: Seq<RuleView>,
    index: int,
    cache: CacheView,
    message: MessageView,
) -> DispatchView {
    if 0 <= index < rules.len() {
        decide(rules[index], cache, message)
    } else {
        DispatchView::Dropped(DropReason::RuleNotRunning)
    }
}

/// Mathematical value of a [`StreamingRouter`].
pub struct RouterView {
    pub rules: Seq<RuleView>,
    pub cache: CacheView,
}

/// The forwarding engine.
#[derive(Debug)]
pub struct StreamingRouter {
    name: String,
    message_queue_size: usize,
    rules: Vec<ForwardingRule>,
    cache: SubscriptionCache,
}

impl View for StreamingRouter {
    type V = RouterView;

    closed spec fn view(&self) -> RouterView {
        RouterView { rules: rule_views(self.rules@), cache: self.cache@ }
    }
}

impl StreamingRouter {
    #[verifier::type_invariant]
    spec fn well_formed(&self) -> bool {
        unique_active(rule_views(self.rules@))
    }

    pub closed spec fn spec_name(&self) -> Seq<char> {
        self.name@
    }

    pub closed spec fn spec_message_queue_size(&self) -> usize {
        self.message_queue_size
    }

    /// A router without rules that is called `name`, gives every rule a
    /// queue for `message_queue_size` messages, and starts from what `cache`
    /// knows.
    pub fn new(name: &str, message_queue_size: usize, cache: SubscriptionCache) -> (r: Self)
        ensures
            r@.rules == Seq::<RuleView>::empty(),
            r@.cache == cache@,
            r.spec_name() == name@,
            r.spec_message_queue_size() == message_queue_size,
    {
        let rules: Vec<ForwardingRule> = Vec::new();
        assert(rule_views(rules@) =~= Seq::<RuleView>::empty());
        StreamingRouter { name: name.to_owned(), message_queue_size, rules, cache }
    }

    pub fn name(&self) -> (r: &String)
        ensures
            r@ == self.spec_name(),
    {
        &self.name
    }

    pub fn message_queue_size(&self) -> (r: usize)
        ensures
            r == self.spec_message_queue_size(),
    {
        self.message_queue_size
    }

    /// An empty queue of the size that this router gives every rule.
    pub fn new_queue(&self) -> (r: MessageQueue)
        ensures
            r@ == Seq::<MessageView>::empty(),
            r.spec_capacity() == self.spec_message_queue_size(),
    {
        MessageQueue::new(self.message_queue_size)
    }

    /// The number of rules that were ever added. No two running rules among
    /// them lead from the same source to the same destination.
    pub fn rule_count(&self) -> (r: usize)
        ensures
            r == self@.rules.len(),
            unique_active(self@.rules),
    {
        proof {
            use_type_invariant(self);
        }
        self.rules.len()
    }

    /// The cache that the router consults.
    pub fn cache(&self) -> (r: &SubscriptionCache)
        ensures
            r@ == self@.cache,
    {
        &self.cache
    }

    /// The rule that `handle` names, running or cancelled.
    pub fn rule(&self, handle: RuleHandle) -> (r: Option<&ForwardingRule>)
        ensures
            r is Some == (handle.index < self@.rules.len()),
            r matches Some(rule) ==> rule@ == self@.rules[handle.index as int],
    {
        if handle.index < self.rules.len() {
            assert(rule_views(self.rules@)[handle.index as int] == self.rules@[handle.index as int]@);
            Some(&self.rules[handle.index])
        } else {
            None
        }
    }

    /// The running rule from `source` to `destination`, if there is one.
    pub fn active_rule(&self, source: &Endpoint, destination: &Endpoint) -> (r: Option<RuleHandle>)
        ensures
            r is Some == pair_active(self@.rules, source@, destination@),
            r matches Some(handle) ==> runs_between(
                self@.rules,
                handle.index as int,
                source@,
                destination@,
            ),
    {
        let ghost views = rule_views(self.rules@);
        let mut i: usize = 0;
        while i < self.rules.len()
            invariant
                i <= self.rules.len(),
                views == rule_views(self.rules@),
                forall|j: int| 0 <= j < i ==> !runs_between(views, j, source@, destination@),
            decreases self.rules.len() - i,
        {
            let rule = &self.rules[i];
            assert(views[i as int] == rule@);
            if rule.running && rule.source.same(source) && rule.destination.same(destination) {
                assert(runs_between(views, i as int, source@, destination@));
                return Some(RuleHandle { index: i });
            }
            i += 1;
        }
        None
    }

    /// Starts forwarding from `source` to `destination`.
    ///
    /// Fails with `AlreadyExists`, and changes nothing, exactly where a rule
    /// from `source` to `destination` is active. Otherwise the rule is on
    /// record as running, and the handle names it: its listener, which
    /// [`StreamingRouter::listener`] gives, is to be registered once.
    pub fn add_forwarding_rule(&mut self, source: Endpoint, destination: Endpoint) -> (r: Result<
        RuleHandle,
        Status,
    >)
        ensures
            r is Ok == !pair_active(old(self)@.rules, source@, destination@),
            final(self)@.rules == added(old(self)@.rules, source@, destination@),
            final(self)@.cache == old(self)@.cache,
            final(self).spec_name() == old(self).spec_name(),
            final(self).spec_message_queue_size() == old(self).spec_message_queue_size(),
            r matches Ok(handle) ==> handle.index == old(self)@.rules.len(),
            r matches Err(status) ==> status.code == Code::AlreadyExists,
    {
        proof {
            use_type_invariant(&*self);
        }
        match self.active_rule(&source, &destination) {
            Some(_) => {
                let mut message = "forwarding rule already exists: ".to_owned();
                message.append(source.name().as_str());
                message.append(" -> ");
                message.append(destination.name().as_str());
                Err(Status::fail_with_code(Code::AlreadyExists, message))
            },
            None => {
                let ghost before = rule_views(self.rules@);
                let index = self.rules.len();
                let rule = ForwardingRule { source, destination, running: true };
                let mut rules: Vec<ForwardingRule> = Vec::new();
                assert(unique_active(rule_views(rules@)));
                std::mem::swap(&mut rules, &mut self.rules);
                rules.push(rule);
                proof {
                    let after = rule_views(rules@);
                    assert(after =~= before.push(rule@));
                    assert forall|i: int, j: int|
                        0 <= i < j < after.len() && (#[trigger] after[i]).running && (
                        #[trigger] after[j]).running implies !(after[i].source == after[j].source
                        && after[i].destination == after[j].destination) by {
                        if j < before.len() {
                            assert(before[i].running && before[j].running);
                        } else {
                            assert(!runs_between(before, i, source@, destination@));
                        }
                    }
                }
                self.rules = rules;
                Ok(RuleHandle { index })
            },
        }
    }

    /// Stops the rule that `handle` names. Says whether it ran.
    ///
    /// Where it ran, it is cancelled from now on, and its listener is to be
    /// deregistered once. Where it did not, or where `handle` names no rule,
    /// nothing changes: removing twice is the same as removing once.
    pub fn remove_forwarding_rule(&mut self, handle: RuleHandle) -> (ran: bool)
        ensures
            ran == (handle.index < old(self)@.rules.len() && old(
                self,
            )@.rules[handle.index as int].running),
            final(self)@.rules == removed(old(self)@.rules, handle.index as int),
            final(self)@.cache == old(self)@.cache,
            final(self).spec_name() == old(self).spec_name(),
            final(self).spec_message_queue_size() == old(self).spec_message_queue_size(),
    {
        proof {
            use_type_invariant(&*self);
        }
        let ghost before = rule_views(self.rules@);
        if handle.index < self.rules.len() && self.rules[handle.index].running {
            assert(before[handle.index as int] == self.rules@[handle.index as int]@);
            let stopped = ForwardingRule {
                source: self.rules[handle.index].source.clone(),
                destination: self.rules[handle.index].destination.clone(),
                running: false,
            };
            let mut rules: Vec<ForwardingRule> = Vec::new();
            assert(unique_active(rule_views(rules@)));
            std::mem::swap(&mut rules, &mut self.rules);
            rules.set(handle.index, stopped);
            proof {
                let after = rule_views(rules@);
                assert(after =~= removed(before, handle.index as int));
                assert forall|i: int, j: int|
                    0 <= i < j < after.len() && (#[trigger] after[i]).running && (
                    #[trigger] after[j]).running implies !(after[i].source == after[j].source
                    && after[i].destination == after[j].destination) by {
                    assert(before[i].running && before[j].running);
                }
            }
            self.rules = rules;
            true
        } else {
            proof {
                if handle.index < self.rules.len() {
                    assert(before[handle.index as int] == self.rules@[handle.index as int]@);
                }
            }
            false
        }
    }

    /// Whether the rule that `handle` names runs. A dispatch loop asks this
    /// at the top of every round and ends where the answer is `false`.
    pub fn is_running(&self, handle: RuleHandle) -> (r: bool)
        ensures
            r == (handle.index < self@.rules.len() && self@.rules[handle.index as int].running),
    {
        if handle.index < self.rules.len() {
            assert(rule_views(self.rules@)[handle.index as int] == self.rules@[handle.index as int]@);
            self.rules[handle.index].running
        } else {
            false
        }
    }

    /// The listener of the rule that `handle` names, running or cancelled:
    /// it listens on the transport of the rule's source for traffic towards
    /// the authority of the rule's destination.
    pub fn listener(&self, handle: RuleHandle) -> (r: Option<Listener>)
        ensures
            r is Some == (handle.index < self@.rules.len()),
            r matches Some(listener) ==> listener@ == (ListenerView {
                transport: self@.rules[handle.index as int].source.transport,
                sink_authority: self@.rules[handle.index as int].destination.authority,
            }),
    {
        if handle.index < self.rules.len() {
            assert(rule_views(self.rules@)[handle.index as int] == self.rules@[handle.index as int]@);
            let rule = &self.rules[handle.index];
            Some(
                Listener {
                    transport: rule.source.transport(),
                    sink_authority: rule.destination.authority().clone(),
                },
            )
        } else {
            None
        }
    }

    /// Decides what becomes of `message`, which arrived under the rule that
    /// `handle` names.
    pub fn dispatch(&self, handle: RuleHandle, message: Message) -> (r: Dispatch)
        ensures
            r@ == decide_at(self@.rules, handle.index as int, self@.cache, message@),
    {
        if handle.index >= self.rules.len() {
            return Dispatch::Dropped(DropReason::RuleNotRunning);
        }
        let rule = &self.rules[handle.index];
        assert(rule_views(self.rules@)[handle.index as int] == rule@);
        if !rule.running {
            return Dispatch::Dropped(DropReason::RuleNotRunning);
        }
        if message.kind().is_subscription_filtered() && !self.cache.has_subscribers(
            message.source(),
        ) {
            return Dispatch::Dropped(DropReason::NoSubscribers);
        }
        if message.source().authority_name == *rule.destination.authority() {
            return Dispatch::Dropped(DropReason::SameAuthority);
        }
        let transport = rule.destination.transport();
        if rule.destination.rewrites_authority() {
            Dispatch::Forward {
                transport,
                message: message.readdressed(rule.destination.authority().as_str()),
            }
        } else {
            Dispatch::Forward { transport, message }
        }
    }

    /// One round of the dispatch loop of the rule that `handle` names.
    ///
    /// Cancellation is seen first: where the rule does not run, the loop is
    /// told to stop and the messages that still wait are turned away.
    /// Otherwise the message that has waited longest is taken out and
    /// decided, so that the messages of one rule leave in the order in which
    /// they came.
    pub fn next_step(&self, handle: RuleHandle, queue: &mut MessageQueue) -> (r: LoopStep)
        ensures
            final(queue).spec_capacity() == old(queue).spec_capacity(),
            match r {
                LoopStep::Stop => !(handle.index < self@.rules.len() && self@.rules[handle.index as int].running)
                    && final(queue)@ == Seq::<MessageView>::empty(),
                LoopStep::Wait => handle.index < self@.rules.len() && self@.rules[handle.index as int].running
                    && old(queue)@.len() == 0 && final(queue)@ == old(queue)@,
                LoopStep::Handle(dispatch) => handle.index < self@.rules.len()
                    && self@.rules[handle.index as int].running && old(queue)@.len() > 0
                    && final(queue)@ == old(queue)@.drop_first() && dispatch@ == decide(
                    self@.rules[handle.index as int],
                    self@.cache,
                    old(queue)@.first(),
                ),
            },
    {
        if !self.is_running(handle) {
            queue.clear();
            return LoopStep::Stop;
        }
        match queue.pop() {
            Some(message) => LoopStep::Handle(self.dispatch(handle, message)),
            None => LoopStep::Wait,
        }
    }

    /// Replaces what the cache knows by what a subscription source answered;
    /// see [`SubscriptionCache::refresh`]. The rules are not touched.
    pub fn refresh_subscriptions(
        &mut self,
        fetched: Result<FetchSubscriptionsResponse, Status>,
    ) -> (r: Result<RefreshReport, Status>)
        ensures
            final(self)@.rules == old(self)@.rules,
            final(self).spec_name() == old(self).spec_name(),
            final(self).spec_message_queue_size() == old(self).spec_message_queue_size(),
            r is Ok == fetched is Ok,
            match fetched {
                Ok(response) => final(self)@.cache == snapshot(response@) && r == Ok::<
                    RefreshReport,
                    Status,
                >(
                    RefreshReport {
                        records: snapshot(response@).dom().len() as usize,
                        skipped: skipped(response@) as usize,
                    },
                ),
                Err(status) => final(self)@.cache == old(self)@.cache && r == Err::<
                    RefreshReport,
                    Status,
                >(status),
            },
    {
        proof {
            use_type_invariant(&*self);
        }
        let mut cache = SubscriptionCache::empty();
        std::mem::swap(&mut cache, &mut self.cache);
        let report = cache.refresh(fetched);
        self.cache = cache;
        report
    }

    /// Records a subscription that was observed; see
    /// [`SubscriptionCache::upsert`].
    pub fn upsert_subscription(&mut self, topic: Uri, record: SubscriptionInformation)
        ensures
            final(self)@.rules == old(self)@.rules,
            final(self).spec_name() == old(self).spec_name(),
            final(self).spec_message_queue_size() == old(self).spec_message_queue_size(),
            final(self)@.cache == old(self)@.cache.insert(
                (topic@, record@.subscriber.uri),
                SubscriptionInformationView { topic: topic@, ..record@ },
            ),
    {
        proof {
            use_type_invariant(&*self);
        }
        let mut cache = SubscriptionCache::empty();
        std::mem::swap(&mut cache, &mut self.cache);
        cache.upsert(topic, record);
        self.cache = cache;
    }

    /// Forgets a subscription that was observed to end; see
    /// [`SubscriptionCache::remove`].
    pub fn remove_subscription(&mut self, topic: &Uri, subscriber: &Uri) -> (r: bool)
        ensures
            final(self)@.rules == old(self)@.rules,
            final(self).spec_name() == old(self).spec_name(),
            final(self).spec_message_queue_size() == old(self).spec_message_queue_size(),
            r == old(self)@.cache.dom().contains((topic@, subscriber@)),
            final(self)@.cache == old(self)@.cache.remove((topic@, subscriber@)),
    {
        proof {
            use_type_invariant(&*self);
        }
        let mut cache = SubscriptionCache::empty();
        std::mem::swap(&mut cache, &mut self.cache);
        let removed = cache.remove(topic, subscriber);
        self.cache = cache;
        removed
    }
}

} // verus!
