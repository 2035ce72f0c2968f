use crate::messages::{RelayEventDispatcherMessage, RelayNotification};
use crate::subscription_id::{
    filter_jsons, filters_hash, id_text, lemma_parse_id_text_exact, lemma_parse_id_text_inverts,
    parse_id_text, parse_subscription_id, subscription_hash, subscription_id_as_str,
    subscription_id_text,
};
use nostr_sdk::{Filter, SubscriptionId};
use std::collections::HashMap;
use std::marker::PhantomData;
use vstd::prelude::*;

verus! {

broadcast use vstd::std_specs::hash::group_hash_axioms;

/// A subscription to relay events: the filters it was made with and the
/// output port `P` that its events are sent through.
pub struct Subscription<P> {
    pub filters: Vec<Filter>,
    pub output_port: P,
}

impl<P> Subscription<P> {
    /// A subscription to `filters` with a fresh output port.
    fn new(filters: Vec<Filter>) -> (sub: Self)
        where P: Default
        ensures
            sub.filters == filters,
    {
        let output_port = P::default();
        Subscription { filters, output_port }
    }
}

/// How far a served (re)connection request has got in restarting the
/// subscription task.
#[derive(PartialEq, Eq, Structural, Debug, Clone, Copy)]
pub enum RestartPhase {
    /// No restart is under way.
    Idle,
    /// The stored task manager is being stopped.
    Stopping(ConnectionKind),
    /// No stored task runs any more; a new one is being spawned.
    Spawning(ConnectionKind),
}

/// The relay event dispatcher's state: the task manager of the subscription
/// task (if one was started) and whether that task still runs, how far a
/// restart of it has got, the subscriptions keyed by the hash of their
/// filters, and the Nostr client `C`.
pub struct State<C, M, P> {
    subscription_task_manager: Option<M>,
    task_running: bool,
    restart: RestartPhase,
    subscriptions: HashMap<u64, Subscription<P>>,
    nostr_client: C,
}

/// Every subscription is stored under the hash of its own filters.
pub open spec fn keys_match_filters<P>(subs: Map<u64, Subscription<P>>) -> bool {
    forall|k: u64| #[trigger] subs.contains_key(k) ==> filters_hash(subs[k].filters@) == k
}

/// `after` holds every subscription of `before`, unchanged.
pub open spec fn keeps_subscriptions<P>(
    before: Map<u64, Subscription<P>>,
    after: Map<u64, Subscription<P>>,
) -> bool {
    forall|k: u64| #[trigger] before.contains_key(k) ==> after.contains_key(k) && after[k] == before[k]
}

/// The subscription key that a relay-reported subscription id text routes
/// to: the hash it reads as, when a subscription is stored under it.
pub open spec fn route_key(keys: Set<u64>, text: Seq<char>) -> Option<u64> {
    match parse_id_text(text) {
        Some(k) => if keys.contains(k) {
            Some(k)
        } else {
            None
        },
        None => None,
    }
}

/// An event that carries the subscription id of a set of filters (the id
/// that `to_subscription_id` gives them) is routed to the subscription that
/// was made for those filters.
pub proof fn lemma_subscribed_filters_get_their_events<P>(
    subs: Map<u64, Subscription<P>>,
    filters: Seq<Filter>,
)
    requires
        subs.contains_key(filters_hash(filters)),
    ensures
        route_key(subs.dom(), id_text(filters_hash(filters))) == Some(filters_hash(filters)),
{
    lemma_parse_id_text_inverts(filters_hash(filters));
}

/// An event is only routed to a subscription whose id it carries: the id
/// that `to_subscription_id` gives that subscription's filters.
pub proof fn lemma_routed_events_carry_the_subscription_id<P>(
    subs: Map<u64, Subscription<P>>,
    text: Seq<char>,
    key: u64,
)
    requires
        keys_match_filters(subs),
        route_key(subs.dom(), text) == Some(key),
    ensures
        subs.contains_key(key),
        text == id_text(key),
        text == id_text(filters_hash(subs[key].filters@)),
{
    lemma_parse_id_text_exact(text);
}

/// Once a subscription to some filters exists, asking again for filters with
/// the same JSON texts finds it: no second subscription is made and the
/// relays are not asked again.
pub proof fn lemma_subscribing_again_finds_the_subscription<P>(
    subs: Map<u64, Subscription<P>>,
    filters: Seq<Filter>,
    again: Seq<Filter>,
)
    requires
        subs.contains_key(filters_hash(filters)),
        filter_jsons(again) == filter_jsons(filters),
    ensures
        subs.contains_key(filters_hash(again)),
        filters_hash(again) == filters_hash(filters),
{
}

impl<C, M, P> State<C, M, P> {
    /// The subscriptions, by key.
    pub closed spec fn subscriptions(&self) -> Map<u64, Subscription<P>> {
        self.subscriptions@
    }

    /// The task manager of the running subscription task, if any.
    pub closed spec fn task_manager(&self) -> Option<M> {
        self.subscription_task_manager
    }

    /// Whether the task of the stored task manager still runs (it has not
    /// been stopped).
    pub closed spec fn task_running(&self) -> bool {
        self.task_running
    }

    /// How far a restart of the subscription task has got.
    pub closed spec fn restart_phase(&self) -> RestartPhase {
        self.restart
    }

    /// The Nostr client.
    pub closed spec fn client(&self) -> C {
        self.nostr_client
    }

    /// Well-formedness: the subscription table is finite and every
    /// subscription sits under the hash of its filters; a running task is
    /// the stored one; once a restart spawns, no stored task runs.
    pub closed spec fn wf(&self) -> bool {
        &&& self.subscriptions@.dom().finite()
        &&& keys_match_filters(self.subscriptions@)
        &&& self.task_running ==> self.subscription_task_manager is Some
        &&& self.restart is Spawning ==> !self.task_running
    }

    /// What well-formedness says of the state's views.
    pub proof fn lemma_wf(&self)
        requires
            self.wf(),
        ensures
            self.subscriptions().dom().finite(),
            keys_match_filters(self.subscriptions()),
            self.task_running() ==> self.task_manager() is Some,
            self.restart_phase() is Spawning ==> !self.task_running(),
    {
    }

    /// A state with no subscriptions and no subscription task.
    pub fn new(nostr_client: C) -> (state: Self)
        ensures
            state.wf(),
            state.subscriptions() == Map::<u64, Subscription<P>>::empty(),
            state.task_manager() is None,
            !state.task_running(),
            state.restart_phase() == RestartPhase::Idle,
            state.client() == nostr_client,
    {
        State {
            subscription_task_manager: None,
            task_running: false,
            restart: RestartPhase::Idle,
            subscriptions: HashMap::new(),
            nostr_client,
        }
    }

    /// The Nostr client.
    pub fn nostr_client(&self) -> (client: &C)
        ensures
            *client == self.client(),
    {
        &self.nostr_client
    }

    /// The task manager of the running subscription task, if any.
    pub fn subscription_task_manager(&self) -> (manager: Option<&M>)
        ensures
            manager matches Some(m) ==> self.task_manager() == Some(*m),
            manager is None <==> self.task_manager() is None,
    {
        match &self.subscription_task_manager {
            Some(m) => Some(m),
            None => None,
        }
    }

    /// The subscription stored under `key`, if any.
    pub fn subscription(&self, key: u64) -> (sub: Option<&Subscription<P>>)
        ensures
            sub is Some <==> self.subscriptions().contains_key(key),
            sub matches Some(s) ==> *s == self.subscriptions()[key],
    {
        self.subscriptions.get(&key)
    }

    /// Makes sure that a subscription to `filters` exists. Returns its key
    /// (the hash of the filters) and whether it was created now, in which
    /// case the relays still have to be asked to subscribe to it.
    pub fn maybe_subscribe(&mut self, filters: Vec<Filter>) -> (outcome: (u64, bool))
        where P: Default
        requires
            old(self).wf(),
        ensures
            final(self).wf(),
            outcome.0 == filters_hash(filters@),
            outcome.1 == !old(self).subscriptions().contains_key(outcome.0),
            final(self).subscriptions().contains_key(outcome.0),
            outcome.1 ==> final(self).subscriptions()[outcome.0].filters == filters,
            final(self).subscriptions() == old(self).subscriptions().insert(
                outcome.0,
                final(self).subscriptions()[outcome.0],
            ),
            keeps_subscriptions(old(self).subscriptions(), final(self).subscriptions()),
            !outcome.1 ==> final(self).subscriptions() == old(self).subscriptions(),
            final(self).subscriptions().len() == old(self).subscriptions().len() + (if outcome.1 {
                1int
            } else {
                0int
            }),
            final(self).task_manager() == old(self).task_manager(),
            final(self).task_running() == old(self).task_running(),
            final(self).restart_phase() == old(self).restart_phase(),
            final(self).client() == old(self).client(),
    {
        let key = subscription_hash(&filters);
        if self.subscriptions.contains_key(&key) {
            assert(self.subscriptions@ =~= self.subscriptions@.insert(key, self.subscriptions@[key]));
            return (key, false);
        }
        let sub = Subscription::new(filters);
        self.subscriptions.insert(key, sub);
        (key, true)
    }

    /// The key of the subscription that the relay-reported id stands for, if
    /// one is stored.
    pub fn route(&self, subscription_id: &SubscriptionId) -> (key: Option<u64>)
        ensures
            key == route_key(self.subscriptions().dom(), subscription_id_text(*subscription_id)),
    {
        let text = subscription_id_as_str(subscription_id);
        match parse_subscription_id(text) {
            Some(k) => if self.subscriptions.contains_key(&k) {
                Some(k)
            } else {
                None
            },
            None => None,
        }
    }
}

/// Which of the two connection requests is being served.
#[derive(PartialEq, Eq, Structural, Debug, Clone, Copy)]
pub enum ConnectionKind {
    Connect,
    Reconnect,
}

/// The dispatcher's metrics counters.
#[derive(PartialEq, Eq, Structural, Debug, Clone, Copy)]
pub enum Counter {
    Connect,
    ConnectError,
    Reconnect,
    ReconnectError,
    EventReceived,
}

/// The counter of successful requests of a kind.
pub open spec fn success_counter(kind: ConnectionKind) -> Counter {
    match kind {
        ConnectionKind::Connect => Counter::Connect,
        ConnectionKind::Reconnect => Counter::Reconnect,
    }
}

/// The counter of failed requests of a kind.
pub open spec fn error_counter(kind: ConnectionKind) -> Counter {
    match kind {
        ConnectionKind::Connect => Counter::ConnectError,
        ConnectionKind::Reconnect => Counter::ReconnectError,
    }
}

/// What the dispatcher asks its host to do next. `S` subscribes to an
/// output port, `E` is an event.
pub enum DispatcherAction<S, E> {
    /// Call `connect` (or `reconnect`) on the Nostr client and report
    /// whether it succeeded to `on_connection`.
    ConnectClient(ConnectionKind),
    /// Stop the stored subscription task manager and report it to
    /// `on_subscription_task_stopped`.
    StopSubscriptionTask(ConnectionKind),
    /// Spawn a new subscription task and report its manager (or that
    /// spawning failed) to `on_subscription_task_spawned`.
    SpawnSubscriptionTask(ConnectionKind),
    /// Ask the relays to subscribe to the subscription stored under `key`,
    /// then attach `subscriber` to its output port; the message is handled.
    SubscribeOnRelays { key: u64, subscriber: S },
    /// Attach `subscriber` to the output port of the subscription stored
    /// under `key`; the message is handled.
    AttachSubscriber { key: u64, subscriber: S },
    /// Send `event` through the output port of the subscription stored
    /// under `key` and count it in `EventReceived`; the message is handled.
    Deliver { key: u64, event: E },
    /// No subscription is stored for this id: report it and ask the relays
    /// to unsubscribe from it; the message is handled.
    Unsubscribe(SubscriptionId),
    /// The message is handled; count it in the counter, if one is given.
    Finish(Option<Counter>),
}

/// The relay event dispatcher actor, for the Nostr client type `T`.
pub struct RelayEventDispatcher<T> {
    _phantom: PhantomData<T>,
}

impl<T> Default for RelayEventDispatcher<T> {
    fn default() -> Self {
        RelayEventDispatcher { _phantom: PhantomData }
    }
}

impl<T> RelayEventDispatcher<T> {
    /// Handles a message. Connection requests are handed to the Nostr client;
    /// a subscription request creates the subscription when none exists for
    /// the same filters (the relays are then asked to subscribe) and attaches
    /// the subscriber; a relay event goes to the subscription whose id it
    /// carries, and an event for an unknown id leads to an unsubscription.
    /// No subscription is ever dropped or changed.
    pub fn handle<M, P: Default, S, E>(
        &self,
        state: &mut State<T, M, P>,
        message: RelayEventDispatcherMessage<S, E>,
    ) -> (action: DispatcherAction<S, E>)
        requires
            old(state).wf(),
        ensures
            final(state).wf(),
            keeps_subscriptions(old(state).subscriptions(), final(state).subscriptions()),
            final(state).task_manager() == old(state).task_manager(),
            final(state).task_running() == old(state).task_running(),
            final(state).restart_phase() == old(state).restart_phase(),
            final(state).client() == old(state).client(),
            match message {
                RelayEventDispatcherMessage::Connect => {
                    &&& action == DispatcherAction::<S, E>::ConnectClient(ConnectionKind::Connect)
                    &&& final(state).subscriptions() == old(state).subscriptions()
                },
                RelayEventDispatcherMessage::Reconnect => {
                    &&& action == DispatcherAction::<S, E>::ConnectClient(ConnectionKind::Reconnect)
                    &&& final(state).subscriptions() == old(state).subscriptions()
                },
                RelayEventDispatcherMessage::SubscribeToEventReceived(filters, subscriber) => {
                    let key = filters_hash(filters@);
                    &&& final(state).subscriptions().contains_key(key)
                    &&& final(state).subscriptions() == old(state).subscriptions().insert(
                        key,
                        final(state).subscriptions()[key],
                    )
                    &&& if old(state).subscriptions().contains_key(key) {
                        action == (DispatcherAction::<S, E>::AttachSubscriber { key, subscriber })
                    } else {
                        &&& action == (DispatcherAction::<S, E>::SubscribeOnRelays { key, subscriber })
                        &&& final(state).subscriptions()[key].filters == filters
                    }
                },
                RelayEventDispatcherMessage::EventReceived(notification) => {
                    &&& final(state).subscriptions() == old(state).subscriptions()
                    &&& match notification {
                        RelayNotification::Event { subscription_id, event } => match route_key(
                            old(state).subscriptions().dom(),
                            subscription_id_text(subscription_id),
                        ) {
                            Some(key) => action == (DispatcherAction::<S, E>::Deliver { key, event }),
                            None => action == DispatcherAction::<S, E>::Unsubscribe(subscription_id),
                        },
                        RelayNotification::Other => action == DispatcherAction::<S, E>::Finish(None),
                    }
                },
            },
    {
        match message {
            RelayEventDispatcherMessage::Connect => DispatcherAction::ConnectClient(
                ConnectionKind::Connect,
            ),
            RelayEventDispatcherMessage::Reconnect => DispatcherAction::ConnectClient(
                ConnectionKind::Reconnect,
            ),
            RelayEventDispatcherMessage::SubscribeToEventReceived(filters, subscriber) => {
                let (key, created) = state.maybe_subscribe(filters);
                if created {
                    DispatcherAction::SubscribeOnRelays { key, subscriber }
                } else {
                    DispatcherAction::AttachSubscriber { key, subscriber }
                }
            },
            RelayEventDispatcherMessage::EventReceived(notification) => match notification {
                RelayNotification::Event { subscription_id, event } => {
                    match state.route(&subscription_id) {
                        Some(key) => DispatcherAction::Deliver { key, event },
                        None => DispatcherAction::Unsubscribe(subscription_id),
                    }
                },
                RelayNotification::Other => DispatcherAction::Finish(None),
            },
        }
    }

    /// Reacts to the outcome of a `connect` or `reconnect` call: a failure
    /// is counted and ends the request, changing nothing; a success restarts
    /// the subscription task, stopping the stored one first if there is one.
    pub fn on_connection<M, P, S, E>(
        &self,
        state: &mut State<T, M, P>,
        kind: ConnectionKind,
        connected: bool,
    ) -> (action: DispatcherAction<S, E>)
        requires
            old(state).wf(),
        ensures
            final(state).wf(),
            final(state).subscriptions() == old(state).subscriptions(),
            final(state).task_manager() == old(state).task_manager(),
            final(state).task_running() == old(state).task_running(),
            final(state).client() == old(state).client(),
            !connected ==> action == DispatcherAction::<S, E>::Finish(Some(error_counter(kind))),
            !connected ==> final(state).restart_phase() == old(state).restart_phase(),
            connected && old(state).task_manager() is Some ==> {
                &&& action == DispatcherAction::<S, E>::StopSubscriptionTask(kind)
                &&& final(state).restart_phase() == RestartPhase::Stopping(kind)
            },
            connected && old(state).task_manager() is None ==> {
                &&& action == DispatcherAction::<S, E>::SpawnSubscriptionTask(kind)
                &&& final(state).restart_phase() == RestartPhase::Spawning(kind)
            },
    {
        if !connected {
            let counter = match kind {
                ConnectionKind::Connect => Counter::ConnectError,
                ConnectionKind::Reconnect => Counter::ReconnectError,
            };
            DispatcherAction::Finish(Some(counter))
        } else if state.subscription_task_manager.is_some() {
            state.restart = RestartPhase::Stopping(kind);
            DispatcherAction::StopSubscriptionTask(kind)
        } else {
            state.restart = RestartPhase::Spawning(kind);
            DispatcherAction::SpawnSubscriptionTask(kind)
        }
    }

    /// Takes note that the stored task manager has been stopped; the new
    /// task can now be spawned.
    pub fn on_subscription_task_stopped<M, P, S, E>(
        &self,
        state: &mut State<T, M, P>,
    ) -> (action: DispatcherAction<S, E>)
        requires
            old(state).wf(),
            old(state).restart_phase() is Stopping,
        ensures
            final(state).wf(),
            !final(state).task_running(),
            final(state).restart_phase() == RestartPhase::Spawning(old(state).restart_phase()->Stopping_0),
            action == DispatcherAction::<S, E>::SpawnSubscriptionTask(
                old(state).restart_phase()->Stopping_0,
            ),
            final(state).task_manager() == old(state).task_manager(),
            final(state).subscriptions() == old(state).subscriptions(),
            final(state).client() == old(state).client(),
    {
        let kind = match state.restart {
            RestartPhase::Stopping(kind) => kind,
            RestartPhase::Idle => ConnectionKind::Connect,
            RestartPhase::Spawning(kind) => kind,
        };
        state.task_running = false;
        state.restart = RestartPhase::Spawning(kind);
        DispatcherAction::SpawnSubscriptionTask(kind)
    }

    /// Takes the newly spawned subscription task manager, if spawning it
    /// succeeded, as the stored one, whose task runs (when spawning failed,
    /// the previous, stopped one is kept); either way the request counts as
    /// served. A manager is only ever replaced once its task has stopped.
    pub fn on_subscription_task_spawned<M, P, S, E>(
        &self,
        state: &mut State<T, M, P>,
        spawned: Option<M>,
    ) -> (action: DispatcherAction<S, E>)
        requires
            old(state).wf(),
            old(state).restart_phase() is Spawning,
        ensures
            final(state).wf(),
            !old(state).task_running(),
            action == DispatcherAction::<S, E>::Finish(
                Some(success_counter(old(state).restart_phase()->Spawning_0)),
            ),
            final(state).task_manager() == (match spawned {
                Some(m) => Some(m),
                None => old(state).task_manager(),
            }),
            final(state).task_running() == (spawned is Some),
            final(state).restart_phase() == RestartPhase::Idle,
            final(state).subscriptions() == old(state).subscriptions(),
            final(state).client() == old(state).client(),
    {
        let kind = match state.restart {
            RestartPhase::Spawning(kind) => kind,
            RestartPhase::Idle => ConnectionKind::Connect,
            RestartPhase::Stopping(kind) => kind,
        };
        if let Some(m) = spawned {
            state.subscription_task_manager = Some(m);
            state.task_running = true;
        }
        state.restart = RestartPhase::Idle;
        let counter = match kind {
            ConnectionKind::Connect => Counter::Connect,
            ConnectionKind::Reconnect => Counter::Reconnect,
        };
        DispatcherAction::Finish(Some(counter))
    }
}

/// At most one subscription task runs: a running task is the stored one,
/// and a new task manager is stored only while no stored task runs (its
/// predecessor, if any, has been stopped).
pub proof fn lemma_at_most_one_task_runs<C, M, P>(state: State<C, M, P>)
    requires
        state.wf(),
    ensures
        state.task_running() ==> state.task_manager() is Some,
        state.restart_phase() is Spawning ==> !state.task_running(),
{
    state.lemma_wf();
}

} // verus!
