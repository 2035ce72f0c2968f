use nostr_dispatch::dispatcher::{
    ConnectionKind, Counter, DispatcherAction, RelayEventDispatcher, State,
};
use nostr_dispatch::messages::{RelayEventDispatcherMessage, RelayNotification};
use nostr_dispatch::subscription_id::format_subscription_id;
use nostr_sdk::{Filter, Kind, SubscriptionId};

type TestState = State<&'static str, u32, u8>;
type Msg = RelayEventDispatcherMessage<&'static str, u64>;

fn metadata() -> Vec<Filter> {
    vec![Filter::new().kind(Kind::Metadata)]
}

const METADATA_KEY: u64 = 0x0c9f_ae20_3a3c_806d;

#[test]
fn new_state_is_empty() {
    let state: TestState = State::new("client");
    assert_eq!(*state.nostr_client(), "client");
    assert!(state.subscription_task_manager().is_none());
    assert!(state.subscription(METADATA_KEY).is_none());
}

#[test]
fn first_subscription_asks_relays_second_attaches() {
    let dispatcher: RelayEventDispatcher<&'static str> = RelayEventDispatcher::default();
    let mut state: TestState = State::new("client");
    let action = dispatcher.handle(&mut state, Msg::SubscribeToEventReceived(metadata(), "first"));
    assert!(matches!(action, DispatcherAction::SubscribeOnRelays { key: METADATA_KEY, subscriber: "first" }));
    assert_eq!(state.subscription(METADATA_KEY).unwrap().filters, metadata());
    let action = dispatcher.handle(&mut state, Msg::SubscribeToEventReceived(metadata(), "second"));
    assert!(matches!(action, DispatcherAction::AttachSubscriber { key: METADATA_KEY, subscriber: "second" }));
}

#[test]
fn maybe_subscribe_creates_once() {
    let mut state: TestState = State::new("client");
    assert_eq!(state.maybe_subscribe(metadata()), (METADATA_KEY, true));
    assert_eq!(state.maybe_subscribe(metadata()), (METADATA_KEY, false));
    let notes = vec![Filter::new().kind(Kind::TextNote)];
    let (key, created) = state.maybe_subscribe(notes.clone());
    assert!(created);
    assert_ne!(key, METADATA_KEY);
    assert_eq!(state.subscription(key).unwrap().filters, notes);
    assert_eq!(state.subscription(METADATA_KEY).unwrap().filters, metadata());
}

#[test]
fn events_go_to_their_subscription() {
    let dispatcher: RelayEventDispatcher<&'static str> = RelayEventDispatcher::default();
    let mut state: TestState = State::new("client");
    dispatcher.handle(&mut state, Msg::SubscribeToEventReceived(metadata(), "s"));
    let id = SubscriptionId::new(format_subscription_id(METADATA_KEY));
    let event = RelayNotification::Event { subscription_id: id, event: 7u64 };
    let action = dispatcher.handle(&mut state, Msg::EventReceived(event));
    assert!(matches!(action, DispatcherAction::Deliver { key: METADATA_KEY, event: 7 }));
}

#[test]
fn events_for_unknown_ids_lead_to_unsubscription() {
    let dispatcher: RelayEventDispatcher<&'static str> = RelayEventDispatcher::default();
    let mut state: TestState = State::new("client");
    dispatcher.handle(&mut state, Msg::SubscribeToEventReceived(metadata(), "s"));
    for text in ["0000000000000001", "0C9FAE203A3C806D", "not-an-id"] {
        let id = SubscriptionId::new(text);
        let event = RelayNotification::Event { subscription_id: id.clone(), event: 1u64 };
        match dispatcher.handle(&mut state, Msg::EventReceived(event)) {
            DispatcherAction::Unsubscribe(unknown) => assert_eq!(unknown, id),
            _ => panic!("expected an unsubscription"),
        }
    }
    assert!(state.subscription(METADATA_KEY).is_some());
}

#[test]
fn other_notifications_are_ignored() {
    let dispatcher: RelayEventDispatcher<&'static str> = RelayEventDispatcher::default();
    let mut state: TestState = State::new("client");
    let action = dispatcher.handle(&mut state, Msg::EventReceived(RelayNotification::Other));
    assert!(matches!(action, DispatcherAction::Finish(None)));
}

#[test]
fn connection_requests_go_to_the_client() {
    let dispatcher: RelayEventDispatcher<&'static str> = RelayEventDispatcher::default();
    let mut state: TestState = State::new("client");
    assert!(matches!(
        dispatcher.handle(&mut state, Msg::Connect),
        DispatcherAction::ConnectClient(ConnectionKind::Connect)
    ));
    assert!(matches!(
        dispatcher.handle(&mut state, Msg::Reconnect),
        DispatcherAction::ConnectClient(ConnectionKind::Reconnect)
    ));
}

#[test]
fn failed_connections_are_counted_and_change_nothing() {
    let dispatcher: RelayEventDispatcher<&'static str> = RelayEventDispatcher::default();
    let mut state: TestState = State::new("client");
    let a: DispatcherAction<(), ()> = dispatcher.on_connection(&mut state, ConnectionKind::Connect, false);
    assert!(matches!(a, DispatcherAction::Finish(Some(Counter::ConnectError))));
    let a: DispatcherAction<(), ()> = dispatcher.on_connection(&mut state, ConnectionKind::Reconnect, false);
    assert!(matches!(a, DispatcherAction::Finish(Some(Counter::ReconnectError))));
    assert!(state.subscription_task_manager().is_none());
}

#[test]
fn successful_connections_restart_the_subscription_task() {
    let dispatcher: RelayEventDispatcher<&'static str> = RelayEventDispatcher::default();
    let mut state: TestState = State::new("client");
    let a: DispatcherAction<(), ()> = dispatcher.on_connection(&mut state, ConnectionKind::Connect, true);
    assert!(matches!(a, DispatcherAction::SpawnSubscriptionTask(ConnectionKind::Connect)));
    let a: DispatcherAction<(), ()> = dispatcher.on_subscription_task_spawned(&mut state, Some(1));
    assert!(matches!(a, DispatcherAction::Finish(Some(Counter::Connect))));
    assert_eq!(state.subscription_task_manager(), Some(&1));

    let a: DispatcherAction<(), ()> = dispatcher.on_connection(&mut state, ConnectionKind::Reconnect, true);
    assert!(matches!(a, DispatcherAction::StopSubscriptionTask(ConnectionKind::Reconnect)));
    let a: DispatcherAction<(), ()> = dispatcher.on_subscription_task_stopped(&mut state);
    assert!(matches!(a, DispatcherAction::SpawnSubscriptionTask(ConnectionKind::Reconnect)));
    assert_eq!(state.subscription_task_manager(), Some(&1));
    let a: DispatcherAction<(), ()> = dispatcher.on_subscription_task_spawned(&mut state, Some(2));
    assert!(matches!(a, DispatcherAction::Finish(Some(Counter::Reconnect))));
    assert_eq!(state.subscription_task_manager(), Some(&2));
}

#[test]
fn failed_spawn_keeps_the_previous_task_and_still_counts() {
    let dispatcher: RelayEventDispatcher<&'static str> = RelayEventDispatcher::default();
    let mut state: TestState = State::new("client");
    let _: DispatcherAction<(), ()> = dispatcher.on_connection(&mut state, ConnectionKind::Connect, true);
    let _: DispatcherAction<(), ()> = dispatcher.on_subscription_task_spawned(&mut state, Some(5));
    let _: DispatcherAction<(), ()> = dispatcher.on_connection(&mut state, ConnectionKind::Reconnect, true);
    let _: DispatcherAction<(), ()> = dispatcher.on_subscription_task_stopped(&mut state);
    let a: DispatcherAction<(), ()> = dispatcher.on_subscription_task_spawned(&mut state, None);
    assert!(matches!(a, DispatcherAction::Finish(Some(Counter::Reconnect))));
    assert_eq!(state.subscription_task_manager(), Some(&5));
    // The kept manager was stopped, so the next restart stops it again.
    let a: DispatcherAction<(), ()> = dispatcher.on_connection(&mut state, ConnectionKind::Connect, true);
    assert!(matches!(a, DispatcherAction::StopSubscriptionTask(ConnectionKind::Connect)));
}

#[test]
fn subscribing_again_changes_nothing() {
    let mut state: TestState = State::new("client");
    let filters = metadata();
    let first = state.maybe_subscribe(filters.clone());
    let second = state.maybe_subscribe(filters.clone());
    assert_eq!(first, (METADATA_KEY, true));
    assert_eq!(second, (METADATA_KEY, false));
    assert_eq!(state.subscription(METADATA_KEY).unwrap().filters, filters);
}
