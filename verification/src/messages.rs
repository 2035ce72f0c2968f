use nostr_sdk::{Event, SubscriptionId};
use vstd::prelude::*;

verus! {

/// `nostr::Event`, held as an opaque value.
#[verifier::external_type_specification]
#[verifier::external_body]
pub struct ExEvent(Event);

/// A notification from the relay pool, as far as the dispatcher reads it:
/// an event that arrived for a subscription, or anything else.
pub enum RelayNotification<E> {
    Event { subscription_id: SubscriptionId, event: E },
    Other,
}

/// Messages of the relay event dispatcher. `S` is what subscribes to a
/// subscription's output port, `E` is an event.
pub enum RelayEventDispatcherMessage<S, E> {
    Connect,
    Reconnect,
    SubscribeToEventReceived(Vec<nostr_sdk::Filter>, S),
    EventReceived(RelayNotification<E>),
}

/// Messages of the event enqueuer actor.
pub enum EventEnqueuerMessage {
    Enqueue(Event),
}

/// Messages of the test actor: one for each thing that happened.
#[derive(Debug, Clone)]
pub enum TestActorMessage<T> {
    EventHappened(T),
}

} // verus!
