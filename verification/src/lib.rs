//! Decision logic of a Nostr relay event dispatcher: subscription
//! identifiers derived from filters, the dispatcher's subscription table
//! and connection protocol, the supervisor's reaction to actor events, and
//! the parsing of the relay address list.
pub mod subscription_id;
pub mod messages;
pub mod supervisor;
pub mod dispatcher;
pub mod relays;
