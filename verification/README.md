# nostr_dispatch

The decision logic of a Nostr relay event dispatcher, verified with Verus.

- `src/subscription_id.rs`: the subscription id of a list of filters (a
  `DefaultHasher` hash of their JSON texts, written as 16 lowercase hex
  digits), and reading such an id back into its hash.
- `src/dispatcher.rs`: the dispatcher's state (subscriptions keyed by filter
  hash, the running subscription task) and its reaction to each message and
  to the outcome of each call it asks its host to make.
- `src/supervisor.rs`: how the supervisor reacts to supervision events.
- `src/relays.rs`: reading the comma-separated relay address list.
- `src/messages.rs`: the actors' message types.
- `app/`: the program around the library: ractor actors that perform the
  actions the library decides on, the Nostr relay client, the HTTP server
  and the service manager.
