# twirp

Support for serving [Twirp](https://twitchtv.github.io/twirp/) APIs, written in Verus.

- `src/server.rs`: requests, responses, and the steps of an exchange; `handle_request` takes a
  request through all of them with a handler that does not wait.
- `src/error.rs`, `src/json.rs`, `src/reply.rs`: Twirp errors, their JSON notation, and the
  answers that clients get.
- `src/timings.rs`, `src/clock.rs`: how long the phases of an exchange took.
- `src/context.rs`, `src/extensions.rs`, `src/headers.rs`: what travels with a message.
- `src/codegen.rs`: the Rust code of a service, generated from its description: its trait, its
  router and its client.
- `src/haberdasher.rs`, `src/decimal.rs`: a small service with middleware around it.
- `app/`: the haberdasher service on the network, with a handler that may wait, and the hook by
  which `prost_build` generates services.

The functions marked `external_body` and the `assume_specification` items in `src/` say what is
relied on from `http`, `serde_json`, `tokio` and the standard library. Everything else in `src/` is
proved.
