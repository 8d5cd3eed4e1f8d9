# nostr_search

Search for a Nostr relay, verified with Verus.

* `src/search.rs`: the extension that has the searches of subscriptions answered by a
  remote service and mirrors stored events to it.
* `src/external_search.rs`: the extension that asks a search service for event
  identifiers and rewrites filters so that the relay looks them up.
* `src/search_client.rs`: the client of that service: requests, replies, errors.
* `src/relay.rs`, `src/http.rs`: the relay's messages and HTTP requests as plain values.
* `src/json.rs`, `src/url.rs`, `src/event_id.rs`, `src/text.rs`: JSON texts, query
  strings, event identifiers, and the texts that they are made of.

The functions decide; they send nothing. `app/` sends the requests, reads the
answers, and fits both extensions into the relay.

Functions marked `external_body` call `hex`, `reqwest`, `serde_json` and `urlencoding`.
Their contracts say what is taken on trust of each call. The other functions are proved.
Proof functions named `law_...` state what holds of several functions together.
