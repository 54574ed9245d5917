# jevkit

Typed questions for TypeSafe's Jev (the System One API), verified with Verus.

A question is a Rust type: `Choice` (pick one), `Score` (2 to 10 ordered
levels) or `Noul` (yes/no), each carrying a static spec. A `Request` batches
questions about one state and produces the JSON body to post; the client
decides, after each attempt, whether the call is done, failed, or retried.

Layout:

- `src/` — the verified library:
  - `spec.rs`: question specs, the `Choice`/`Score`/`Noul` traits and the
    checks that a spec is well formed;
  - `request.rs`: requests, their validation and the exact request body;
  - `decode.rs`: ranking of options and choice of the most likely level by
    order keys, level keys of score answers;
  - `error.rs`: errors, and how a non-2xx response is read;
  - `client.rs`: builder, client, HTTP request, retry decisions;
  - `text.rs`, `json.rs`, `time.rs`: text helpers and the calls into
    `std`, `serde_json` and `Duration`, each with its contract.
- `app/` — what does I/O or floating point: probability decoding, the
  parsed response, the `ureq` transport and the blocking send loop.
- `tests/` — tests of the library.
