# allora

Integration-pattern building blocks — messages and exchanges, channels,
endpoints, filters, routers, aggregators, correlation, HTTP adapters — and a
declarative YAML configuration that assembles them into a runtime.

The library in `src/` is verified with Verus: every public function states
what it returns or changes over a mathematical model (views of messages,
exchanges, channels and specifications), and the properties that relate
several operations are proved as public proof functions (`law_*`).

Layout:

- `src/message.rs`, `src/channel.rs`, `src/endpoint.rs` — the data model,
  first-in first-out queue channels with correlation helpers, endpoints.
- `src/patterns/` — the filter expression language (tokenizer, atom grammar,
  `&&`-before-`||` evaluation, JSONPath-to-pointer), correlation
  initializer, content-based router, aggregator with completion conditions,
  strategies and group store.
- `src/yaml.rs`, `src/spec/` — the YAML document model and the parsers of
  every configuration document.
- `src/runtime/` — id rules and generation, component builders, the pattern
  registry, runtime assembly, wiring plans, format detection and
  configuration discovery.
- `src/http/` — request/response shaping and routing decisions of the
  inbound adapter, and the outbound adapter's configuration and body
  encoding.
- `app/` — the running side: reading files, live channels with
  subscribers, asynchronous routes, the `hyper` server and `reqwest` client.
- `tests/` — executable tests of the library.
