# tracing_etw

The configuration and the per-span and per-event decisions of a `tracing` layer
that writes spans and events to an ETW / Linux user_events provider, verified with
Verus.

- `src/layer.rs`: `LayerBuilder`, its view `LayerConfig`, the target filter of a
  built layer, and the laws relating the builder's settings.
- `src/guid.rs`: provider GUIDs, derived from a provider name by `eventheader`.
- `src/provider.rs`: the provider kinds and the rule for provider group names.
- `src/targets.rs`: the `tracing_subscriber` `Targets` filter, as a map from target
  to level.
- `src/filter.rs`: keyword and tag of a callsite, callsite interest, event headers.
- `src/span.rs`, `src/order.rs`: the data a new span starts with: the stable sort
  order of its field names and its activity IDs.
- `app/lib.rs`: the `tracing_subscriber` `Filter` and `Layer` impls that call the
  library, and the building of the filtered layer.
