# tramex

The analysis logic of Tramex, an analyser of 4G/5G radio traces (Amarisoft logs),
written in Verus: every function of `src/` carries a contract that Verus proves.

- `src/model.rs`, `src/json.rs`: the traces and the decoded RRC messages, as plain values.
- `src/event_store.rs`, `src/event_bus.rs`, `src/application.rs`, `src/file_source.rs`:
  the store of loaded traces, the notification of the panels, navigation that skips
  filtered layers, and the reading of a capture batch by batch.
- `src/frontend.rs`: navigation that loads more batches on the way, and the decisions of
  the connector panel.
- `src/rrc_status.rs`, `src/identity.rs`, `src/bst_config.rs`, `src/rrc_field_viewer.rs`,
  `src/channels.rs`, `src/chronograph.rs`, `src/harq.rs`, `src/power.rs`,
  `src/resource_blocks.rs`, `src/panel_message.rs`, `src/panels.rs`: the panels'
  decisions (RRC state machine, NAS parsers, SIB field extraction, HARQ and power
  timelines, resource grid).
- `src/text.rs`, `src/format.rs`: text helpers specified over `Seq<char>`.
- `app/`: the glue that Verus does not see (serde_json conversion, egui colours, the
  JSON text of log requests, progress as a float, checks before calls).
- `tests/`: tests run against the compiled library.
