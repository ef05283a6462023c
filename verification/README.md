# patchbay

Cables between host veths and InfiniBand management fabrics, with their decisions verified by
Verus.

- `src/host_cable` decides, from what `ip` and `tc` have printed so far, what to do next to
  observe, connect, impair, cut and remove an Ethernet cable between two borrowed veths.
- `src/infiniband` holds the port graph and the text that the native simulator reads, and decides
  how a fabric is started, asked, changed and ended, which logs are kept, and which control replies
  are taken.
- `src/json.rs`, `src/registry.rs` and `src/text.rs` are what both are made of.
- `app` runs the programs, opens the files and sockets, and hands back what came of them. Its
  control client uses the wire types of the `ibsim` crate, which comes with the source tree of the
  native simulator.
- `tests` holds examples with exact values.

Every operation is a function of the answers that it has had. It says what to do next or how it
ended, so that its contract covers every course that the host can take.
