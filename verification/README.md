# netmerge

Networking over two peer-to-peer backends, devp2p and libp2p, with the decisions verified in Verus.

The library under `src/` does no input or output. Where a backend, a socket or a clock is needed, a
function says what to do, and another one takes what came of it.

- `peer_id`: one range of peer identifiers for both backends. The lower half belongs to devp2p; the
  upper half belongs to libp2p, with the bits inverted.
- `routing`: which backend gets a call that concerns a peer, and how peers are shown to handlers.
- `service`: both backends behind one service: opening, registering protocols, starting, stopping,
  and the context in which handlers act.
- `net_backends_merge`: both backends with one configuration for each, and the conversion of
  configurations.
- `libp2p`: the libp2p backend: protocols and their names, peers and substreams, packets,
  multiaddresses, discovery.
- `config`, `types`, `net_settings`: the values that go in and out.
- `outside`: what is taken on trust of what the library calls: the crates `slab`, `fnv` (whose map is
  the `HashMap` of the standard library), `bytes` and `multiaddr`, and `String::from_utf8` of the
  standard library. Everything else is proved, on top of what Verus itself says of the standard
  library.

Public proof functions whose names begin with `law_` state what holds of the library as a whole.

`app/` runs the library: the thread, the channels and the timers of libp2p, and the interface that
protocol handlers see. `tests/` runs the library on concrete values.
