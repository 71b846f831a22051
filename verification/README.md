# fips

Verified core of a node in a mesh network.

- `noise`: the Noise IK and XK handshakes over secp256k1. `model` says what each
  step means, `handshake` carries it out, `laws` says how the two ends of a
  handshake fit together. `crypto` is the only place that calls outside crates,
  and lists what is taken from them on trust.
- `netmon`: decides when the medium under the node's peers has changed.
- `transport`: rules for pooled stream connections.
- `packaging`: readers for the dependency lists in the packaging metadata.
- `net`, `text`, `vecmap`: addresses, lines and characters, a small ordered map.

`app/` runs the library on a host: sockets, timers, tasks, files. `tests/` runs
it on concrete values.
