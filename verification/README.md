# majordomus_cli

The logic of the Majordomus command line and of its Cockpit, a read-only web view of a
repository, proved with Verus.

- `src/command/`: the command graph (what every program of a repository offers, its
  identities, its projections onto Just recipes, the Cockpit and the docs), completion,
  the Just bridge, the shell activation payload and the value index.
- `src/cockpit/`: the Cockpit's routing, HTML model and rendering, the asset cache, the
  navigation, and the pages, each a function from what a capability answered to a page
  whose body is stated exactly as a model.
- `src/digest.rs`, `src/url.rs`, `src/order.rs`, `src/strings.rs`: SHA-256 (through the
  `sha2` crate), percent-encoding, natural order and the text helpers the rest uses.
- `app/`: the parts that touch the filesystem, the network and serde: reading asset files,
  the HTTP answer, the wire copies of library types.
- `tests/`: the tests, run against the compiled library.

`src/` is verified with `verus`; `app/` and `tests/` are ordinary Rust.
