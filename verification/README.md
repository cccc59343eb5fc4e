# OpenShell core

The logic of OpenShell's gateway, supervisor and terminal interface, with contracts that Verus
proves. What is not logic (files, sockets, requests, the terminal) stands in `app/` and calls the
library.

- `src/attestation`: which evidence, references and signed tokens make an appraisal of a sandbox,
  and the order in which an appraisal is collected.
- `src/config`: the configuration file, what drivers inherit from the gateway's section, and the
  registration of middleware.
- `src/gateway`: who a request is made for, whether it may be made, where it goes, how often it
  may come, and what interceptors see of it.
- `src/supervisor`: the session with the gateway, the relays in it, and what is reported of them.
- `src/tui`: the state of the terminal interface, what every key does to it, and what is drawn.
- `src/text.rs`, `src/text_map.rs`, `src/ip.rs`, `src/encoding.rs`: texts, ordered maps, addresses
  and encodings that the rest builds on.

Contracts speak of spec functions over `Seq`, `Map` and integers. Statements that relate several
functions are public proof functions named `lemma_..`. What is believed of other crates stands in
functions marked `external_body`, each with a comment that says what is claimed.

`tests/` runs the library on concrete values, with the other crates linked.
