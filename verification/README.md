# dht_core

A node of a Kademlia DHT that publishes a snapshot of its machine, as XML,
to a BaseX database every ten seconds and accepts `GET key` / `PUT key value`
commands on standard input.

- `src/` is the verified library (Verus): command parsing (`cli`), decimal
  text (`decimal`), XML writing through quick-xml (`xml`), the machine record
  (`sysinfo_extractor`), the database requests and the setup of the node's
  document (`database`), the decisions of the network event loop (`network`)
  and the REST greeting (`rest_api`).
- `app/` is the program around it: argument handling, reading the machine
  with sysinfo, HTTP with reqwest, the libp2p swarm and the tokio runtime.
- `tests/` runs the library on concrete values.
