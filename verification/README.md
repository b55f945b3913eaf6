# liberum_core

The verified core of a peer-to-peer object store: nodes publish, find, fetch and delete
signed objects in a Kademlia network, and keep their identities and configurations on disk.

`src/` is the library, verified with Verus:

- `proto`, `wire`, `parser`: the objects nodes exchange (typed, signed, plain files, queries,
  pins, results) and their byte layout, with laws that what is written reads back.
- `hashing`, `base58`, `base64`, `identity`: identifiers (BLAKE3), text forms, and ed25519
  keys and signatures, each behind a small trusted wrapper of its crate.
- `key`, `be_bytes`, `fragmentation`, `vault`, `file_id`: keys of stored fragments, how files are
  cut into power-of-two fragments and put back together, and where the vault keeps them.
- `modules`: the handlers that unwrap objects when they are published, stored and queried,
  including the rule that only the owner's key may delete an object.
- `node_ops`, `runner`, `registry`: a node's decisions while fetching (integrity of what is
  fetched), deleting, publishing, gathering providers, dialing, and which nodes run.
- `configs`, `node_store`, `types`, `harness`: where nodes live on disk, their configuration,
  what is shown of them, and the plan of the network test harness.

`app/` is a small command-line tool that does the file I/O around the library.
