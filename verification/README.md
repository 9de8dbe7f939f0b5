# dwn

A Decentralized Web Node: records written, committed, deleted, read and queried as
messages, kept in a message store and a data store. The library is verified with
Verus; `app/` is the program around it.

## Layout

- `src/message/`: messages, their descriptors, data, authorizations and builder;
  their DAG-CBOR encodings, CIDs and record ids (`src/ipld.rs`, `src/cid.rs`).
- `src/store/`: the store (`SurrealDB`, held in memory): messages by tenant and
  CID, data by CID counted by reference, queries by record id and date order.
  `src/store/laws.rs` states what put, get, delete and query promise of one another.
- `src/handlers/`: the handlers of the records interface. Each handler's effect is
  a spec function (`write_spec`, `commit_spec`, ...) that its contract names;
  `src/handlers/laws.rs` states what they promise across messages.
- `src/lib.rs`: the node, `DWN`, which dispatches a message to its handler.
- `src/actor.rs`, `src/features.rs`, `src/response.rs`, `src/data.rs`: record
  writes as an actor, feature detection, response statuses, request bodies.
- `app/`: `main`, signing and verifying authorizations with didkit, reading data
  CIDs with libipld, and the JSON forms of descriptors.

The node takes the result of an authorization check, and the time, as arguments
(`DWN::process_message_at`); `DWN::process_message` reads the clock. A read whose
record names its data by a CID is answered in two steps: the caller reads the CID
text between `DWN::process_message` and `DWN::finish_read`.
