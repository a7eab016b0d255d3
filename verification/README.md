# lantern

Lantern carries end-to-end encrypted messages between nodes that meet on a
local network, storing and forwarding bounded Envelopes in between.

`src/` is the verified library:

- `envelope`, `codec`, `cbor`, `route`, `queue`: the Envelope model, its one
  canonical CBOR form, local route records and the bounded queue with active
  and tombstone deduplication.
- `sync_offer`: which queued Envelopes a node offers to a peer in one batch.
- `diagnostics`: a bounded journal of events that carries no message data,
  and the checks applied when a stored journal is read back.
- `crypto`: the inner message and wrapper formats, contact invitations and
  responses, the SAS-confirmed handshake and sealing chat messages with an
  Olm session (vodozemac).
- `secret_storage`: the key-derivation header (Argon2id), passphrases and
  keys that are wiped on drop, contact validation and attempt budgets.
- `lan`: LAN addresses, the version hello, frame lengths and the peer table.
- `node`, `bridge`: maintenance reports and the decisions of handing an
  outbox to the queue.
- `cli`: argument parsing and the checks on private files.

`app/` is the command-line program around it: files, SQLite, TCP and the
clock. In this build it runs `help`, `node-init`, `diagnostics`, `listen`
and `connect`. The commands that need the encrypted profile database or the
node's queue store and synchronisation (`profile-init`, `contact-invite`,
`contact-respond`, `contacts`, `send`, `receive`, `inbox`) answer with an
error: those parts are not built here, so the library's checks for them
(such as `check_sas_answer` and `find_contact`) are exercised by the tests
only. `tests/` exercises the library from outside.
