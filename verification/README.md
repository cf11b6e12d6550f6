# Phantasma

A small end-to-end encrypted messenger: each client seals messages with
X25519, HKDF-SHA256 and XChaCha20-Poly1305 before they leave the device, and
the relay only stores and forwards ciphertext.

Layout:

* `src/` — the verified core, written in Verus:
  * `protocol` — message and directory records, username and key-text rules;
  * `encoding` — unpadded base64url text of keys, nonces and ciphertexts;
  * `crypto` — sealing a message for one recipient and opening it again;
  * `identity` — the user's key pairs and the record they are saved in;
  * `contacts` — the contact book, kept in name order;
  * `endpoints` — the relay's HTTP and WebSocket base URLs;
  * `cli` — program arguments and prompt commands;
  * `relay` — registration checks, routing, connection registry and the
    delivery of queued payloads;
  * `text` — string helpers the rest is proved with.
* `tests/` — tests of the library, run against the real cryptographic crates.
* `app/` — the program around the core: terminal client (`phantasma
  <username>`) and relay (`phantasma relay`), with the files, the SQLite
  queue, HTTP and WebSockets.

The contact book and the relay's registry of connected users are vectors
whose invariants (names in strictly increasing order; each name once) are
stated and proved, and each is viewed as a map. Verus's specifications of
`BTreeMap` and `HashMap` yield no usable facts for `String` keys, so the
maps are not used in the verified core.
