# echat

An end-to-end encrypted messenger that travels over ordinary e-mail
(IMAP and SMTP): messages are encrypted with X25519 + ChaCha20-Poly1305,
disguised as plain mails, and read back from a dedicated IMAP folder.

## Layout

- `src/` — the library, verified with Verus.
  - `text`, `bytes`, `encoding`, `clock`, `crypto` — text and byte helpers,
    base64, time and random identifiers, and the calls into the
    cryptographic crates, each with its contract.
  - `encryption` — keypairs, shared secrets, the payload format, group
    fan-out encryption, handshakes, mail disguise, password-protected key
    export.
  - `email` — mail values, provider settings, header parsing, the codec
    between chat envelopes and mails, and what the IMAP/SMTP client makes of
    the servers' answers.
  - `chat` — the chat core: models, keystore, events, the decisions of the
    services, the synchronisation state machine, history restoration.
  - `ui` — the state of the desktop interface and how each event changes it;
    `ui::views` holds what the views decide before drawing.
  - `platform` — the conversions between database records and core values.
- `tests/` — tests of the library.
- `app/` — the asynchronous platform around the library: IMAP/SMTP
  connections, the OS keychain, JSON forms of the protocol messages, the
  services over the storage and transport ports, the synchronisation loop
  and the controller of the desktop interface.
