# OxiSH

An SSH server for Linux and macOS. Its protocol layer is free of I/O and verified with
[Verus](https://github.com/verus-lang/verus).

- `src/` is the library: the messages of the protocol and their wire format, packet framing and
  encryption, key exchange, authentication, channels, and the state of a session that is handed
  over to a process of its own. Contracts say what the functions do, and what holds of several
  functions together is stated in public proof functions. Of random outcomes, such as a new signing
  key, a contract says what is possible or nothing at all.
- `app/` is the server around it: sockets, pseudoterminals, the system's user database and the
  cryptographic primitives, by way of aws-lc-rs.
- `tests/` runs the library, with aws-lc-rs as its provider where keys are involved.

## Layout of the library

| Module | Contents |
| --- | --- |
| `wire` | encoding and decoding of numbers, strings and texts |
| `named` | algorithms, services, methods and other things that go by a name, and lists of them |
| `packet` | message types, packets, disconnects and other messages of the transport |
| `identification`, `handshake` | identification of both sides and the steps of a key exchange |
| `key_exchange`, `crypto`, `host_keys` | negotiation, exchange hash, key derivation; traits for the primitives |
| `io` | framing, padding, encryption and the buffers of a connection |
| `auth`, `authorized_keys`, `authentication`, `users` | public key authentication and the keys of users |
| `channels`, `session` | channels with their windows and terminals, and sessions |
| `text`, `error`, `server` | helpers, errors, configuration |

What the cryptographic primitives and the user store do is stated by the traits in `crypto` and
`authentication`. A round trip law, such as `packet_round_trip` or `session_state_round_trip`, says
that reading gives back what was written.

## Supported cryptographic algorithms

- Key exchange: `mlkem768x25519-sha256`, `curve25519-sha256`
- Public key: `ssh-ed25519`, `ecdsa-sha2-nistp256`
- Encryption: `aes128-gcm@openssh.com`
