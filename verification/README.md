# flow

flow shares one keyboard and mouse between several computers. The server
tracks its cursor; when it crosses onto a monitor of a connected client, local
input is captured and sent to that client over encrypted UDP, and clipboard
content follows over TLS.

The crate `flow` (in `src/`) is verified with Verus:

- `crypto`: replay window for UDP sequence numbers, ChaCha20-Poly1305 packet
  sealing, certificate fingerprints, the request for the machine's
  self-signed certificate (made by rcgen).
- `network`: TCP message framing, the UDP event text and packets (a packet
  that does not authenticate leaves the replay window alone), the UDP
  handshake, trust-on-first-use decisions and the list of certificates
  waiting for the user.
- `state`: peers, their connection states and who receives input: input is
  captured exactly while it is redirected, goes only to a peer that is fully
  connected when the switch happens, and is released when that peer
  disconnects or is removed.
- `engine`: workspace geometry and monitor placement, host-side edge tracking
  and redirected motion, clipboard echo suppression, chunked transfer of
  large clipboard content, the names received files are written under
  (split by the platform's rules, and kept inside the temporary folder).
- `hardware`: key and button names and codes for macOS and Linux, the
  decisions of the input hooks, clipboard promises.
- `paths`, `config`, `text`: file locations, settings, decimal text.

`app/` is the program around the library: devices (evdev, arboard), the
SQLite store, sockets and TLS, and a small console for trust prompts.
`tests/` exercises the library on concrete values.
