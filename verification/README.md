# omikron

An Omikron relay: it sits between clients, guests, iotas (the servers that
hold users' data) and omega (the directory service), checks who is who with
encrypted challenges, and routes their messages, calls and presence notices.

## Layout

- `src/` is the library, verified with Verus. Each connection kind has a
  module holding its state and its decisions: given the state and a message,
  what the connection becomes and what is to be sent where
  (`client_connection`, `client_requests`, `iota_connection`,
  `anonymous_client_connection`, `general_connection`, `call_connection`,
  `omega_connection`). The registries they work on are `calls` (call groups
  and their members), `rho` (the clients joined to each iota) and `anonymous`
  (the guests). Below them lie the wire vocabulary (`wire`), the message
  envelope (`communication`, `json`), the crypto framing (`crypto_helper`,
  `crypto_util`, `primitives`, `hex`), the authority's answers (`auth`), the
  settings (`config`) and log lines (`logger`, `console`). `laws` states and
  proves the properties that relate several operations.
- `app/` is the process around the library: the WebSocket server, the link
  to omega, the HTTP requests to the authority, the LiveKit room service,
  files and the log writer. It performs what the library decides and hands
  it back what came in.
- `tests/` runs the library on concrete values.

The calls into the crypto, Base64, UUID, JSON and LiveKit token crates, and
into the parts of std that Verus does not specify (the system clock, UTF-8
decoding, lowercasing, integer parsing, pushing a character), stand in `src/`
behind small trusted wrappers whose contracts say what those functions do;
everything else in `src/` is proved.
