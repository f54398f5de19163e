# A small verified HTTP/1.1 server library

`src/` is the library, verified with Verus:

- `text` — character-level operations (splitting, trimming, case-insensitive
  comparison, decimal numbers) with their mathematical definitions.
- `http` — methods, status codes, request-line and header parsing, header
  validation, response encoding, and the handler store that routes requests.
- `reader` — how a line or a body read from a connection is accepted.
- `server` — the decisions of the connection loop, from what was read to what
  is written next.

`app/` is the program around it: the TCP listener, the reading and writing of
the connection, and an example set of handlers.
