# xhttp-tunnel

A proxy that carries SSH over plain TCP, TLS, HTTP and UDP, for clients on
networks that let only web traffic through.

A client opens a session with a `GET` whose path names it (`/ssh/<session>/0`);
the response is one long chunked stream of what the SSH server sends. Every
`POST` to the same session carries data the other way.

- `src/` is the library: every decision of the proxy, verified with Verus. It
  reads requests and paths, routes connections, runs download streams, uploads,
  pumps and retries as functions from an event to the next action, and builds
  what is sent in answer. It does no input or output.
- `app/` is the program around it: it listens, connects, reads and writes, and
  carries out what the library decides.
- `tests/` runs the library on concrete values.

Each module ends with its laws: public proof functions that state what holds of
its functions together.

- A download stream drains: when the SSH server closes, and the client keeps
  reading and opens no newer stream, the client has read all that the SSH server
  sent once the stream is over. This leaves out two things: a session to whose
  SSH server a write failed before it closed, and a read that is exactly
  `__REPLACE__`, the message that ends a stream for a newer one.
- The SSH server gets what is uploaded to a session, in order and from the start.
- The end of a replaced stream leaves the newer session in place.
