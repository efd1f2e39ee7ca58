# netplay

The verified core of a small client/server networking layer for a bevy
game. Clients connect to the server over TCP; every message travels as a
four-byte big-endian length header followed by its bincode-encoded body.

- `src/` is the library, checked by Verus:
  - `network`: client identifiers and the envelopes around messages;
  - `frame`: the length header, with the proof that a reader gets back the
    length (and so the body) that a writer framed;
  - `link`: what a stream thread observes of a read or a write;
  - `server`: the server's list of clients and its listen-thread decisions;
  - `streams`: the streams of the server's listen and send threads;
  - `client`: the client's state and its listen- and send-thread decisions;
  - `hlnetwork`: the identify/ping protocol.
- `app/` is the program around it: the bevy plugins and systems, the TCP
  sockets, the threads and channels, and the bincode wire types.
- `tests/` runs the library on concrete values.
