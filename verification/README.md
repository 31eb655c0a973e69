# rest_server

A small HTTP server: an in-memory store of samples, a routing table of
controllers, and a TCP transport. The library under `src/` is verified with
Verus; `app/` holds the program around it (sockets, worker threads, JSON).

- `src/store.rs`: `MemoryStore`, a map from names to samples, with `get`,
  `add`, `update`, `delete` and `getAll`, and the laws that relate them.
- `src/routing.rs`: controllers and the `Router`; which controllers serve a
  request, and what to do with a handler's result.
- `src/handlers.rs`: the handlers that look a sample up by the last segment of
  the path and that store a posted sample.
- `src/http.rs`: reading method, path and body out of a request, and writing a
  JSON response.
- `src/transport.rs`, `src/decimal.rs`: `listen`, which reuses a kept listener
  or binds `host:port` through the function it is given, and the address itself.
- `app/`: `main`, the listener loop, the thread pool, and the serde forms of
  `Sample` and `CustomError`.
