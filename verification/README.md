# rathole

A traffic-switching relay. Local machines open a WebSocket tunnel to the
relay; public requests for `<subdomain>.<domain>` are sent through a healthy
tunnel registered for that subdomain, or to a cloud backend when there is
none. Clients are kept on the backend that served them by cookies.

- `src/` is the library, verified with Verus: header and cookie parsing
  (`headers`, `cookies`, `text`), tunnel health bookkeeping (`health`,
  `hardware`), the routing decision (`routing`), the life of a tunnel
  connection and of forwarded requests (`session`), login and its signed
  session tokens (`auth`), errors
  (`error`) and the tunnel protocol's requests (`protocol`).
- `app/` is the server and the tunnel clients around it: sockets, timers,
  Redis, JSON wire formats, configuration, and the floating-point health
  estimates. Run with `client` it is the tunnel client; with `relay` and
  `relay-client` the standalone relay and its client.
- `tests/` exercises the library on concrete requests.
