# snocat

A toolkit for tunnels: streams between two ends of a connection, addressed by routes, negotiated,
authenticated and handed to services.

`src/` is a library verified with Verus. It holds what is decided and computed:

- `address`, `net`, `numeral`, `text`: routes, network addresses and numbers, and their notations
- `negotiation`, `service`, `routing`, `request_handler`: how a stream comes to a service
- `proxy_tcp`, `demand_proxy`: the services that carry TCP connections
- `authentication`, `tunnel`, `peers`, `daemon`: the life of a tunnel and its authentication
- `registry`: where tunnels are registered, in memory, on a Redis server, behind a cache
- `ext`, `delegation`, `tunnel_source`, `uplink`, `ffi`, `cli`: helpers, and what the program needs

Where the outside world is involved, the library takes an event and says what is to be done next.
`app/` does it: it is the command line program, with the sockets, timers and files. `tests/` runs the
library on concrete values.

Each public function states what it returns in its `ensures`. Properties that span functions are
public proof functions whose names begin with `law_`. Calls into other crates stand behind functions
marked `external_body`, whose doc comments say what is taken on trust.
