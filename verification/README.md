# lifx_api_server

A server that offers part of the LIFX HTTP API for bulbs on the local
network, speaking the LIFX LAN protocol to them: List Lights
(`GET /v1/lights/<selector>`), Set State (`PUT /v1/lights/<selector>/state`)
and Set States (`PUT /v1/lights/states` with a JSON body of `states`, each
with its own `selector`, and optional `defaults`).

- `src/` is the verified library (Verus): the table of bulbs and how each
  LAN message changes it, the queries that keep it fresh, the reading of
  `color` strings, authorization, routing, bulb selection and the messages a
  `SetState` or `SetStates` request sends. LAN messages are built and decoded by `lifx-rs`
  behind small trusted wrappers in `src/lan.rs`; the contracts of those that
  build datagrams state their byte layout, those that read datagrams name
  what lifx-rs reads from them; random bulb identifiers come
  from `rand` in `src/bulb.rs`.
- `app/` is the process around it: the UDP socket and its receiving thread,
  network discovery, the refresh loop, the HTTP endpoint (`rouille`), JSON,
  and the floating-point color conversions (`palette`, `colors-transform`).
- `tests/` runs the library on concrete datagrams and requests.

Times in the library are monotonic clock readings in nanoseconds, handed in
by the caller.
