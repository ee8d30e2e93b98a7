# project_workspace

Project-owned browser instances for a browser bridge, verified with Verus.

A project may have one workspace browser. Its profile and extension live in
directories that depend on the project alone; its lane, socket path and address
change with every start. The library decides who is routed where, what a stop
removes and when a start is refused. The host runs the processes and sockets.

- `identity` - what one start of a workspace browser is known by
- `bridge` - the state of the bridge: routing, status, stop, clients, replies
- `start` - a start, one step at a time
- `accept` - what the listener and its sockets do
- `status` - what callers are told
- `tabs`, `table`, `pairs` - tabs, and the tables the bridge keeps
- `text`, `digest`, `generation`, `paths` - digits, SHA-256, random UUIDs, paths
- `laws` - what holds of the whole

`paths`, `digest` and `generation` state what is taken on trust of `std::path`,
`sha2` and `uuid`; everything else is proved. `app/` is the asynchronous bridge
around the library.
