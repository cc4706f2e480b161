# cella

Sandboxed development environments: every branch of a repository can have a
cell, a small machine with its own clone, network rules and sessions, and flows
that run operations in it.

- `src/` is the library, written and proved with Verus.
  - `flow/`: flows, their operations, their state files and their timeouts.
  - `cellx/`: running a flow: stages, hooks, rules for the network, services.
  - `cella/`: the commands of the client, the requests it makes, the control
    interface of a server, tunnels, secrets and the removal of stale cells.
  - `session/`: cells with sessions: addresses, names, machines, shells,
    clones, and the registry of servers.
  - `text/`, `path.rs`, `json.rs`, `names.rs`, `command.rs` and `http.rs`: what
    the rest is built from.
- `tests/` runs the library on concrete values.
- `app/` is the program around it: arguments, files, processes and sockets.

Contracts are stated over sequences of characters, maps and small spec types.
Functions called `law_...` state what holds of several operations together.
What is taken from outside without proof stands in `flow/time.rs`, `json.rs`,
`path.rs`, `session/server.rs`, `text/basic.rs` and `text/letters.rs`, each with
a comment that says what is claimed of it.
