# mc-ingress

An ingress for Minecraft servers that run as deployments of a Kubernetes cluster. A client's
handshake names the server it wants; the ingress finds the deployment and the service that are
labelled with that address (`tami.moe/minecraft`) or port (`tami.moe/minecraft-port`), answers for a
server that does not run, starts it when somebody joins, passes connections on to one that runs, and
stops it once nobody plays.

## Layout

- `src/`: the library. Packets, the rules for connections, the lookup of servers, the watch over
  servers and the rendering of errors, each with a contract that Verus proves. `session.rs` and
  `watcher.rs` are machines that are told what happened and say what to do.
- `app/`: the program around it. TCP streams, the Kubernetes client, JSON, the filter and logging.
- `tests/`: the library, run on concrete values.

## Environment variables

- `BIND_ADDR` (default: `0.0.0.0:25565`): the address to listen on.
- `FILTER_CONN` (default: `(addr == "10.100.0.1")`): an expression for
  [evalexpr](https://docs.rs/evalexpr/latest/evalexpr/). In it, `addr` is the address in the
  handshake. Connections for which it holds are dropped.
