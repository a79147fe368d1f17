# k3dev

A local K3s cluster in Docker, from the terminal. `k3dev` starts, stops and deletes the cluster,
takes snapshots of it, keeps the hosts file in step with its ingresses, runs diagnostics, captures
traffic, and shows pods, volumes and image pulls while it does so.

## Layout

- `src/` is the library: every decision that the program makes, as functions from plain values to
  plain values, with contracts that Verus proves. Operations that alternate between work and
  decisions (`machine.rs`) are functions from an action and what came of it to the next action.
  - `cluster/` holds the life of the cluster (`k3s/`), what is asked of Docker (`docker/`), ingress
    and hosts file, diagnostics, and what is asked of Kubernetes.
  - `app/` holds the state of the interactive program: keys, messages, commands, refreshing.
  - `capture/`, `bench.rs`, `cli.rs` and `agent.rs` hold the captures, the benchmark, the commands
    of the command line, and the agent that measures containers.
  - `text.rs`, `number.rs`, `order.rs`, `textmap.rs`, `approx.rs`, `natural.rs`, `elapsed.rs`,
    `pattern.rs` and `version.rs` hold what the rest is built from.
  - Functions named `law_..` state what holds of several functions together.
- `app/` is the program around the library: terminal, sockets, files and processes.
- `tests/` run the library.
