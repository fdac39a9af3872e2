# wl-mitmproxy

A Wayland proxy that sits between a client and the compositor, forwards the traffic between
them, and rewrites selected messages on the way: the application ID and the title that a
client gives its windows.

`src/` is the library. It holds the decisions of the proxy, each with a contract that Verus
proves:

- `rewrite`: what watches which protocol object, and what is forwarded for a request
- `path`, `socket`: Unix paths as bytes, and the name and path of the proxy socket
- `listen`: what a socket's path holds, the allocation of a free name, the preparation of a
  listener
- `serve`: accepting clients, and the session of each one
- `child`: signals, the wait for the child, and its exit code
- `config`, `launch`: the command line and the environment, and the course of each mode
- `notice`, `error`, `text`: what the proxy tells its user

Whatever touches the system in turns is a table in the library: it takes the step that is
pending and what came of it, and gives the next step. The proof functions beside each table say
what holds of every run.

`app/` is the program around the library: it performs the steps.

Status lines are written where `RUST_LOG` is `info` (or `debug` or `trace`); errors always are.
