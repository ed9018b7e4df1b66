# hermes_desktop

The logic of the Hermes desktop app, verified with Verus, and the app around it.

- `src/` is the library. It holds what the app decides and computes: the registry
  of connections and its file format, the requests to gateways and what may be
  shown of their secrets, the supervision of the managed gateway, the git flows
  and the parsing of git's output, the terminal sidecar's protocol, the asset
  server's path rules, the guard against private hosts, previews, screenshots,
  captures, updates and the OpenSSH configuration. Every verified function has a
  contract; of a random number nothing is promised. The proof functions whose
  names begin with `law_` state what holds across functions.
- `src/outside.rs` holds the calls into outside crates and into std that the
  library trusts, each with what is claimed of it.
- `tests/` runs the library on concrete values.
- `app/` is ordinary Rust: the Tauri commands, files, processes, sockets and
  windows. It hands plain values to the library and does what the library says.

Work that takes several runs of a program, or several replies from a server, is a
function in the library from what has come back so far to the next step; `app/`
takes the steps.
