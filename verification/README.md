# summ server

The HTTP server of an OCI registry: what it decides is a library verified with
[Verus](https://github.com/verus-lang/verus), and what it performs is ordinary
Rust around it.

- `src/` is the library. Its modules say which operation a path names (`app`),
  who may perform it (`auth`), what is asked of the registry and what is answered
  (`handlers`), how a failure is told (`error`), what the server runs under
  (`config`) and prints (`banner`), and what the store-backed registry decides
  between two calls into its stores (`backend`). `text`, `query`, `reference`,
  `pagination`, `calendar`, `wire`, `json` and `random` are what those are made
  of. A `law_` proof function states something of the library as a whole.
- `app/` is the `summ` binary: arguments, sockets, tasks and the calls into the
  metadata engine and the blob store.
- `tests/` runs the library with the outside crates linked.

An operation that alternates decisions with calls into the stores is a machine:
a step names what is to be done next, the outcome of doing it is an event, and a
function of the library says which step follows.

What is trusted is written down where it stands: the functions marked
`external_body`, the `assume_specification` items and the declarations of outside
types, in `text`, `query`, `wire`, `json`, `random` and `backend`.
