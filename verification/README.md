# sandlock-control

The control protocol of sandlock sandboxes, verified with Verus.

Every sandbox binds one abstract Unix stream socket, `\0sandlock/<uid>/<name>`.
A bound name is a mutex, the kernel's socket table is the registry, and the uid at
the other end of a connection is the only permission check. A request and its
response travel as a four-byte big-endian length and a JSON body:

    {"v": 1, "verb": "info", "args": {}}
    {"v": 1, "ok": true, "data": {"child_pid": 1234, "supervisor_pid": 1233, "mode": null}}
    {"v": 1, "ok": false, "err": "..."}

The verbs are `info` (pids and mode), `config` (effective policy) and `ports`
(virtual to real port map).

## Layout

- `src/`: the verified library.
  - `address`: socket names. `discovery`: listing sandboxes from the socket table,
    with `table` (lines and words) and `order` (sorted lists of names).
  - `frame`: lengths and bodies. `protocol`: messages and what each verb answers.
  - `server`: whom to serve and what to answer. `client`: a call, step by step.
  - `json`: JSON values of `serde_json`. `text`: decimal numbers and messages.
- `app/`: sockets, the runtime, and reading the message types from JSON.
- `tests/`: the library at work.

What the library takes on trust is marked `external_body`, `assume_specification`
or `uninterp`, in `json`, `discovery` and `text`; each such item names the outside
function it stands for.
