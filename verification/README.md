# jieum

A verified tree-walking interpreter for 지음, a Korean teaching language
with message sends, a drawing canvas and PyTorch-style builtins.

The library (`src/`) is written in Verus. It walks a resolved program tree
and keeps its data in a store (lists, records, scopes, closures) that values
refer to by number. The interpreter's logic is proved against contracts:
scoping, operators, statements and calls (each statement and call stated
in terms of how its parts ran), builtins, messages, the canvas record, the
bookkeeping of models, datasets, loaders and batches, and a log of every
request made of PyTorch. What only a machine can do — double-precision
arithmetic and printing, the clock, the terminal, PyTorch tensors — is
asked of a `Host`, whose answers the contracts take as they come. Every
PyTorch request, every other question (a double's arithmetic, comparison,
conversion or text, the clock, a tensor's size or value, a batch's parts)
and every echoed line or pause reaches the host only through
`RequestLog::ask`, `QueryLog` and `StreamLog`, which hand it exactly what
they log and log the answer it gives. The logs only ever grow, and the
contracts state them and what is done with each answer, not the answer
itself.

- `syntax` — the program tree; `value`, `store` — values and where they live
- `eval`, `calls`, `messages`, `fields`, `ops` — evaluation
- `learning`, `torch` — the PyTorch builtins and their bookkeeping
- `canvas` — what a run records; `run` — whole programs and sessions
- `text`, `arith` — integer text and arithmetic
- `host` — what is asked of the host, the logs of it, and IEEE-754 bit facts
- `mnist` — MNIST file names, which to download, addresses and unpacking (with `flate2`)
- `laws` — properties that span several operations

`app/` holds the native host: `f64` arithmetic, `Instant`, stdout, sleeping,
`tch` for PyTorch, MNIST downloads with `reqwest`, and serde copies of the
canvas records.
