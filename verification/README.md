# villagesql

The verified core of the VillageSQL extension SDK, written in Verus.

An extension hands the server a registration (its SQL functions, custom
types and required capabilities), and the server then calls the
extension's functions row by row through fixed C slots. This crate holds
the logic of that exchange over plain models of the slots, each function
with a contract that Verus proves:

- `pairs`, `params`: type parameters (`key=value,...`), their parsing, the
  canonical sorted form the server expects, the inferred-parameter buffer
  and the `resolve_params` wire text, with laws relating them
  (`law_parse_canonical`, `law_canonical_fixed_point`, ...).
- `cache`: the parse-once cache from a canonical key to typed parameters
  (`law_cache_parse_once`, `law_cache_keeps_entries`).
- `runtime`: reading a row's arguments, writing a return value into the
  result slot (an error rather than truncation when it does not fit), the
  prerun handle, and the runners of scalar, stateful and aggregate
  functions.
- `vdfs`: the SQL functions every custom type gets (`from_string`,
  `to_string`, `compare`, `hash`, and the parameter functions).
- `registration`: function and type descriptors and the registration
  (protocol 3, the SDK version, and the lists it carries).
- `preview`: the preview capabilities (ping, keyring, system and status
  variables, thread worker, SQL queries): their registration entries, the
  check of each vtable against the oldest ABI version this SDK calls into,
  and how each answer is read.
- `text`: UTF-8 ordering, decimal rendering and parsing, trimming.
- `tooling`: the decisions of `cargo vsql` (manifest checks, the workspace
  root search, library and archive names).

`app/` is the `cargo vsql` command itself: argument parsing, the file
system, processes and the tar archive, calling the library for every
decision.
