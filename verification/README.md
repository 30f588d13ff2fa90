# unidpp-kit

The registry kit for a national DPP registry peer: a launcher that runs the
`unidpp-registry` service (foreground, daemon, or daemon with a quick
tunnel), the jurisdiction walkthrough, and the seeders that fill the
registry — a jurisdiction's signed self-descriptor, profile and binding, the
UnitsML unit inventory, the UNTDED 2005 trade data-element directory, and
the GB 4943.1 ↔ IEC 62368-1 cross-register mapping.

The library (`src/`) is verified with Verus: the documents the program
sends, what it makes of each answer, the order of the seeders' requests,
when a run succeeds, and the launcher's choices (the admin token's source,
whether to seed the base dataset, how long to poll) are stated in contracts
and proved. What is not proved: the outside calls (SHA-256, Ed25519,
`serde_json`'s string escaping, Unicode case mapping, `Duration`), whose contracts are trusted,
and `app/`, which performs the I/O the library asks for.

- `json` — JSON values with objects in key order, their compact and pretty
  texts (the canonical bytes a descriptor signature covers).
- `yaml` — YAML documents and their JSON form.
- `text` — decimal and hexadecimal forms, searching, trimming.
- `tally` — counting texts in key order, sorting texts, set differences.
- `http` — request heads and response reading.
- `kit` — the launcher's configuration, command line and decisions.
- `demo` — the walkthrough's views of the registry's answers.
- `seeding` — the registry connection, shared options, percent-encoding,
  the deterministic dev operator and its signatures, and one module per
  seeder; the jurisdiction, mapping and UNTDED seeders are step machines that name each
  request and judge each answer.

`app/` is the program around the library: environment, files, processes,
the network, and the conversions from `serde_json`/`serde_yaml` values.
