# logos_scaffold

The verified core of the `logos-scaffold` project tool: reading and writing
`scaffold.toml`, deriving crate, plugin and title names from a project name,
the rules commands check about a project, and the paths and decisions of
creating, building and installing projects.

- `src/` is the library, verified with Verus. `config.rs` holds the reader and
  writer of `scaffold.toml`. `config_laws.rs` proves that a configuration
  reads back unchanged after it is written, provided it is complete (every
  required or defaulted value non-empty, repositories complete) and its
  values hold no line feed, double quote or backslash (`config_complete`,
  `config_plain`); it also proves which lines the reader ignores.
- `app/` holds the command side: the file system, environment variables,
  child processes, JSON metadata and error messages.
- `tests/` exercises the library on concrete inputs.
