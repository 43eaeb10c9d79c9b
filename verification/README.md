# crates_io

Batch processing of crates.io packages: importing the crate list, reading the
registry index, and compiling crates to find the dependency updates that break
them.

`src/` is a library verified with Verus. It holds the data model, the parsers and
the rules, and a state machine for every job that waits for something outside:
each machine says what to do next, takes what came back, and moves on.

- `text`, `times`, `json`: text, points in time, JSON documents
- `index`, `version_batch`: the registry index, and the batch that stores it
- `latest`, `import`: the crate list and the newest versions
- `deps`, `versions`: dependencies, and the version an update goes to
- `project`, `baseline`, `experiment`, `failures`, `crate_run`, `workers`,
  `toolchain`: the compile run
- `schema`, `records`: the tables, their migrations, what is asked and stored
- `config`, `cli`: settings and commands

`app/` runs the machines: command line, files, processes, network and database.
It holds two programs, `crates_io` and, started under that name,
`datahandle-migration`.

Usage:

- migrations: `datahandle-migration up`
- crate list: `crates_io data-batch import-base`
- versions: `crates_io data-batch handle-version`
- crates without dependencies: `crates_io data-batch precompile-skip-no-deps`
- compile run: `crates_io compile`
