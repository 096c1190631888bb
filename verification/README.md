# OpenFetch

An extensible downloader: extensions and plugins describe themselves in
manifests, queries in plain language are matched to them, and tasks are kept
and served over a command line, a local HTTP server and a cloud service.

- `src/` is the library, verified with Verus: text handling, manifests and
  intent scoring, the plugin and extension registries, the hook system, the
  task stores of the cloud service and of the local server with the answers of
  their routes, the task states of the database, the script runtimes, and the
  computations of the command line. Each public function states what it
  returns in its contract; the laws of the library (what a lookup finds after
  a store, how a run of hooks ends, how task counts partition) are proof
  functions beside the code they speak of.
- `app/` is the program around it: argument parsing, files, processes, the
  SQLite database and the HTTP services, with serializable copies of the
  library's types.
- `tests/` runs the library on concrete values.
