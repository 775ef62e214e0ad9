# openkite

The core of OpenKite, a Kubernetes desktop IDE, as a library verified with
Verus: plugin registration and hot reload, the plugin bridge's decisions,
themes (built-in palettes, Zed import, opaline mapping), the command
palette's fuzzy ranking, the context switcher, workload and network table
models, log and terminal buffers, PromQL request building, manifest
validation and starter documents, and the cluster connection state.

Layout:

- `src/` — the verified library. Every public function states what it
  returns in its contract; `law_*` proof functions state the properties
  that hold across calls (read-back, round trips, idempotence, ordering).
  Calls into `opaline`, `serde_saphyr`, `serde_json` and std that the logic
  needs stand behind small trusted items whose contracts say what the
  outside code documents.
- `tests/` — concrete scenarios for every module, run against the real
  outside crates.
- `app/` — the host process: configuration and theme files, plugin
  discovery and the file watcher, the kube-backed bridge, Prometheus
  queries, log streams, and the floating-point table and sparkline
  geometry.
