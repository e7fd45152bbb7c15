# ollama_monitor

A monitor for a host that runs Ollama: it reads the GPU's metrics from
`nvidia-smi`, the host's memory and CPU from `/proc`, and the model list from
Ollama's `/api/tags`, stores one record per refresh in SQLite, and serves the
latest snapshot, its parts and the history over a REST API and a web
dashboard.

- `src/` is the library, verified with Verus: configuration from the
  environment's values and the URLs and addresses built from it (`config`),
  the readers of `nvidia-smi` CSV output (`gpu`) and of `/proc/stat` and
  `/proc/meminfo` (`system`), the text utilities they rest on (`text`), the
  data types (`models`), the database rows, SQL statements and history
  queries (`db`), what the monitor asks of Ollama and what it takes from the
  answer (`ollama`), and the refresh step, the status timestamp and the
  answers of the endpoints (`api`).
- `app/` is the program around it: reading the environment, running
  `nvidia-smi`, reading `/proc`, the HTTP client and server, running the
  SQLite statements, the JSON forms of the data, and the floating-point
  readings and percentages.
- `tests/` runs the library on concrete inputs.
