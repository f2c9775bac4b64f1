# mcp-servers

Three MCP (Model Context Protocol) servers over stdio:

- `spain`: Spanish public data: CNAE activity codes, the AEAT tax calendar,
  Verifactu e-invoicing rules, BOE gazette search and Catastro property queries;
- `motorsport`: Formula 1 data from OpenF1 and Jolpica-F1: race and session
  classifications, lap times, tyre stints, telemetry, driver comparison and
  championship standings;
- `infra`: host health, Docker containers, Prometheus queries, Grafana
  dashboard links and Alertmanager alerts.

## Layout

- `src/`: the library, verified with Verus. It holds what the tools decide
  and compute: the embedded tables and their filters, the reading of every
  API answer (as a JSON tree of the library's own), request addresses and
  cache keys, date arithmetic, error messages, and the decisions of the
  response cache. Contracts state each result over specification functions;
  proof functions state the laws that span calls.
- `app/`: the executable (`mcp-servers spain|motorsport|infra [--config FILE]`):
  command line, configuration files, HTTP and Docker calls, the cache store,
  the MCP protocol, JSON output, and the floating-point figures (lap time
  deltas, resource percentages, telemetry downsampling).
- `tests/`: tests of the library on concrete inputs.
