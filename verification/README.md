# ibmcloud_mcp_server

A Model Context Protocol server over stdio that wraps the IBM Cloud CLI
(`ibmcloud`): 88 tools for authentication, resources, Cloud Foundry,
Kubernetes, Container Registry, IAM, catalog, billing and plugins.

The library in `src/` is written in Verus and verified:

- `text` — Unicode whitespace trimming, blank-line detection, decimal
  rendering of integers, and the code-point order on strings.
- `args` — the arguments of a tool call, a JSON object as key lookups read it.
- `catalog` and its entries — each tool's name, description, input schema and
  command recipe; proofs that every schema agrees with its recipe and that no
  two tools share a name.
- `command` — from a tool call to the `ibmcloud` command line (with
  `--output json` added where the subcommand supports it), and from the
  command's output to the text the call answers with.
- `rpc` — what to do with each JSON-RPC request (`initialize`,
  `notifications/initialized`, `tools/list`, `tools/call`, anything else):
  answer it, ignore it, or run `ibmcloud` once with a given command line and
  answer with the outcome.

`app/main.rs` is the program around it: it reads request lines, parses them
with `serde_json`, runs `ibmcloud` as a child process when the library asks
for a run, and writes the answers as JSON.
