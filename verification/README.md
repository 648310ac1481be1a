# driver

The decision core of a driver that lets a language model use tools: the driver's own tools
(files, shell commands, shell sessions, repositories, HTTP, records of operations and
projects) and those of MCP servers.

- `src/` is the library, verified with Verus. It decides; it does no input or output. A call of
  a tool becomes an action (`actions`), and what came of the action becomes an answer. The loop
  between the model and its tools (`agent`), the reading of a server's answers (`rpc`) and the
  course of a run (`run`) are state machines that are told what happened and say what to do next.
- `app/` is the program around it: it performs the actions, speaks to processes and to the
  network, and serves HTTP.
- `tests/` runs the library on concrete values.

What the library takes from other crates (JSON text, regular expressions, glob patterns, the
clock, random identifiers, letter case) stands in small functions whose contracts are believed,
in `json`, `files`, `registry`, `clock` and `unicode`; `text` adds the same for two methods of
`String`.
