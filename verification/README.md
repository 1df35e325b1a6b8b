# vm-box

Runs a coding agent inside an ephemeral macOS VM. The tool is installed as
`<agent>-box` and runs the agent of that name: it clones a base image with `tart`,
shares the project directory with the clone, puts an SSH key onto its disk, boots it,
runs the agent there over SSH, and deletes the clone.

- `src/` is the library: what the tool decides and computes, verified with Verus.
  What takes several steps of outside work (a run, the creation of a warm VM, the
  boot of a clone, the injection of a key, a relay) is a state machine there, with
  the properties that hold of every course of it proved beside it.
- `app/` is the tool: it reads and writes files, runs commands and talks to the
  guest as the library says.
- `tests/` runs the library on concrete values.

What is taken on trust of other crates and of std stands in the doc comments of the
items marked `external_body` or `assume_specification`.
