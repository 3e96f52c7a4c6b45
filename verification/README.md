# hledger-mcp

An MCP server that keeps the ledger of a construction project with
[hledger](https://hledger.org), and the rules it goes by, proved with Verus.

- `src/` is the library: every rule of the server, with its contract. It reads no files, runs
  no processes and waits for nothing. An operation that needs such work in between
  (`write::guard`, `write::append`, `write::plan`, `write::update`, `write::budgeting`,
  `write::reconcile`, `server::orders`) is a state that names the next action and takes its
  reply.
- `app/` is the program around it: the command line, logging, running hledger, the repository,
  the locks, and the MCP transport. It performs the actions that the library asks for.
- `tests/` runs the library on concrete values.

What the library promises across functions stands in proof functions whose names begin with
`law_`. Among others:

- The journal is only ever replaced by a checked candidate that begins with what it held, and a
  write that fails leaves it as it was (`law_write_fails_closed`,
  `law_candidate_is_append_only`); so with the budget file (`law_budget_fails_closed`).
- A decision is only made by a connection that knows every commit
  (`law_decisions_are_fully_informed`, `law_writes_are_locked_and_checked`).
- A repeated request is recognised by what the first one wrote, and changes nothing
  (`law_retry_is_recognised`, `law_new_key_is_posted`).
- A replacement is two entries or none (`law_update_is_two_entries_or_none`).
- A change order is recorded once and approved once (`law_order_is_recorded_once`,
  `law_order_is_approved_once`), and nothing is left of it once it is voided
  (`law_voided_order_is_reversed`, `law_voided_order_is_as_if_never_recorded`).
- Amounts, budgets and entries read back (`law_quantity_text_is_lossless`,
  `law_budget_file_round_trip`, and those of `write::readback`).

Where a law speaks of several steps of an operation, it is stated over its course: the states,
the actions, the replies, and what the actions leave on disk or in the ledger.

What is taken from outside without proof: `String::push` and `{:?}` of the standard library,
dates from `chrono`, JSON documents from `serde_json`, random identifiers from `uuid`, and the
protocol revisions that `rmcp` knows. Each of these items says in its doc comment what is
believed of it.
