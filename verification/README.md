# massa_api

The public API of a node, with its rules verified.

Clients ask a node for its status, for blocks, operations, endorsements and
addresses; they have it execute code without a trace in the ledger, and they send
it new operations. The API answers by asking the services that run inside the
node and compiling what they say.

- `src/` is the library: what each endpoint decides and compiles, on plain
  values, with contracts that Verus proves. It calls nothing outside.
- `app/` is the asynchronous side: the traits that a node implements for its
  services, and the endpoints that ask them and follow the library's steps.
- `tests/` runs the library on concrete requests.

| Endpoint | Module |
| --- | --- |
| `API::new`, the endpoints that belong to the private API | `api` |
| `execute_read_only_bytecode`, `execute_read_only_call` | `execution` |
| `get_status` | `status` |
| `get_stakers` | `stakers` |
| `get_operations`, `get_endorsements` | `records` |
| `get_block`, `get_blockclique_block_by_slot`, `get_graph_interval` | `blocks` |
| `get_datastore_entries` | `datastore` |
| `get_addresses` | `addresses` |
| `send_operations` | `submission` |

The questions about slots, cycles and threads that several endpoints ask stand in
`timeslots`.

An endpoint that asks several questions in turn is a chain of states. Each state
shows what the next question is about, and its only way on takes the reply. What
holds of a whole chain, or of two of them, stands in proof functions whose names
begin with `law_`.
