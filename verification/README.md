# opendev

The verified core of a terminal coding assistant. `src/` is a Verus library: its functions state
what they return or change, and Verus proves it. Only the `fmt` methods state nothing: what they
write goes to a sink that Verus does not see. `app/` is the ordinary Rust around it: files,
clocks, channels, the terminal and the formats of other crates. `tests/` runs the library.

| module | what it does |
| --- | --- |
| `bedrock` | turns chat-completion requests into requests for Amazon Bedrock |
| `event_bus` | typed events, and the subscribers that pick the ones they care about |
| `file_watcher` | finds file changes by polling, and stops when nothing changes |
| `formatting` | how values are shown to developers |
| `framing` | reads messages that are framed by `Content-Length` |
| `glob` | file name patterns |
| `json`, `parse` | JSON values, read with `serde_json` |
| `lazy_init` | subsystems that are made when they are first used |
| `listing` | lists, finds and deletes saved sessions |
| `migration` | brings configurations to the current version |
| `models` | models, providers, and what is shown of them |
| `plan_approval` | the decision on a plan |
| `search_args` | the arguments of the file search tool |
| `session_model` | model settings that hold for one session |
| `spinner` | the lines that show what is going on |
| `task_complete` | the tool that ends a task |
| `task_scheduler` | the bookkeeping of background tasks |
| `sorting`, `strmap`, `text` | stable sorting, a map from text, and text itself |

What is not proved stands in few places: `parse` calls `serde_json`, `framing` calls
`std::str::from_utf8`, `formatting` writes to a `core::fmt` sink, and `event_bus` reads the clock. Each of these functions says what is taken
for granted.
