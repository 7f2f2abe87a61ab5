# vericto

A command-line client that validates SQL against a workspace's rules before it runs.

- `src/` is the library, verified with Verus but for the calls named below: what is sent and
  what is not, how answers are read, retried, chunked and merged, how findings are
  fingerprinted, baselined, suppressed and reported, how receipts are checked, and which
  exit code a command ends with.
- `app/` is the program around it: arguments, files, processes, requests and the terminal.
- `tests/` runs the library on concrete values.

The commands are written as machines. A function of the library takes the state of a
command and what came of the last action, and returns the next action and what to say;
`app/` performs the action.

Contracts are stated over plain models: a string is the sequence of its characters, a JSON
document the tree that it holds. Functions whose names begin with `law_` state what holds
of the library as a whole. Calls into other crates stand behind small functions marked
`external_body`, each with a comment that says what is taken on trust.
