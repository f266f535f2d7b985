# grok-search-cli

A command-line tool that asks a Grok Responses endpoint for realtime, cited
search results, keeps each search as a session artifact, and runs long
searches as background jobs.

## Layout

- `src/` is the library, verified with Verus. It holds the logic of the tool:
  building requests (`grok`, `web_tools`, `plan`), reading replies and
  collecting their sources (`json`, `source`), configuration layering and key
  masking (`config`), artifact and job bookkeeping (`artifact`, `jobs`),
  diagnosis (`doctor`) and text output (`output`). Each public function states
  its result in its contract; the laws of the library are public proof
  functions named `law_*` and `lemma_*`.
- `app/` is the program around the library: argument parsing, files, HTTP
  requests, worker processes and printing. It hands the library plain values
  and prints what comes back.
- `tests/` runs the library on concrete values.

Calls into `regex`, `serde_json`, `uuid` and a few `std` string functions sit
behind small trusted wrappers in `src/`; each wrapper's doc comment says what
its contract assumes of the outside function.
