# tau_agent

The core of the TAU coding agent as a library verified with Verus: the
decisions of an agent turn (retries, the verification gate, plans, tool-call
dispatch and replay), thread history and compaction bookkeeping, tool
permissions and sandbox grants, and the browser tools' logic (launch flags,
DevTools message handling, page scripts, the accessibility tree, result pages
of web search, browser detection), together with the smaller pieces they rely
on (circuit breaker, chunker, credentials file, rooms, CRDT documents).

Layout:

- `src/` — the verified library. Every function carries a contract; the
  public proof functions (`lemma_*`) state properties that hold across calls.
  Calls into `url`, `scraper`, `yrs`, `uuid`, `heck` and a few std functions
  go through small trusted wrappers whose contracts are documented at each.
- `tests/` — tests of the library on concrete values.
- `app/` — input and output around the library: the DevTools WebSocket
  client and browser session, the search for a usable browser, git runs, the
  credentials file and the site-notes folder.
