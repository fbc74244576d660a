# ai-memory

The decisions of an agent memory server, verified with Verus.

- `src/` is the library. Its functions carry contracts that Verus proves, and its
  public proof functions state what holds of the library as a whole.
  - `text`, `ids`, `json`, `error`: texts, identifiers, JSON texts, errors.
  - `payload`, `state`: what arrives at the endpoints, and what they are set up with.
  - `project_cache`, `resolve`: which project an event belongs to.
  - `process`: what is done with an event.
  - `handoff`, `fetch`: what one session leaves for the next, and how it is fetched.
  - `auto_improve`, `staging`, `decisions`, `scheduler`: proposals to improve the wiki.
  - `openai_compat`: structured answers from OpenAI-compatible engines.
- `tests/` runs the library.
- `app/` is the server around it: HTTP, SQLite, the file system.

Whatever reads, writes or waits is asked for: a `Resolver`, a `Processor` or a
`HandoffFetch` says what is to be done, the caller does it and hands back the reply.

What is not proved is marked in the source as trusted, with the outside function and
what is claimed of it.
