# forge

Forge is a tool for testing HTTP APIs. Its logic is a Verus library: every
function states what it returns, and Verus proves it. The programs around the
library do the reading, writing and sending.

## Layout

- `src/` — the library.
  - `text`, `words`, `paths`, `pointer`, `map`, `view` — texts, paths, JSON
    pointers, and maps with ordered keys.
  - `json`, `schema`, `mask` — JSON values, JSON Schema, and the masking of
    secrets.
  - `model`, `store`, `arrangement`, `vars` — what a workspace holds, in which
    order, and how `{{variables}}` are filled in.
  - `runner` — requests made ready, planned, run, checked, and reported as
    JUnit XML.
  - `reqv1` — request documents: references, bindings, matrices, the pipeline
    of hooks and assertions, project scripts, auth tokens, and mocks.
  - `convert`, `openapi`, `protocols` — imports and other protocols.
  - `cli`, `listing` — what the command line means, what it prints and how it
    exits.
  - `gui` — the decisions of the desktop program, apart from what it draws.
- `tests/` — the library at work on concrete values.
- `app/` — the programs: arguments, files, HTTP, the mock server, and the
  windows.

## What is proved

Contracts are stated over mathematical values: each type has a view, and a
function says which view it makes of which. Functions named `lemma_...` that
are public state what holds of the library as a whole, such as

- no secret stands in what leaves a run (`reqv1::runner`, `reqv1::preview`),
- every secret that goes into a value is noted (`reqv1::vars`),
- bindings are resolved after those that they refer to (`reqv1::order`),
- what a request sets itself is sent as it is (`runner::resolve`),
- a request sees what an earlier one of its sequence has written
  (`reqv1::sequence`),
- the reference beside a value leads to that value (`gui::nodes`),
- the events of a run tell what happened, and its counts add up
  (`runner::events`),
- a document is refused with every independent error (`reqv1::builder`),
- an event of an older run changes nothing of the current one (`gui::app`).

## What is trusted

The library calls `serde_json`, `serde_json_path`, `jsonschema`, `json-patch`,
`rquickjs`, `regex`, `url`, `csv`, `base64`, `chrono` and `uuid`. Each call
stands in a small function marked `external_body`, whose doc comment says what
is claimed of it.
