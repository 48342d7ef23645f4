# imcp_wechat

A companion archive for WeChat conversations. It keeps what it first saw of
each message, shows it only of conversations that the owner allowed, and pages
through it with cursors that nobody else can make.

The library under `src/` decides; it does no input or output. Each operation is
a step: things to do outside (statements for the archive's database, reads of
the source databases, files to find) and, from what came of them, the next step
or the answer. Every step has a contract, and Verus proves the code against it.

| Module | What it holds |
| --- | --- |
| `text`, `search`, `json` | text, full-text queries, JSON values |
| `primitives` | hexadecimal, digests, tags, points in time, randomness |
| `cursor` | cursors, sealed and opened |
| `content`, `source` | messages, and bounded reads of the source |
| `sql`, `filter` | the statements, and the conditions of a query |
| `query`, `index`, `context` | the operations on the archive |
| `import`, `sync` | the import of history page by page, and the sync by hand |
| `media` | the search for the media of a message |
| `backend`, `service`, `frame` | requests, the service around them, frames |
| `bootstrap` | the hand-over of a database key |
| `fault` | what can go wrong |
| `model` | what the statements mean, and the laws of the archive |
| `paging` | the laws of pages put together |
| `window` | the law of the messages around a message |
| `progress` | the laws of opening, importing, syncing and migrating |

`app/` performs what the library asks for: the database, the files, standard
input and output. It links against the crates `wx_db`, `wx_media` and
`wx_keychain`, which read WeChat's own files and belong to the workspace around
this one.
