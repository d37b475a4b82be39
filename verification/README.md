# docs_rs

The logic of a documentation host for Rust crates, written in Verus.

- `src/` is the library. Requests are state machines: a handler performs what a state asks for,
  hands back what came of it, and gets the next state, until there is an answer.
- `tests/` runs the library on examples.
- `app/` is the code around it: the HTTP handlers, the client of the registry, the command lines,
  logging and metrics. The database, the storage, the builder and the templates are behind traits.

| Module | What it is about |
| --- | --- |
| `text`, `decimal`, `percent`, `query`, `query_map`, `url_text` | text, numbers, encodings and queries |
| `uri`, `escaped_uri`, `redirection` | URIs and redirects |
| `header`, `config`, `cache`, `error`, `file` | responses |
| `version`, `release` | versions and releases |
| `rustdoc_path`, `rustdoc_params` | the parameters of a request for a page |
| `redirector`, `rustdoc_page`, `target_redirect`, `downloads` | the handlers' decisions |
| `html` | rewriting of the pages that rustdoc wrote |
| `registry_api`, `consistency`, `commands`, `opentelemetry` | the registry, the index, the command lines, metrics |

Calls into other crates are behind functions marked `external_body`, whose doc comments say what is
taken for granted of them.
