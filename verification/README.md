# openapi-model-generator

Turns OpenAPI documents into descriptions of Rust models: structures, enumerations, unions,
compositions and type aliases, with the requests and responses of the document's operations.

The library in `src/` is verified with Verus. Every function states in its contract what it
returns, over the mathematical value (`deep_view`) of its arguments.

- `document`: reading a document. JSON and YAML texts are parsed, documents of version 3.1 are
  brought into the terms of version 3.0, and the result is read into the library's own types.
  - `version`: the versions that are taken.
  - `normalize`: `type: [T, "null"]` becomes `type: T`, `nullable: true`.
  - `value`, `parts`: what `serde_json`, `serde_yaml` and `openapiv3` contribute.
  - `read`: from the types of `openapiv3` to those of the library.
  - `laws`: what holds of normalization and loading as a whole.
  - `rewriting`: a document of version 3.1 that writes types as lists loads as the one that does
    not.
- `openapi`: the types of a document, and their mathematical values.
- `parser`: from a document to its models, requests and responses; `parser::laws` says what holds
  of them as a whole.
- `models`: the models.
- `json`, `text`, `slots`, `error`: JSON values, texts, slots under names, and errors.

The contracts of what other crates and the standard library contribute are taken on trust. They
stand in `document::value`, `document::parts`, `slots` (`indexmap`) and `text` (`std`).

`app/` reads files and hands their text to the library. `tests/` runs the library on concrete
documents.
