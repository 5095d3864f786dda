# ICTHub server

The server of ICTHub, the project library of a university lab: members list,
write and archive projects with their tags, resources and covers, and import
the material of a project (uploads, links, a description) into a draft that an
agent may refine and that a member commits as a project.

- `src/` is the library, verified with Verus: who may do what, how requests are
  checked and normalized, the tag catalogue, covers, resource paths and preview
  links, the import pipeline's rules (upload chunks, archive limits and names,
  file classification, text extraction from Office parts, the fallback draft,
  job states), the Codex command line and result checks, and the rules of
  publishing sources to GitHub. Calls into `serde_json`, `quick-xml`,
  `encoding_rs`, `mime_guess`, `sha2`, `uuid` and `reqwest`'s URL parser stand
  behind small trusted wrappers whose contracts say what the library relies on;
  the JSON text of strings and string lists is written and proved in the
  library itself.
- `app/` is the program around it: the HTTP routes (`axum`), the SQLite
  database (`sqlx`), files and archives on disk, the worker loop, and the
  outside programs (`codex`, `git`, `gh`, `ffprobe`, `ffmpeg`, `pdftoppm`).
  Run it with the argument `import-worker` to start the import worker alone.
  It reads its migrations from `migrations/`, the agent's instructions from
  `prompts/import-project.md` and its output schema from
  `schemas/import-agent-result.schema.json`.
- `tests/` exercise the library.
