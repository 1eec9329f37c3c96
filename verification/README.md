# dvd_categorize

The rules of a home DVD catalogue, written in Verus and proved against
their specifications: CSV import and export, keyword search and entity
extraction, catalogue statistics, the chat and retrieval flows around a
local language model, web context for movie titles, and the cast-reordering
tool.

## Layout

- `src/` — the verified library, one module per area:
  - `text`, `normalize`, `colors`, `dates` — text helpers, title
    normalisation, chart colours, "added on" dates;
  - `catalog_csv`, `reorder` — CSV import/export and the cast-reordering
    rules;
  - `search`, `entities`, `stats`, `queries`, `store` — search, statistics,
    what the database layer sends and reads back, and an in-memory
    repository;
  - `chat`, `rag`, `prompts`, `tools`, `catalog`, `categorizer`,
    `web_context` — the model conversations, prompts, tool calls, catalogue
    generation, the desktop client's state machine and web scraping
    decisions.
- `tests/` — tests run against the compiled library.
- `app/` — the command-line cast reorderer and the I/O around the library
  (files, HTTP, the model server); the floating-point rank fusion lives
  there too.
