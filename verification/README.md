# ats_ranker

Scores a CV against job descriptions harvested from ATS job boards.

- `src/` is the verified library: text cleaning and chunking (`utils`, `text`),
  board-slug extraction from crawl index records (`slugs`), the filtering of
  listed jobs and the decision to write them (`providers`), embedding batches
  (`vectorize`), and the scoring prompt, retry rule and answer coercion
  (`scoring`, `model`, `json`), and the JSON schema of a scoring (`schema`).
  Every function there carries a contract. Verus proves each contract of
  the library's own code; the few thin wrappers around outside calls
  (`regex`, `sha2`, `hex`, `str::to_lowercase`, `String::push`) are marked
  `external_body`, and their contracts are believed as the outside
  documentation and source state them, not proved.
- `app/` is the command-line program: argument parsing, DuckDB, HTTP calls to
  Greenhouse and DeepSeek, the fastembed model, and the floating-point cost and
  vector arithmetic.
- `tests/` exercises the library on concrete values.
