# quill

The verified core of a reading app for learning English through original
books. Every function under `src/` carries a contract that Verus proves;
calls into outside crates (encoding detection, HTML sanitising, Markdown
parsing, hashing, Base64, font and image decoding, dates) go through small
trusted wrappers whose contracts name what the crate computes.

- `src/` — the library: import detection (`import`), source decoding
  (`source`), the plain-text parser (`lines`, `headings`, `document`), the
  preparation state machine and job decisions (`preparation`, `jobs`), list
  queries and pages (`catalog`, `records`), assistant requests and reply
  checks (`prompt`, `requests`, `chat`, `learning`, `word_forms`,
  `overview`), assessments (`scores`, `assessments`), synced edits
  (`edits`), fonts and covers (`media`).
- `tests/` — tests run against the compiled library.
- `app/` — the unverified layer around it: file access, JSON forms,
  floating-point scores handed over by their bits.
