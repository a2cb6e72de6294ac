# wikiext

Extracts plain text from MediaWiki XML dumps (`.xml` or `.xml.bz2`) and
writes it as `<doc>` records or JSON lines, split over numbered files.

## Layout

- `src/` — the verified library (Verus):
  - `cleaner` — wikitext to plain text: the parse tree (`cleaner/ast.rs`,
    parsing by `parse_wiki_text_2`), regular-expression fallback cleaning
    (`cleaner/fallback.rs`, by `regex`) and line post-processing
    (`cleaner/postprocess.rs`).
  - `dump` — the page reader of the XML dump: a state machine that takes
    one XML event at a time and yields articles filtered by namespace.
  - `extractor` — page URLs, `<doc>` and JSON formatting, file-size
    settings.
  - `output` — output-file names and rotation decisions.
  - `numbers`, `text` — decimal numbers and character-level helpers.
  - `error`, `outside` — the error type and the outside types it carries.
- `app/` — the command-line program: argument parsing, reading and
  decompressing the dump, XML events (`quick-xml`), writing files (with
  `bzip2`), parallel cleaning (`rayon`).
- `tests/` — tests of the library.

Public functions state their results in their `ensures` clauses, over
spec functions of the same modules. Where an outside call decides the
outcome (the wikitext parser's time limit, the results of regular
expressions), the contract says what holds of each outcome. Properties
that span several calls are proof functions named `law_*`.
