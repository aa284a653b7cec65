# duckdb_chess

Verified logic of a DuckDB extension for chess games in PGN: reading PGN
games into rows, movetext utilities, and time-control interpretation. The
library is written in Verus; `app/` holds the DuckDB glue (scalar and table
function registration, vector access, file and decompression I/O, the PGN
reader's visitors), which hands plain values to the library.

Layout of `src/`:

- `text.rs`: character-sequence models of the `str` operations used
  (trimming, splitting, replacing, integer parsing, decimal formatting).
- `pattern.rs`: regular-expression results, named and obtained from `regex`.
- `json.rs`: JSON string encoding through `serde_json`.
- `filter.rs`: removal of `{ }` annotations from movetext.
- `types.rs`, `visitor.rs`: the plain PGN table's game record and reader state.
- `chess/`: the `chess` extension
  - `error.rs`: per-row error accumulation;
  - `timecontrol/`: strict PGN time controls, inference of common
    notations, free-text templates, normalization, categories and JSON;
  - `moves.rs`: mainline extraction, move-list subsumption, FEN to EPD and
    the per-game state behind the movetext scalars;
  - `calendar.rs`, `fields.rs`: dates and times of PGN headers;
  - `visitor.rs`, `types.rs`: game records built from PGN events;
  - `reader.rs`: the `read_pgn` parameters, columns and rows;
  - `log.rs`, `scalar.rs`: log levels and scalar row outcomes.
