# OSDAT — Open Data Portal Quality Assessment Tool

OSDAT crawls the pages of a government data portal, discovers the data files
they link to, downloads them, measures what it can of each (rows, columns,
headers, format), asks a local language model (Ollama) for suggestions, lets
the user confirm or correct every field, and writes a JSON quality-assessment
report.

## Layout

- `src/` — the `osdat` library, verified with Verus. It holds the logic of
  every stage, each function with a contract:
  - `crawler` — which links of a page are data files, resolved and
    deduplicated;
  - `downloader` — the download size limit, local file names (percent
    decoding, sanitising, a random fallback name), and the laws that no name
    leaves the download directory;
  - `extractor`, `readers` — the shape of CSV, spreadsheet, XML and text files,
    read through the `csv`, `calamine` and `xml-rs` crates;
  - `models` — the report's data model, file-size formatting and the
    detected quality flags;
  - `llm` — the prompts, and reading the model's reply;
  - `cli` — what a typed answer means, and assembling the answers;
  - `assessment` — dataset names and keys, and assembling the report;
  - `tui`, `widgets` — the terminal interface's state machine: what every key
    does on every screen, the progress screens, and what the screens show;
  - `text`, `textops`, `urls` — strings, decimal numbers, trimming and
    splitting, and the `url` crate.
- `tests/` — tests of the library.
- `app/` — the program: terminal drawing (ratatui, crossterm), prompts, HTTP
  (reqwest), files, and the JSON form of the report (serde).
