# bounting

Counts the blocks, costumes and sounds of Scratch (`.sb3`), Tencent Coding (`.cdc`) and
Kitten (`.bcm4`) projects, with per-sprite groups for Scratch, and reports them as aligned
text tables (CJK characters counted two cells wide), CSV or JSON.

Layout:

- `src/` — the verified library (Verus):
  - `json.rs`: the JSON tree the analyzers read, its lookups, and parsing JSON text into
    it (through `serde_json`);
  - `text.rs`: characters, display widths, decimal numbers, XML tag counting;
  - `model.rs`: `Format`, `GroupStat`, `ProjectStats` and their mathematical views;
  - `paths.rs`: file names and extensions;
  - `archive.rs`: zip members read from memory (through the `zip` crate), audio members;
  - `detect.rs`: telling a file's format;
  - `scratch.rs`, `kitten.rs`, `cdc.rs`: the three analyzers, each against a spec model,
    refusing counts that do not fit in a `u64`;
  - `project.rs`: counting a project file from its bytes: its format, where its JSON lies,
    which analyzer counts it;
  - `report.rs`: summary and detail tables, CSV;
  - `csv_read.rs`: reading the CSV report back into records, and the proof that it reads
    back as written;
  - `json_out.rs`: the JSON report, as a tree and as text (through `serde_json`).
- `app/main.rs` — the command line: file reading, error messages and printing.
- `tests/` — tests on concrete projects and reports.
