# edix

Key-based reconciliation of two sheets (Excel or CSV): rows are joined by the normalized
values of one or more key columns, the chosen columns are compared value by value (after
coercion to each column's type, exactly, ignoring ASCII case, or by Levenshtein ratio),
and rows found on one side only are reported.

Layout:

- `src/` is the verified library (Verus):
  - `types.rs`: cells, rows, sheets, the key index and the records of a comparison;
  - `diff.rs`: the comparison itself, `compare_sheets`, with its complete contract;
  - `laws.rs`: properties of every comparison (a sheet against itself finds nothing, the
    counts add up, swapping the sheets swaps what is missing, only the compared columns are
    reported, numbers stored as text match);
  - `fuzzy.rs`: similarity scores (the Levenshtein ratio) as exact fractions;
  - `io.rs`: header normalization, column type detection, and the layout of Excel ranges and
    CSV records into sheets;
  - `report.rs`, `formatter.rs`: the contents of the CSV, Markdown, Excel and quick-audit
    reports;
  - `commands.rs`: the choice of key columns, compared columns and match type, and the quick
    audit;
  - `excel_diff.rs`: the column comparison of two sheets of a workbook, and how larger row
    limits extend its results;
  - `loading.rs`: sheets loaded from the bytes of CSV and Excel files;
  - `application.rs`: the state machine of the workbook-comparison window;
  - `config.rs`, `text.rs`: configuration values and string helpers.
- `app/` is the command-line program: argument parsing, reading and writing files, the TOML
  configuration file, the writers of the report files, and the rendering of floating-point
  numbers, rates and scores.
- `tests/` exercises the library on concrete inputs.
