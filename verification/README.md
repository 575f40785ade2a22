# unlade

Filters the crates.io database dump by name, update date, downloads and
dependent count, with the logic verified by Verus.

- `src/` is the verified library:
  - `index`, `crate_id`, `crate_id_map`, `store`, `names`, `downloads`,
    `dependents`, `update_dates`, `timestamp`, `semantic_version`: the types
    that every parser and the listing share, addressed by one `CrateIndex`;
  - `csv_parser`: locating columns in a CSV header and reading fields with
    their file and line;
  - `crates_parser`: `crates.csv` and `crate_downloads.csv`;
  - `dependencies_parser`: the greatest version of every crate from
    `versions.csv`, and dependent counts from `dependencies.csv`;
  - `listing`: the command line's conditions, which crates a listing shows,
    and the text of each line.
- `app/` is the program: it reads the command line, opens the files, reads
  their records one by one and hands each to the library, and writes the
  listing.
- `tests/` runs the library on concrete inputs.
