# pcli2

The decisions behind the `pcli2` command-line client for the Physna API,
written in Verus and proved against their contracts.

- `src/` is the verified library. Each command's logic lives in a module of
  its own: batch metadata files (`batch_csv`, `metadata_batch`,
  `metadata_cache`), folder match runs (`search`, `pairs`, `folder_match`,
  `match_table`, `part_matches`), text search (`text_search`), folder
  commands and downloads (`folders`, `downloads`, `bulk`), reports
  (`reports`), assembly dependencies (`dependencies`), metadata inference
  (`inference`), the `api`, `cache clear`, `completions` and `doctor`
  commands, and the errors and exit codes they end with (`errors`). `paths`,
  `text`, `sorted`, `assoc` and `ids` hold the string, path and identifier
  operations the others are built from.
- `app/` runs the library on the task runtime: bulk runs, folder match runs,
  folder downloads, waiting for a report, and the terminal and file output.
- `tests/` exercises the library through its public interface.

## Collections

Where a `HashMap` or `BTreeSet` keyed by text would hold the data, the
library keeps a `Vec` with its invariant stated instead, since Verus proves
little about `HashMap` operations on `String` keys or on keys of a struct
with derived `Eq` and `Hash`:

- `assoc::FieldMap`, a field name to value map, is a list of pairs in which
  each name occurs once (`keys_distinct`).
- `metadata_cache::AssetMetadataCache` and the batch file's grouping of rows
  by asset are lists in which each asset occurs once.
- `sorted::sorted_unique` and `insert_sorted_unique` keep metadata field
  names as a strictly sorted list, for a sorted set of strings.

Match pairs, keyed by two UUIDs, stay in a `BTreeMap`, whose behaviour vstd
specifies for integer keys.
