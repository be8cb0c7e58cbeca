//! Batch metadata files: which metadata each asset gets, read from CSV.
//!
//! Two layouts are read:
//!
//! - **Classic (vertical)**: `ASSET_PATH,NAME,VALUE[,TYPE]`, one row per
//!   asset and field.
//! - **UI (horizontal)**: one row per asset, with a `path` column, an optional
//!   `id` column (the asset's UUID, which wins over the path), and one
//!   `metadata:<field>` column per field.
//!
//! An empty value is skipped, with a warning, unless empty values are to
//! delete their field.
//! The layout is taken from the header row unless one is asked for: any
//! `metadata:` column makes it the UI layout.

use vstd::prelude::*;
use crate::assoc::{FieldMap, put_field, field_value, key_is, first_where, is_first, lemma_first_found, lemma_first_absent, lemma_first_exists, keys_distinct, lemma_put_field_distinct, lemma_read_after_set};
use crate::errors::CliActionError;
use crate::ids::{uuid_parse, parse_uuid, uuid_text, uuid_string};
use crate::paths::{spec_batch_asset_path, normalize_batch_asset_path};
use crate::sorted::{strictly_sorted, sorted_unique, lex_lt, lemma_lex_irreflexive, lemma_lex_transitive};
use crate::text::{
    spec_trim, trim, spec_ascii_lowercase, ascii_lowercase, spec_eq_ignore_ascii_case,
    eq_ignore_ascii_case_chars, chars_of, string_of, str_eq, decimal, u64_text, seq_join, views,
    join,
};

verus! {

/// Column-name prefix that marks a metadata column in the UI layout.
pub const METADATA_COLUMN_PREFIX: &'static str = "metadata:";

/// One record of a CSV file: the line it starts on, and its fields.
#[derive(Debug, Clone)]
pub struct CsvRecord {
    pub line: Option<u64>,
    pub fields: Vec<String>,
}

/// A CSV file as read: its header row, the records read before the first
/// error, and that error, if reading stopped at one.
#[derive(Debug, Clone)]
pub struct CsvTable {
    pub headers: Vec<String>,
    pub records: Vec<CsvRecord>,
    pub error: Option<String>,
}

pub struct SpecRecord {
    pub line: Option<u64>,
    pub fields: Seq<Seq<char>>,
}

pub struct SpecTable {
    pub headers: Seq<Seq<char>>,
    pub records: Seq<SpecRecord>,
    pub error: Option<Seq<char>>,
}

pub open spec fn opt_view(o: Option<String>) -> Option<Seq<char>> {
    match o {
        Some(s) => Some(s@),
        None => None,
    }
}

impl View for CsvRecord {
    type V = SpecRecord;

    open spec fn view(&self) -> SpecRecord {
        SpecRecord { line: self.line, fields: views(self.fields@) }
    }
}

pub open spec fn record_views(v: Seq<CsvRecord>) -> Seq<SpecRecord> {
    v.map_values(|r: CsvRecord| r@)
}

impl View for CsvTable {
    type V = SpecTable;

    open spec fn view(&self) -> SpecTable {
        SpecTable {
            headers: views(self.headers@),
            records: record_views(self.records@),
            error: opt_view(self.error),
        }
    }
}

/// What the `csv` crate reads from `input` with a flexible reader (rows may
/// differ in length) and a header row: the table, or the text of the error
/// that stopped it from reading the header row.
pub uninterp spec fn csv_read(input: Seq<u8>) -> Result<SpecTable, Seq<char>>;

/// Read `input` with `csv::ReaderBuilder::new().flexible(true)`: the header
/// row, then records until the first error. The contract claims only that the
/// outcome is the named function of the bytes.
#[verifier::external_body]
fn read_csv(input: &[u8]) -> (r: Result<CsvTable, String>)
    ensures
        match r {
            Ok(t) => csv_read(input@) == Ok::<SpecTable, Seq<char>>(t@),
            Err(e) => csv_read(input@) == Err::<SpecTable, Seq<char>>(e@),
        },
{
    let mut reader = csv::ReaderBuilder::new().flexible(true).from_reader(input);
    let headers = reader.headers().map_err(|e| e.to_string())?.iter().map(String::from).collect();
    let (mut records, mut error) = (Vec::new(), None);
    for result in reader.records() {
        match result {
            Ok(r) => records.push(CsvRecord {
                line: r.position().map(|p| p.line()),
                fields: r.iter().map(String::from).collect(),
            }),
            Err(e) => { error = Some(e.to_string()); break; },
        }
    }
    Ok(CsvTable { headers, records, error })
}

/// How an asset is identified, as the contracts see it.
pub enum AssetKey {
    Uuid(u128),
    Path(Seq<char>),
}

/// How a batch row identifies an asset.
#[derive(Debug, Clone, PartialEq, Eq, Hash)]
pub enum BatchAssetRef {
    /// The asset's UUID, from the UI layout's `id` column. Never looked up by path.
    Uuid(u128),
    /// The asset's path, in the form batch paths are looked up by.
    Path(String),
}

impl View for BatchAssetRef {
    type V = AssetKey;

    open spec fn view(&self) -> AssetKey {
        match self {
            BatchAssetRef::Uuid(u) => AssetKey::Uuid(*u),
            BatchAssetRef::Path(p) => AssetKey::Path(p@),
        }
    }
}

/// How an asset is shown in progress, caching and messages.
pub open spec fn asset_display(a: AssetKey) -> Seq<char> {
    match a {
        AssetKey::Uuid(u) => uuid_text(u),
        AssetKey::Path(p) => p,
    }
}

impl BatchAssetRef {
    /// The identifier shown for the asset: its UUID's text, or its path.
    pub fn display(&self) -> (r: String)
        ensures
            r@ == asset_display(self@),
    {
        match self {
            BatchAssetRef::Uuid(u) => uuid_string(*u),
            BatchAssetRef::Path(p) => p.clone(),
        }
    }

    /// A copy that is the same reference.
    pub fn duplicate(&self) -> (r: BatchAssetRef)
        ensures
            r@ == self@,
    {
        match self {
            BatchAssetRef::Uuid(u) => BatchAssetRef::Uuid(*u),
            BatchAssetRef::Path(p) => BatchAssetRef::Path(p.clone()),
        }
    }

    /// Whether both name the same asset in the same way.
    pub fn same_as(&self, other: &BatchAssetRef) -> (r: bool)
        ensures
            r == (self@ == other@),
    {
        match (self, other) {
            (BatchAssetRef::Uuid(a), BatchAssetRef::Uuid(b)) => *a == *b,
            (BatchAssetRef::Path(a), BatchAssetRef::Path(b)) => str_eq(a.as_str(), b.as_str()),
            _ => false,
        }
    }
}

/// The CSV layout requested on the command line.
#[derive(Debug, Clone, Copy, PartialEq, Eq, Structural)]
pub enum BatchCsvFormat {
    /// Detect from the header row.
    Auto,
    /// Classic vertical `ASSET_PATH,NAME,VALUE` layout.
    Classic,
    /// Horizontal layout exported by the Physna UI.
    Ui,
}

impl BatchCsvFormat {
    /// The layout named by a `--csv-format` value: `classic`, `ui`, or
    /// detection for anything else.
    pub fn from_arg(value: &str) -> (r: BatchCsvFormat)
        ensures
            r == (if value@ == "classic"@ {
                BatchCsvFormat::Classic
            } else if value@ == "ui"@ {
                BatchCsvFormat::Ui
            } else {
                BatchCsvFormat::Auto
            }),
    {
        if str_eq(value, "classic") {
            BatchCsvFormat::Classic
        } else if str_eq(value, "ui") {
            BatchCsvFormat::Ui
        } else {
            BatchCsvFormat::Auto
        }
    }
}

/// One asset's metadata, as the contracts see it.
pub struct SpecEntry {
    pub asset: AssetKey,
    pub metadata: Seq<(Seq<char>, Seq<char>)>,
    pub types: Seq<(Seq<char>, Seq<char>)>,
}

/// Metadata assignments for one asset.
#[derive(Debug)]
pub struct BatchEntry {
    pub asset: BatchAssetRef,
    /// Values by field name. An empty value means "delete this field"; it only
    /// occurs when empty values are kept.
    pub metadata: FieldMap,
    /// Declared types by field name, from the classic layout's `TYPE` column;
    /// used only when a new field is registered.
    pub types: FieldMap,
}

impl View for BatchEntry {
    type V = SpecEntry;

    open spec fn view(&self) -> SpecEntry {
        SpecEntry { asset: self.asset@, metadata: self.metadata@, types: self.types@ }
    }
}

pub open spec fn entry_views(v: Seq<BatchEntry>) -> Seq<SpecEntry> {
    v.map_values(|e: BatchEntry| e@)
}

pub open spec fn asset_is(a: AssetKey) -> spec_fn(SpecEntry) -> bool {
    |e: SpecEntry| e.asset == a
}

/// `entries` after a row sets `field` of `asset` to `value` (and, when given,
/// declares its type): the asset's entry is the first one for it, made at the
/// end when there is none, and a field set again takes the later value.
pub open spec fn acc_add(
    entries: Seq<SpecEntry>,
    asset: AssetKey,
    field: Seq<char>,
    value: Seq<char>,
    ty: Option<Seq<char>>,
) -> Seq<SpecEntry> {
    let i = first_where(entries, asset_is(asset));
    let base = if i >= 0 {
        entries
    } else {
        entries.push(SpecEntry { asset, metadata: seq![], types: seq![] })
    };
    let k = if i >= 0 {
        i
    } else {
        entries.len() as int
    };
    let e = base[k];
    let types = match ty {
        Some(t) => put_field(e.types, field, t),
        None => e.types,
    };
    base.update(k, SpecEntry { asset: e.asset, metadata: put_field(e.metadata, field, value), types })
}

/// Entries grouped by asset, in the order each asset first appears.
struct EntryAccumulator {
    entries: Vec<BatchEntry>,
}

impl EntryAccumulator {
    fn new() -> (r: EntryAccumulator)
        ensures
            entry_views(r.entries@) == Seq::<SpecEntry>::empty(),
    {
        let r = EntryAccumulator { entries: Vec::new() };
        assert(entry_views(r.entries@) =~= Seq::<SpecEntry>::empty());
        r
    }

    /// The position of the entry for `asset`.
    fn find(&self, asset: &BatchAssetRef) -> (r: Option<usize>)
        ensures
            match r {
                Some(i) => i < self.entries.len() && first_where(entry_views(self.entries@), asset_is(asset@)) == i,
                None => first_where(entry_views(self.entries@), asset_is(asset@)) == -1,
            },
    {
        let ghost before = entry_views(self.entries@);
        let n = self.entries.len();
        for i in 0..n
            invariant
                n == self.entries.len(),
                before == entry_views(self.entries@),
                forall|j: int| 0 <= j < i ==> !asset_is(asset@)(#[trigger] before[j]),
        {
            if self.entries[i].asset.same_as(asset) {
                proof {
                    assert(is_first(before, asset_is(asset@), i as int));
                    lemma_first_found(before, asset_is(asset@), i as int);
                }
                return Some(i);
            }
        }
        proof {
            lemma_first_absent(before, asset_is(asset@));
        }
        None
    }

    fn add(&mut self, asset: BatchAssetRef, field: String, value: String, declared_type: Option<String>)
        ensures
            entry_views(final(self).entries@) == acc_add(
                entry_views(old(self).entries@),
                asset@,
                field@,
                value@,
                opt_view(declared_type),
            ),
    {
        let ghost before = entry_views(self.entries@);
        let ghost key = asset@;
        let index = match self.find(&asset) {
            Some(i) => i,
            None => {
                let n = self.entries.len();
                self.entries.push(
                    BatchEntry { asset, metadata: FieldMap::new(), types: FieldMap::new() },
                );
                assert(entry_views(self.entries@) =~= before.push(
                    SpecEntry { asset: key, metadata: seq![], types: seq![] },
                ));
                n
            },
        };
        let ghost base = entry_views(self.entries@);
        let mut entry = self.entries.remove(index);
        assert(entry@ == base[index as int]);
        match declared_type {
            Some(t) => {
                entry.types.insert(field.clone(), t);
            },
            None => {},
        }
        entry.metadata.insert(field, value);
        let ghost updated = entry@;
        self.entries.insert(index, entry);
        assert(entry_views(self.entries@) =~= base.update(index as int, updated));
    }
}

/// The batch as the contracts see it.
pub struct SpecBatch {
    pub entries: Seq<SpecEntry>,
    pub warnings: Seq<Seq<char>>,
    pub format: BatchCsvFormat,
}

/// Result of reading a batch metadata file.
#[derive(Debug)]
pub struct ParsedBatch {
    /// One entry per distinct asset, in file order; rows for the same asset
    /// are merged, later rows winning on a field.
    pub entries: Vec<BatchEntry>,
    /// Issues that do not stop the batch, to show before processing.
    pub warnings: Vec<String>,
    /// The layout used after detection.
    pub format: BatchCsvFormat,
}

impl View for ParsedBatch {
    type V = SpecBatch;

    open spec fn view(&self) -> SpecBatch {
        SpecBatch {
            entries: entry_views(self.entries@),
            warnings: views(self.warnings@),
            format: self.format,
        }
    }
}

/// Why a batch file was refused: the CSV could not be read, or its content
/// breaks a rule of the layout.
pub enum SpecBatchError {
    Csv(Seq<char>),
    Rule(Seq<char>),
    Other,
}

/// The outcome of reading a batch, as the contracts see it.
pub open spec fn batch_outcome(r: Result<ParsedBatch, CliActionError>) -> Result<SpecBatch, SpecBatchError> {
    match r {
        Ok(b) => Ok(b@),
        Err(CliActionError::CsvError(m)) => Err(SpecBatchError::Csv(m@)),
        Err(CliActionError::BusinessLogicError(m)) => Err(SpecBatchError::Rule(m@)),
        Err(_) => Err(SpecBatchError::Other),
    }
}

/// The trimmed text of field `i`, or nothing when the row is shorter.
pub open spec fn cell(fields: Seq<Seq<char>>, i: int) -> Seq<char> {
    if 0 <= i < fields.len() {
        spec_trim(fields[i])
    } else {
        seq![]
    }
}

fn cell_of(fields: &Vec<String>, i: usize) -> (r: String)
    ensures
        r@ == cell(views(fields@), i as int),
{
    if i < fields.len() {
        trim(fields[i].as_str())
    } else {
        String::new()
    }
}

/// A field type the classic layout's `TYPE` column may declare.
pub open spec fn is_declared_type(t: Seq<char>) -> bool {
    t == "text"@ || t == "number"@ || t == "boolean"@ || t == "url"@
}

fn declared_type_known(t: &str) -> (r: bool)
    ensures
        r == is_declared_type(t@),
{
    str_eq(t, "text") || str_eq(t, "number") || str_eq(t, "boolean") || str_eq(t, "url")
}

/// The classic layout's running state: entries, rows skipped for an empty
/// value, and `TYPE` values that name no known type.
pub struct ClassicState {
    pub entries: Seq<SpecEntry>,
    pub skipped: nat,
    pub invalid: Seq<Seq<char>>,
}

/// One classic row read into the state. Rows with fewer than three fields are
/// passed over.
pub open spec fn classic_step(st: ClassicState, fields: Seq<Seq<char>>, delete_if_empty: bool) -> ClassicState {
    if fields.len() < 3 {
        st
    } else {
        let value = cell(fields, 2);
        if value.len() == 0 && !delete_if_empty {
            ClassicState { entries: st.entries, skipped: st.skipped + 1, invalid: st.invalid }
        } else {
            let raw = cell(fields, 3);
            let lowered = spec_ascii_lowercase(raw);
            let known = raw.len() > 0 && is_declared_type(lowered);
            ClassicState {
                entries: acc_add(
                    st.entries,
                    AssetKey::Path(spec_batch_asset_path(cell(fields, 0))),
                    cell(fields, 1),
                    value,
                    if known {
                        Some(lowered)
                    } else {
                        None
                    },
                ),
                skipped: st.skipped,
                invalid: if raw.len() > 0 && !known {
                    st.invalid.push(raw)
                } else {
                    st.invalid
                },
            }
        }
    }
}

pub open spec fn classic_fold(records: Seq<SpecRecord>, delete_if_empty: bool) -> ClassicState
    decreases records.len(),
{
    if records.len() == 0 {
        ClassicState { entries: seq![], skipped: 0, invalid: seq![] }
    } else {
        classic_step(classic_fold(records.drop_last(), delete_if_empty), records.last().fields, delete_if_empty)
    }
}

/// The one sorted list, without repeats, of the strings in `s`.
pub open spec fn sorted_set(s: Seq<Seq<char>>) -> Seq<Seq<char>> {
    choose|r: Seq<Seq<char>>| strictly_sorted(r) && r.to_set() == s.to_set()
}

/// Two sorted lists without repeats that hold the same strings are the same.
pub proof fn lemma_sorted_lists_equal(a: Seq<Seq<char>>, b: Seq<Seq<char>>)
    requires
        strictly_sorted(a),
        strictly_sorted(b),
        a.to_set() == b.to_set(),
    ensures
        a == b,
    decreases a.len(),
{
    if a.len() == 0 {
        if b.len() > 0 {
            assert(b.to_set().contains(b[0]));
        }
        assert(a =~= b);
    } else {
        assert(a.to_set().contains(a[0]));
        assert(b.len() > 0);
        assert(b.to_set().contains(b[0]));
        let j = choose|j: int| 0 <= j < b.len() && b[j] == a[0];
        let i = choose|i: int| 0 <= i < a.len() && a[i] == b[0];
        if j > 0 {
            assert(lex_lt(b[0], b[j]));
            if i > 0 {
                assert(lex_lt(a[0], a[i]));
                lemma_lex_transitive(b[0], a[0], b[0]);
                lemma_lex_irreflexive(b[0]);
            } else {
                lemma_lex_irreflexive(b[0]);
            }
        }
        assert(a[0] == b[0]);
        let a1 = a.drop_first();
        let b1 = b.drop_first();
        assert forall|x: Seq<char>| a1.to_set().contains(x) <==> b1.to_set().contains(x) by {
            if a1.to_set().contains(x) {
                let k = choose|k: int| 0 <= k < a1.len() && a1[k] == x;
                assert(lex_lt(a[0], a[k + 1]));
                assert(a.to_set().contains(x));
                let m = choose|m: int| 0 <= m < b.len() && b[m] == x;
                if m == 0 {
                    lemma_lex_irreflexive(x);
                }
                assert(b1[m - 1] == x);
            }
            if b1.to_set().contains(x) {
                let k = choose|k: int| 0 <= k < b1.len() && b1[k] == x;
                assert(lex_lt(b[0], b[k + 1]));
                assert(b.to_set().contains(x));
                let m = choose|m: int| 0 <= m < a.len() && a[m] == x;
                if m == 0 {
                    lemma_lex_irreflexive(x);
                }
                assert(a1[m - 1] == x);
            }
        }
        assert(a1.to_set() =~= b1.to_set());
        lemma_sorted_lists_equal(a1, b1);
        assert(a =~= seq![a[0]] + a1);
        assert(b =~= seq![b[0]] + b1);
    }
}

/// What a sort followed by a dedup of `s` gives.
pub proof fn lemma_sorted_set_is(s: Seq<Seq<char>>, r: Seq<Seq<char>>)
    requires
        strictly_sorted(r),
        r.to_set() == s.to_set(),
    ensures
        sorted_set(s) == r,
{
    let c = sorted_set(s);
    assert(strictly_sorted(c) && c.to_set() == s.to_set());
    lemma_sorted_lists_equal(c, r);
}

pub open spec fn skipped_warning(n: nat) -> Seq<char> {
    decimal(n)
        + " row(s) with an empty VALUE were skipped; pass --delete-if-empty to delete those metadata fields instead"@
}

pub open spec fn invalid_type_warning(types: Seq<Seq<char>>) -> Seq<char> {
    "Ignoring unrecognized TYPE value(s): "@ + seq_join(types, ", "@)
        + " (expected one of: text, number, boolean, url); those fields fall back to their existing or default (text) type"@
}

/// The warnings of a classic file: rows skipped for an empty value, then the
/// distinct unrecognized `TYPE` values in order.
pub open spec fn classic_warnings(st: ClassicState) -> Seq<Seq<char>> {
    let w1: Seq<Seq<char>> = if st.skipped > 0 {
        seq![skipped_warning(st.skipped)]
    } else {
        seq![]
    };
    if st.invalid.len() > 0 {
        w1.push(invalid_type_warning(sorted_set(st.invalid)))
    } else {
        w1
    }
}

/// A classic file read: an error where reading the CSV stopped at one,
/// otherwise its entries and warnings.
pub open spec fn spec_parse_classic(t: SpecTable, delete_if_empty: bool) -> Result<SpecBatch, SpecBatchError> {
    match t.error {
        Some(e) => Err(SpecBatchError::Csv(e)),
        None => {
            let st = classic_fold(t.records, delete_if_empty);
            Ok(SpecBatch { entries: st.entries, warnings: classic_warnings(st), format: BatchCsvFormat::Classic })
        },
    }
}


/// Read a classic file.
fn parse_classic(table: &CsvTable, delete_if_empty: bool) -> (r: Result<ParsedBatch, CliActionError>)
    ensures
        batch_outcome(r) == spec_parse_classic(table@, delete_if_empty),
{
    match &table.error {
        Some(e) => {
            return Err(CliActionError::CsvError(e.clone()));
        },
        None => {},
    }
    let ghost rs = record_views(table.records@);
    let mut acc = EntryAccumulator::new();
    let mut skipped: usize = 0;
    let mut invalid: Vec<String> = Vec::new();
    let n = table.records.len();
    for i in 0..n
        invariant
            n == table.records.len(),
            rs == record_views(table.records@),
            skipped <= i,
            entry_views(acc.entries@) == classic_fold(rs.take(i as int), delete_if_empty).entries,
            skipped as nat == classic_fold(rs.take(i as int), delete_if_empty).skipped,
            views(invalid@) == classic_fold(rs.take(i as int), delete_if_empty).invalid,
    {
        proof {
            assert(rs.take(i + 1).drop_last() =~= rs.take(i as int));
            assert(rs.take(i + 1).last() == rs[i as int]);
        }
        let fields = &table.records[i].fields;
        assert(views(fields@) == rs[i as int].fields);
        if fields.len() >= 3 {
            let value = cell_of(fields, 2);
            if value.as_str().is_empty() && !delete_if_empty {
                skipped = skipped + 1;
            } else {
                let raw = cell_of(fields, 3);
                let lowered = ascii_lowercase(raw.as_str());
                let known = !raw.as_str().is_empty() && declared_type_known(lowered.as_str());
                if !raw.as_str().is_empty() && !known {
                    invalid.push(raw);
                    assert(views(invalid@) =~= classic_fold(rs.take(i as int), delete_if_empty).invalid.push(
                        cell(rs[i as int].fields, 3),
                    ));
                }
                let ty = if known {
                    Some(lowered)
                } else {
                    None
                };
                let path = cell_of(fields, 0);
                let asset = BatchAssetRef::Path(normalize_batch_asset_path(path.as_str()));
                let name = cell_of(fields, 1);
                acc.add(asset, name, value, ty);
            }
        }
    }
    assert(rs.take(n as int) =~= rs);
    let ghost st = classic_fold(rs, delete_if_empty);
    let mut warnings: Vec<String> = Vec::new();
    if skipped > 0 {
        let mut w = u64_text(skipped as u64);
        w.append(
            " row(s) with an empty VALUE were skipped; pass --delete-if-empty to delete those metadata fields instead",
        );
        warnings.push(w);
    }
    assert(views(warnings@) == (if st.skipped > 0 {
        seq![skipped_warning(st.skipped)]
    } else {
        Seq::<Seq<char>>::empty()
    }));
    if invalid.len() > 0 {
        let sorted = sorted_unique(&invalid);
        proof {
            lemma_sorted_set_is(views(invalid@), views(sorted@));
        }
        let mut w = String::from_str("Ignoring unrecognized TYPE value(s): ");
        let listed = join(&sorted, ", ");
        w.append(listed.as_str());
        w.append(
            " (expected one of: text, number, boolean, url); those fields fall back to their existing or default (text) type",
        );
        let ghost before = views(warnings@);
        warnings.push(w);
        assert(views(warnings@) =~= before.push(invalid_type_warning(sorted_set(st.invalid))));
    }
    let r = ParsedBatch { entries: acc.entries, warnings, format: BatchCsvFormat::Classic };
    assert(r@.warnings == classic_warnings(st));
    Ok(r)
}


pub open spec fn metadata_prefix() -> Seq<char> {
    seq!['m', 'e', 't', 'a', 'd', 'a', 't', 'a', ':']
}

/// The field name of a metadata column: what follows a `metadata:` prefix
/// (in any case), trimmed; `None` for any other column.
pub open spec fn metadata_field(header: Seq<char>) -> Option<Seq<char>> {
    if header.len() >= 9 && spec_eq_ignore_ascii_case(header.take(9), metadata_prefix()) {
        Some(spec_trim(header.skip(9)))
    } else {
        None
    }
}

/// Case-insensitive check for the `metadata:` prefix; the field name
/// (trimmed, prefix stripped) when `header` is a metadata column.
pub fn is_metadata_column(header: &str) -> (r: Option<String>)
    ensures
        opt_view(r) == metadata_field(header@),
{
    let v = chars_of(header);
    if v.len() < 9 {
        return None;
    }
    let prefix: [char; 9] = ['m', 'e', 't', 'a', 'd', 'a', 't', 'a', ':'];
    assert(prefix@ =~= metadata_prefix());
    let head = &v.as_slice()[0..9];
    assert(head@ =~= header@.take(9));
    if eq_ignore_ascii_case_chars(head, prefix.as_slice()) {
        let rest = string_of(&v.as_slice()[9..v.len()]);
        assert(rest@ =~= header@.skip(9));
        Some(trim(rest.as_str()))
    } else {
        None
    }
}

/// The UI layout's header row, read: the identifying columns, the metadata
/// columns with their field names, the columns passed over, and warnings.
pub struct UiHeader {
    pub path_col: Option<nat>,
    pub id_col: Option<nat>,
    pub meta: Seq<(nat, Seq<char>)>,
    pub ignored: Seq<Seq<char>>,
    pub warnings: Seq<Seq<char>>,
}

pub open spec fn path_word() -> Seq<char> {
    seq!['p', 'a', 't', 'h']
}

pub open spec fn id_word() -> Seq<char> {
    seq!['i', 'd']
}

pub open spec fn empty_field_warning(column: nat, header: Seq<char>) -> Seq<char> {
    "Column "@ + decimal(column) + " ('"@ + header
        + "') has an empty metadata field name and will be ignored"@
}

/// Header `index` read into the header state. A later `path` or `id` column
/// takes the place of an earlier one.
pub open spec fn ui_header_step(h: UiHeader, index: nat, raw: Seq<char>) -> UiHeader {
    let header = spec_trim(raw);
    match metadata_field(header) {
        Some(f) => if f.len() == 0 {
            UiHeader {
                path_col: h.path_col,
                id_col: h.id_col,
                meta: h.meta,
                ignored: h.ignored,
                warnings: h.warnings.push(empty_field_warning(index + 1, header)),
            }
        } else {
            UiHeader {
                path_col: h.path_col,
                id_col: h.id_col,
                meta: h.meta.push((index, f)),
                ignored: h.ignored,
                warnings: h.warnings,
            }
        },
        None => if spec_eq_ignore_ascii_case(header, path_word()) {
            UiHeader {
                path_col: Some(index),
                id_col: h.id_col,
                meta: h.meta,
                ignored: h.ignored,
                warnings: h.warnings,
            }
        } else if spec_eq_ignore_ascii_case(header, id_word()) {
            UiHeader {
                path_col: h.path_col,
                id_col: Some(index),
                meta: h.meta,
                ignored: h.ignored,
                warnings: h.warnings,
            }
        } else {
            UiHeader {
                path_col: h.path_col,
                id_col: h.id_col,
                meta: h.meta,
                ignored: h.ignored.push(header),
                warnings: h.warnings,
            }
        },
    }
}

pub open spec fn ui_header_fold(headers: Seq<Seq<char>>) -> UiHeader
    decreases headers.len(),
{
    if headers.len() == 0 {
        UiHeader { path_col: None, id_col: None, meta: seq![], ignored: seq![], warnings: seq![] }
    } else {
        ui_header_step(ui_header_fold(headers.drop_last()), (headers.len() - 1) as nat, headers.last())
    }
}

pub open spec fn ignored_columns_warning(ignored: Seq<Seq<char>>) -> Seq<char> {
    "Ignoring unrecognized column(s): "@ + seq_join(ignored, ", "@)
        + " (metadata columns must be prefixed with 'metadata:')"@
}

pub open spec fn no_identifier_column_error() -> Seq<char> {
    "UI-format CSV must contain a 'path' or 'id' column identifying each asset"@
}

pub open spec fn no_metadata_column_error() -> Seq<char> {
    "UI-format CSV must contain at least one metadata column (a column name prefixed with 'metadata:')"@
}

/// The line a record is reported by: its number, or `?` when unknown.
pub open spec fn line_text(line: Option<u64>) -> Seq<char> {
    match line {
        Some(n) => decimal(n as nat),
        None => "?"@,
    }
}

/// The trimmed cell of an optional column, or nothing.
pub open spec fn column_cell(fields: Seq<Seq<char>>, col: Option<nat>) -> Seq<char> {
    match col {
        Some(i) => cell(fields, i as int),
        None => seq![],
    }
}

/// The asset a UI row names: by UUID when the `id` cell holds text (an
/// invalid UUID is an error rather than a fall back to the path), otherwise by
/// path; a row with neither is an error.
pub open spec fn row_asset(rec: SpecRecord, id_col: Option<nat>, path_col: Option<nat>) -> Result<AssetKey, Seq<char>> {
    let id = column_cell(rec.fields, id_col);
    let path = column_cell(rec.fields, path_col);
    if id.len() > 0 {
        match uuid_parse(id) {
            Ok(u) => Ok(AssetKey::Uuid(u)),
            Err(e) => Err(
                "Line "@ + line_text(rec.line) + ": invalid UUID '"@ + id + "' in 'id' column: "@ + e,
            ),
        }
    } else if path.len() > 0 {
        Ok(AssetKey::Path(spec_batch_asset_path(path)))
    } else {
        Err(
            "Line "@ + line_text(rec.line)
                + ": row has neither an 'id' nor a 'path' value to identify the asset"@,
        )
    }
}

/// A row's metadata cells added for `asset`, and whether any was: a cell is
/// added when it holds text, or always when empty values delete.
pub open spec fn ui_cells(
    entries: Seq<SpecEntry>,
    asset: AssetKey,
    meta: Seq<(nat, Seq<char>)>,
    fields: Seq<Seq<char>>,
    delete_if_empty: bool,
) -> (Seq<SpecEntry>, bool)
    decreases meta.len(),
{
    if meta.len() == 0 {
        (entries, false)
    } else {
        let (es, has) = ui_cells(entries, asset, meta.drop_last(), fields, delete_if_empty);
        let value = cell(fields, meta.last().0 as int);
        if value.len() > 0 || delete_if_empty {
            (acc_add(es, asset, meta.last().1, value, None), true)
        } else {
            (es, has)
        }
    }
}

/// The names of a row's metadata fields whose cell is empty and so skipped:
/// none when empty values delete their field.
pub open spec fn ui_skipped_fields(
    meta: Seq<(nat, Seq<char>)>,
    fields: Seq<Seq<char>>,
    delete_if_empty: bool,
) -> Seq<Seq<char>>
    decreases meta.len(),
{
    if meta.len() == 0 {
        seq![]
    } else {
        let rest = ui_skipped_fields(meta.drop_last(), fields, delete_if_empty);
        if cell(fields, meta.last().0 as int).len() == 0 && !delete_if_empty {
            rest.push(meta.last().1)
        } else {
            rest
        }
    }
}

/// The warning for a row that sets some fields and skips the empty ones.
pub open spec fn skipped_values_warning(line: Option<u64>, asset: AssetKey, skipped: Seq<Seq<char>>) -> Seq<char> {
    "Line "@ + line_text(line) + ": empty value(s) for "@ + seq_join(skipped, ", "@) + " of asset '"@
        + asset_display(asset)
        + "' skipped; pass --delete-if-empty to delete those metadata fields instead"@
}

pub open spec fn skipped_row_warning(line: Option<u64>, asset: AssetKey) -> Seq<char> {
    "Line "@ + line_text(line) + ": no metadata values for asset '"@ + asset_display(asset)
        + "'; row skipped"@
}

/// The UI layout's running state; once a row is in error, later rows are not read.
pub struct UiState {
    pub entries: Seq<SpecEntry>,
    pub warnings: Seq<Seq<char>>,
    pub error: Option<Seq<char>>,
}

pub open spec fn ui_row_step(st: UiState, h: UiHeader, rec: SpecRecord, delete_if_empty: bool) -> UiState {
    if st.error is Some {
        st
    } else {
        match row_asset(rec, h.id_col, h.path_col) {
            Err(e) => UiState { entries: st.entries, warnings: st.warnings, error: Some(e) },
            Ok(asset) => {
                let (es, any_added) = ui_cells(st.entries, asset, h.meta, rec.fields, delete_if_empty);
                let skipped = ui_skipped_fields(h.meta, rec.fields, delete_if_empty);
                UiState {
                    entries: es,
                    warnings: if !any_added {
                        st.warnings.push(skipped_row_warning(rec.line, asset))
                    } else if skipped.len() > 0 {
                        st.warnings.push(skipped_values_warning(rec.line, asset, skipped))
                    } else {
                        st.warnings
                    },
                    error: None,
                }
            },
        }
    }
}

pub open spec fn ui_row_fold(
    records: Seq<SpecRecord>,
    h: UiHeader,
    warnings: Seq<Seq<char>>,
    delete_if_empty: bool,
) -> UiState
    decreases records.len(),
{
    if records.len() == 0 {
        UiState { entries: seq![], warnings, error: None }
    } else {
        ui_row_step(ui_row_fold(records.drop_last(), h, warnings, delete_if_empty), h, records.last(), delete_if_empty)
    }
}

/// The header warnings: those of single columns, then the columns passed over.
pub open spec fn ui_header_warnings(h: UiHeader) -> Seq<Seq<char>> {
    if h.ignored.len() > 0 {
        h.warnings.push(ignored_columns_warning(h.ignored))
    } else {
        h.warnings
    }
}

/// A UI-layout file read.
pub open spec fn spec_parse_ui(t: SpecTable, delete_if_empty: bool) -> Result<SpecBatch, SpecBatchError> {
    let h = ui_header_fold(t.headers);
    if h.path_col is None && h.id_col is None {
        Err(SpecBatchError::Rule(no_identifier_column_error()))
    } else if h.meta.len() == 0 {
        Err(SpecBatchError::Rule(no_metadata_column_error()))
    } else {
        let st = ui_row_fold(t.records, h, ui_header_warnings(h), delete_if_empty);
        match st.error {
            Some(e) => Err(SpecBatchError::Rule(e)),
            None => match t.error {
                Some(e) => Err(SpecBatchError::Csv(e)),
                None => Ok(SpecBatch { entries: st.entries, warnings: st.warnings, format: BatchCsvFormat::Ui }),
            },
        }
    }
}

/// The exec form of the header state.
struct UiColumns {
    path_col: Option<usize>,
    id_col: Option<usize>,
    meta: Vec<(usize, String)>,
    ignored: Vec<String>,
    warnings: Vec<String>,
}

pub open spec fn col_view(c: Option<usize>) -> Option<nat> {
    match c {
        Some(i) => Some(i as nat),
        None => None,
    }
}

pub open spec fn meta_views(m: Seq<(usize, String)>) -> Seq<(nat, Seq<char>)> {
    m.map_values(|p: (usize, String)| (p.0 as nat, p.1@))
}

impl View for UiColumns {
    type V = UiHeader;

    closed spec fn view(&self) -> UiHeader {
        UiHeader {
            path_col: col_view(self.path_col),
            id_col: col_view(self.id_col),
            meta: meta_views(self.meta@),
            ignored: views(self.ignored@),
            warnings: views(self.warnings@),
        }
    }
}

fn read_ui_header(headers: &Vec<String>) -> (r: UiColumns)
    ensures
        r@ == ui_header_fold(views(headers@)),
        forall|k: int| 0 <= k < r.meta@.len() ==> (#[trigger] r.meta@[k]).0 < headers.len(),
{
    let ghost hs = views(headers@);
    let mut cols = UiColumns {
        path_col: None,
        id_col: None,
        meta: Vec::new(),
        ignored: Vec::new(),
        warnings: Vec::new(),
    };
    assert(cols@.meta =~= Seq::<(nat, Seq<char>)>::empty());
    assert(cols@.ignored =~= Seq::<Seq<char>>::empty());
    assert(cols@.warnings =~= Seq::<Seq<char>>::empty());
    assert(cols@ == ui_header_fold(hs.take(0)));
    let n = headers.len();
    for index in 0..n
        invariant
            n == headers.len(),
            hs == views(headers@),
            cols@ == ui_header_fold(hs.take(index as int)),
            forall|k: int| 0 <= k < cols.meta@.len() ==> (#[trigger] cols.meta@[k]).0 < n,
    {
        proof {
            assert(hs.take(index + 1).drop_last() =~= hs.take(index as int));
        }
        let ghost prev = cols@;
        let header = trim(headers[index].as_str());
        let hv = chars_of(header.as_str());
        let path_chars: [char; 4] = ['p', 'a', 't', 'h'];
        let id_chars: [char; 2] = ['i', 'd'];
        assert(path_chars@ =~= path_word());
        assert(id_chars@ =~= id_word());
        match is_metadata_column(header.as_str()) {
            Some(field) => {
                if field.as_str().is_empty() {
                    let mut w = String::from_str("Column ");
                    let number = u64_text(index as u64 + 1);
                    w.append(number.as_str());
                    w.append(" ('");
                    w.append(header.as_str());
                    w.append("') has an empty metadata field name and will be ignored");
                    cols.warnings.push(w);
                    assert(cols@.warnings =~= prev.warnings.push(empty_field_warning((index + 1) as nat, header@)));
                } else {
                    cols.meta.push((index, field));
                    assert(cols@.meta =~= prev.meta.push((index as nat, metadata_field(header@).unwrap())));
                }
            },
            None => {
                if eq_ignore_ascii_case_chars(hv.as_slice(), path_chars.as_slice()) {
                    cols.path_col = Some(index);
                } else if eq_ignore_ascii_case_chars(hv.as_slice(), id_chars.as_slice()) {
                    cols.id_col = Some(index);
                } else {
                    cols.ignored.push(header);
                    assert(cols@.ignored =~= prev.ignored.push(spec_trim(hs[index as int])));
                }
            },
        }
        assert(cols@ == ui_header_step(prev, index as nat, hs[index as int]));
    }
    assert(hs.take(n as int) =~= hs);
    cols
}


fn line_string(line: Option<u64>) -> (r: String)
    ensures
        r@ == line_text(line),
{
    match line {
        Some(n) => u64_text(n),
        None => String::from_str("?"),
    }
}

fn column_cell_of(fields: &Vec<String>, col: Option<usize>) -> (r: String)
    ensures
        r@ == column_cell(views(fields@), col_view(col)),
{
    match col {
        Some(i) => cell_of(fields, i),
        None => String::new(),
    }
}

/// The asset a UI row names, or the message of why it names none.
fn row_asset_of(rec: &CsvRecord, id_col: Option<usize>, path_col: Option<usize>) -> (r: Result<BatchAssetRef, String>)
    ensures
        match r {
            Ok(a) => row_asset(rec@, col_view(id_col), col_view(path_col)) == Ok::<AssetKey, Seq<char>>(a@),
            Err(e) => row_asset(rec@, col_view(id_col), col_view(path_col)) == Err::<AssetKey, Seq<char>>(e@),
        },
{
    let id = column_cell_of(&rec.fields, id_col);
    let path = column_cell_of(&rec.fields, path_col);
    if !id.as_str().is_empty() {
        match parse_uuid(id.as_str()) {
            Ok(u) => Ok(BatchAssetRef::Uuid(u)),
            Err(e) => {
                let mut m = String::from_str("Line ");
                let line = line_string(rec.line);
                m.append(line.as_str());
                m.append(": invalid UUID '");
                m.append(id.as_str());
                m.append("' in 'id' column: ");
                m.append(e.as_str());
                Err(m)
            },
        }
    } else if !path.as_str().is_empty() {
        Ok(BatchAssetRef::Path(normalize_batch_asset_path(path.as_str())))
    } else {
        let mut m = String::from_str("Line ");
        let line = line_string(rec.line);
        m.append(line.as_str());
        m.append(": row has neither an 'id' nor a 'path' value to identify the asset");
        Err(m)
    }
}

/// Add a UI row's metadata cells for `asset`; whether any was added.
fn add_ui_cells(
    acc: &mut EntryAccumulator,
    asset: &BatchAssetRef,
    meta: &Vec<(usize, String)>,
    fields: &Vec<String>,
    delete_if_empty: bool,
) -> (added: bool)
    ensures
        (entry_views(final(acc).entries@), added) == ui_cells(
            entry_views(old(acc).entries@),
            asset@,
            meta_views(meta@),
            views(fields@),
            delete_if_empty,
        ),
{
    let ghost start = entry_views(acc.entries@);
    let ghost ms = meta_views(meta@);
    let mut added = false;
    let n = meta.len();
    for k in 0..n
        invariant
            n == meta.len(),
            ms == meta_views(meta@),
            (entry_views(acc.entries@), added) == ui_cells(start, asset@, ms.take(k as int), views(fields@), delete_if_empty),
    {
        proof {
            assert(ms.take(k + 1).drop_last() =~= ms.take(k as int));
            assert(ms.take(k + 1).last() == ms[k as int]);
        }
        let value = cell_of(fields, meta[k].0);
        if !value.as_str().is_empty() || delete_if_empty {
            let name = meta[k].1.clone();
            acc.add(asset.duplicate(), name, value, None);
            added = true;
        }
    }
    assert(ms.take(n as int) =~= ms);
    added
}

/// The names of a row's metadata fields skipped for an empty cell.
fn skipped_ui_fields(meta: &Vec<(usize, String)>, fields: &Vec<String>, delete_if_empty: bool) -> (r: Vec<String>)
    ensures
        views(r@) == ui_skipped_fields(meta_views(meta@), views(fields@), delete_if_empty),
{
    let ghost ms = meta_views(meta@);
    let mut skipped: Vec<String> = Vec::new();
    let n = meta.len();
    for k in 0..n
        invariant
            n == meta.len(),
            ms == meta_views(meta@),
            views(skipped@) == ui_skipped_fields(ms.take(k as int), views(fields@), delete_if_empty),
    {
        proof {
            assert(ms.take(k + 1).drop_last() =~= ms.take(k as int));
            assert(ms.take(k + 1).last() == ms[k as int]);
        }
        let value = cell_of(fields, meta[k].0);
        if value.as_str().is_empty() && !delete_if_empty {
            let ghost before = views(skipped@);
            skipped.push(meta[k].1.clone());
            assert(views(skipped@) =~= before.push(ms[k as int].1));
        }
    }
    assert(ms.take(n as int) =~= ms);
    skipped
}

/// Once a row is in error, reading more rows keeps that error.
proof fn lemma_ui_error_sticks(
    records: Seq<SpecRecord>,
    h: UiHeader,
    w: Seq<Seq<char>>,
    delete_if_empty: bool,
    k: int,
)
    requires
        0 <= k <= records.len(),
        ui_row_fold(records.take(k), h, w, delete_if_empty).error is Some,
    ensures
        ui_row_fold(records, h, w, delete_if_empty).error == ui_row_fold(records.take(k), h, w, delete_if_empty).error,
    decreases records.len() - k,
{
    if k < records.len() {
        assert(records.take(k + 1).drop_last() =~= records.take(k));
        lemma_ui_error_sticks(records, h, w, delete_if_empty, k + 1);
    } else {
        assert(records.take(k) =~= records);
    }
}

/// Read a UI-layout file.
fn parse_ui(table: &CsvTable, delete_if_empty: bool) -> (r: Result<ParsedBatch, CliActionError>)
    ensures
        batch_outcome(r) == spec_parse_ui(table@, delete_if_empty),
{
    let cols = read_ui_header(&table.headers);
    let ghost h = cols@;
    let UiColumns { path_col, id_col, meta, ignored, mut warnings } = cols;
    if ignored.len() > 0 {
        let mut w = String::from_str("Ignoring unrecognized column(s): ");
        let listed = join(&ignored, ", ");
        w.append(listed.as_str());
        w.append(" (metadata columns must be prefixed with 'metadata:')");
        warnings.push(w);
        assert(views(warnings@) =~= h.warnings.push(ignored_columns_warning(h.ignored)));
    }
    let ghost hw = ui_header_warnings(h);
    assert(views(warnings@) == hw);
    if path_col.is_none() && id_col.is_none() {
        return Err(CliActionError::BusinessLogicError(String::from_str(
            "UI-format CSV must contain a 'path' or 'id' column identifying each asset",
        )));
    }
    if meta.len() == 0 {
        return Err(CliActionError::BusinessLogicError(String::from_str(
            "UI-format CSV must contain at least one metadata column (a column name prefixed with 'metadata:')",
        )));
    }
    let ghost rs = record_views(table.records@);
    let mut acc = EntryAccumulator::new();
    let n = table.records.len();
    assert(ui_row_fold(rs.take(0), h, hw, delete_if_empty).entries =~= entry_views(acc.entries@));
    for i in 0..n
        invariant
            n == table.records.len(),
            rs == record_views(table.records@),
            h == ui_header_fold(views(table.headers@)),
            hw == ui_header_warnings(h),
            !(h.path_col is None && h.id_col is None),
            h.meta.len() > 0,
            h.meta == meta_views(meta@),
            h.id_col == col_view(id_col),
            h.path_col == col_view(path_col),
            ui_row_fold(rs.take(i as int), h, hw, delete_if_empty).error is None,
            entry_views(acc.entries@) == ui_row_fold(rs.take(i as int), h, hw, delete_if_empty).entries,
            views(warnings@) == ui_row_fold(rs.take(i as int), h, hw, delete_if_empty).warnings,
    {
        proof {
            assert(rs.take(i + 1).drop_last() =~= rs.take(i as int));
            assert(rs.take(i + 1).last() == rs[i as int]);
        }
        let rec = &table.records[i];
        assert(rec@ == rs[i as int]);
        match row_asset_of(rec, id_col, path_col) {
            Err(e) => {
                proof {
                    assert(ui_row_fold(rs.take(i + 1), h, hw, delete_if_empty).error == Some(e@));
                    lemma_ui_error_sticks(rs, h, hw, delete_if_empty, i + 1);
                }
                return Err(CliActionError::BusinessLogicError(e));
            },
            Ok(asset) => {
                let added = add_ui_cells(&mut acc, &asset, &meta, &rec.fields, delete_if_empty);
                if !added {
                    let mut w = String::from_str("Line ");
                    let line = line_string(rec.line);
                    w.append(line.as_str());
                    w.append(": no metadata values for asset '");
                    let shown = asset.display();
                    w.append(shown.as_str());
                    w.append("'; row skipped");
                    let ghost before = views(warnings@);
                    warnings.push(w);
                    assert(views(warnings@) =~= before.push(skipped_row_warning(rec@.line, asset@)));
                } else {
                    let skipped = skipped_ui_fields(&meta, &rec.fields, delete_if_empty);
                    if skipped.len() > 0 {
                        let mut w = String::from_str("Line ");
                        let line = line_string(rec.line);
                        w.append(line.as_str());
                        w.append(": empty value(s) for ");
                        let names = join(&skipped, ", ");
                        w.append(names.as_str());
                        w.append(" of asset '");
                        let shown = asset.display();
                        w.append(shown.as_str());
                        w.append("' skipped; pass --delete-if-empty to delete those metadata fields instead");
                        let ghost before = views(warnings@);
                        warnings.push(w);
                        assert(views(warnings@) =~= before.push(
                            skipped_values_warning(rec@.line, asset@, ui_skipped_fields(h.meta, rec@.fields, delete_if_empty)),
                        ));
                    }
                }
            },
        }
    }
    assert(rs.take(n as int) =~= rs);
    match &table.error {
        Some(e) => Err(CliActionError::CsvError(e.clone())),
        None => Ok(ParsedBatch { entries: acc.entries, warnings, format: BatchCsvFormat::Ui }),
    }
}

/// Whether any header, trimmed, is a metadata column.
pub open spec fn has_metadata_columns(headers: Seq<Seq<char>>) -> bool {
    exists|i: int| 0 <= i < headers.len() && (#[trigger] metadata_field(spec_trim(headers[i]))) is Some
}

/// The layout used: the one asked for, or, when detection is asked for, UI
/// if any column is a metadata column and classic otherwise.
pub open spec fn effective_format(headers: Seq<Seq<char>>, requested: BatchCsvFormat) -> BatchCsvFormat {
    match requested {
        BatchCsvFormat::Auto => if has_metadata_columns(headers) {
            BatchCsvFormat::Ui
        } else {
            BatchCsvFormat::Classic
        },
        f => f,
    }
}

/// A batch file read from its CSV table.
pub open spec fn spec_parse_table(t: SpecTable, requested: BatchCsvFormat, delete_if_empty: bool) -> Result<SpecBatch, SpecBatchError> {
    if effective_format(t.headers, requested) == BatchCsvFormat::Ui {
        spec_parse_ui(t, delete_if_empty)
    } else {
        spec_parse_classic(t, delete_if_empty)
    }
}

fn any_metadata_column(headers: &Vec<String>) -> (r: bool)
    ensures
        r == has_metadata_columns(views(headers@)),
{
    let ghost hs = views(headers@);
    let n = headers.len();
    for i in 0..n
        invariant
            n == headers.len(),
            hs == views(headers@),
            forall|j: int| 0 <= j < i ==> (#[trigger] metadata_field(spec_trim(hs[j]))) is None,
    {
        let header = trim(headers[i].as_str());
        if is_metadata_column(header.as_str()).is_some() {
            assert(metadata_field(spec_trim(hs[i as int])) is Some);
            return true;
        }
    }
    false
}

/// Read a batch metadata file from its CSV table, in the layout `requested`
/// or the one its header row shows. With `delete_if_empty`, empty values are
/// kept as requests to delete their field; otherwise they are skipped.
pub fn parse_batch_table(table: &CsvTable, requested: BatchCsvFormat, delete_if_empty: bool) -> (r: Result<ParsedBatch, CliActionError>)
    ensures
        batch_outcome(r) == spec_parse_table(table@, requested, delete_if_empty),
{
    let has_meta = any_metadata_column(&table.headers);
    let format = match requested {
        BatchCsvFormat::Auto => if has_meta {
            BatchCsvFormat::Ui
        } else {
            BatchCsvFormat::Classic
        },
        f => f,
    };
    match format {
        BatchCsvFormat::Ui => parse_ui(table, delete_if_empty),
        _ => parse_classic(table, delete_if_empty),
    }
}

/// Parse a batch metadata CSV from `input`, detecting the layout when
/// `requested` is [`BatchCsvFormat::Auto`]. A CSV that cannot be read is a
/// `CsvError`; content that breaks the layout's rules a `BusinessLogicError`.
/// With `delete_if_empty`, empty values are kept as requests to delete their
/// field; otherwise they are skipped with a warning.
pub fn parse_batch_csv(input: &[u8], requested: BatchCsvFormat, delete_if_empty: bool) -> (r: Result<ParsedBatch, CliActionError>)
    ensures
        match csv_read(input@) {
            Err(e) => batch_outcome(r) == Err::<SpecBatch, SpecBatchError>(SpecBatchError::Csv(e)),
            Ok(t) => batch_outcome(r) == spec_parse_table(t, requested, delete_if_empty),
        },
{
    match read_csv(input) {
        Err(e) => Err(CliActionError::CsvError(e)),
        Ok(table) => parse_batch_table(&table, requested, delete_if_empty),
    }
}

/// No two entries are for the same asset, and no entry sets a field, or
/// declares a field's type, twice.
pub open spec fn entries_wf(es: Seq<SpecEntry>) -> bool {
    &&& forall|i: int, j: int| 0 <= i < j < es.len() ==> (#[trigger] es[i]).asset != (#[trigger] es[j]).asset
    &&& forall|i: int| 0 <= i < es.len() ==> keys_distinct((#[trigger] es[i]).metadata) && keys_distinct(es[i].types)
}

proof fn lemma_first_where_none<T>(s: Seq<T>, p: spec_fn(T) -> bool)
    requires
        first_where(s, p) < 0,
    ensures
        forall|j: int| 0 <= j < s.len() ==> !p(#[trigger] s[j]),
{
    assert forall|j: int| 0 <= j < s.len() implies !p(#[trigger] s[j]) by {
        if p(s[j]) {
            lemma_first_exists(s, p, j);
            let k = choose|k: int| is_first(s, p, k);
            assert(is_first(s, p, k));
        }
    }
}

proof fn lemma_acc_add_wf(
    entries: Seq<SpecEntry>,
    asset: AssetKey,
    field: Seq<char>,
    value: Seq<char>,
    ty: Option<Seq<char>>,
)
    requires
        entries_wf(entries),
    ensures
        entries_wf(acc_add(entries, asset, field, value, ty)),
{
    let i = first_where(entries, asset_is(asset));
    if i >= 0 {
        let k = choose|k: int| is_first(entries, asset_is(asset), k);
        assert(is_first(entries, asset_is(asset), k));
        let e = entries[i];
        lemma_put_field_distinct(e.metadata, field, value);
        match ty {
            Some(t) => lemma_put_field_distinct(e.types, field, t),
            None => {},
        }
    } else {
        lemma_first_where_none(entries, asset_is(asset));
        let base = entries.push(SpecEntry { asset, metadata: seq![], types: seq![] });
        let n = entries.len() as int;
        assert(keys_distinct(Seq::<(Seq<char>, Seq<char>)>::empty()));
        lemma_put_field_distinct(seq![], field, value);
        match ty {
            Some(t) => lemma_put_field_distinct(seq![], field, t),
            None => {},
        }
        let r = acc_add(entries, asset, field, value, ty);
        assert forall|a: int, b: int| 0 <= a < b < r.len() implies (#[trigger] r[a]).asset != (
        #[trigger] r[b]).asset by {
            if b == n {
                assert(!asset_is(asset)(entries[a]));
            }
        }
    }
}

proof fn lemma_ui_cells_wf(
    entries: Seq<SpecEntry>,
    asset: AssetKey,
    meta: Seq<(nat, Seq<char>)>,
    fields: Seq<Seq<char>>,
    delete_if_empty: bool,
)
    requires
        entries_wf(entries),
    ensures
        entries_wf(ui_cells(entries, asset, meta, fields, delete_if_empty).0),
    decreases meta.len(),
{
    if meta.len() > 0 {
        lemma_ui_cells_wf(entries, asset, meta.drop_last(), fields, delete_if_empty);
        let (es, _) = ui_cells(entries, asset, meta.drop_last(), fields, delete_if_empty);
        let value = cell(fields, meta.last().0 as int);
        lemma_acc_add_wf(es, asset, meta.last().1, value, None);
    }
}

proof fn lemma_classic_fold_wf(records: Seq<SpecRecord>, delete_if_empty: bool)
    ensures
        entries_wf(classic_fold(records, delete_if_empty).entries),
    decreases records.len(),
{
    if records.len() > 0 {
        lemma_classic_fold_wf(records.drop_last(), delete_if_empty);
        let st = classic_fold(records.drop_last(), delete_if_empty);
        let fields = records.last().fields;
        if fields.len() >= 3 {
            let value = cell(fields, 2);
            let raw = cell(fields, 3);
            let lowered = spec_ascii_lowercase(raw);
            let known = raw.len() > 0 && is_declared_type(lowered);
            lemma_acc_add_wf(
                st.entries,
                AssetKey::Path(spec_batch_asset_path(cell(fields, 0))),
                cell(fields, 1),
                value,
                if known {
                    Some(lowered)
                } else {
                    None
                },
            );
        }
    }
}

proof fn lemma_ui_row_fold_wf(
    records: Seq<SpecRecord>,
    h: UiHeader,
    warnings: Seq<Seq<char>>,
    delete_if_empty: bool,
)
    ensures
        entries_wf(ui_row_fold(records, h, warnings, delete_if_empty).entries),
    decreases records.len(),
{
    if records.len() > 0 {
        lemma_ui_row_fold_wf(records.drop_last(), h, warnings, delete_if_empty);
        let st = ui_row_fold(records.drop_last(), h, warnings, delete_if_empty);
        let rec = records.last();
        if st.error is None {
            match row_asset(rec, h.id_col, h.path_col) {
                Ok(asset) => lemma_ui_cells_wf(st.entries, asset, h.meta, rec.fields, delete_if_empty),
                Err(_) => {},
            }
        }
    }
}

/// A batch file, whatever its layout, is read into one entry per asset, in
/// which each field is set once and its type declared at most once: rows for
/// the same asset merge, and a field set again keeps only its later value.
pub proof fn lemma_one_entry_per_asset(t: SpecTable, requested: BatchCsvFormat, delete_if_empty: bool)
    ensures
        spec_parse_table(t, requested, delete_if_empty) matches Ok(b) ==> entries_wf(b.entries),
{
    lemma_classic_fold_wf(t.records, delete_if_empty);
    let h = ui_header_fold(t.headers);
    lemma_ui_row_fold_wf(t.records, h, ui_header_warnings(h), delete_if_empty);
}

/// Whether reading row `i` of `t` without deleting skips an empty value:
/// in the UI layout an empty metadata cell, in the classic layout an empty
/// `VALUE`.
pub open spec fn skips_empty_value(t: SpecTable, requested: BatchCsvFormat, i: int) -> bool {
    let fields = t.records[i].fields;
    if effective_format(t.headers, requested) == BatchCsvFormat::Ui {
        ui_skipped_fields(ui_header_fold(t.headers).meta, fields, false).len() > 0
    } else {
        fields.len() >= 3 && cell(fields, 2).len() == 0
    }
}

/// Reading more rows only adds warnings after those already given.
proof fn lemma_ui_warnings_grow(
    records: Seq<SpecRecord>,
    h: UiHeader,
    w: Seq<Seq<char>>,
    delete_if_empty: bool,
    j: int,
)
    requires
        0 <= j <= records.len(),
    ensures
        ui_row_fold(records.take(j), h, w, delete_if_empty).warnings
            == ui_row_fold(records, h, w, delete_if_empty).warnings.take(
            ui_row_fold(records.take(j), h, w, delete_if_empty).warnings.len() as int,
        ),
        ui_row_fold(records.take(j), h, w, delete_if_empty).warnings.len()
            <= ui_row_fold(records, h, w, delete_if_empty).warnings.len(),
    decreases records.len() - j,
{
    if j == records.len() {
        assert(records.take(j) =~= records);
        let ws = ui_row_fold(records, h, w, delete_if_empty).warnings;
        assert(ws.take(ws.len() as int) =~= ws);
    } else {
        lemma_ui_warnings_grow(records, h, w, delete_if_empty, j + 1);
        assert(records.take(j + 1).drop_last() =~= records.take(j));
        let a = ui_row_fold(records.take(j), h, w, delete_if_empty).warnings;
        let b = ui_row_fold(records.take(j + 1), h, w, delete_if_empty).warnings;
        let c = ui_row_fold(records, h, w, delete_if_empty).warnings;
        assert(b == a || b == a.push(b.last()));
        assert(a =~= c.take(a.len() as int));
    }
}

/// Reading more classic rows never lowers the count of rows skipped.
proof fn lemma_classic_skipped_grows(records: Seq<SpecRecord>, j: int)
    requires
        0 <= j <= records.len(),
    ensures
        classic_fold(records.take(j), false).skipped <= classic_fold(records, false).skipped,
    decreases records.len() - j,
{
    if j == records.len() {
        assert(records.take(j) =~= records);
    } else {
        lemma_classic_skipped_grows(records, j + 1);
        assert(records.take(j + 1).drop_last() =~= records.take(j));
    }
}

/// Without deleting, a file that is read warns of every empty value it skips:
/// a UI row that skips one gives a warning on its line naming its asset (the
/// row passed over, or the fields whose cells were empty), and a classic file
/// that skips one warns with the count of rows skipped.
pub proof fn lemma_skipped_values_are_warned(t: SpecTable, requested: BatchCsvFormat, i: int)
    requires
        spec_parse_table(t, requested, false) is Ok,
        0 <= i < t.records.len(),
        skips_empty_value(t, requested, i),
    ensures
        spec_parse_table(t, requested, false)->Ok_0.warnings.len() > 0,
        effective_format(t.headers, requested) == BatchCsvFormat::Ui ==> {
            let h = ui_header_fold(t.headers);
            let rec = t.records[i];
            &&& row_asset(rec, h.id_col, h.path_col) is Ok
            &&& {
                let asset = row_asset(rec, h.id_col, h.path_col)->Ok_0;
                let ws = spec_parse_table(t, requested, false)->Ok_0.warnings;
                ws.contains(skipped_row_warning(rec.line, asset)) || ws.contains(
                    skipped_values_warning(rec.line, asset, ui_skipped_fields(h.meta, rec.fields, false)),
                )
            }
        },
        effective_format(t.headers, requested) != BatchCsvFormat::Ui ==> spec_parse_table(
            t,
            requested,
            false,
        )->Ok_0.warnings[0] == skipped_warning(classic_fold(t.records, false).skipped),
{
    let rs = t.records;
    if effective_format(t.headers, requested) == BatchCsvFormat::Ui {
        let h = ui_header_fold(t.headers);
        let w = ui_header_warnings(h);
        let st = ui_row_fold(rs, h, w, false);
        assert(st.error is None);
        if ui_row_fold(rs.take(i + 1), h, w, false).error is Some {
            lemma_ui_error_sticks(rs, h, w, false, i + 1);
        }
        assert(rs.take(i + 1).drop_last() =~= rs.take(i));
        assert(rs.take(i + 1).last() == rs[i]);
        let before = ui_row_fold(rs.take(i), h, w, false);
        let after = ui_row_fold(rs.take(i + 1), h, w, false);
        assert(before.error is None);
        let rec = rs[i];
        let asset = row_asset(rec, h.id_col, h.path_col)->Ok_0;
        let last = after.warnings[after.warnings.len() - 1];
        assert(last == skipped_row_warning(rec.line, asset) || last == skipped_values_warning(
            rec.line,
            asset,
            ui_skipped_fields(h.meta, rec.fields, false),
        ));
        lemma_ui_warnings_grow(rs, h, w, false, i + 1);
        assert(st.warnings[after.warnings.len() - 1] == last);
    } else {
        lemma_classic_skipped_grows(rs, i + 1);
        assert(rs.take(i + 1).drop_last() =~= rs.take(i));
        assert(rs.take(i + 1).last() == rs[i]);
        assert(classic_fold(rs.take(i + 1), false).skipped > 0);
    }
}

/// The value a batch sets for `field` of `asset`, if it sets one.
pub open spec fn batch_value(entries: Seq<SpecEntry>, asset: AssetKey, field: Seq<char>) -> Option<Seq<char>> {
    let i = first_where(entries, asset_is(asset));
    if i >= 0 {
        field_value(entries[i].metadata, field)
    } else {
        None
    }
}

/// Adding a row's value sets that field of that asset and no other.
proof fn lemma_acc_add_value(
    es: Seq<SpecEntry>,
    asset: AssetKey,
    field: Seq<char>,
    value: Seq<char>,
    ty: Option<Seq<char>>,
    a2: AssetKey,
    f2: Seq<char>,
)
    requires
        entries_wf(es),
    ensures
        batch_value(acc_add(es, asset, field, value, ty), a2, f2) == if a2 == asset && f2 == field {
            Some(value)
        } else {
            batch_value(es, a2, f2)
        },
{
    let i = first_where(es, asset_is(asset));
    let res = acc_add(es, asset, field, value, ty);
    let k = if i >= 0 {
        i
    } else {
        es.len() as int
    };
    let base = if i >= 0 {
        es
    } else {
        es.push(SpecEntry { asset, metadata: seq![], types: seq![] })
    };
    if i >= 0 {
        let w = choose|w: int| is_first(es, asset_is(asset), w);
        assert(is_first(es, asset_is(asset), w));
    } else {
        lemma_first_where_none(es, asset_is(asset));
    }
    assert(res.len() == base.len());
    assert(res[k].asset == asset);
    assert(res[k].metadata == put_field(base[k].metadata, field, value));
    assert forall|j: int| 0 <= j < res.len() && j != k implies #[trigger] res[j] == es[j] by {}
    let md = base[k].metadata;
    assert(keys_distinct(md)) by {
        if i < 0 {
            assert(md =~= Seq::<(Seq<char>, Seq<char>)>::empty());
        }
    }
    if a2 == asset {
        assert(is_first(res, asset_is(a2), k)) by {
            assert forall|j: int| 0 <= j < k implies !asset_is(a2)(#[trigger] res[j]) by {
                assert(res[j] == es[j]);
                if i >= 0 {
                    assert(es[j].asset != es[i].asset);
                }
            }
        }
        lemma_first_found(res, asset_is(a2), k);
        if f2 == field {
            assert(field.push('a').len() != field.len());
            lemma_read_after_set(md, field, value, field.push('a'));
        } else {
            lemma_read_after_set(md, field, value, f2);
            if i < 0 {
                lemma_first_absent(md, key_is::<Seq<char>>(f2));
            }
        }
    } else {
        let j0 = first_where(es, asset_is(a2));
        if j0 >= 0 {
            let w = choose|w: int| is_first(es, asset_is(a2), w);
            assert(is_first(es, asset_is(a2), w));
            assert(j0 != k);
            assert(is_first(res, asset_is(a2), j0)) by {
                assert forall|j: int| 0 <= j < j0 implies !asset_is(a2)(#[trigger] res[j]) by {
                    if j != k {
                        assert(res[j] == es[j]);
                    }
                }
            }
            lemma_first_found(res, asset_is(a2), j0);
        } else {
            lemma_first_where_none(es, asset_is(a2));
            assert forall|j: int| 0 <= j < res.len() implies !asset_is(a2)(#[trigger] res[j]) by {
                if j != k {
                    assert(res[j] == es[j]);
                }
            }
            lemma_first_absent(res, asset_is(a2));
        }
    }
}

/// How a field's value read without deleting (`va`) stands to the one read
/// with empty values deleting (`vb`): a field set only to empty values is
/// absent; a field whose last value is not empty has that value; and a field
/// whose last value is empty keeps its last value that is not, if any.
pub open spec fn skip_relates(va: Option<Seq<char>>, vb: Option<Seq<char>>) -> bool {
    match (va, vb) {
        (None, None) => true,
        (None, Some(w)) => w.len() == 0,
        (Some(v), Some(w)) => v.len() > 0 && (w.len() == 0 || w == v),
        (Some(_), None) => false,
    }
}

/// Every field of every asset relates as [`skip_relates`] says.
pub open spec fn batches_relate(ea: Seq<SpecEntry>, eb: Seq<SpecEntry>) -> bool {
    forall|a: AssetKey, f: Seq<char>|
        #![trigger batch_value(ea, a, f)]
        #![trigger batch_value(eb, a, f)]
        skip_relates(batch_value(ea, a, f), batch_value(eb, a, f))
}

proof fn lemma_relate_step(
    ea: Seq<SpecEntry>,
    eb: Seq<SpecEntry>,
    asset: AssetKey,
    field: Seq<char>,
    value: Seq<char>,
    tya: Option<Seq<char>>,
    tyb: Option<Seq<char>>,
)
    requires
        entries_wf(ea),
        entries_wf(eb),
        batches_relate(ea, eb),
    ensures
        value.len() > 0 ==> batches_relate(acc_add(ea, asset, field, value, tya), acc_add(eb, asset, field, value, tyb)),
        value.len() == 0 ==> batches_relate(ea, acc_add(eb, asset, field, value, tyb)),
{
    let na = acc_add(ea, asset, field, value, tya);
    let nb = acc_add(eb, asset, field, value, tyb);
    if value.len() > 0 {
        assert forall|a: AssetKey, f: Seq<char>|
            #![trigger batch_value(na, a, f)]
            #![trigger batch_value(nb, a, f)]
            skip_relates(batch_value(na, a, f), batch_value(nb, a, f)) by {
            lemma_acc_add_value(ea, asset, field, value, tya, a, f);
            lemma_acc_add_value(eb, asset, field, value, tyb, a, f);
            assert(skip_relates(batch_value(ea, a, f), batch_value(eb, a, f)));
        }
    } else {
        assert forall|a: AssetKey, f: Seq<char>|
            #![trigger batch_value(ea, a, f)]
            #![trigger batch_value(nb, a, f)]
            skip_relates(batch_value(ea, a, f), batch_value(nb, a, f)) by {
            lemma_acc_add_value(eb, asset, field, value, tyb, a, f);
            assert(skip_relates(batch_value(ea, a, f), batch_value(eb, a, f)));
        }
    }
}

proof fn lemma_relate_ui_cells(
    ea: Seq<SpecEntry>,
    eb: Seq<SpecEntry>,
    asset: AssetKey,
    meta: Seq<(nat, Seq<char>)>,
    fields: Seq<Seq<char>>,
)
    requires
        entries_wf(ea),
        entries_wf(eb),
        batches_relate(ea, eb),
    ensures
        batches_relate(ui_cells(ea, asset, meta, fields, false).0, ui_cells(eb, asset, meta, fields, true).0),
        meta.len() > 0 ==> ui_cells(eb, asset, meta, fields, true).1,
        ui_skipped_fields(meta, fields, true).len() == 0,
    decreases meta.len(),
{
    if meta.len() > 0 {
        lemma_relate_ui_cells(ea, eb, asset, meta.drop_last(), fields);
        lemma_ui_cells_wf(ea, asset, meta.drop_last(), fields, false);
        lemma_ui_cells_wf(eb, asset, meta.drop_last(), fields, true);
        let xa = ui_cells(ea, asset, meta.drop_last(), fields, false).0;
        let xb = ui_cells(eb, asset, meta.drop_last(), fields, true).0;
        let value = cell(fields, meta.last().0 as int);
        lemma_relate_step(xa, xb, asset, meta.last().1, value, None, None);
    }
}

proof fn lemma_relate_ui_fold(records: Seq<SpecRecord>, h: UiHeader, w: Seq<Seq<char>>)
    requires
        h.meta.len() > 0,
    ensures
        ui_row_fold(records, h, w, false).error == ui_row_fold(records, h, w, true).error,
        batches_relate(ui_row_fold(records, h, w, false).entries, ui_row_fold(records, h, w, true).entries),
        ui_row_fold(records, h, w, true).warnings == w,
    decreases records.len(),
{
    if records.len() == 0 {
        let e = Seq::<SpecEntry>::empty();
        assert forall|a: AssetKey, f: Seq<char>|
            #![trigger batch_value(e, a, f)]
            skip_relates(batch_value(e, a, f), batch_value(e, a, f)) by {
            lemma_first_absent(e, asset_is(a));
        }
    } else {
        let d = records.drop_last();
        lemma_relate_ui_fold(d, h, w);
        lemma_ui_row_fold_wf(d, h, w, false);
        lemma_ui_row_fold_wf(d, h, w, true);
        let sa = ui_row_fold(d, h, w, false);
        let sb = ui_row_fold(d, h, w, true);
        let rec = records.last();
        if sa.error is None {
            match row_asset(rec, h.id_col, h.path_col) {
                Ok(asset) => lemma_relate_ui_cells(sa.entries, sb.entries, asset, h.meta, rec.fields),
                Err(_) => {},
            }
        }
    }
}

proof fn lemma_relate_classic_fold(records: Seq<SpecRecord>)
    ensures
        batches_relate(classic_fold(records, false).entries, classic_fold(records, true).entries),
        classic_fold(records, true).skipped == 0,
    decreases records.len(),
{
    if records.len() == 0 {
        let e = Seq::<SpecEntry>::empty();
        assert forall|a: AssetKey, f: Seq<char>|
            #![trigger batch_value(e, a, f)]
            skip_relates(batch_value(e, a, f), batch_value(e, a, f)) by {
            lemma_first_absent(e, asset_is(a));
        }
    } else {
        let d = records.drop_last();
        lemma_relate_classic_fold(d);
        lemma_classic_fold_wf(d, false);
        lemma_classic_fold_wf(d, true);
        let sa = classic_fold(d, false);
        let sb = classic_fold(d, true);
        let fields = records.last().fields;
        if fields.len() >= 3 {
            let value = cell(fields, 2);
            let raw = cell(fields, 3);
            let lowered = spec_ascii_lowercase(raw);
            let known = raw.len() > 0 && is_declared_type(lowered);
            let ty = if known {
                Some(lowered)
            } else {
                None
            };
            lemma_relate_step(
                sa.entries,
                sb.entries,
                AssetKey::Path(spec_batch_asset_path(cell(fields, 0))),
                cell(fields, 1),
                value,
                ty,
                ty,
            );
        }
    }
}

/// Reading the same file with and without `--delete-if-empty` succeeds on
/// both or on neither. When it succeeds, the run without deleting holds no
/// empty value: each field it sets has the value the deleting run sets,
/// unless the deleting run's last value for it is empty, in which case it
/// keeps its last value that is not (or is absent), and a field the deleting
/// run sets only to empty values it leaves out. The deleting run warns of no
/// skipped value: in the UI layout its warnings are those of the header
/// alone, and in the classic layout it skips no row.
pub proof fn lemma_deleting_differs_only_in_empty_values(t: SpecTable, requested: BatchCsvFormat)
    ensures
        spec_parse_table(t, requested, false) is Ok <==> spec_parse_table(t, requested, true) is Ok,
        spec_parse_table(t, requested, false) is Ok ==> {
            let pa = spec_parse_table(t, requested, false)->Ok_0;
            let pb = spec_parse_table(t, requested, true)->Ok_0;
            &&& batches_relate(pa.entries, pb.entries)
            &&& effective_format(t.headers, requested) == BatchCsvFormat::Ui ==> pb.warnings == ui_header_warnings(
                ui_header_fold(t.headers),
            )
            &&& effective_format(t.headers, requested) != BatchCsvFormat::Ui ==> classic_fold(t.records, true).skipped
                == 0
        },
{
    let h = ui_header_fold(t.headers);
    if h.meta.len() > 0 {
        lemma_relate_ui_fold(t.records, h, ui_header_warnings(h));
    }
    lemma_relate_classic_fold(t.records);
}

} // verus!
