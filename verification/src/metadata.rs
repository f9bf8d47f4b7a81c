//! Typed document metadata: the values a metadata row holds, how a value
//! given in a request or a form is typed, and how a stored row is shown.
use vstd::prelude::*;

use crate::numbers::{bool_text, int_text, parse_i64_spec};

verus! {

/// A typed metadata value. A row stores exactly one of the four kinds: a
/// text, an integer that fits `i64`, any other JSON number (by its JSON
/// text), or a boolean.
#[derive(Debug, PartialEq, Eq)]
pub enum MetadataValue {
    Text(String),
    Int(i64),
    Number(String),
    Bool(bool),
}

/// The mathematical value of a [`MetadataValue`].
pub enum MetaVal {
    Text(Seq<char>),
    Int(i64),
    Number(Seq<char>),
    Bool(bool),
}

impl View for MetadataValue {
    type V = MetaVal;

    open spec fn view(&self) -> MetaVal {
        match self {
            MetadataValue::Text(s) => MetaVal::Text(s@),
            MetadataValue::Int(i) => MetaVal::Int(*i),
            MetadataValue::Number(t) => MetaVal::Number(t@),
            MetadataValue::Bool(b) => MetaVal::Bool(*b),
        }
    }
}

/// A key with its typed value.
pub type MetadataEntry = (String, MetadataValue);

/// The view of a list of typed entries.
pub open spec fn entries_view(v: Seq<MetadataEntry>) -> Seq<(Seq<char>, MetaVal)> {
    v.map_values(|e: MetadataEntry| (e.0@, e.1@))
}

/// How a value written as text is typed: `true` and `false` are booleans,
/// what reads as an `i64` is an integer, anything else is text.
pub open spec fn infer_text_value(v: Seq<char>) -> MetaVal {
    if v == "true"@ {
        MetaVal::Bool(true)
    } else if v == "false"@ {
        MetaVal::Bool(false)
    } else {
        match parse_i64_spec(v) {
            Some(i) => MetaVal::Int(i),
            None => MetaVal::Text(v),
        }
    }
}

/// The text a typed value is shown as.
pub open spec fn value_text(v: MetaVal) -> Seq<char> {
    match v {
        MetaVal::Text(s) => s,
        MetaVal::Int(i) => int_text(i as int),
        MetaVal::Number(t) => t,
        MetaVal::Bool(b) => bool_text(b),
    }
}

/// Whether two character sequences are equal.
pub fn chars_eq(a: &[char], b: &[char]) -> (res: bool)
    ensures
        res == (a@ == b@),
{
    let n = a.len();
    if n != b.len() {
        return false;
    }
    let mut i: usize = 0;
    while i < n
        invariant
            n == a@.len(),
            n == b@.len(),
            i <= n,
            forall|k: int| 0 <= k < i ==> a@[k] == b@[k],
        decreases n - i,
    {
        if a[i] != b[i] {
            return false;
        }
        i += 1;
    }
    assert(a@ =~= b@);
    true
}

/// Types a value written as text: `true`/`false` become booleans, integers
/// become `Int`, everything else stays text.
pub fn infer_value(v: &[char]) -> (res: MetadataValue)
    ensures
        res@ == infer_text_value(v@),
{
    let t = crate::text::chars_of("true");
    let f = crate::text::chars_of("false");
    if chars_eq(v, t.as_slice()) {
        MetadataValue::Bool(true)
    } else if chars_eq(v, f.as_slice()) {
        MetadataValue::Bool(false)
    } else {
        match crate::numbers::parse_i64(v) {
            Some(i) => MetadataValue::Int(i),
            None => MetadataValue::Text(crate::text::string_of(v)),
        }
    }
}

} // verus!

verus! {

/// A typed value shown as text and typed again is the same value: typing
/// what the edit form shows for a stored value gives that value back, for
/// every value that typing can give.
pub proof fn lemma_typing_shown_value(v: Seq<char>)
    ensures
        infer_text_value(value_text(infer_text_value(v))) == infer_text_value(v),
{
    lemma_value_text_types_back(infer_text_value(v));
}

/// Typing the text of a value gives the value back, for every integer and
/// boolean and for every text that typing keeps as text.
pub proof fn lemma_value_text_types_back(t: MetaVal)
    requires
        t matches MetaVal::Text(s) ==> infer_text_value(s) == t,
        !(t is Number),
    ensures
        infer_text_value(value_text(t)) == t,
{
    reveal_strlit("true");
    reveal_strlit("false");
    match t {
        MetaVal::Int(i) => {
            crate::numbers::lemma_i64_text_parses_back(i);
            let s = int_text(i as int);
            if i < 0 {
                assert(s[0] == '-');
            } else {
                crate::numbers::lemma_nat_text(i as nat);
                assert(crate::numbers::is_digit(s[0]));
            }
            assert(s != "true"@) by {
                if s == "true"@ {
                    assert(s[0] == 't');
                }
            }
            assert(s != "false"@) by {
                if s == "false"@ {
                    assert(s[0] == 'f');
                }
            }
        },
        MetaVal::Bool(b) => {
            if b {
                assert(bool_text(true) =~= "true"@);
            } else {
                assert(bool_text(false) =~= "false"@);
                assert(bool_text(false) != "true"@) by {
                    assert(bool_text(false).len() != "true"@.len());
                }
            }
        },
        MetaVal::Text(s) => {},
        MetaVal::Number(_) => {},
    }
}

} // verus!

verus! {

// ── Values given in a JSON request ─────────────────────────────────

/// A JSON value given for a metadata key, as a request holds it: `null`, a
/// boolean, an integer that fits `i64`, any other number (by its JSON
/// text), a string, or an array or object (by its JSON text).
#[derive(Debug, PartialEq, Eq)]
pub enum JsonValue {
    Null,
    Bool(bool),
    Int(i64),
    Number(String),
    Str(String),
    Composite(String),
}

/// The mathematical value of a [`JsonValue`].
pub enum JsonValueView {
    Null,
    Bool(bool),
    Int(i64),
    Number(Seq<char>),
    Str(Seq<char>),
    Composite(Seq<char>),
}

impl View for JsonValue {
    type V = JsonValueView;

    open spec fn view(&self) -> JsonValueView {
        match self {
            JsonValue::Null => JsonValueView::Null,
            JsonValue::Bool(b) => JsonValueView::Bool(*b),
            JsonValue::Int(i) => JsonValueView::Int(*i),
            JsonValue::Number(s) => JsonValueView::Number(s@),
            JsonValue::Str(s) => JsonValueView::Str(s@),
            JsonValue::Composite(s) => JsonValueView::Composite(s@),
        }
    }
}

/// A key with its JSON value.
pub type JsonEntry = (String, JsonValue);

/// The view of a list of JSON entries.
pub open spec fn json_entries_view(v: Seq<JsonEntry>) -> Seq<(Seq<char>, JsonValueView)> {
    v.map_values(|e: JsonEntry| (e.0@, e.1@))
}

/// How a JSON value is stored: a string as text, an integer as an
/// integer, any other number as a number (by its JSON text), a boolean as
/// a boolean, and anything else (`null`, an array, an object) as its JSON
/// text.
pub open spec fn json_metadata_value(v: JsonValueView) -> MetaVal {
    match v {
        JsonValueView::Null => MetaVal::Text("null"@),
        JsonValueView::Bool(b) => MetaVal::Bool(b),
        JsonValueView::Int(i) => MetaVal::Int(i),
        JsonValueView::Number(t) => MetaVal::Number(t),
        JsonValueView::Str(s) => MetaVal::Text(s),
        JsonValueView::Composite(t) => MetaVal::Text(t),
    }
}

/// Types a JSON value for storage.
pub fn metadata_value_of_json(v: &JsonValue) -> (res: MetadataValue)
    ensures
        res@ == json_metadata_value(v@),
{
    match v {
        JsonValue::Null => MetadataValue::Text(crate::text::string_from("null")),
        JsonValue::Bool(b) => MetadataValue::Bool(*b),
        JsonValue::Int(i) => MetadataValue::Int(*i),
        JsonValue::Number(t) => MetadataValue::Number(crate::text::string_from(t.as_str())),
        JsonValue::Str(s) => MetadataValue::Text(crate::text::string_from(s.as_str())),
        JsonValue::Composite(t) => MetadataValue::Text(crate::text::string_from(t.as_str())),
    }
}

// ── Stored rows ────────────────────────────────────────────────────

/// A stored metadata row: a key and the typed columns, of which one is set.
pub struct MetadataRow {
    pub key: String,
    pub value_text: Option<String>,
    pub value_int: Option<i64>,
    /// A number that does not fit `i64`, by its JSON text.
    pub value_number: Option<String>,
    pub value_bool: Option<bool>,
}

/// The value a JSON response shows for a row.
#[derive(Debug, PartialEq, Eq)]
pub enum JsonScalar {
    Null,
    Bool(bool),
    Int(i64),
    /// A number, by its JSON text.
    Number(String),
    Text(String),
}

/// The mathematical value of a [`JsonScalar`].
pub enum JsonScalarView {
    Null,
    Bool(bool),
    Int(i64),
    Number(Seq<char>),
    Text(Seq<char>),
}

impl View for JsonScalar {
    type V = JsonScalarView;

    open spec fn view(&self) -> JsonScalarView {
        match self {
            JsonScalar::Null => JsonScalarView::Null,
            JsonScalar::Bool(b) => JsonScalarView::Bool(*b),
            JsonScalar::Int(i) => JsonScalarView::Int(*i),
            JsonScalar::Number(t) => JsonScalarView::Number(t@),
            JsonScalar::Text(s) => JsonScalarView::Text(s@),
        }
    }
}

/// The JSON value of a row: its text if set, else its integer, else its
/// number, else its boolean, else `null`.
pub open spec fn row_json(r: MetadataRow) -> JsonScalarView {
    match r.value_text {
        Some(s) => JsonScalarView::Text(s@),
        None => match r.value_int {
            Some(i) => JsonScalarView::Int(i),
            None => match r.value_number {
                Some(t) => JsonScalarView::Number(t@),
                None => match r.value_bool {
                    Some(b) => JsonScalarView::Bool(b),
                    None => JsonScalarView::Null,
                },
            },
        },
    }
}

/// The text a page shows for a row: its text, else its integer, else its
/// number, else its boolean; a row with no value is not shown.
pub open spec fn row_display(r: MetadataRow) -> Option<Seq<char>> {
    match r.value_text {
        Some(s) => Some(s@),
        None => match r.value_int {
            Some(i) => Some(int_text(i as int)),
            None => match r.value_number {
                Some(t) => Some(t@),
                None => match r.value_bool {
                    Some(b) => Some(bool_text(b)),
                    None => None,
                },
            },
        },
    }
}

/// The JSON value of a row.
pub fn row_json_value(r: &MetadataRow) -> (res: JsonScalar)
    ensures
        res@ == row_json(*r),
{
    match &r.value_text {
        Some(s) => JsonScalar::Text(crate::text::string_from(s.as_str())),
        None => match r.value_int {
            Some(i) => JsonScalar::Int(i),
            None => match &r.value_number {
                Some(t) => JsonScalar::Number(crate::text::string_from(t.as_str())),
                None => match r.value_bool {
                    Some(b) => JsonScalar::Bool(b),
                    None => JsonScalar::Null,
                },
            },
        },
    }
}

/// The view of a list of shown metadata entries.
pub open spec fn json_scalars_view(v: Seq<(String, JsonScalar)>) -> Seq<(Seq<char>, JsonScalarView)> {
    v.map_values(|e: (String, JsonScalar)| (e.0@, e.1@))
}

/// The metadata of a document as a JSON response shows it: each row's key
/// with its value, in row order.
pub fn metadata_json(rows: &Vec<MetadataRow>) -> (res: Vec<(String, JsonScalar)>)
    ensures
        json_scalars_view(res@) == rows@.map_values(|r: MetadataRow| (r.key@, row_json(r))),
{
    let mut res: Vec<(String, JsonScalar)> = Vec::new();
    let n = rows.len();
    let mut i: usize = 0;
    while i < n
        invariant
            n == rows@.len(),
            i <= n,
            json_scalars_view(res@) == rows@.take(i as int).map_values(
                |r: MetadataRow| (r.key@, row_json(r)),
            ),
        decreases n - i,
    {
        let r = &rows[i];
        let e = (crate::text::string_from(r.key.as_str()), row_json_value(r));
        let ghost before = res@;
        res.push(e);
        assert(json_scalars_view(res@) =~= json_scalars_view(before).push((e.0@, e.1@)));
        assert(rows@.take(i + 1) =~= rows@.take(i as int).push(rows@[i as int]));
        assert(rows@.take(i + 1).map_values(|r: MetadataRow| (r.key@, row_json(r))) =~= rows@.take(
            i as int,
        ).map_values(|r: MetadataRow| (r.key@, row_json(r))).push((r.key@, row_json(*r))));
        i += 1;
    }
    assert(rows@.take(n as int) =~= rows@);
    res
}

/// The metadata of a document as a page shows it: the key and shown text
/// of each row that has a value, in row order.
pub fn metadata_pairs(rows: &Vec<MetadataRow>) -> (res: Vec<(String, String)>)
    ensures
        crate::form::pairs_view(res@) == rows@.filter_map(
            |r: MetadataRow|
                match row_display(r) {
                    Some(t) => Some((r.key@, t)),
                    None => None,
                },
        ),
{
    let mut res: Vec<(String, String)> = Vec::new();
    let n = rows.len();
    let mut i: usize = 0;
    while i < n
        invariant
            n == rows@.len(),
            i <= n,
            crate::form::pairs_view(res@) == rows@.take(i as int).filter_map(
                |r: MetadataRow|
                    match row_display(r) {
                        Some(t) => Some((r.key@, t)),
                        None => None,
                    },
            ),
        decreases n - i,
    {
        let r = &rows[i];
        assert(rows@.take(i + 1).drop_last() =~= rows@.take(i as int));
        assert(rows@.take(i + 1).last() == rows@[i as int]);
        let shown: Option<String> = match &r.value_text {
            Some(s) => Some(crate::text::string_from(s.as_str())),
            None => match r.value_int {
                Some(v) => Some(crate::numbers::i64_text(v)),
                None => match &r.value_number {
                    Some(t) => Some(crate::text::string_from(t.as_str())),
                    None => match r.value_bool {
                        Some(b) => Some(crate::numbers::bool_string(b)),
                        None => None,
                    },
                },
            },
        };
        match shown {
            Some(t) => {
                let ghost before = res@;
                let k = crate::text::string_from(r.key.as_str());
                res.push((k, t));
                assert(crate::form::pairs_view(res@) =~= crate::form::pairs_view(before) + seq![
                    (r.key@, t@),
                ]);
            },
            None => {},
        }
        i += 1;
    }
    assert(rows@.take(n as int) =~= rows@);
    res
}

/// What a page shows for a stored typed value is the value's text.
pub proof fn lemma_row_display_of_value(r: MetadataRow, v: MetaVal)
    requires
        row_columns(r) == value_columns(v),
    ensures
        row_display(r) == Some(value_text(v)),
{
}

/// The columns of a row: its text, integer, number and boolean.
pub open spec fn row_columns(r: MetadataRow) -> (
    Option<Seq<char>>,
    Option<i64>,
    Option<Seq<char>>,
    Option<bool>,
) {
    (
        match r.value_text {
            Some(s) => Some(s@),
            None => None,
        },
        r.value_int,
        match r.value_number {
            Some(t) => Some(t@),
            None => None,
        },
        r.value_bool,
    )
}

/// The columns a typed value is stored in: exactly the one of its type.
pub open spec fn value_columns(v: MetaVal) -> (
    Option<Seq<char>>,
    Option<i64>,
    Option<Seq<char>>,
    Option<bool>,
) {
    match v {
        MetaVal::Text(s) => (Some(s), None, None, None),
        MetaVal::Int(i) => (None, Some(i), None, None),
        MetaVal::Number(t) => (None, None, Some(t), None),
        MetaVal::Bool(b) => (None, None, None, Some(b)),
    }
}

/// The row that stores a typed value under a key.
pub fn metadata_row(key: String, value: MetadataValue) -> (r: MetadataRow)
    ensures
        r.key@ == key@,
        row_columns(r) == value_columns(value@),
{
    match value {
        MetadataValue::Text(s) => MetadataRow {
            key,
            value_text: Some(s),
            value_int: None,
            value_number: None,
            value_bool: None,
        },
        MetadataValue::Int(i) => MetadataRow {
            key,
            value_text: None,
            value_int: Some(i),
            value_number: None,
            value_bool: None,
        },
        MetadataValue::Number(t) => MetadataRow {
            key,
            value_text: None,
            value_int: None,
            value_number: Some(t),
            value_bool: None,
        },
        MetadataValue::Bool(b) => MetadataRow {
            key,
            value_text: None,
            value_int: None,
            value_number: None,
            value_bool: Some(b),
        },
    }
}

/// The JSON a response shows for a typed value.
pub open spec fn value_json(v: MetaVal) -> JsonScalarView {
    match v {
        MetaVal::Text(s) => JsonScalarView::Text(s),
        MetaVal::Int(i) => JsonScalarView::Int(i),
        MetaVal::Number(t) => JsonScalarView::Number(t),
        MetaVal::Bool(b) => JsonScalarView::Bool(b),
    }
}

/// Metadata reads back as it was written: a row that stores a typed value
/// is shown as that value, so a JSON string, number or boolean given for a
/// key comes back in the document's JSON as the same string, number (by
/// the same JSON text when it does not fit `i64`) or boolean.
pub proof fn lemma_stored_metadata_reads_back(r: MetadataRow, v: JsonValueView)
    requires
        row_columns(r) == value_columns(json_metadata_value(v)),
    ensures
        row_json(r) == value_json(json_metadata_value(v)),
        v matches JsonValueView::Str(s) ==> row_json(r) == JsonScalarView::Text(s),
        v matches JsonValueView::Int(i) ==> row_json(r) == JsonScalarView::Int(i),
        v matches JsonValueView::Number(t) ==> row_json(r) == JsonScalarView::Number(t),
        v matches JsonValueView::Bool(b) ==> row_json(r) == JsonScalarView::Bool(b),
{
}

} // verus!

verus! {

// ── Changes to a document's metadata rows ──────────────────────────

/// A change to a document's metadata rows: remove them all, remove those
/// with a key, or add a row.
#[derive(Debug, PartialEq, Eq)]
pub enum MetadataOp {
    ClearAll,
    RemoveKey(String),
    Insert(String, MetadataValue),
}

/// The mathematical value of a [`MetadataOp`].
pub enum MetadataOpView {
    ClearAll,
    RemoveKey(Seq<char>),
    Insert(Seq<char>, MetaVal),
}

impl View for MetadataOp {
    type V = MetadataOpView;

    open spec fn view(&self) -> MetadataOpView {
        match self {
            MetadataOp::ClearAll => MetadataOpView::ClearAll,
            MetadataOp::RemoveKey(k) => MetadataOpView::RemoveKey(k@),
            MetadataOp::Insert(k, v) => MetadataOpView::Insert(k@, v@),
        }
    }
}

/// The view of a list of changes.
pub open spec fn ops_view(v: Seq<MetadataOp>) -> Seq<MetadataOpView> {
    v.map_values(|o: MetadataOp| o@)
}

/// A document's metadata rows, as keys with typed values, in order.
pub type Rows = Seq<(Seq<char>, MetaVal)>;

/// The rows after one change.
pub open spec fn apply_op(rows: Rows, op: MetadataOpView) -> Rows {
    match op {
        MetadataOpView::ClearAll => Seq::empty(),
        MetadataOpView::RemoveKey(k) => rows.filter(|r: (Seq<char>, MetaVal)| r.0 != k),
        MetadataOpView::Insert(k, v) => rows.push((k, v)),
    }
}

/// The rows after the changes, made in order.
pub open spec fn apply_ops(rows: Rows, ops: Seq<MetadataOpView>) -> Rows
    decreases ops.len(),
{
    if ops.len() == 0 {
        rows
    } else {
        apply_op(apply_ops(rows, ops.drop_last()), ops.last())
    }
}

/// The rows with key `k`.
pub open spec fn rows_with(rows: Rows, k: Seq<char>) -> Rows {
    rows.filter(|r: (Seq<char>, MetaVal)| r.0 == k)
}

/// The changes that add one row per entry, each value typed for storage.
pub open spec fn insert_ops(entries: Seq<(Seq<char>, JsonValueView)>) -> Seq<MetadataOpView> {
    entries.map_values(
        |e: (Seq<char>, JsonValueView)| MetadataOpView::Insert(e.0, json_metadata_value(e.1)),
    )
}

/// The rows the entries are stored as.
pub open spec fn stored_rows(entries: Seq<(Seq<char>, JsonValueView)>) -> Rows {
    entries.map_values(|e: (Seq<char>, JsonValueView)| (e.0, json_metadata_value(e.1)))
}

/// The changes a metadata merge makes, entry by entry: remove the key's
/// rows, then, unless the value is `null`, add the key with the typed value.
pub open spec fn merge_ops(updates: Seq<(Seq<char>, JsonValueView)>) -> Seq<MetadataOpView>
    decreases updates.len(),
{
    if updates.len() == 0 {
        Seq::empty()
    } else {
        let (k, v) = updates.last();
        let head = merge_ops(updates.drop_last()).push(MetadataOpView::RemoveKey(k));
        if v is Null {
            head
        } else {
            head.push(MetadataOpView::Insert(k, json_metadata_value(v)))
        }
    }
}

/// The changes that store each entry.
pub fn insert_metadata_ops(entries: &Vec<JsonEntry>) -> (res: Vec<MetadataOp>)
    ensures
        ops_view(res@) == insert_ops(json_entries_view(entries@)),
{
    let mut res: Vec<MetadataOp> = Vec::new();
    let n = entries.len();
    let mut i: usize = 0;
    while i < n
        invariant
            n == entries@.len(),
            i <= n,
            ops_view(res@) == insert_ops(json_entries_view(entries@).take(i as int)),
        decreases n - i,
    {
        let (k, v) = &entries[i];
        let op = MetadataOp::Insert(crate::text::string_from(k.as_str()), metadata_value_of_json(v));
        let ghost before = res@;
        res.push(op);
        assert(ops_view(res@) =~= ops_view(before).push(op@));
        assert(json_entries_view(entries@).take(i + 1) =~= json_entries_view(entries@).take(
            i as int,
        ).push((k@, v@)));
        assert(insert_ops(json_entries_view(entries@).take(i + 1)) =~= insert_ops(
            json_entries_view(entries@).take(i as int),
        ).push(op@));
        i += 1;
    }
    assert(json_entries_view(entries@).take(n as int) =~= json_entries_view(entries@));
    res
}

/// The changes of a metadata merge: listed keys are set (typed like on
/// create), a `null` value removes the key, unlisted keys are untouched.
pub fn merge_metadata_ops(updates: &Vec<JsonEntry>) -> (res: Vec<MetadataOp>)
    ensures
        ops_view(res@) == merge_ops(json_entries_view(updates@)),
{
    let mut res: Vec<MetadataOp> = Vec::new();
    let n = updates.len();
    let mut i: usize = 0;
    while i < n
        invariant
            n == updates@.len(),
            i <= n,
            ops_view(res@) == merge_ops(json_entries_view(updates@).take(i as int)),
        decreases n - i,
    {
        let (k, v) = &updates[i];
        let ghost before = res@;
        let ghost t = json_entries_view(updates@).take(i + 1);
        assert(t.drop_last() =~= json_entries_view(updates@).take(i as int));
        assert(t.last() == (k@, v@));
        let remove = MetadataOp::RemoveKey(crate::text::string_from(k.as_str()));
        res.push(remove);
        assert(ops_view(res@) =~= ops_view(before).push(remove@));
        match v {
            JsonValue::Null => {},
            _ => {
                let ghost mid = res@;
                let add = MetadataOp::Insert(
                    crate::text::string_from(k.as_str()),
                    metadata_value_of_json(v),
                );
                res.push(add);
                assert(ops_view(res@) =~= ops_view(mid).push(add@));
            },
        }
        i += 1;
    }
    assert(json_entries_view(updates@).take(n as int) =~= json_entries_view(updates@));
    res
}

// ── Laws of the metadata changes ───────────────────────────────────

proof fn lemma_rows_with_push(rows: Rows, r: (Seq<char>, MetaVal), k: Seq<char>)
    ensures
        rows_with(rows.push(r), k) == (if r.0 == k {
            rows_with(rows, k).push(r)
        } else {
            rows_with(rows, k)
        }),
{
    reveal(Seq::filter);
    assert(rows.push(r).drop_last() =~= rows);
}

proof fn lemma_rows_with_removed(rows: Rows, k2: Seq<char>, k: Seq<char>)
    ensures
        rows_with(rows.filter(|r: (Seq<char>, MetaVal)| r.0 != k2), k) == (if k == k2 {
            Seq::<(Seq<char>, MetaVal)>::empty()
        } else {
            rows_with(rows, k)
        }),
    decreases rows.len(),
{
    reveal(Seq::filter);
    if rows.len() > 0 {
        lemma_rows_with_removed(rows.drop_last(), k2, k);
        let init = rows.drop_last();
        let last = rows.last();
        assert(init.push(last) =~= rows);
        let kept = init.filter(|r: (Seq<char>, MetaVal)| r.0 != k2);
        if last.0 != k2 {
            assert(rows.filter(|r: (Seq<char>, MetaVal)| r.0 != k2) == kept.push(last));
            lemma_rows_with_push(kept, last, k);
        }
        lemma_rows_with_push(init, last, k);
    } else {
        assert(rows_with(rows, k) =~= Seq::<(Seq<char>, MetaVal)>::empty());
    }
}

/// Whether no key appears twice among the entries.
pub open spec fn distinct_keys(updates: Seq<(Seq<char>, JsonValueView)>) -> bool {
    forall|i: int, j: int|
        0 <= i < j < updates.len() ==> (#[trigger] updates[i]).0 != (#[trigger] updates[j]).0
}

/// The rows a key ends with after a merge: when the key is listed, none for
/// `null` and the one typed value otherwise; when it is not listed, the
/// rows it had.
pub open spec fn merged_rows_with(
    rows: Rows,
    updates: Seq<(Seq<char>, JsonValueView)>,
    k: Seq<char>,
) -> Rows {
    if exists|i: int| 0 <= i < updates.len() && (#[trigger] updates[i]).0 == k {
        let i = choose|i: int| 0 <= i < updates.len() && (#[trigger] updates[i]).0 == k;
        if updates[i].1 is Null {
            Seq::empty()
        } else {
            seq![(k, json_metadata_value(updates[i].1))]
        }
    } else {
        rows_with(rows, k)
    }
}

/// Merging metadata sets what it lists and touches nothing else: after
/// the changes of a merge, a listed key has no row when its value is
/// `null` and exactly one row with the typed value otherwise, and every
/// other key has the rows it had (the keys of a JSON object are distinct).
pub proof fn lemma_merge_sets_listed_keys(
    rows: Rows,
    updates: Seq<(Seq<char>, JsonValueView)>,
    k: Seq<char>,
)
    requires
        distinct_keys(updates),
    ensures
        rows_with(apply_ops(rows, merge_ops(updates)), k) == merged_rows_with(rows, updates, k),
    decreases updates.len(),
{
    if updates.len() > 0 {
        let init = updates.drop_last();
        let (k2, v2) = updates.last();
        assert(distinct_keys(init)) by {
            assert forall|i: int, j: int| 0 <= i < j < init.len() implies (
            #[trigger] init[i]).0 != (#[trigger] init[j]).0 by {
                assert(init[i] == updates[i]);
                assert(init[j] == updates[j]);
            }
        }
        lemma_merge_sets_listed_keys(rows, init, k);
        let base = apply_ops(rows, merge_ops(init));
        let head = merge_ops(init).push(MetadataOpView::RemoveKey(k2));
        assert(head.drop_last() =~= merge_ops(init));
        let removed = base.filter(|r: (Seq<char>, MetaVal)| r.0 != k2);
        assert(apply_ops(rows, head) == removed);
        lemma_rows_with_removed(base, k2, k);
        let last_i = updates.len() - 1;
        assert(updates[last_i] == (k2, v2));
        if !(v2 is Null) {
            let ops = head.push(MetadataOpView::Insert(k2, json_metadata_value(v2)));
            assert(ops.drop_last() =~= head);
            lemma_rows_with_push(removed, (k2, json_metadata_value(v2)), k);
        }
        if k == k2 {
            let i = choose|i: int| 0 <= i < updates.len() && (#[trigger] updates[i]).0 == k;
            if i != last_i {
                assert(updates[i].0 != updates[last_i].0);
            }
            if !(v2 is Null) {
                assert(Seq::<(Seq<char>, MetaVal)>::empty().push((k2, json_metadata_value(v2)))
                    =~= seq![(k, json_metadata_value(v2))]);
            }
        } else {
            if exists|i: int| 0 <= i < updates.len() && (#[trigger] updates[i]).0 == k {
                let i = choose|i: int| 0 <= i < updates.len() && (#[trigger] updates[i]).0 == k;
                assert(i != last_i);
                assert(init[i] == updates[i]);
                let j = choose|j: int| 0 <= j < init.len() && (#[trigger] init[j]).0 == k;
                assert(init[j] == updates[j]);
                if i != j {
                    if i < j {
                        assert(updates[i].0 != updates[j].0);
                    } else {
                        assert(updates[j].0 != updates[i].0);
                    }
                }
            } else {
                assert forall|i: int| 0 <= i < init.len() implies (#[trigger] init[i]).0 != k by {
                    assert(init[i] == updates[i]);
                }
            }
        }
    } else {
        assert(rows_with(rows, k) == merged_rows_with(rows, updates, k));
    }
}

/// Adding the rows of entries appends them, typed, after the rows there
/// were.
pub proof fn lemma_insert_ops_append(rows: Rows, entries: Seq<(Seq<char>, JsonValueView)>)
    ensures
        apply_ops(rows, insert_ops(entries)) == rows + stored_rows(entries),
    decreases entries.len(),
{
    if entries.len() == 0 {
        assert(insert_ops(entries) =~= Seq::<MetadataOpView>::empty());
        assert(rows + stored_rows(entries) =~= rows);
    } else {
        let init = entries.drop_last();
        lemma_insert_ops_append(rows, init);
        assert(insert_ops(entries).drop_last() =~= insert_ops(init));
        assert(rows + stored_rows(entries) =~= (rows + stored_rows(init)).push(
            (entries.last().0, json_metadata_value(entries.last().1)),
        ));
    }
}

} // verus!
