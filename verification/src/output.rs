//! Command results as records, and how they are written for people (tables, labelled fields,
//! confirmations) and for scripts (record fields; quiet ids).
use vstd::prelude::*;

use crate::client::Ingredient;
use crate::error::{error_of, AppError, ErrorCode, ErrorView};
use crate::json::FloatValue;
use crate::text::{
    append_str, i64_text, int_text, join, nat_text, push_char, squash, squash_str, str_eq, u32_text,
};

verus! {

/// What a run of the program prints on stdout and the status it exits with.
#[derive(Debug, Clone, PartialEq, Eq)]
pub struct RunResult {
    pub output: String,
    pub exit_code: u8,
}

/// How results are written.
#[derive(Debug, Clone, Copy, PartialEq, Eq, Structural)]
pub enum OutputMode {
    Human,
    Json,
    Ndjson,
    Quiet,
}

impl OutputMode {
    /// The mode that the global flags select; `--json` wins over `--ndjson`, which wins over
    /// `--quiet`.
    pub fn from_flags(json: bool, ndjson: bool, quiet: bool) -> (r: Result<OutputMode, AppError>)
        ensures
            r matches Ok(m) && m == (if json {
                OutputMode::Json
            } else if ndjson {
                OutputMode::Ndjson
            } else if quiet {
                OutputMode::Quiet
            } else {
                OutputMode::Human
            }),
    {
        if json {
            return Ok(OutputMode::Json);
        }
        if ndjson {
            return Ok(OutputMode::Ndjson);
        }
        if quiet {
            return Ok(OutputMode::Quiet);
        }
        Ok(OutputMode::Human)
    }
}

/// Which command produced a result, with what its human rendering needs.
#[derive(Debug, Clone, PartialEq, Eq)]
pub enum Presentation {
    Status,
    RecipeSearch { query: String },
    RecipeDetails,
    PlanList { from: String, to: String },
    PlanSet,
    PlanDelete,
}

/// A plain field value of a record.
#[derive(Debug, Clone, PartialEq)]
pub enum Scalar {
    Null,
    Bool(bool),
    Int(i64),
    Text(String),
}

/// One result record: named fields (the JSON object's members) and, for a recipe with its
/// details, its ingredient list (the `ingredients` member).
#[derive(Debug, Clone, PartialEq)]
pub struct Record {
    pub fields: Vec<(String, Scalar)>,
    pub ingredients: Option<Vec<Ingredient>>,
}

/// A command's result: how to present it, and its records.
#[derive(Debug)]
pub struct CommandOutput {
    pub presentation: Presentation,
    pub values: Vec<Record>,
}

/// The index of the last field named `key`.
pub open spec fn last_field_index(fields: Seq<(String, Scalar)>, key: Seq<char>) -> Option<int>
    decreases fields.len(),
{
    if fields.len() == 0 {
        None
    } else if fields.last().0@ == key {
        Some(fields.len() - 1)
    } else {
        last_field_index(fields.drop_last(), key)
    }
}

/// The field `key` of a record (the last one of that name, as a JSON object keeps it).
pub open spec fn field(r: Record, key: Seq<char>) -> Option<Scalar> {
    match last_field_index(r.fields@, key) {
        Some(i) => Some(r.fields@[i].1),
        None => None,
    }
}

/// The text of a plain value: strings as they are, integers in decimal, booleans as
/// `true`/`false`, and nothing for null.
pub open spec fn scalar_text(v: Scalar) -> Option<Seq<char>> {
    match v {
        Scalar::Null => None,
        Scalar::Bool(b) => Some(
            if b {
                "true"@
            } else {
                "false"@
            },
        ),
        Scalar::Int(i) => Some(int_text(i as int)),
        Scalar::Text(t) => Some(t@),
    }
}

/// The text of a field, where it has one.
pub open spec fn field_text(r: Record, key: Seq<char>) -> Option<Seq<char>> {
    match field(r, key) {
        Some(v) => scalar_text(v),
        None => None,
    }
}

/// The text of a field, or `-`.
pub open spec fn text_or_dash(r: Record, key: Seq<char>) -> Seq<char> {
    match field_text(r, key) {
        Some(t) => t,
        None => "-"@,
    }
}

/// The text of a field, where it has a non-empty one.
pub open spec fn non_empty_field_text(r: Record, key: Seq<char>) -> Option<Seq<char>> {
    match field_text(r, key) {
        Some(t) => if t.len() > 0 {
            Some(t)
        } else {
            None
        },
        None => None,
    }
}

/// A field that is a string.
pub open spec fn field_str(r: Record, key: Seq<char>) -> Option<Seq<char>> {
    match field(r, key) {
        Some(Scalar::Text(t)) => Some(t@),
        _ => None,
    }
}

/// A field that is a boolean.
pub open spec fn field_bool(r: Record, key: Seq<char>) -> Option<bool> {
    match field(r, key) {
        Some(Scalar::Bool(b)) => Some(b),
        _ => None,
    }
}

/// The record's `type`.
pub open spec fn record_type(r: Record) -> Option<Seq<char>> {
    field_str(r, "type"@)
}

fn find_last_field(fields: &Vec<(String, Scalar)>, key: &str) -> (r: Option<usize>)
    ensures
        match r {
            Some(i) => i < fields@.len() && last_field_index(fields@, key@) == Some(i as int),
            None => last_field_index(fields@, key@) is None,
        },
{
    let mut i = fields.len();
    assert(fields@.take(i as int) =~= fields@);
    while i > 0
        invariant
            i <= fields@.len(),
            last_field_index(fields@, key@) == last_field_index(fields@.take(i as int), key@),
        decreases i,
    {
        let ghost t = fields@.take(i as int);
        assert(t.drop_last() =~= fields@.take(i - 1));
        assert(t.last() == fields@[i - 1]);
        if str_eq(fields[i - 1].0.as_str(), key) {
            return Some(i - 1);
        }
        i = i - 1;
    }
    None
}

/// The field `key`.
pub fn get_field<'a>(r: &'a Record, key: &str) -> (out: Option<&'a Scalar>)
    ensures
        match out {
            Some(v) => field(*r, key@) == Some(*v),
            None => field(*r, key@) is None,
        },
{
    match find_last_field(&r.fields, key) {
        Some(i) => Some(&r.fields[i].1),
        None => None,
    }
}

fn scalar_to_text(v: &Scalar) -> (r: Option<String>)
    ensures
        match r {
            Some(t) => scalar_text(*v) == Some(t@),
            None => scalar_text(*v) is None,
        },
{
    match v {
        Scalar::Null => None,
        Scalar::Bool(b) => Some(
            if *b {
                "true".to_owned()
            } else {
                "false".to_owned()
            },
        ),
        Scalar::Int(i) => Some(i64_text(*i)),
        Scalar::Text(t) => Some(t.clone()),
    }
}

/// The text of a field, where it has one.
pub fn field_text_of(r: &Record, key: &str) -> (out: Option<String>)
    ensures
        match out {
            Some(t) => field_text(*r, key@) == Some(t@),
            None => field_text(*r, key@) is None,
        },
{
    match get_field(r, key) {
        Some(v) => scalar_to_text(v),
        None => None,
    }
}

/// The text of a field, or `-`.
pub fn text(r: &Record, key: &str) -> (out: String)
    ensures
        out@ == text_or_dash(*r, key@),
{
    match field_text_of(r, key) {
        Some(t) => t,
        None => "-".to_owned(),
    }
}

/// The text of a field, where it is not empty.
pub fn non_empty_text(r: &Record, key: &str) -> (out: Option<String>)
    ensures
        match out {
            Some(t) => non_empty_field_text(*r, key@) == Some(t@),
            None => non_empty_field_text(*r, key@) is None,
        },
{
    match field_text_of(r, key) {
        Some(t) => if t.as_str().unicode_len() > 0 {
            Some(t)
        } else {
            None
        },
        None => None,
    }
}

/// Whether the record's `type` is `kind`.
pub fn has_type(r: &Record, kind: &str) -> (out: bool)
    ensures
        out == (record_type(*r) == Some(kind@)),
{
    match get_field(r, "type") {
        Some(Scalar::Text(t)) => str_eq(t.as_str(), kind),
        _ => false,
    }
}

/// A command's record: `ok` true, its `type`, then `fields`.
pub fn record(record_type: &str, fields: Vec<(String, Scalar)>) -> (r: Record)
    ensures
        r.fields@.len() == fields@.len() + 2,
        r.fields@[0].0@ == "ok"@,
        r.fields@[0].1 == Scalar::Bool(true),
        r.fields@[1].0@ == "type"@,
        r.fields@[1].1 matches Scalar::Text(t) && t@ == record_type@,
        r.fields@.skip(2) == fields@,
        r.ingredients is None,
{
    let mut all: Vec<(String, Scalar)> = Vec::new();
    all.push(("ok".to_owned(), Scalar::Bool(true)));
    all.push(("type".to_owned(), Scalar::Text(record_type.to_owned())));
    let mut rest = fields;
    let ghost original = rest@;
    all.append(&mut rest);
    assert(all@.skip(2) =~= original);
    Record { fields: all, ingredients: None }
}

/// The ids that quiet mode prints: those of `plan_created` and `plan_deleted` records, where
/// the record has one.
pub open spec fn quiet_ids(values: Seq<Record>) -> Seq<Seq<char>>
    decreases values.len(),
{
    if values.len() == 0 {
        seq![]
    } else {
        let rest = quiet_ids(values.drop_last());
        let r = values.last();
        if record_type(r) == Some("plan_created"@) || record_type(r) == Some("plan_deleted"@) {
            match field_text(r, "id"@) {
                Some(t) => rest.push(t),
                None => rest,
            }
        } else {
            rest
        }
    }
}

/// Quiet output: each id on a line of its own, or nothing.
pub open spec fn quiet_text(values: Seq<Record>) -> Seq<char> {
    let ids = quiet_ids(values);
    if ids.len() == 0 {
        seq![]
    } else {
        join(ids, "\n"@) + "\n"@
    }
}

proof fn lemma_quiet_ids_len(values: Seq<Record>)
    ensures
        quiet_ids(values).len() <= values.len(),
    decreases values.len(),
{
    if values.len() > 0 {
        lemma_quiet_ids_len(values.drop_last());
    }
}

proof fn quiet_ids_without_changes(values: Seq<Record>)
    requires
        forall|i: int|
            0 <= i < values.len() ==> record_type(#[trigger] values[i]) != Some("plan_created"@)
                && record_type(values[i]) != Some("plan_deleted"@),
    ensures
        quiet_ids(values).len() == 0,
    decreases values.len(),
{
    if values.len() > 0 {
        assert(values.last() == values[values.len() - 1]);
        let rest = values.drop_last();
        assert forall|i: int| 0 <= i < rest.len() implies record_type(#[trigger] rest[i]) != Some(
            "plan_created"@,
        ) && record_type(rest[i]) != Some("plan_deleted"@) by {
            assert(rest[i] == values[i]);
        }
        quiet_ids_without_changes(rest);
    }
}

/// Quiet mode prints only the ids of changes: values without a created or deleted entry print
/// nothing.
pub proof fn quiet_shows_only_changes(values: Seq<Record>)
    requires
        forall|i: int|
            0 <= i < values.len() ==> record_type(#[trigger] values[i]) != Some("plan_created"@)
                && record_type(values[i]) != Some("plan_deleted"@),
    ensures
        quiet_text(values) == Seq::<char>::empty(),
{
    quiet_ids_without_changes(values);
}

/// Quiet output: the ids of the entries that were created or deleted, one per line.
pub fn write_quiet(values: &Vec<Record>) -> (r: String)
    ensures
        r@ == quiet_text(values@),
{
    let mut out = String::new();
    let mut count: usize = 0;
    let mut i: usize = 0;
    assert(values@.take(0) =~= Seq::<Record>::empty());
    while i < values.len()
        invariant
            i <= values@.len(),
            count == quiet_ids(values@.take(i as int)).len(),
            count <= i,
            out@ == join(quiet_ids(values@.take(i as int)), "\n"@),
        decreases values@.len() - i,
    {
        let ghost t = values@.take(i + 1);
        assert(t.drop_last() =~= values@.take(i as int));
        assert(t.last() == values@[i as int]);
        let r = &values[i];
        proof {
            lemma_quiet_ids_len(values@.take(i as int));
        }
        if has_type(r, "plan_created") || has_type(r, "plan_deleted") {
            match field_text_of(r, "id") {
                Some(id) => {
                    let ghost ids = quiet_ids(values@.take(i as int));
                    if count > 0 {
                        append_str(&mut out, "\n");
                    }
                    append_str(&mut out, id.as_str());
                    proof {
                        if ids.len() == 0 {
                            assert(out@ =~= ids.push(id@)[0]);
                        } else {
                            assert(ids.push(id@).drop_last() =~= ids);
                            assert(out@ =~= join(ids, "\n"@) + "\n"@ + id@);
                        }
                    }
                    count = count + 1;
                },
                None => {},
            }
        }
        i = i + 1;
    }
    assert(values@.take(values@.len() as int) =~= values@);
    if count > 0 {
        append_str(&mut out, "\n");
    }
    out
}

/// `k` spaces.
pub open spec fn spaces(k: int) -> Seq<char> {
    Seq::new(if k < 0 {
        0
    } else {
        k as nat
    }, |i: int| ' ')
}

/// The width of column `c`: the longest of its header and its cells, in characters (a row
/// without a cell in that column does not count).
pub open spec fn column_width(header: Seq<char>, rows: Seq<Seq<Seq<char>>>, c: int) -> int
    decreases rows.len(),
{
    if rows.len() == 0 {
        header.len() as int
    } else {
        let w = column_width(header, rows.drop_last(), c);
        let x = if 0 <= c < rows.last().len() {
            rows.last()[c].len() as int
        } else {
            0
        };
        if x > w {
            x
        } else {
            w
        }
    }
}

/// The first `n` cells of a table row: cells separated by two spaces, each but the row's last
/// padded with spaces to its column's width.
pub open spec fn row_prefix(row: Seq<Seq<char>>, widths: Seq<int>, n: int) -> Seq<char>
    decreases n,
{
    if n <= 0 {
        seq![]
    } else {
        let sep = if n - 1 > 0 {
            "  "@
        } else {
            seq![]
        };
        let pad = if n < row.len() {
            spaces(widths[n - 1] - row[n - 1].len())
        } else {
            seq![]
        };
        row_prefix(row, widths, n - 1) + sep + row[n - 1] + pad
    }
}

/// One table line.
pub open spec fn row_text(row: Seq<Seq<char>>, widths: Seq<int>) -> Seq<char> {
    row_prefix(row, widths, row.len() as int) + "\n"@
}

/// The lines of several rows.
pub open spec fn rows_text(rows: Seq<Seq<Seq<char>>>, widths: Seq<int>) -> Seq<char>
    decreases rows.len(),
{
    if rows.len() == 0 {
        seq![]
    } else {
        rows_text(rows.drop_last(), widths) + row_text(rows.last(), widths)
    }
}

/// An aligned table: the header line, then one line per row; each column as wide as its
/// longest entry.
pub open spec fn table_text(headers: Seq<Seq<char>>, rows: Seq<Seq<Seq<char>>>) -> Seq<char> {
    let widths = Seq::new(headers.len(), |c: int| column_width(headers[c], rows, c));
    row_text(headers, widths) + rows_text(rows, widths)
}

/// The views of a table's rows.
pub open spec fn rows_view(rows: Seq<Vec<String>>) -> Seq<Seq<Seq<char>>> {
    rows.map_values(|r: Vec<String>| r@.map_values(|s: String| s@))
}

/// The views of a table's headers.
pub open spec fn headers_view(headers: Seq<&str>) -> Seq<Seq<char>> {
    headers.map_values(|h: &str| h@)
}

fn push_spaces(out: &mut String, k: usize)
    ensures
        final(out)@ == old(out)@ + spaces(k as int),
{
    let mut i: usize = 0;
    let ghost start = out@;
    while i < k
        invariant
            i <= k,
            out@ == start + spaces(i as int),
        decreases k - i,
    {
        push_char(out, ' ');
        assert(spaces(i + 1) =~= spaces(i as int).push(' '));
        i = i + 1;
    }
}

fn append_row(output: &mut String, row: &Vec<String>, widths: &Vec<usize>)
    requires
        row@.len() <= widths@.len(),
        forall|c: int| 0 <= c < row@.len() - 1 ==> row@[c]@.len() <= widths@[c],
    ensures
        final(output)@ == old(output)@ + row_text(
            row@.map_values(|s: String| s@),
            widths@.map_values(|w: usize| w as int),
        ),
{
    let ghost rv = row@.map_values(|s: String| s@);
    let ghost wv = widths@.map_values(|w: usize| w as int);
    let ghost start = output@;
    let mut index: usize = 0;
    while index < row.len()
        invariant
            index <= row@.len() <= widths@.len(),
            rv == row@.map_values(|s: String| s@),
            wv == widths@.map_values(|w: usize| w as int),
            forall|c: int| 0 <= c < row@.len() - 1 ==> row@[c]@.len() <= widths@[c],
            output@ == start + row_prefix(rv, wv, index as int),
        decreases row@.len() - index,
    {
        let ghost before = output@;
        if index > 0 {
            append_str(output, "  ");
        }
        let cell = row[index].as_str();
        append_str(output, cell);
        let ghost mid = output@;
        if index + 1 < row.len() {
            let n = cell.unicode_len();
            push_spaces(output, widths[index] - n);
        }
        proof {
            assert(rv[index as int] == cell@);
            assert(wv[index as int] == widths@[index as int] as int);
            let sep: Seq<char> = if index > 0 {
                "  "@
            } else {
                seq![]
            };
            let pad = if index + 1 < row@.len() {
                spaces(wv[index as int] - rv[index as int].len())
            } else {
                seq![]
            };
            assert(output@ =~= before + sep + rv[index as int] + pad);
            assert(row_prefix(rv, wv, index + 1) == row_prefix(rv, wv, index as int) + sep
                + rv[index as int] + pad);
        }
        index = index + 1;
    }
    append_str(output, "\n");
    assert(rv.len() == row@.len());
    assert(output@ =~= start + row_text(rv, wv));
}

proof fn lemma_column_width_bounds(header: Seq<char>, rows: Seq<Seq<Seq<char>>>, c: int)
    ensures
        column_width(header, rows, c) >= header.len(),
        forall|i: int| 0 <= i < rows.len() && 0 <= c < rows[i].len() ==> column_width(header, rows, c) >= (
        #[trigger] rows[i])[c].len(),
    decreases rows.len(),
{
    if rows.len() > 0 {
        lemma_column_width_bounds(header, rows.drop_last(), c);
        assert forall|i: int| 0 <= i < rows.len() && 0 <= c < rows[i].len() implies column_width(header, rows, c) >= (
        #[trigger] rows[i])[c].len() by {
            if i < rows.len() - 1 {
                assert(rows.drop_last()[i] == rows[i]);
            }
        }
    }
}

/// An aligned table (see `table_text`).
pub fn table(headers: &[&str], rows: Vec<Vec<String>>) -> (r: String)
    requires
        forall|i: int| 0 <= i < rows@.len() ==> (#[trigger] rows@[i])@.len() <= headers@.len(),
    ensures
        r@ == table_text(headers_view(headers@), rows_view(rows@)),
{
    let ghost hv = headers_view(headers@);
    let ghost rv = rows_view(rows@);
    let n = headers.len();
    let mut widths: Vec<usize> = Vec::new();
    let mut c: usize = 0;
    while c < n
        invariant
            c <= n == headers@.len(),
            hv == headers_view(headers@),
            rv == rows_view(rows@),
            forall|i: int| 0 <= i < rows@.len() ==> (#[trigger] rows@[i])@.len() <= headers@.len(),
            widths@.len() == c,
            forall|k: int| 0 <= k < c ==> widths@[k] as int == column_width(hv[k], rv, k),
        decreases n - c,
    {
        let mut w = headers[c].unicode_len();
        let mut j: usize = 0;
        assert(rv.take(0) =~= Seq::<Seq<Seq<char>>>::empty());
        while j < rows.len()
            invariant
                j <= rows@.len(),
                c < n == headers@.len(),
                hv == headers_view(headers@),
                rv == rows_view(rows@),
                forall|i: int| 0 <= i < rows@.len() ==> (#[trigger] rows@[i])@.len()
                    <= headers@.len(),
                w as int == column_width(hv[c as int], rv.take(j as int), c as int),
            decreases rows@.len() - j,
        {
            let x = if c < rows[j].len() {
                rows[j][c].as_str().unicode_len()
            } else {
                0
            };
            let ghost t = rv.take(j + 1);
            assert(t.drop_last() =~= rv.take(j as int));
            assert(t.last().len() == rows@[j as int]@.len());
            assert(c < rows@[j as int]@.len() ==> t.last()[c as int] == rows@[j as int]@[c as int]@);
            if x > w {
                w = x;
            }
            j = j + 1;
        }
        assert(rv.take(rows@.len() as int) =~= rv);
        widths.push(w);
        c = c + 1;
    }
    let ghost wv = widths@.map_values(|w: usize| w as int);
    assert(wv =~= Seq::new(hv.len(), |k: int| column_width(hv[k], rv, k)));
    let mut header_row: Vec<String> = Vec::new();
    let mut h: usize = 0;
    while h < n
        invariant
            h <= n == headers@.len(),
            header_row@.len() == h,
            forall|k: int| 0 <= k < h ==> (#[trigger] header_row@[k])@ == headers@[k]@,
        decreases n - h,
    {
        header_row.push(headers[h].to_owned());
        h = h + 1;
    }
    assert(header_row@.map_values(|s: String| s@) =~= hv);
    let mut out = String::new();
    proof {
        assert forall|k: int| 0 <= k < header_row@.len() implies header_row@[k]@.len()
            <= widths@[k] by {
            lemma_column_width_bounds(hv[k], rv, k);
        }
    }
    append_row(&mut out, &header_row, &widths);
    let ghost head = out@;
    let mut i: usize = 0;
    assert(rv.take(0) =~= Seq::<Seq<Seq<char>>>::empty());
    while i < rows.len()
        invariant
            i <= rows@.len(),
            n == headers@.len(),
            widths@.len() == n,
            hv == headers_view(headers@),
            rv == rows_view(rows@),
            wv == widths@.map_values(|w: usize| w as int),
            forall|q: int| 0 <= q < rows@.len() ==> (#[trigger] rows@[q])@.len() <= headers@.len(),
            forall|k: int| 0 <= k < n ==> widths@[k] as int == column_width(hv[k], rv, k),
            out@ == head + rows_text(rv.take(i as int), wv),
        decreases rows@.len() - i,
    {
        proof {
            assert forall|k: int| 0 <= k < rows@[i as int]@.len() implies rows@[i as int]@[k]@.len()
                <= widths@[k] by {
                lemma_column_width_bounds(hv[k], rv, k);
                assert(rv[i as int][k] == rows@[i as int]@[k]@);
            }
        }
        append_row(&mut out, &rows[i], &widths);
        let ghost t = rv.take(i + 1);
        assert(t.drop_last() =~= rv.take(i as int));
        assert(t.last() == rows@[i as int]@.map_values(|s: String| s@));
        i = i + 1;
    }
    assert(rv.take(rows@.len() as int) =~= rv);
    out
}

/// A text field of an ingredient, where it is not empty.
pub open spec fn non_empty_opt(o: Option<String>) -> Option<Seq<char>> {
    match o {
        Some(t) => if t@.len() > 0 {
            Some(t@)
        } else {
            None
        },
        None => None,
    }
}

/// The quantity of an ingredient as text, where it has a finite one.
pub open spec fn quantity_text(q: Option<FloatValue>) -> Option<Seq<char>> {
    match q {
        Some(f) => non_empty_opt(f.rendering),
        None => None,
    }
}

/// The non-empty texts among `parts`, in order.
pub open spec fn present_parts(parts: Seq<Option<Seq<char>>>) -> Seq<Seq<char>>
    decreases parts.len(),
{
    if parts.len() == 0 {
        seq![]
    } else {
        let rest = present_parts(parts.drop_last());
        match parts.last() {
            Some(t) => rest.push(t),
            None => rest,
        }
    }
}

/// The line that shows an ingredient: its original text, else its display text (each with its
/// whitespace collapsed), else its quantity, unit abbreviation, unit, food and note joined by
/// spaces; nothing where it has none of these.
pub open spec fn ingredient_line_of(i: Ingredient) -> Option<Seq<char>> {
    match non_empty_opt(i.original_text) {
        Some(t) => Some(squash(t)),
        None => match non_empty_opt(i.display) {
            Some(t) => Some(squash(t)),
            None => {
                let parts = present_parts(
                    seq![
                        quantity_text(i.quantity),
                        non_empty_opt(i.unit_abbreviation),
                        non_empty_opt(i.unit),
                        non_empty_opt(i.food),
                        non_empty_opt(i.note),
                    ],
                );
                if parts.len() == 0 {
                    None
                } else {
                    Some(join(parts, " "@))
                }
            },
        },
    }
}

/// What one ingredient contributes: its section title line, then its own line.
pub open spec fn ingredient_block(i: Ingredient) -> Seq<char> {
    let title = match non_empty_opt(i.title) {
        Some(t) => t + ":\n"@,
        None => seq![],
    };
    let line = match ingredient_line_of(i) {
        Some(l) => "- "@ + l + "\n"@,
        None => seq![],
    };
    title + line
}

/// The blocks of several ingredients.
pub open spec fn ingredient_blocks(items: Seq<Ingredient>) -> Seq<char>
    decreases items.len(),
{
    if items.len() == 0 {
        seq![]
    } else {
        ingredient_blocks(items.drop_last()) + ingredient_block(items.last())
    }
}

/// The ingredient section of a recipe's details.
pub open spec fn ingredients_text(items: Option<Seq<Ingredient>>) -> Seq<char> {
    match items {
        Some(list) if list.len() > 0 => "Ingredients ("@ + nat_text(list.len()) + "):\n"@
            + ingredient_blocks(list),
        _ => "Ingredients: None listed\n"@,
    }
}

fn opt_non_empty(o: &Option<String>) -> (r: Option<String>)
    ensures
        match r {
            Some(t) => non_empty_opt(*o) == Some(t@),
            None => non_empty_opt(*o) is None,
        },
{
    match o {
        Some(t) => if t.as_str().unicode_len() > 0 {
            Some(t.clone())
        } else {
            None
        },
        None => None,
    }
}

/// The line that shows an ingredient (see `ingredient_line_of`).
pub fn ingredient_line(i: &Ingredient) -> (r: Option<String>)
    ensures
        match r {
            Some(t) => ingredient_line_of(*i) == Some(t@),
            None => ingredient_line_of(*i) is None,
        },
{
    match opt_non_empty(&i.original_text) {
        Some(t) => {
            return Some(squash_str(t.as_str()));
        },
        None => {},
    }
    match opt_non_empty(&i.display) {
        Some(t) => {
            return Some(squash_str(t.as_str()));
        },
        None => {},
    }
    let q = match &i.quantity {
        Some(f) => opt_non_empty(&f.rendering),
        None => None,
    };
    let candidates: Vec<Option<String>> = vec![
        q,
        opt_non_empty(&i.unit_abbreviation),
        opt_non_empty(&i.unit),
        opt_non_empty(&i.food),
        opt_non_empty(&i.note),
    ];
    let ghost spec_parts = seq![
        quantity_text(i.quantity),
        non_empty_opt(i.unit_abbreviation),
        non_empty_opt(i.unit),
        non_empty_opt(i.food),
        non_empty_opt(i.note),
    ];
    assert(candidates@.len() == 5);
    assert forall|k: int| 0 <= k < 5 implies (match #[trigger] candidates@[k] {
        Some(t) => spec_parts[k] == Some(t@),
        None => spec_parts[k] is None,
    }) by {}
    let mut out = String::new();
    let mut count: usize = 0;
    let mut k: usize = 0;
    assert(spec_parts.take(0) =~= Seq::<Option<Seq<char>>>::empty());
    while k < 5
        invariant
            k <= 5,
            candidates@.len() == 5,
            spec_parts.len() == 5,
            forall|j: int| 0 <= j < 5 ==> (match #[trigger] candidates@[j] {
                Some(t) => spec_parts[j] == Some(t@),
                None => spec_parts[j] is None,
            }),
            count == present_parts(spec_parts.take(k as int)).len(),
            count <= k,
            out@ == join(present_parts(spec_parts.take(k as int)), " "@),
        decreases 5 - k,
    {
        let ghost t = spec_parts.take(k + 1);
        assert(t.drop_last() =~= spec_parts.take(k as int));
        assert(t.last() == spec_parts[k as int]);
        match &candidates[k] {
            Some(p) => {
                let ghost before = present_parts(spec_parts.take(k as int));
                if count > 0 {
                    append_str(&mut out, " ");
                }
                append_str(&mut out, p.as_str());
                proof {
                    if before.len() == 0 {
                        assert(out@ =~= before.push(p@)[0]);
                    } else {
                        assert(before.push(p@).drop_last() =~= before);
                    }
                }
                count = count + 1;
            },
            None => {},
        }
        k = k + 1;
    }
    assert(spec_parts.take(5) =~= spec_parts);
    if count == 0 {
        None
    } else {
        Some(out)
    }
}

/// The ingredient section of a recipe's details (see `ingredients_text`).
pub fn write_ingredients(recipe: &Record) -> (r: String)
    ensures
        r@ == ingredients_text(
            match recipe.ingredients {
                Some(v) => Some(v@),
                None => None,
            },
        ),
{
    let items = match &recipe.ingredients {
        Some(v) => v,
        None => {
            return "Ingredients: None listed\n".to_owned();
        },
    };
    if items.len() == 0 {
        return "Ingredients: None listed\n".to_owned();
    }
    let mut out = String::new();
    append_str(&mut out, "Ingredients (");
    let count = if items.len() <= 0xffff_ffff {
        u32_text(items.len() as u32)
    } else {
        crate::text::u64_text(items.len() as u64)
    };
    append_str(&mut out, count.as_str());
    append_str(&mut out, "):\n");
    let ghost head = out@;
    let mut i: usize = 0;
    assert(items@.take(0) =~= Seq::<Ingredient>::empty());
    while i < items.len()
        invariant
            i <= items@.len(),
            out@ == head + ingredient_blocks(items@.take(i as int)),
        decreases items@.len() - i,
    {
        let ghost before = out@;
        let item = &items[i];
        match opt_non_empty(&item.title) {
            Some(t) => {
                append_str(&mut out, t.as_str());
                append_str(&mut out, ":\n");
            },
            None => {},
        }
        match ingredient_line(item) {
            Some(l) => {
                append_str(&mut out, "- ");
                append_str(&mut out, l.as_str());
                append_str(&mut out, "\n");
            },
            None => {},
        }
        proof {
            let t = items@.take(i + 1);
            assert(t.drop_last() =~= items@.take(i as int));
            assert(t.last() == items@[i as int]);
            assert(out@ =~= before + ingredient_block(items@[i as int]));
        }
        i = i + 1;
    }
    assert(items@.take(items@.len() as int) =~= items@);
    out
}

/// The state of an optional check: `yes` where it passed, `no` where it failed, and
/// `not checked` where the record holds no outcome.
pub open spec fn check_text(r: Record, key: Seq<char>, yes: Seq<char>, no: Seq<char>) -> Seq<char> {
    match field(r, key) {
        Some(Scalar::Bool(true)) => yes,
        Some(Scalar::Bool(false)) => no,
        _ => "not checked"@,
    }
}

/// The human status report read from a status record.
pub open spec fn status_text(r: Record) -> Seq<char> {
    let url = match field_str(r, "url"@) {
        Some(u) => if field_bool(r, "url_valid"@) == Some(true) {
            "configured and valid ("@ + u + ")"@
        } else {
            "configured but invalid"@
        },
        None => "not configured"@,
    };
    let token = if field_bool(r, "token_configured"@) == Some(true) {
        "configured"@
    } else {
        "not configured"@
    };
    let summary = if field_bool(r, "ok"@) == Some(true) {
        "ready"@
    } else {
        "action required"@
    };
    let next = match field_str(r, "hint"@) {
        Some(h) => "Next step: "@ + h + "\n"@,
        None => seq![],
    };
    "Mealie status: "@ + summary + "\nURL:            "@ + url + "\nToken:          "@ + token
        + "\nServer:         "@ + check_text(r, "server_reachable"@, "reachable"@, "unreachable"@)
        + "\nAuthentication: "@ + check_text(r, "authenticated"@, "successful"@, "failed"@) + "\n"@
        + next
}

fn optional_check(r: &Record, key: &str, yes: &str, no: &str) -> (out: String)
    ensures
        out@ == check_text(*r, key@, yes@, no@),
{
    match get_field(r, key) {
        Some(Scalar::Bool(true)) => yes.to_owned(),
        Some(Scalar::Bool(false)) => no.to_owned(),
        _ => "not checked".to_owned(),
    }
}

fn bool_field(r: &Record, key: &str) -> (out: Option<bool>)
    ensures
        out == field_bool(*r, key@),
{
    match get_field(r, key) {
        Some(Scalar::Bool(b)) => Some(*b),
        _ => None,
    }
}

fn str_field<'a>(r: &'a Record, key: &str) -> (out: Option<&'a str>)
    ensures
        match out {
            Some(t) => field_str(*r, key@) == Some(t@),
            None => field_str(*r, key@) is None,
        },
{
    match get_field(r, key) {
        Some(Scalar::Text(t)) => Some(t.as_str()),
        _ => None,
    }
}

/// The human status report (see `status_text`).
pub fn write_status(r: &Record) -> (out: String)
    ensures
        out@ == status_text(*r),
{
    let url = match str_field(r, "url") {
        Some(u) => if bool_field(r, "url_valid") == Some(true) {
            let mut t = String::new();
            append_str(&mut t, "configured and valid (");
            append_str(&mut t, u);
            append_str(&mut t, ")");
            t
        } else {
            "configured but invalid".to_owned()
        },
        None => "not configured".to_owned(),
    };
    let token = if bool_field(r, "token_configured") == Some(true) {
        "configured"
    } else {
        "not configured"
    };
    let summary = if bool_field(r, "ok") == Some(true) {
        "ready"
    } else {
        "action required"
    };
    let server = optional_check(r, "server_reachable", "reachable", "unreachable");
    let auth = optional_check(r, "authenticated", "successful", "failed");
    let mut out = String::new();
    append_str(&mut out, "Mealie status: ");
    append_str(&mut out, summary);
    append_str(&mut out, "\nURL:            ");
    append_str(&mut out, url.as_str());
    append_str(&mut out, "\nToken:          ");
    append_str(&mut out, token);
    append_str(&mut out, "\nServer:         ");
    append_str(&mut out, server.as_str());
    append_str(&mut out, "\nAuthentication: ");
    append_str(&mut out, auth.as_str());
    append_str(&mut out, "\n");
    match str_field(r, "hint") {
        Some(h) => {
            append_str(&mut out, "Next step: ");
            append_str(&mut out, h);
            append_str(&mut out, "\n");
        },
        None => {},
    }
    out
}

/// Whether a result is the single record that stands for "nothing found".
pub open spec fn is_empty_result(values: Seq<Record>) -> bool {
    values.len() == 1 && record_type(values[0]) == Some("empty"@)
}

fn is_empty(values: &Vec<Record>) -> (r: bool)
    ensures
        r == is_empty_result(values@),
{
    values.len() == 1 && has_type(&values[0], "empty")
}

/// The table rows that show `values`, one cell per key.
pub open spec fn rows_of(values: Seq<Record>, keys: Seq<Seq<char>>) -> Seq<Seq<Seq<char>>> {
    values.map_values(|v: Record| keys.map_values(|k: Seq<char>| text_or_dash(v, k)))
}

fn rows_for(values: &Vec<Record>, keys: &[&str]) -> (r: Vec<Vec<String>>)
    ensures
        rows_view(r@) == rows_of(values@, headers_view(keys@)),
        forall|i: int| 0 <= i < r@.len() ==> (#[trigger] r@[i])@.len() == keys@.len(),
{
    let mut rows: Vec<Vec<String>> = Vec::new();
    let mut i: usize = 0;
    while i < values.len()
        invariant
            i <= values@.len(),
            rows@.len() == i,
            forall|q: int| 0 <= q < i ==> (#[trigger] rows@[q])@.len() == keys@.len(),
            forall|q: int| 0 <= q < i ==> (#[trigger] rows@[q])@.map_values(|s: String| s@)
                == headers_view(keys@).map_values(|k: Seq<char>| text_or_dash(values@[q], k)),
        decreases values@.len() - i,
    {
        let mut row: Vec<String> = Vec::new();
        let mut j: usize = 0;
        while j < keys.len()
            invariant
                j <= keys@.len(),
                i < values@.len(),
                row@.len() == j,
                forall|q: int| 0 <= q < j ==> (#[trigger] row@[q])@ == text_or_dash(
                    values@[i as int],
                    keys@[q]@,
                ),
            decreases keys@.len() - j,
        {
            row.push(text(&values[i], keys[j]));
            j = j + 1;
        }
        assert(row@.map_values(|s: String| s@) =~= headers_view(keys@).map_values(
            |k: Seq<char>| text_or_dash(values@[i as int], k),
        ));
        rows.push(row);
        i = i + 1;
    }
    assert(rows_view(rows@) =~= rows_of(values@, headers_view(keys@)));
    rows
}

/// The index of the first record whose `type` is `kind`.
pub open spec fn first_of_type(values: Seq<Record>, kind: Seq<char>) -> Option<int>
    decreases values.len(),
{
    if values.len() == 0 {
        None
    } else if record_type(values[0]) == Some(kind) {
        Some(0)
    } else {
        match first_of_type(values.drop_first(), kind) {
            Some(i) => Some(i + 1),
            None => None,
        }
    }
}

/// Whether some record's `type` is `kind`.
pub open spec fn any_of_type(values: Seq<Record>, kind: Seq<char>) -> bool {
    exists|i: int| 0 <= i < values.len() && record_type(#[trigger] values[i]) == Some(kind)
}

/// The confirmation of `plan set`: what was created (or replaced, where an entry was
/// deleted), on which date, with which recipe or title, and its id.
pub open spec fn plan_set_text(values: Seq<Record>) -> Seq<char> {
    let created = values[first_of_type(values, "plan_created"@).unwrap()];
    let verb = if any_of_type(values, "plan_deleted"@) {
        "Replaced"@
    } else {
        "Created"@
    };
    let label = match non_empty_field_text(created, "recipe"@) {
        Some(l) => l,
        None => match non_empty_field_text(created, "title"@) {
            Some(l) => l,
            None => "meal plan entry"@,
        },
    };
    verb + " "@ + text_or_dash(created, "meal"@) + " on "@ + text_or_dash(created, "date"@)
        + " with "@ + label + " (ID "@ + text_or_dash(created, "id"@) + ").\n"@
}

/// What a presentation needs of its records: a first record for status, recipe details and
/// deletions, and a `plan_created` record for `plan set`.
pub open spec fn presentable(presentation: Presentation, values: Seq<Record>) -> bool {
    match presentation {
        Presentation::Status | Presentation::RecipeDetails | Presentation::PlanDelete => values.len()
            > 0,
        Presentation::PlanSet => first_of_type(values, "plan_created"@) is Some,
        _ => true,
    }
}

/// Human output for a command's result.
pub open spec fn human_text(presentation: Presentation, values: Seq<Record>) -> Seq<char> {
    match presentation {
        Presentation::Status => status_text(values[0]),
        Presentation::RecipeSearch { query } => if is_empty_result(values) {
            "No recipes found for \""@ + query@ + "\".\n"@
        } else {
            table_text(
                seq!["NAME"@, "SLUG"@, "ID"@],
                rows_of(values, seq!["name"@, "slug"@, "id"@]),
            )
        },
        Presentation::RecipeDetails => "Name: "@ + text_or_dash(values[0], "name"@) + "\nSlug: "@
            + text_or_dash(values[0], "slug"@) + "\nID:   "@ + text_or_dash(values[0], "id"@)
            + "\n"@ + ingredients_text(
            match values[0].ingredients {
                Some(v) => Some(v@),
                None => None,
            },
        ),
        Presentation::PlanList { from, to } => if is_empty_result(values) {
            "No meal plan entries found from "@ + from@ + " to "@ + to@ + ".\n"@
        } else {
            "Meal plan entries from "@ + from@ + " to "@ + to@ + ":\n"@ + table_text(
                seq!["DATE"@, "MEAL"@, "TITLE"@, "RECIPE"@, "ID"@],
                rows_of(values, seq!["date"@, "meal"@, "title"@, "recipe"@, "id"@]),
            )
        },
        Presentation::PlanSet => plan_set_text(values),
        Presentation::PlanDelete => "Deleted meal plan entry "@ + text_or_dash(values[0], "id"@)
            + ".\n"@,
    }
}

proof fn lemma_first_of_type_found(values: Seq<Record>, kind: Seq<char>)
    ensures
        first_of_type(values, kind) matches Some(i) ==> 0 <= i < values.len() && record_type(
            values[i],
        ) == Some(kind),
        first_of_type(values, kind) is None ==> forall|j: int|
            0 <= j < values.len() ==> record_type(#[trigger] values[j]) != Some(kind),
    decreases values.len(),
{
    if values.len() > 0 {
        lemma_first_of_type_found(values.drop_first(), kind);
        assert forall|j: int| 1 <= j < values.len() implies values.drop_first()[j - 1] == #[trigger] values[j] by {}
    }
}

fn find_first_of_type(values: &Vec<Record>, kind: &str) -> (r: Option<usize>)
    ensures
        match r {
            Some(i) => first_of_type(values@, kind@) == Some(i as int),
            None => first_of_type(values@, kind@) is None,
        },
{
    let mut i: usize = 0;
    assert(values@.skip(0) =~= values@);
    while i < values.len()
        invariant
            i <= values@.len(),
            forall|j: int| 0 <= j < i ==> record_type(#[trigger] values@[j]) != Some(kind@),
            first_of_type(values@, kind@) == (match first_of_type(values@.skip(i as int), kind@) {
                Some(k) => Some(k + i),
                None => None::<int>,
            }),
        decreases values@.len() - i,
    {
        let ghost rest = values@.skip(i as int);
        assert(rest[0] == values@[i as int]);
        assert(rest.drop_first() =~= values@.skip(i + 1));
        if has_type(&values[i], kind) {
            return Some(i);
        }
        i = i + 1;
    }
    assert(values@.skip(i as int).len() == 0);
    None
}

fn exists_of_type(values: &Vec<Record>, kind: &str) -> (r: bool)
    ensures
        r == any_of_type(values@, kind@),
{
    let found = find_first_of_type(values, kind);
    proof {
        lemma_first_of_type_found(values@, kind@);
    }
    found.is_some()
}

/// Whether `write_human` can present these records (see `presentable`).
pub fn is_presentable(presentation: &Presentation, values: &Vec<Record>) -> (r: bool)
    ensures
        r == presentable(*presentation, values@),
{
    match presentation {
        Presentation::Status | Presentation::RecipeDetails | Presentation::PlanDelete => values.len()
            > 0,
        Presentation::PlanSet => find_first_of_type(values, "plan_created").is_some(),
        _ => true,
    }
}

/// Human output for a command's result (see `human_text`).
pub fn write_human(presentation: &Presentation, values: &Vec<Record>) -> (r: String)
    requires
        presentable(*presentation, values@),
    ensures
        r@ == human_text(*presentation, values@),
{
    match presentation {
        Presentation::Status => write_status(&values[0]),
        Presentation::RecipeSearch { query } => {
            if is_empty(values) {
                let mut out = String::new();
                append_str(&mut out, "No recipes found for \"");
                append_str(&mut out, query.as_str());
                append_str(&mut out, "\".\n");
                return out;
            }
            let headers: [&str; 3] = ["NAME", "SLUG", "ID"];
            let keys: [&str; 3] = ["name", "slug", "id"];
            assert(headers_view(headers@) =~= seq!["NAME"@, "SLUG"@, "ID"@]);
            assert(headers_view(keys@) =~= seq!["name"@, "slug"@, "id"@]);
            let rows = rows_for(values, &keys);
            table(&headers, rows)
        },
        Presentation::RecipeDetails => {
            let value = &values[0];
            let mut out = String::new();
            append_str(&mut out, "Name: ");
            append_str(&mut out, text(value, "name").as_str());
            append_str(&mut out, "\nSlug: ");
            append_str(&mut out, text(value, "slug").as_str());
            append_str(&mut out, "\nID:   ");
            append_str(&mut out, text(value, "id").as_str());
            append_str(&mut out, "\n");
            append_str(&mut out, write_ingredients(value).as_str());
            out
        },
        Presentation::PlanList { from, to } => {
            let mut out = String::new();
            if is_empty(values) {
                append_str(&mut out, "No meal plan entries found from ");
                append_str(&mut out, from.as_str());
                append_str(&mut out, " to ");
                append_str(&mut out, to.as_str());
                append_str(&mut out, ".\n");
                return out;
            }
            let headers: [&str; 5] = ["DATE", "MEAL", "TITLE", "RECIPE", "ID"];
            let keys: [&str; 5] = ["date", "meal", "title", "recipe", "id"];
            assert(headers_view(headers@) =~= seq!["DATE"@, "MEAL"@, "TITLE"@, "RECIPE"@, "ID"@]);
            assert(headers_view(keys@) =~= seq!["date"@, "meal"@, "title"@, "recipe"@, "id"@]);
            append_str(&mut out, "Meal plan entries from ");
            append_str(&mut out, from.as_str());
            append_str(&mut out, " to ");
            append_str(&mut out, to.as_str());
            append_str(&mut out, ":\n");
            let rows = rows_for(values, &keys);
            let t = table(&headers, rows);
            append_str(&mut out, t.as_str());
            out
        },
        Presentation::PlanSet => {
            let index = match find_first_of_type(values, "plan_created") {
                Some(i) => i,
                None => {
                    proof {
                        assert(false);
                    }
                    0
                },
            };
            proof {
                lemma_first_of_type_found(values@, "plan_created"@);
            }
            let created = &values[index];
            let verb = if exists_of_type(values, "plan_deleted") {
                "Replaced"
            } else {
                "Created"
            };
            let label = match non_empty_text(created, "recipe") {
                Some(l) => l,
                None => match non_empty_text(created, "title") {
                    Some(l) => l,
                    None => "meal plan entry".to_owned(),
                },
            };
            let mut out = String::new();
            append_str(&mut out, verb);
            append_str(&mut out, " ");
            append_str(&mut out, text(created, "meal").as_str());
            append_str(&mut out, " on ");
            append_str(&mut out, text(created, "date").as_str());
            append_str(&mut out, " with ");
            append_str(&mut out, label.as_str());
            append_str(&mut out, " (ID ");
            append_str(&mut out, text(created, "id").as_str());
            append_str(&mut out, ").\n");
            out
        },
        Presentation::PlanDelete => {
            let mut out = String::new();
            append_str(&mut out, "Deleted meal plan entry ");
            append_str(&mut out, text(&values[0], "id").as_str());
            append_str(&mut out, ".\n");
            out
        },
    }
}

/// A plain value, as a mathematical value.
pub enum ScalarView {
    Null,
    Bool(bool),
    Int(int),
    Text(Seq<char>),
}

pub open spec fn scalar_view(s: Scalar) -> ScalarView {
    match s {
        Scalar::Null => ScalarView::Null,
        Scalar::Bool(b) => ScalarView::Bool(b),
        Scalar::Int(i) => ScalarView::Int(i as int),
        Scalar::Text(t) => ScalarView::Text(t@),
    }
}

/// A record, as values.
pub struct RecordView {
    pub fields: Seq<(Seq<char>, ScalarView)>,
    pub ingredients: Option<Seq<Ingredient>>,
}

impl View for Record {
    type V = RecordView;

    open spec fn view(&self) -> RecordView {
        RecordView {
            fields: self.fields@.map_values(|f: (String, Scalar)| (f.0@, scalar_view(f.1))),
            ingredients: match self.ingredients {
                Some(v) => Some(v@),
                None => None,
            },
        }
    }
}

/// A presentation, as values.
pub enum PresentationView {
    Status,
    RecipeSearch { query: Seq<char> },
    RecipeDetails,
    PlanList { from: Seq<char>, to: Seq<char> },
    PlanSet,
    PlanDelete,
}

impl View for Presentation {
    type V = PresentationView;

    open spec fn view(&self) -> PresentationView {
        match self {
            Presentation::Status => PresentationView::Status,
            Presentation::RecipeSearch { query } => PresentationView::RecipeSearch { query: query@ },
            Presentation::RecipeDetails => PresentationView::RecipeDetails,
            Presentation::PlanList { from, to } => PresentationView::PlanList { from: from@, to: to@ },
            Presentation::PlanSet => PresentationView::PlanSet,
            Presentation::PlanDelete => PresentationView::PlanDelete,
        }
    }
}

/// A command's result, as values.
pub struct OutputView {
    pub presentation: PresentationView,
    pub values: Seq<RecordView>,
}

impl View for CommandOutput {
    type V = OutputView;

    open spec fn view(&self) -> OutputView {
        OutputView {
            presentation: self.presentation@,
            values: self.values@.map_values(|r: Record| r@),
        }
    }
}

/// Where a part is present, it stands in `l` from position `b`, after a space unless it comes
/// first.
pub open spec fn part_at(l: Seq<char>, part: Option<Seq<char>>, b: int) -> bool {
    match part {
        Some(t) => b + t.len() <= l.len() && l.subrange(b, b + t.len()) == t && (b > 0 ==> l[b - 1]
            == ' '),
        None => true,
    }
}

/// The room a part takes in an ingredient line: its characters and one separating space.
pub open spec fn part_room(o: Option<Seq<char>>) -> int {
    match o {
        Some(t) => t.len() as int + 1,
        None => 0,
    }
}

spec fn parts_room(ps: Seq<Option<Seq<char>>>) -> int
    decreases ps.len(),
{
    if ps.len() == 0 {
        0
    } else {
        parts_room(ps.drop_last()) + part_room(ps.last())
    }
}

proof fn present_parts_joined(ps: Seq<Option<Seq<char>>>)
    ensures
        present_parts(ps).len() == 0 <==> parts_room(ps) == 0 || (forall|i: int|
            0 <= i < ps.len() ==> #[trigger] ps[i] is None),
        present_parts(ps).len() > 0 ==> join(present_parts(ps), " "@).len() + 1 == parts_room(ps),
        present_parts(ps).len() == 0 ==> parts_room(ps) == 0,
        (ps.len() > 0 && ps.last() matches Some(n)) ==> present_parts(ps).len() > 0,
    decreases ps.len(),
{
    reveal_strlit(" ");
    if ps.len() > 0 {
        let rest = ps.drop_last();
        present_parts_joined(rest);
        assert forall|i: int| 0 <= i < rest.len() implies rest[i] == ps[i] by {}
        match ps.last() {
            Some(t) => {
                let pp = present_parts(rest).push(t);
                assert(pp.drop_last() =~= present_parts(rest));
            },
            None => {
                if parts_room(ps) != 0 {
                    assert(parts_room(rest) != 0);
                }
            },
        }
        if forall|i: int| 0 <= i < ps.len() ==> #[trigger] ps[i] is None {
            assert(ps[ps.len() - 1] is None);
        }
    }
}

proof fn parts_room_nonneg(ps: Seq<Option<Seq<char>>>)
    ensures
        parts_room(ps) >= 0,
    decreases ps.len(),
{
    if ps.len() > 0 {
        parts_room_nonneg(ps.drop_last());
    }
}

spec fn nonempty_parts(ps: Seq<Option<Seq<char>>>) -> bool {
    forall|k: int| 0 <= k < ps.len() && (#[trigger] ps[k]) is Some ==> ps[k]->0.len() > 0
}

#[verifier::rlimit(40)]
proof fn part_position(ps: Seq<Option<Seq<char>>>, k: int)
    requires
        nonempty_parts(ps),
        0 <= k < ps.len(),
        ps[k] is Some,
    ensures
        present_parts(ps).len() > 0,
        part_at(join(present_parts(ps), " "@), ps[k], parts_room(ps.take(k))),
    decreases ps.len(),
{
    reveal_strlit(" ");
    let rest = ps.drop_last();
    let t = ps[k]->0;
    let l = join(present_parts(ps), " "@);
    let lr = join(present_parts(rest), " "@);
    assert(nonempty_parts(rest)) by {
        assert forall|j: int| 0 <= j < rest.len() && (#[trigger] rest[j]) is Some implies rest[j]->0.len()
            > 0 by {
            assert(rest[j] == ps[j]);
        }
    }
    if k < ps.len() - 1 {
        assert(rest[k] == ps[k]);
        assert(ps.take(k) =~= rest.take(k));
        part_position(rest, k);
        let b = parts_room(rest.take(k));
        parts_room_nonneg(rest.take(k));
        assert(ps[k] == Some(t));
        assert(part_at(lr, Some(t), b));
        assert(b + t.len() <= lr.len());
        match ps.last() {
            Some(x) => {
                let pp = present_parts(rest).push(x);
                assert(present_parts(ps) == pp);
                assert(pp.drop_last() =~= present_parts(rest));
                assert(l == lr + " "@ + x);
                assert forall|j: int| 0 <= j < lr.len() implies l[j] == lr[j] by {}
                assert(l.subrange(b, b + t.len()) =~= lr.subrange(b, b + t.len()));
            },
            None => {
                assert(present_parts(ps) == present_parts(rest));
            },
        }
    } else {
        present_parts_joined(rest);
        assert(ps.take(k) =~= rest);
        assert(ps.last() == ps[k]);
        let pp = present_parts(rest).push(t);
        assert(present_parts(ps) == pp);
        assert(pp.drop_last() =~= present_parts(rest));
        if present_parts(rest).len() > 0 {
            assert(l == lr + " "@ + t);
            assert(l.subrange(lr.len() + 1int, lr.len() + 1int + t.len()) =~= t);
        } else {
            assert(l == t);
            assert(l.subrange(0, t.len() as int) =~= t);
        }
    }
}

/// Without an original or display text, an ingredient's line is made of every part it has, its
/// quantity, unit abbreviation, unit, food and note, each once and separated by single spaces,
/// and ends with the note where there is one; with none of these parts there is no line.
pub proof fn ingredient_line_keeps_every_part(i: Ingredient)
    requires
        non_empty_opt(i.original_text) is None,
        non_empty_opt(i.display) is None,
    ensures
        ({
            let room = part_room(quantity_text(i.quantity)) + part_room(
                non_empty_opt(i.unit_abbreviation),
            ) + part_room(non_empty_opt(i.unit)) + part_room(non_empty_opt(i.food)) + part_room(
                non_empty_opt(i.note),
            );
            &&& ingredient_line_of(i) is None <==> room == 0
            &&& ingredient_line_of(i) matches Some(l) ==> l.len() + 1 == room
        }),
        match (ingredient_line_of(i), non_empty_opt(i.note)) {
            (Some(l), Some(n)) => l.len() >= n.len() && l.subrange(l.len() - n.len(), l.len() as int)
                == n,
            (None, Some(_)) => false,
            _ => true,
        },
        ({
            let q = quantity_text(i.quantity);
            let a = non_empty_opt(i.unit_abbreviation);
            let u = non_empty_opt(i.unit);
            let f = non_empty_opt(i.food);
            let n = non_empty_opt(i.note);
            let l = match ingredient_line_of(i) {
                Some(l) => l,
                None => Seq::<char>::empty(),
            };
            &&& part_at(l, q, 0)
            &&& part_at(l, a, part_room(q))
            &&& part_at(l, u, part_room(q) + part_room(a))
            &&& part_at(l, f, part_room(q) + part_room(a) + part_room(u))
            &&& part_at(l, n, part_room(q) + part_room(a) + part_room(u) + part_room(f))
        }),
{
    reveal_strlit(" ");
    let ps = seq![
        quantity_text(i.quantity),
        non_empty_opt(i.unit_abbreviation),
        non_empty_opt(i.unit),
        non_empty_opt(i.food),
        non_empty_opt(i.note),
    ];
    present_parts_joined(ps);
    assert(ps.drop_last().drop_last().drop_last().drop_last().drop_last().len() == 0);
    assert(parts_room(ps) == part_room(ps[0]) + part_room(ps[1]) + part_room(ps[2]) + part_room(
        ps[3],
    ) + part_room(ps[4])) by {
        let p4 = ps.drop_last();
        let p3 = p4.drop_last();
        let p2 = p3.drop_last();
        let p1 = p2.drop_last();
        let p0 = p1.drop_last();
        assert(p0.len() == 0);
        assert(parts_room(p0) == 0);
        assert(p1.last() == ps[0]);
        assert(parts_room(p1) == part_room(ps[0]));
        assert(p2.last() == ps[1]);
        assert(parts_room(p2) == parts_room(p1) + part_room(ps[1]));
        assert(p3.last() == ps[2]);
        assert(parts_room(p3) == parts_room(p2) + part_room(ps[2]));
        assert(p4.last() == ps[3]);
        assert(parts_room(p4) == parts_room(p3) + part_room(ps[3]));
        assert(ps.last() == ps[4]);
        assert(parts_room(ps) == parts_room(p4) + part_room(ps[4]));
    }
    assert(nonempty_parts(ps));
    if ps[0] is Some {
        part_position(ps, 0);
    }
    if ps[1] is Some {
        part_position(ps, 1);
    }
    if ps[2] is Some {
        part_position(ps, 2);
    }
    if ps[3] is Some {
        part_position(ps, 3);
    }
    if ps[4] is Some {
        part_position(ps, 4);
    }
    assert(ps.take(0) =~= Seq::<Option<Seq<char>>>::empty());
    assert(parts_room(ps.take(1)) == part_room(ps[0])) by {
        assert(ps.take(1).drop_last() =~= ps.take(0));
        assert(parts_room(ps.take(0)) == 0);
        assert(ps.take(1).last() == ps[0]);
    }
    assert(parts_room(ps.take(2)) == part_room(ps[0]) + part_room(ps[1])) by {
        assert(ps.take(2).drop_last() =~= ps.take(1));
        assert(ps.take(2).last() == ps[1]);
    }
    assert(parts_room(ps.take(3)) == part_room(ps[0]) + part_room(ps[1]) + part_room(ps[2])) by {
        assert(ps.take(3).drop_last() =~= ps.take(2));
        assert(ps.take(3).last() == ps[2]);
    }
    assert(parts_room(ps.take(4)) == part_room(ps[0]) + part_room(ps[1]) + part_room(ps[2])
        + part_room(ps[3])) by {
        assert(ps.take(4).drop_last() =~= ps.take(3));
        assert(ps.take(4).last() == ps[3]);
    }
    if let Some(n) = non_empty_opt(i.note) {
        let rest = present_parts(ps.drop_last());
        let pp = rest.push(n);
        assert(present_parts(ps) == pp);
        assert(pp.drop_last() =~= rest);
        let l = join(pp, " "@);
        if rest.len() > 0 {
            assert(l == join(rest, " "@) + " "@ + n);
        }
        assert(l.subrange(l.len() - n.len(), l.len() as int) =~= n);
    }
}

} // verus!
