//! Row windows: the bounded, offset/count-addressed projection of a stored
//! result into rows of materialized values.

use vstd::prelude::*;
use vstd::pervasive::unreached;
use vstd::string::StringExecFns;
use crate::errors::BridgeError;
use crate::errors::ErrV;
use crate::errors::err_view;
use crate::json::JsonV;
use crate::json::JsonVal;
use crate::json::Row;
use crate::json::json_view;
use crate::json::lemma_json_view_fields;
use crate::json::row_view;
use crate::materialize::dict_row_v;
use crate::materialize::dict_to_row;
use crate::materialize::obj_to_json;
use crate::materialize::spec_json;
use crate::materialize::spec_json_seq;
use crate::materialize::spec_table_count;
use crate::materialize::table_count;
use crate::meta::column_names;
use crate::meta::names_of;
use crate::obj::ObjT;
use crate::obj::TAG_B8;
use crate::obj::TAG_C8;
use crate::obj::TAG_F64;
use crate::obj::TAG_I64;
use crate::obj::TAG_LIST;
use crate::obj::tag_of;
use crate::obj::wf_obj;

verus! {

/// Mathematical view of a row: ordered name/value pairs.
pub type RowV = Seq<(Seq<char>, JsonV)>;

/// Mathematical view of a sequence of rows.
pub open spec fn rows_view(rs: Seq<Row>) -> Seq<RowV> {
    Seq::new(rs.len(), |i: int| row_view(rs[i]))
}

/// Mathematical view of a row-window result.
pub open spec fn rows_result_view(r: Result<Vec<Row>, BridgeError>) -> Result<
    Seq<RowV>,
    ErrV,
> {
    match r {
        Ok(rs) => Ok(rows_view(rs@)),
        Err(e) => Err(err_view(e)),
    }
}

/// The element of a vector or list at `i`; the null value when `i` is out
/// of range or the value has no elements.
pub open spec fn spec_at(v: ObjT, i: int) -> ObjT {
    match v {
        ObjT::List(elems) => if 0 <= i < elems@.len() {
            elems@[i]
        } else {
            ObjT::NullObj
        },
        ObjT::Vector { elems, .. } => if 0 <= i < elems@.len() {
            elems@[i]
        } else {
            ObjT::NullObj
        },
        _ => ObjT::NullObj,
    }
}

/// The clamp rule: a window of `count` rows at `start` over `total` rows
/// returns `min(count, total - start)` rows when `start < total`, else 0.
pub open spec fn spec_clamped(total: int, start: int, count: int) -> int {
    if start < total {
        if count <= total - start {
            count
        } else {
            total - start
        }
    } else {
        0
    }
}

/// The rows of a vector or list window: one `value` field per element in
/// the clamped range.
pub open spec fn spec_window_rows(elems: Seq<ObjT>, start: int, count: int) -> Seq<RowV> {
    let n = spec_clamped(elems.len() as int, start, count);
    Seq::new(n as nat, |i: int| seq![("value"@, spec_json(elems[start + i]))])
}

/// The rows of a table window: for each row index in the clamped range, one
/// field per declared column (as far as columns exist), in declared order.
pub open spec fn spec_table_rows(keys: Seq<ObjT>, cols: Seq<ObjT>, start: int, count: int) -> Seq<
    RowV,
> {
    let names = names_of(keys);
    let ncols = if keys.len() <= cols.len() {
        keys.len() as int
    } else {
        cols.len() as int
    };
    let total = spec_table_count(cols);
    let n = spec_clamped(total, start, count);
    Seq::new(
        n as nat,
        |i: int|
            Seq::new(
                ncols as nat,
                |c: int| (names[c], spec_json(spec_at(cols[c], start + i))),
            ),
    )
}

/// The row window a value serves: atoms expose one row, vectors and lists
/// one row per element, tables one row per table row, and dicts one
/// synthetic row, each clamped to the requested range.
pub open spec fn spec_value_rows(v: ObjT, start: int, count: int) -> Seq<RowV> {
    match v {
        ObjT::List(elems) => spec_window_rows(elems@, start, count),
        ObjT::Vector { elems, .. } => spec_window_rows(elems@, start, count),
        ObjT::Table { keys, cols } => spec_table_rows(keys@, cols@, start, count),
        ObjT::Dict { keys, vals } => if start == 0 && count > 0 {
            seq![dict_row_v(keys@, spec_json_seq(vals@))]
        } else {
            Seq::empty()
        },
        _ => if tag_of(v) < 0 && start == 0 && count > 0 {
            seq![seq![("value"@, spec_json(v))]]
        } else {
            Seq::empty()
        },
    }
}

/// Whether a value's tag supports row projection.
pub open spec fn supports_rows(v: ObjT) -> bool {
    tag_of(v) < 0 || (TAG_LIST as int <= tag_of(v) <= TAG_C8 as int) || v is Table || v is Dict
}

/// The row-window result a value serves: its clamped rows, or the
/// unsupported-type error for a tag with no row projection.
pub open spec fn spec_rows_of_value(v: ObjT, start: int, count: int) -> Result<Seq<RowV>, ErrV> {
    if supports_rows(v) {
        Ok(spec_value_rows(v, start, count))
    } else {
        Err(ErrV::UnsupportedType(tag_of(v) as i8))
    }
}

/// Materializes the element of a column at row `i`, null when out of range.
fn cell_json(col: &ObjT, i: u64) -> (r: JsonVal)
    requires
        wf_obj(*col),
    ensures
        json_view(r) == spec_json(spec_at(*col, i as int)),
{
    match col {
        ObjT::List(elems) => {
            if i < elems.len() as u64 {
                obj_to_json(&elems[i as usize])
            } else {
                JsonVal::Null
            }
        },
        ObjT::Vector { elems, .. } => {
            if i < elems.len() as u64 {
                obj_to_json(&elems[i as usize])
            } else {
                JsonVal::Null
            }
        },
        _ => JsonVal::Null,
    }
}

/// Builds the single-field row holding one materialized value.
fn value_row(value: JsonVal) -> (r: Row)
    ensures
        row_view(r) == seq![("value"@, json_view(value))],
{
    let mut row: Row = Vec::new();
    let ghost jv = json_view(value);
    row.push((String::from_str("value"), value));
    proof {
        lemma_json_view_fields(row@);
        assert(row_view(row) =~= seq![("value"@, jv)]);
    }
    row
}

/// Serves a window over a vector's or list's elements, with a direct
/// element read for the primitive 64-bit integer and float tags and the
/// generic per-index conversion for every other tag. The contract holds
/// both paths to the same materialized rows.
fn window_rows(t: i8, elems: &Vec<ObjT>, start: u64, count: u64) -> (r: Vec<Row>)
    requires
        forall|i: int| 0 <= i < elems@.len() ==> wf_obj(#[trigger] elems@[i]),
        TAG_B8 <= t <= TAG_C8 ==> forall|i: int|
            0 <= i < elems@.len() ==> tag_of(#[trigger] elems@[i]) == -(t as int),
    ensures
        rows_view(r@) == spec_window_rows(elems@, start as int, count as int),
{
    let total = elems.len() as u64;
    let n: u64 = if start < total {
        let rem = total - start;
        if count <= rem {
            count
        } else {
            rem
        }
    } else {
        0
    };
    assert(n as int == spec_clamped(elems@.len() as int, start as int, count as int));
    let mut rows: Vec<Row> = Vec::new();
    let mut i: u64 = 0;
    while i < n
        invariant
            0 <= i <= n,
            elems@.len() <= usize::MAX,
            n as int == spec_clamped(elems@.len() as int, start as int, count as int),
            forall|j: int| 0 <= j < elems@.len() ==> wf_obj(#[trigger] elems@[j]),
            TAG_B8 <= t <= TAG_C8 ==> forall|j: int|
                0 <= j < elems@.len() ==> tag_of(#[trigger] elems@[j]) == -(t as int),
            rows@.len() == i,
            forall|j: int|
                0 <= j < i ==> row_view(#[trigger] rows@[j]) == seq![
                    ("value"@, spec_json(elems@[start + j])),
                ],
        decreases n - i,
    {
        let idx = (start + i) as usize;
        let value = if t == TAG_I64 {
            proof {
                assert(wf_obj(elems@[idx as int]));
            }
            match &elems[idx] {
                ObjT::Int { val, .. } => JsonVal::Int(*val),
                _ => unreached(),
            }
        } else if t == TAG_F64 {
            proof {
                assert(wf_obj(elems@[idx as int]));
            }
            match &elems[idx] {
                ObjT::Float(bits) => JsonVal::Float(*bits),
                _ => unreached(),
            }
        } else {
            obj_to_json(&elems[idx])
        };
        assert(json_view(value) == spec_json(elems@[idx as int]));
        let row = value_row(value);
        rows.push(row);
        i += 1;
    }
    proof {
        assert(rows_view(rows@) =~= spec_window_rows(elems@, start as int, count as int));
    }
    rows
}

/// Serves a window over a table's rows: column names are decoded once from
/// the key vector; each row maps every declared column (as far as columns
/// exist) to the materialized (column, row) element.
pub fn get_table_rows(keys: &Vec<ObjT>, cols: &Vec<ObjT>, start: u64, count: u64) -> (r: Vec<
    Row,
>)
    requires
        forall|i: int| 0 <= i < cols@.len() ==> wf_obj(#[trigger] cols@[i]),
    ensures
        rows_view(r@) == spec_table_rows(keys@, cols@, start as int, count as int),
{
    let names = column_names(keys);
    let ncols: usize = if keys.len() <= cols.len() {
        keys.len()
    } else {
        cols.len()
    };
    proof {
        if cols@.len() > 0 {
            assert(wf_obj(cols@[0]));
        }
    }
    let total = table_count(cols);
    let n: u64 = if start < total {
        let rem = total - start;
        if count <= rem {
            count
        } else {
            rem
        }
    } else {
        0
    };
    assert(n as int == spec_clamped(spec_table_count(cols@), start as int, count as int));
    assert(spec_table_count(cols@) <= i64::MAX);
    let ghost spec_rows = spec_table_rows(keys@, cols@, start as int, count as int);
    let mut rows: Vec<Row> = Vec::new();
    let mut i: u64 = 0;
    while i < n
        invariant
            0 <= i <= n,
            ncols as int == (if keys@.len() <= cols@.len() {
                keys@.len() as int
            } else {
                cols@.len() as int
            }),
            names@.len() == keys@.len(),
            forall|c: int|
                0 <= c < keys@.len() ==> (#[trigger] names@[c])@ == names_of(keys@)[c],
            forall|c: int| 0 <= c < cols@.len() ==> wf_obj(#[trigger] cols@[c]),
            n as int == spec_clamped(spec_table_count(cols@), start as int, count as int),
            spec_table_count(cols@) <= i64::MAX,
            spec_rows == spec_table_rows(keys@, cols@, start as int, count as int),
            rows@.len() == i,
            forall|j: int| 0 <= j < i ==> row_view(#[trigger] rows@[j]) == spec_rows[j],
        decreases n - i,
    {
        let idx: u64 = start + i;
        let mut row: Row = Vec::new();
        let mut c: usize = 0;
        while c < ncols
            invariant
                0 <= c <= ncols,
                ncols as int == (if keys@.len() <= cols@.len() {
                    keys@.len() as int
                } else {
                    cols@.len() as int
                }),
                names@.len() == keys@.len(),
                forall|k: int|
                    0 <= k < keys@.len() ==> (#[trigger] names@[k])@ == names_of(keys@)[k],
                forall|k: int| 0 <= k < cols@.len() ==> wf_obj(#[trigger] cols@[k]),
                row@.len() == c,
                forall|k: int|
                    0 <= k < c ==> (#[trigger] row@[k]).0@ == names_of(keys@)[k],
                forall|k: int|
                    0 <= k < c ==> json_view((#[trigger] row@[k]).1) == spec_json(
                        spec_at(cols@[k], idx as int),
                    ),
            decreases ncols - c,
        {
            let value = cell_json(&cols[c], idx);
            let name = names[c].clone();
            row.push((name, value));
            c += 1;
        }
        proof {
            lemma_json_view_fields(row@);
            assert(row_view(row) =~= spec_rows[i as int]);
        }
        rows.push(row);
        i += 1;
    }
    proof {
        assert(rows_view(rows@) =~= spec_rows);
    }
    rows
}

/// Serves a row window over one stored value, per its tag: at most one row
/// for an atom (at offset 0), the clamped element range for a vector or
/// list, the clamped row range for a table, one synthetic row for a dict
/// (at offset 0), and the unsupported-type error for anything else. An
/// out-of-range offset yields an empty list, never an error.
pub fn rows_of_value(v: &ObjT, start: u64, count: u64) -> (r: Result<Vec<Row>, BridgeError>)
    requires
        wf_obj(*v),
    ensures
        rows_result_view(r) == spec_rows_of_value(*v, start as int, count as int),
{
    match v {
        ObjT::List(elems) => Ok(window_rows(TAG_LIST, elems, start, count)),
        ObjT::Vector { tag, elems } => Ok(window_rows(*tag, elems, start, count)),
        ObjT::Table { keys, cols } => Ok(get_table_rows(keys, cols, start, count)),
        ObjT::Dict { keys, vals } => {
            if start == 0 && count > 0 {
                let row = dict_to_row(keys, vals);
                let mut rows: Vec<Row> = Vec::new();
                rows.push(row);
                proof {
                    assert(rows_view(rows@) =~= spec_value_rows(*v, start as int, count as int));
                }
                Ok(rows)
            } else {
                let rows: Vec<Row> = Vec::new();
                proof {
                    assert(rows_view(rows@) =~= spec_value_rows(*v, start as int, count as int));
                }
                Ok(rows)
            }
        },
        ObjT::ErrObj { .. } => Err(BridgeError::UnsupportedType(v.tag())),
        ObjT::NullObj => Err(BridgeError::UnsupportedType(v.tag())),
        ObjT::Other(_) => Err(BridgeError::UnsupportedType(v.tag())),
        _ => {
            // An atom: one row at offset 0, within the clamped range.
            if start == 0 && count > 0 {
                let value = obj_to_json(v);
                let row = value_row(value);
                let mut rows: Vec<Row> = Vec::new();
                rows.push(row);
                proof {
                    assert(rows_view(rows@) =~= spec_value_rows(*v, start as int, count as int));
                }
                Ok(rows)
            } else {
                let rows: Vec<Row> = Vec::new();
                proof {
                    assert(rows_view(rows@) =~= spec_value_rows(*v, start as int, count as int));
                }
                Ok(rows)
            }
        },
    }
}

} // verus!
