//! Query-result metadata: the shape a caller learns about a stored result.

use vstd::prelude::*;
use vstd::string::StringExecFns;
use crate::materialize::spec_name_of;
use crate::materialize::spec_table_count;
use crate::materialize::symbol_to_string;
use crate::materialize::table_count;
use crate::obj::ObjT;
use crate::obj::TAG_C8;
use crate::obj::TAG_DICT;
use crate::obj::TAG_ERR;
use crate::obj::TAG_LIST;
use crate::obj::TAG_TABLE;
use crate::obj::tag_of;
use crate::obj::wf_obj;

verus! {

/// Mathematical view of query-result metadata.
pub struct MetaV {
    /// The handle under which the result is stored.
    pub handle: u64,
    /// The column names, in declared order.
    pub columns: Seq<Seq<char>>,
    /// Per-column type names (none are derived).
    pub column_types: Seq<(Seq<char>, Seq<char>)>,
    /// How many rows the result exposes.
    pub row_count: int,
    /// The result's kind: table, dict, scalar, vector, list or unknown.
    pub result_type: Seq<char>,
}

/// Metadata about a stored query result.
#[derive(Debug, Clone, PartialEq, Eq)]
pub struct QueryMeta {
    /// The handle under which the result is stored.
    pub handle: u64,
    /// The column names, in declared order.
    pub columns: Vec<String>,
    /// Per-column type names (none are derived).
    pub column_types: Vec<(String, String)>,
    /// How many rows the result exposes.
    pub row_count: u64,
    /// The result's kind: table, dict, scalar, vector, list or unknown.
    pub result_type: String,
}

/// Mathematical view of query-result metadata.
pub open spec fn meta_view(m: QueryMeta) -> MetaV {
    MetaV {
        handle: m.handle,
        columns: Seq::new(m.columns@.len(), |i: int| m.columns@[i]@),
        column_types: Seq::new(
            m.column_types@.len(),
            |i: int| (m.column_types@[i].0@, m.column_types@[i].1@),
        ),
        row_count: m.row_count as int,
        result_type: m.result_type@,
    }
}

/// The result-type name for a value tag.
pub open spec fn spec_result_type(t: int) -> Seq<char> {
    if t == TAG_TABLE as int {
        "table"@
    } else if t == TAG_ERR as int {
        "error"@
    } else if t == TAG_DICT as int {
        "dict"@
    } else if t == TAG_LIST as int {
        "list"@
    } else if t < 0 {
        "scalar"@
    } else if 1 <= t <= TAG_C8 as int {
        "vector"@
    } else {
        "unknown"@
    }
}

/// The decoded names of a sequence of key values.
pub open spec fn names_of(keys: Seq<ObjT>) -> Seq<Seq<char>> {
    Seq::new(keys.len(), |i: int| spec_name_of(keys[i]))
}

/// The column names a value exposes: a table's or dict's decoded keys, one
/// implicit `value` column for atoms, vectors and lists, and none for
/// anything else.
pub open spec fn spec_columns(v: ObjT) -> Seq<Seq<char>> {
    match v {
        ObjT::Table { keys, .. } => names_of(keys@),
        ObjT::Dict { keys, .. } => names_of(keys@),
        _ => if tag_of(v) < 0 || (TAG_LIST as int <= tag_of(v) <= TAG_C8 as int) {
            seq!["value"@]
        } else {
            Seq::empty()
        },
    }
}

/// The number of rows a value exposes: a table's first-column length, 1 for
/// a dict or an atom, the element count for vectors and lists, and 0 for
/// anything else.
pub open spec fn spec_row_count(v: ObjT) -> int {
    match v {
        ObjT::Table { cols, .. } => spec_table_count(cols@),
        ObjT::Dict { .. } => 1,
        ObjT::List(elems) => elems@.len() as int,
        ObjT::Vector { elems, .. } => elems@.len() as int,
        _ => if tag_of(v) < 0 {
            1
        } else {
            0
        },
    }
}

/// The metadata computed for a value stored under `handle`.
pub open spec fn spec_meta(handle: u64, v: ObjT) -> MetaV {
    MetaV {
        handle: handle,
        columns: spec_columns(v),
        column_types: Seq::empty(),
        row_count: spec_row_count(v),
        result_type: spec_result_type(tag_of(v)),
    }
}

/// Decodes the names of a sequence of key values.
pub(crate) fn column_names(keys: &Vec<ObjT>) -> (r: Vec<String>)
    ensures
        r@.len() == keys@.len(),
        forall|i: int| 0 <= i < keys@.len() ==> (#[trigger] r@[i])@ == spec_name_of(keys@[i]),
{
    let mut out: Vec<String> = Vec::new();
    let mut k: usize = 0;
    while k < keys.len()
        invariant
            0 <= k <= keys@.len(),
            out@.len() == k,
            forall|i: int| 0 <= i < k ==> (#[trigger] out@[i])@ == spec_name_of(keys@[i]),
        decreases keys@.len() - k,
    {
        let name = symbol_to_string(&keys[k]);
        out.push(name);
        k += 1;
    }
    out
}

/// The result-type name for a value tag.
fn result_type_name(t: i8) -> (r: String)
    ensures
        r@ == spec_result_type(t as int),
{
    if t == TAG_TABLE {
        String::from_str("table")
    } else if t == TAG_ERR {
        String::from_str("error")
    } else if t == TAG_DICT {
        String::from_str("dict")
    } else if t == TAG_LIST {
        String::from_str("list")
    } else if t < 0 {
        String::from_str("scalar")
    } else if 1 <= t && t <= TAG_C8 {
        String::from_str("vector")
    } else {
        String::from_str("unknown")
    }
}

/// Computes the metadata for a value about to be exposed under `handle`:
/// its result-type name, its columns, and how many rows it will serve.
pub fn extract_query_meta(handle: u64, v: &ObjT) -> (m: QueryMeta)
    requires
        wf_obj(*v),
    ensures
        meta_view(m) == spec_meta(handle, *v),
{
    let result_type = result_type_name(v.tag());
    let columns: Vec<String> = match v {
        ObjT::Table { keys, .. } => column_names(keys),
        ObjT::Dict { keys, .. } => column_names(keys),
        _ => {
            let t = v.tag();
            if t < 0 || (TAG_LIST <= t && t <= TAG_C8) {
                let mut one: Vec<String> = Vec::new();
                one.push(String::from_str("value"));
                one
            } else {
                Vec::new()
            }
        },
    };
    let row_count: u64 = match v {
        ObjT::Table { cols, .. } => {
            proof {
                if cols@.len() > 0 {
                    assert(wf_obj(cols@[0]));
                }
            }
            table_count(cols)
        },
        ObjT::Dict { .. } => 1,
        ObjT::List(elems) => elems.len() as u64,
        ObjT::Vector { elems, .. } => elems.len() as u64,
        _ => {
            if v.tag() < 0 {
                1
            } else {
                0
            }
        },
    };
    let m = QueryMeta { handle, columns, column_types: Vec::new(), row_count, result_type };
    proof {
        assert(meta_view(m).columns =~= spec_columns(*v));
        assert(meta_view(m).column_types =~= Seq::<(Seq<char>, Seq<char>)>::empty());
        assert(meta_view(m) == spec_meta(handle, *v));
    }
    m
}

} // verus!
