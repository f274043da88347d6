//! Quick scalar extraction: the one-value shortcut for queries that do not
//! need pagination.

use vstd::prelude::*;
use vstd::string::StringExecFns;
use crate::json::JsonV;
use crate::json::JsonVal;
use crate::json::Row;
use crate::json::json_view;
use crate::json::json_view_fields;
use crate::json::lemma_json_view_fields;
use crate::json::row_view;
use crate::meta::MetaV;
use crate::meta::QueryMeta;
use crate::meta::meta_view;
use crate::rows::RowV;

verus! {

/// Mathematical view of a scalar shortcut result.
pub struct ScalarV {
    /// The single extracted value.
    pub value: JsonV,
    /// The result-type name it was extracted from.
    pub result_type: Seq<char>,
}

/// The result of the scalar shortcut: one value and its result-type name.
#[derive(Debug, PartialEq, Eq)]
pub struct ScalarResult {
    /// The single extracted value.
    pub value: JsonVal,
    /// The result-type name it was extracted from.
    pub result_type: String,
}

/// Mathematical view of a scalar shortcut result.
pub open spec fn scalar_view(r: ScalarResult) -> ScalarV {
    ScalarV { value: json_view(r.value), result_type: r.result_type@ }
}

/// Mathematical view of the optional first row handed to the shortcut.
pub open spec fn opt_row_view(o: Option<Row>) -> Option<RowV> {
    match o {
        Option::Some(row) => Option::Some(row_view(row)),
        Option::None => Option::None,
    }
}

/// What the scalar shortcut extracts: for a scalar or vector result, the
/// first field value of the first fetched row (null when there is none);
/// for anything else, a summary object carrying the row count, labeled a
/// table.
pub open spec fn spec_scalar_result(m: MetaV, first_row: Option<RowV>) -> ScalarV {
    if m.result_type == "scalar"@ || m.result_type == "vector"@ {
        match first_row {
            Option::Some(row) => if row.len() > 0 {
                ScalarV { value: row[0].1, result_type: m.result_type }
            } else {
                ScalarV { value: JsonV::Null, result_type: m.result_type }
            },
            Option::None => ScalarV { value: JsonV::Null, result_type: m.result_type },
        }
    } else {
        ScalarV {
            value: JsonV::Obj(seq![("rowCount"@, JsonV::Int(m.row_count))]),
            result_type: "table"@,
        }
    }
}

/// Extracts the scalar shortcut result from a query's metadata and the
/// first row fetched for it (if any was).
pub fn scalar_result(meta: &QueryMeta, first_row: Option<Row>) -> (r: ScalarResult)
    requires
        meta.row_count <= i64::MAX as u64,
    ensures
        scalar_view(r) == spec_scalar_result(meta_view(*meta), opt_row_view(first_row)),
{
    let is_single = meta.result_type == String::from_str("scalar") || meta.result_type
        == String::from_str("vector");
    if is_single {
        match first_row {
            Some(mut row) => {
                if row.len() > 0 {
                    proof {
                        lemma_json_view_fields(row@);
                    }
                    let pair = row.remove(0);
                    ScalarResult { value: pair.1, result_type: meta.result_type.clone() }
                } else {
                    proof {
                        lemma_json_view_fields(row@);
                    }
                    ScalarResult { value: JsonVal::Null, result_type: meta.result_type.clone() }
                }
            },
            None => ScalarResult {
                value: JsonVal::Null,
                result_type: meta.result_type.clone(),
            },
        }
    } else {
        let mut fields: Row = Vec::new();
        fields.push((String::from_str("rowCount"), JsonVal::Int(meta.row_count as i64)));
        proof {
            lemma_json_view_fields(fields@);
            assert(json_view_fields(fields@) =~= seq![
                ("rowCount"@, JsonV::Int(meta.row_count as int)),
            ]);
        }
        ScalarResult { value: JsonVal::Obj(fields), result_type: String::from_str("table") }
    }
}

} // verus!
