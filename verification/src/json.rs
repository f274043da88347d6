//! The language-agnostic value tree that results are materialized into.

use vstd::prelude::*;

verus! {

/// Mathematical view of a materialized value, over `Seq` and `int`.
pub enum JsonV {
    /// The null leaf.
    Null,
    /// An integer leaf.
    Int(int),
    /// A float leaf, as the raw bits of the 64-bit float.
    Float(u64),
    /// A string leaf.
    Str(Seq<char>),
    /// An ordered array.
    Arr(Seq<JsonV>),
    /// An object: ordered name/value pairs.
    Obj(Seq<(Seq<char>, JsonV)>),
}

/// A materialized value: a tree of numeric, string and null leaves, arrays
/// and objects.
///
/// Floats are carried as their raw bits, so that the numeric leaf can be
/// rebuilt exactly by whatever layer renders the tree.
#[derive(Debug, PartialEq, Eq)]
pub enum JsonVal {
    /// The null leaf.
    Null,
    /// An integer leaf.
    Int(i64),
    /// A float leaf, as the raw bits of the 64-bit float.
    Float(u64),
    /// A string leaf.
    Str(String),
    /// An ordered array.
    Arr(Vec<JsonVal>),
    /// An object: ordered name/value pairs.
    Obj(Vec<(String, JsonVal)>),
}

/// Mathematical view of a materialized value.
pub open spec fn json_view(j: JsonVal) -> JsonV
    decreases j,
{
    match j {
        JsonVal::Null => JsonV::Null,
        JsonVal::Int(n) => JsonV::Int(n as int),
        JsonVal::Float(bits) => JsonV::Float(bits),
        JsonVal::Str(s) => JsonV::Str(s@),
        JsonVal::Arr(elems) => JsonV::Arr(json_view_seq(elems@)),
        JsonVal::Obj(fields) => JsonV::Obj(json_view_fields(fields@)),
    }
}

/// Mathematical view of a sequence of materialized values.
pub open spec fn json_view_seq(elems: Seq<JsonVal>) -> Seq<JsonV>
    decreases elems,
{
    if elems.len() == 0 {
        Seq::empty()
    } else {
        json_view_seq(elems.subrange(0, elems.len() - 1)).push(
            json_view(elems[elems.len() - 1]),
        )
    }
}

/// Mathematical view of ordered name/value pairs.
pub open spec fn json_view_fields(fields: Seq<(String, JsonVal)>) -> Seq<(Seq<char>, JsonV)>
    decreases fields,
{
    if fields.len() == 0 {
        Seq::empty()
    } else {
        json_view_fields(fields.subrange(0, fields.len() - 1)).push(
            (fields[fields.len() - 1].0@, json_view(fields[fields.len() - 1].1)),
        )
    }
}

/// The view of a sequence of values is the sequence of their views.
pub proof fn lemma_json_view_seq(elems: Seq<JsonVal>)
    ensures
        json_view_seq(elems).len() == elems.len(),
        forall|i: int|
            0 <= i < elems.len() ==> #[trigger] json_view_seq(elems)[i] == json_view(elems[i]),
    decreases elems.len(),
{
    if elems.len() > 0 {
        let pre = elems.subrange(0, elems.len() - 1);
        lemma_json_view_seq(pre);
        assert forall|i: int|
            0 <= i < elems.len() implies #[trigger] json_view_seq(elems)[i] == json_view(
            elems[i],
        ) by {
            if i < elems.len() - 1 {
                assert(pre[i] == elems[i]);
            }
        }
    }
}

/// The view of a field sequence is the pairwise view of its entries.
pub proof fn lemma_json_view_fields(fields: Seq<(String, JsonVal)>)
    ensures
        json_view_fields(fields).len() == fields.len(),
        forall|i: int|
            0 <= i < fields.len() ==> #[trigger] json_view_fields(fields)[i] == (
            fields[i].0@,
            json_view(fields[i].1),
            ),
    decreases fields.len(),
{
    if fields.len() > 0 {
        let pre = fields.subrange(0, fields.len() - 1);
        lemma_json_view_fields(pre);
        assert forall|i: int|
            0 <= i < fields.len() implies #[trigger] json_view_fields(fields)[i] == (
            fields[i].0@,
            json_view(fields[i].1),
        ) by {
            if i < fields.len() - 1 {
                assert(pre[i] == fields[i]);
            }
        }
    }
}

/// A single row of data: ordered column/field name and value pairs.
pub type Row = Vec<(String, JsonVal)>;

/// Mathematical view of a row.
pub open spec fn row_view(r: Row) -> Seq<(Seq<char>, JsonV)> {
    json_view_fields(r@)
}

} // verus!
