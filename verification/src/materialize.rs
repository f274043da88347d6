//! The result materializer: tag-dispatched conversion of engine values to
//! the generic value tree, plus key-name decoding and error-message
//! extraction.

use vstd::prelude::*;
use vstd::string::StringExecFns;
use crate::json::JsonV;
use crate::json::JsonVal;
use crate::json::Row;
use crate::json::json_view;
use crate::json::json_view_fields;
use crate::json::json_view_seq;
use crate::json::lemma_json_view_fields;
use crate::json::lemma_json_view_seq;
use crate::json::row_view;
use crate::obj::ObjT;
use crate::obj::TAG_C8;
use crate::obj::tag_of;
use crate::obj::wf_obj;
use crate::text::char_to_string;
use crate::text::col_name;
use crate::text::lossy_decode;
use crate::text::spec_col_name;
use crate::text::utf8_lossy;

verus! {

/// The character a string-data byte stands for when read as a single
/// character.
pub open spec fn byte_char(b: u8) -> char {
    b as char
}

/// The byte a character atom carries; any other value reads as 0.
pub open spec fn byte_of(v: ObjT) -> u8 {
    match v {
        ObjT::Char(b) => b,
        _ => 0,
    }
}

/// The string-data bytes of a character vector's elements.
pub open spec fn chars_bytes(elems: Seq<ObjT>) -> Seq<u8> {
    Seq::new(elems.len(), |i: int| byte_of(elems[i]))
}

/// The name a key value decodes to: symbols and string data decode as lossy
/// UTF-8, a character atom as its one byte, and anything else falls back to
/// a name built from the key's tag.
pub open spec fn spec_name_of(v: ObjT) -> Seq<char> {
    match v {
        ObjT::Sym(name) => lossy_decode(name@),
        ObjT::Char(b) => lossy_decode(seq![b]),
        ObjT::Vector { tag, elems } => if tag == TAG_C8 {
            lossy_decode(chars_bytes(elems@))
        } else {
            spec_col_name(tag as int)
        },
        _ => spec_col_name(tag_of(v)),
    }
}

/// The name of the error field that carries the human-readable message.
pub open spec fn msg_name() -> Seq<u8> {
    seq![109u8, 115u8, 103u8]
}

/// The generic message used when no structured message can be extracted
/// from an error value.
pub open spec fn fallback_msg() -> Seq<char> {
    "Query execution error"@
}

/// The index of the first name in `names` (from `k` on) that equals `nm`,
/// or -1 when there is none.
pub open spec fn spec_find_from(names: Seq<Vec<u8>>, nm: Seq<u8>, k: int) -> int
    decreases names.len() - k,
{
    if k < 0 || k >= names.len() {
        -1
    } else if names[k]@ == nm {
        k
    } else {
        spec_find_from(names, nm, k + 1)
    }
}

/// The message an error value carries: the `msg` field when it is present
/// and holds string data, otherwise the generic message.
pub open spec fn spec_err_msg(names: Seq<Vec<u8>>, vals: Seq<ObjT>) -> Seq<char> {
    let i = spec_find_from(names, msg_name(), 0);
    if 0 <= i < vals.len() && tag_of(vals[i]) == TAG_C8 as int {
        spec_name_of(vals[i])
    } else {
        fallback_msg()
    }
}

/// The row count a table exposes: the length of its first column when that
/// column is a vector or list, otherwise 0.
pub open spec fn spec_table_count(cols: Seq<ObjT>) -> int {
    if cols.len() == 0 {
        0
    } else {
        match cols[0] {
            ObjT::List(elems) => elems@.len() as int,
            ObjT::Vector { elems, .. } => elems@.len() as int,
            _ => 0,
        }
    }
}

/// The materialized views of a sequence of engine values.
pub open spec fn spec_json_seq(elems: Seq<ObjT>) -> Seq<JsonV>
    decreases elems,
{
    if elems.len() == 0 {
        Seq::empty()
    } else {
        spec_json_seq(elems.subrange(0, elems.len() - 1)).push(
            spec_json(elems[elems.len() - 1]),
        )
    }
}

/// The single synthetic row a dict materializes to: one field per key, in
/// declared order, paired with the materialized value of the same index (or
/// null where the value is missing).
pub open spec fn dict_row_v(keys: Seq<ObjT>, jsons: Seq<JsonV>) -> Seq<(Seq<char>, JsonV)> {
    Seq::new(
        keys.len(),
        |i: int|
            (
                spec_name_of(keys[i]),
                if 0 <= i < jsons.len() {
                    jsons[i]
                } else {
                    JsonV::Null
                },
            ),
    )
}

/// The materialized view of an engine value: the recursive, tag-dispatched
/// conversion to the generic value tree. Boolean and integer-like atoms
/// become numeric leaves (a boolean as 0 or 1), symbols and characters
/// become string leaves, vectors and
/// lists become arrays, a dict becomes an object of its decoded keys, a
/// table becomes a summary object exposing its row count only, an error
/// becomes an object carrying its extracted message, and an unrecognized
/// tag becomes a diagnostic object exposing the raw tag.
pub open spec fn spec_json(v: ObjT) -> JsonV
    decreases v,
{
    match v {
        ObjT::Bool(b) => JsonV::Int(if b { 1 } else { 0 }),
        ObjT::Int { val, .. } => JsonV::Int(val as int),
        ObjT::Sym(name) => JsonV::Str(lossy_decode(name@)),
        ObjT::Float(bits) => JsonV::Float(bits),
        ObjT::Char(b) => JsonV::Str(seq![byte_char(b)]),
        ObjT::AtomOther(t) => JsonV::Obj(seq![("type"@, JsonV::Int(t as int))]),
        ObjT::List(elems) => JsonV::Arr(spec_json_seq(elems@)),
        ObjT::Vector { elems, .. } => JsonV::Arr(spec_json_seq(elems@)),
        ObjT::Table { cols, .. } => JsonV::Obj(
            seq![
                ("type"@, JsonV::Str("table"@)),
                ("rows"@, JsonV::Int(spec_table_count(cols@))),
            ],
        ),
        ObjT::Dict { keys, vals } => JsonV::Obj(dict_row_v(keys@, spec_json_seq(vals@))),
        ObjT::ErrObj { names, vals } => JsonV::Obj(
            seq![("error"@, JsonV::Str(spec_err_msg(names@, vals@)))],
        ),
        ObjT::NullObj => JsonV::Null,
        ObjT::Other(t) => JsonV::Obj(seq![("type"@, JsonV::Int(t as int))]),
    }
}

/// The materialized view of a sequence is the sequence of the members'
/// materialized views.
pub proof fn lemma_spec_json_seq(elems: Seq<ObjT>)
    ensures
        spec_json_seq(elems).len() == elems.len(),
        forall|i: int|
            0 <= i < elems.len() ==> #[trigger] spec_json_seq(elems)[i] == spec_json(elems[i]),
    decreases elems.len(),
{
    if elems.len() > 0 {
        let pre = elems.subrange(0, elems.len() - 1);
        lemma_spec_json_seq(pre);
        assert forall|i: int|
            0 <= i < elems.len() implies #[trigger] spec_json_seq(elems)[i] == spec_json(
            elems[i],
        ) by {
            if i < elems.len() - 1 {
                assert(pre[i] == elems[i]);
            }
        }
    }
}

/// Decodes a key value to its column or field name.
pub fn symbol_to_string(v: &ObjT) -> (r: String)
    ensures
        r@ == spec_name_of(*v),
{
    match v {
        ObjT::Sym(name) => utf8_lossy(name),
        ObjT::Char(b) => {
            let mut bytes: Vec<u8> = Vec::new();
            bytes.push(*b);
            assert(bytes@ =~= seq![*b]);
            utf8_lossy(&bytes)
        },
        ObjT::Vector { tag, elems } => {
            if *tag == TAG_C8 {
                let bytes = chars_to_bytes(elems);
                utf8_lossy(&bytes)
            } else {
                col_name(*tag)
            }
        },
        _ => col_name(v.tag()),
    }
}

/// Collects the string-data bytes of a character vector's elements.
fn chars_to_bytes(elems: &Vec<ObjT>) -> (r: Vec<u8>)
    ensures
        r@ == chars_bytes(elems@),
{
    let mut out: Vec<u8> = Vec::new();
    let mut k: usize = 0;
    while k < elems.len()
        invariant
            0 <= k <= elems@.len(),
            out@.len() == k,
            forall|i: int| 0 <= i < k ==> out@[i] == byte_of(#[trigger] elems@[i]),
        decreases elems@.len() - k,
    {
        let b = match &elems[k] {
            ObjT::Char(b) => *b,
            _ => 0,
        };
        out.push(b);
        k += 1;
    }
    assert(out@ =~= chars_bytes(elems@));
    out
}

/// Whether a field name is the message field's name.
pub(crate) fn is_msg_name(name: &Vec<u8>) -> (r: bool)
    ensures
        r == (name@ == msg_name()),
{
    let r = name.len() == 3 && name[0] == 109 && name[1] == 115 && name[2] == 103;
    proof {
        if r {
            assert(name@ =~= msg_name());
        } else {
            assert(name@ != msg_name());
        }
    }
    r
}

/// Extracts the human-readable message from an error value's fields:
/// best-effort, with the generic message when no string-data `msg` field is
/// present.
pub fn extract_error_message(names: &Vec<Vec<u8>>, vals: &Vec<ObjT>) -> (r: String)
    ensures
        r@ == spec_err_msg(names@, vals@),
{
    let mut k: usize = 0;
    while k < names.len()
        invariant
            0 <= k <= names@.len(),
            spec_find_from(names@, msg_name(), 0) == spec_find_from(
                names@,
                msg_name(),
                k as int,
            ),
        decreases names@.len() - k,
    {
        if is_msg_name(&names[k]) {
            assert(spec_find_from(names@, msg_name(), k as int) == k) by {
                reveal_with_fuel(spec_find_from, 2);
            }
            if k < vals.len() {
                if vals[k].tag() == TAG_C8 {
                    return symbol_to_string(&vals[k]);
                }
            }
            return String::from_str("Query execution error");
        }
        assert(spec_find_from(names@, msg_name(), k as int) == spec_find_from(
            names@,
            msg_name(),
            k + 1,
        )) by {
            reveal_with_fuel(spec_find_from, 2);
        }
        k += 1;
    }
    assert(spec_find_from(names@, msg_name(), k as int) == -1) by {
        reveal_with_fuel(spec_find_from, 2);
    }
    String::from_str("Query execution error")
}

/// The table row count, read from the first column.
pub fn table_count(cols: &Vec<ObjT>) -> (n: u64)
    ensures
        n as int == spec_table_count(cols@),
{
    if cols.len() == 0 {
        0
    } else {
        match &cols[0] {
            ObjT::List(elems) => elems.len() as u64,
            ObjT::Vector { elems, .. } => elems.len() as u64,
            _ => 0,
        }
    }
}

/// Builds the diagnostic object for an unrecognized tag.
fn diag_obj(t: i8) -> (r: JsonVal)
    ensures
        json_view(r) == JsonV::Obj(seq![("type"@, JsonV::Int(t as int))]),
{
    let mut fields: Row = Vec::new();
    fields.push((String::from_str("type"), JsonVal::Int(t as i64)));
    proof {
        lemma_json_view_fields(fields@);
        assert(json_view_fields(fields@) =~= seq![("type"@, JsonV::Int(t as int))]);
    }
    JsonVal::Obj(fields)
}

/// Materializes each element of a sequence of engine values.
fn json_seq(elems: &Vec<ObjT>) -> (r: Vec<JsonVal>)
    requires
        forall|i: int| 0 <= i < elems@.len() ==> wf_obj(#[trigger] elems@[i]),
    ensures
        json_view_seq(r@) == spec_json_seq(elems@),
    decreases elems,
{
    let mut out: Vec<JsonVal> = Vec::new();
    let mut k: usize = 0;
    while k < elems.len()
        invariant
            0 <= k <= elems@.len(),
            forall|i: int| 0 <= i < elems@.len() ==> wf_obj(#[trigger] elems@[i]),
            out@.len() == k,
            forall|i: int|
                0 <= i < k ==> json_view(#[trigger] out@[i]) == spec_json(elems@[i]),
        decreases elems@.len() - k,
    {
        let j = obj_to_json(&elems[k]);
        out.push(j);
        k += 1;
    }
    proof {
        lemma_json_view_seq(out@);
        lemma_spec_json_seq(elems@);
        assert(json_view_seq(out@) =~= spec_json_seq(elems@));
    }
    out
}

/// Builds the single synthetic row of a dict: each decoded key name mapped
/// to the materialized value of the same index, in declared order.
pub fn dict_to_row(keys: &Vec<ObjT>, vals: &Vec<ObjT>) -> (r: Row)
    requires
        forall|i: int| 0 <= i < vals@.len() ==> wf_obj(#[trigger] vals@[i]),
    ensures
        row_view(r) == dict_row_v(keys@, spec_json_seq(vals@)),
    decreases vals,
{
    let mut out: Row = Vec::new();
    let mut k: usize = 0;
    while k < keys.len()
        invariant
            0 <= k <= keys@.len(),
            forall|i: int| 0 <= i < vals@.len() ==> wf_obj(#[trigger] vals@[i]),
            out@.len() == k,
            forall|i: int| 0 <= i < k ==> (#[trigger] out@[i]).0@ == spec_name_of(keys@[i]),
            forall|i: int|
                0 <= i < k ==> json_view((#[trigger] out@[i]).1) == (
                if i < vals@.len() {
                    spec_json(vals@[i])
                } else {
                    JsonV::Null
                }),
        decreases keys@.len() - k,
    {
        let name = symbol_to_string(&keys[k]);
        let value = if k < vals.len() {
            obj_to_json(&vals[k])
        } else {
            JsonVal::Null
        };
        out.push((name, value));
        k += 1;
    }
    proof {
        lemma_json_view_fields(out@);
        lemma_spec_json_seq(vals@);
        assert(row_view(out) =~= dict_row_v(keys@, spec_json_seq(vals@)));
    }
    out
}

/// Materializes one engine value into the generic value tree.
pub fn obj_to_json(v: &ObjT) -> (r: JsonVal)
    requires
        wf_obj(*v),
    ensures
        json_view(r) == spec_json(*v),
    decreases v,
{
    match v {
        ObjT::Bool(b) => JsonVal::Int(
            if *b {
                1
            } else {
                0
            },
        ),
        ObjT::Int { val, .. } => JsonVal::Int(*val),
        ObjT::Sym(name) => JsonVal::Str(utf8_lossy(name)),
        ObjT::Float(bits) => JsonVal::Float(*bits),
        ObjT::Char(b) => JsonVal::Str(char_to_string(*b as char)),
        ObjT::AtomOther(t) => diag_obj(*t),
        ObjT::List(elems) => JsonVal::Arr(json_seq(elems)),
        ObjT::Vector { elems, .. } => JsonVal::Arr(json_seq(elems)),
        ObjT::Table { cols, .. } => {
            proof {
                if cols@.len() > 0 {
                    assert(wf_obj(cols@[0]));
                }
            }
            let n = table_count(cols);
            assert(n <= i64::MAX as u64);
            let mut fields: Row = Vec::new();
            fields.push((String::from_str("type"), JsonVal::Str(String::from_str("table"))));
            fields.push((String::from_str("rows"), JsonVal::Int(n as i64)));
            proof {
                lemma_json_view_fields(fields@);
                assert(json_view_fields(fields@) =~= seq![
                    ("type"@, JsonV::Str("table"@)),
                    ("rows"@, JsonV::Int(spec_table_count(cols@))),
                ]);
            }
            JsonVal::Obj(fields)
        },
        ObjT::Dict { keys, vals } => JsonVal::Obj(dict_to_row(keys, vals)),
        ObjT::ErrObj { names, vals } => {
            let msg = extract_error_message(names, vals);
            let mut fields: Row = Vec::new();
            fields.push((String::from_str("error"), JsonVal::Str(msg)));
            proof {
                lemma_json_view_fields(fields@);
                assert(json_view_fields(fields@) =~= seq![
                    ("error"@, JsonV::Str(spec_err_msg(names@, vals@))),
                ]);
            }
            JsonVal::Obj(fields)
        },
        ObjT::NullObj => JsonVal::Null,
        ObjT::Other(t) => diag_obj(*t),
    }
}

} // verus!
