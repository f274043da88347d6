//! Model of the engine's runtime-tagged values.
//!
//! Every engine value carries a dynamic type tag: negative tags are atoms,
//! tag 0 is a heterogeneous list, tags 1..=12 are homogeneous vectors of the
//! matching atom kind, and a few large tags mark tables, dicts, errors and
//! null. The bridge only ever reads a value's tag, its atom payload, its
//! elements, and its key/value columns, so those are exactly what the model
//! holds, as plain data. The process plumbing builds one of these trees from
//! each value the engine hands back; everything the bridge then does is a
//! function of the tree.

use vstd::prelude::*;

verus! {

/// Tag of a heterogeneous list.
pub const TAG_LIST: i8 = 0;
/// Tag of a boolean vector.
pub const TAG_B8: i8 = 1;
/// Tag of a byte vector.
pub const TAG_U8: i8 = 2;
/// Tag of a 16-bit integer vector.
pub const TAG_I16: i8 = 3;
/// Tag of a 32-bit integer vector.
pub const TAG_I32: i8 = 4;
/// Tag of a 64-bit integer vector.
pub const TAG_I64: i8 = 5;
/// Tag of a symbol vector.
pub const TAG_SYMBOL: i8 = 6;
/// Tag of a date vector.
pub const TAG_DATE: i8 = 7;
/// Tag of a time vector.
pub const TAG_TIME: i8 = 8;
/// Tag of a timestamp vector.
pub const TAG_TIMESTAMP: i8 = 9;
/// Tag of a 64-bit float vector.
pub const TAG_F64: i8 = 10;
/// Tag of a guid vector.
pub const TAG_GUID: i8 = 11;
/// Tag of a character (string data) vector.
pub const TAG_C8: i8 = 12;
/// Tag of a table.
pub const TAG_TABLE: i8 = 98;
/// Tag of a dict.
pub const TAG_DICT: i8 = 99;
/// Tag of a lambda value.
pub const TAG_LAMBDA: i8 = 100;
/// Tag of the null value.
pub const TAG_NULL: i8 = 126;
/// Tag of an error value.
pub const TAG_ERR: i8 = 127;

/// An engine value as the bridge reads it.
#[derive(Debug, PartialEq, Eq)]
pub enum ObjT {
    /// Boolean atom (tag -1).
    Bool(bool),
    /// Integer-like atom: one of the integer, date, time or timestamp tags
    /// (-2..=-5, -7..=-9), with its payload widened to 64 bits.
    Int { tag: i8, val: i64 },
    /// Symbol atom (tag -6): an interned name, held as its raw bytes.
    Sym(Vec<u8>),
    /// Float atom (tag -10), held as the raw bits of its 64-bit payload.
    Float(u64),
    /// Character atom (tag -12): one byte of string data.
    Char(u8),
    /// Any other atom (negative tag), e.g. a guid; only its tag is read.
    AtomOther(i8),
    /// Heterogeneous list (tag 0).
    List(Vec<ObjT>),
    /// Homogeneous vector (tags 1..=12) of atoms of tag `-tag`.
    Vector { tag: i8, elems: Vec<ObjT> },
    /// Table (tag 98): a key vector's elements and a column list's elements.
    Table { keys: Vec<ObjT>, cols: Vec<ObjT> },
    /// Dict (tag 99): parallel key and value elements.
    Dict { keys: Vec<ObjT>, vals: Vec<ObjT> },
    /// Error value (tag 127): a dict-like value with parallel field names
    /// (raw bytes) and field values.
    ErrObj { names: Vec<Vec<u8>>, vals: Vec<ObjT> },
    /// The null value (tag 126).
    NullObj,
    /// Any other non-atom tag, e.g. a lambda; only its tag is read.
    Other(i8),
}

/// The dynamic type tag of a value.
pub open spec fn tag_of(v: ObjT) -> int {
    match v {
        ObjT::Bool(_) => -1,
        ObjT::Int { tag, .. } => tag as int,
        ObjT::Sym(_) => -6,
        ObjT::Float(_) => -10,
        ObjT::Char(_) => -12,
        ObjT::AtomOther(t) => t as int,
        ObjT::List(_) => TAG_LIST as int,
        ObjT::Vector { tag, .. } => tag as int,
        ObjT::Table { .. } => TAG_TABLE as int,
        ObjT::Dict { .. } => TAG_DICT as int,
        ObjT::ErrObj { .. } => TAG_ERR as int,
        ObjT::NullObj => TAG_NULL as int,
        ObjT::Other(t) => t as int,
    }
}

/// Whether `t` is one of the integer-like atom tags carried by `ObjT::Int`.
pub open spec fn is_int_tag(t: int) -> bool {
    t == -2 || t == -3 || t == -4 || t == -5 || t == -7 || t == -8 || t == -9
}

/// Whether `t` is an atom tag with a dedicated variant of the model.
pub open spec fn is_known_atom_tag(t: int) -> bool {
    t == -1 || is_int_tag(t) || t == -6 || t == -10 || t == -12
}

/// Whether `t` is a non-atom tag with a dedicated variant of the model.
pub open spec fn is_known_composite_tag(t: int) -> bool {
    (TAG_LIST as int <= t <= TAG_C8 as int) || t == TAG_TABLE as int || t == TAG_DICT as int
        || t == TAG_NULL as int || t == TAG_ERR as int
}

/// Well-formedness of a modeled engine value: each variant carries the tags
/// it stands for, vectors are homogeneous, and every length fits the
/// engine's signed 64-bit counts.
pub open spec fn wf_obj(v: ObjT) -> bool
    decreases v,
{
    match v {
        ObjT::Bool(_) => true,
        ObjT::Int { tag, .. } => is_int_tag(tag as int),
        ObjT::Sym(_) => true,
        ObjT::Float(_) => true,
        ObjT::Char(_) => true,
        ObjT::AtomOther(t) => t < 0 && !is_known_atom_tag(t as int),
        ObjT::List(elems) => {
            &&& elems@.len() <= i64::MAX
            &&& forall|i: int| 0 <= i < elems@.len() ==> wf_obj(#[trigger] elems@[i])
        },
        ObjT::Vector { tag, elems } => {
            &&& TAG_B8 <= tag <= TAG_C8
            &&& elems@.len() <= i64::MAX
            &&& forall|i: int| 0 <= i < elems@.len() ==> wf_obj(#[trigger] elems@[i])
            &&& forall|i: int|
                0 <= i < elems@.len() ==> tag_of(#[trigger] elems@[i]) == -(tag as int)
        },
        ObjT::Table { keys, cols } => {
            &&& keys@.len() <= i64::MAX
            &&& cols@.len() <= i64::MAX
            &&& forall|i: int| 0 <= i < keys@.len() ==> wf_obj(#[trigger] keys@[i])
            &&& forall|i: int| 0 <= i < cols@.len() ==> wf_obj(#[trigger] cols@[i])
        },
        ObjT::Dict { keys, vals } => {
            &&& keys@.len() <= i64::MAX
            &&& vals@.len() <= i64::MAX
            &&& forall|i: int| 0 <= i < keys@.len() ==> wf_obj(#[trigger] keys@[i])
            &&& forall|i: int| 0 <= i < vals@.len() ==> wf_obj(#[trigger] vals@[i])
        },
        ObjT::ErrObj { names, vals } => {
            &&& names@.len() <= i64::MAX
            &&& vals@.len() <= i64::MAX
            &&& forall|i: int| 0 <= i < vals@.len() ==> wf_obj(#[trigger] vals@[i])
        },
        ObjT::NullObj => true,
        ObjT::Other(t) => t >= 0 && !is_known_composite_tag(t as int),
    }
}

impl ObjT {
    /// The value's dynamic type tag.
    pub fn tag(&self) -> (t: i8)
        ensures
            t as int == tag_of(*self),
    {
        match self {
            ObjT::Bool(_) => -1,
            ObjT::Int { tag, .. } => *tag,
            ObjT::Sym(_) => -6,
            ObjT::Float(_) => -10,
            ObjT::Char(_) => -12,
            ObjT::AtomOther(t) => *t,
            ObjT::List(_) => TAG_LIST,
            ObjT::Vector { tag, .. } => *tag,
            ObjT::Table { .. } => TAG_TABLE,
            ObjT::Dict { .. } => TAG_DICT,
            ObjT::ErrObj { .. } => TAG_ERR,
            ObjT::NullObj => TAG_NULL,
            ObjT::Other(t) => *t,
        }
    }

    /// Whether this is an error value.
    pub fn is_error(&self) -> (r: bool)
        ensures
            r == (tag_of(*self) == TAG_ERR as int),
    {
        self.tag() == TAG_ERR
    }

    /// Whether this is a table.
    pub fn is_table(&self) -> (r: bool)
        ensures
            r == (tag_of(*self) == TAG_TABLE as int),
    {
        self.tag() == TAG_TABLE
    }

    /// Whether this is a dict.
    pub fn is_dict(&self) -> (r: bool)
        ensures
            r == (tag_of(*self) == TAG_DICT as int),
    {
        self.tag() == TAG_DICT
    }

    /// Whether this is an atom (negative tag).
    pub fn is_atom(&self) -> (r: bool)
        ensures
            r == (tag_of(*self) < 0),
    {
        self.tag() < 0
    }

    /// Whether this is a vector or list (tags 0..=12).
    pub fn is_vector(&self) -> (r: bool)
        ensures
            r == (TAG_LIST as int <= tag_of(*self) <= TAG_C8 as int),
    {
        let t = self.tag();
        TAG_LIST <= t && t <= TAG_C8
    }

    /// Whether this is a heterogeneous list (tag 0).
    pub fn is_list(&self) -> (r: bool)
        ensures
            r == (tag_of(*self) == TAG_LIST as int),
    {
        self.tag() == TAG_LIST
    }

    /// Whether the value and everything under it is well-formed.
    pub fn wf(&self) -> (r: bool)
        ensures
            r == wf_obj(*self),
        decreases self,
    {
        match self {
            ObjT::Bool(_) => true,
            ObjT::Int { tag, .. } => {
                let t = *tag;
                t == -2 || t == -3 || t == -4 || t == -5 || t == -7 || t == -8 || t == -9
            },
            ObjT::Sym(_) => true,
            ObjT::Float(_) => true,
            ObjT::Char(_) => true,
            ObjT::AtomOther(t) => {
                let t = *t;
                t < 0 && !(t == -1 || t == -2 || t == -3 || t == -4 || t == -5 || t == -6
                    || t == -7 || t == -8 || t == -9 || t == -10 || t == -12)
            },
            ObjT::List(elems) => Self::wf_all(elems),
            ObjT::Vector { tag, elems } => {
                let t = *tag;
                if !(TAG_B8 <= t && t <= TAG_C8) {
                    false
                } else {
                    Self::wf_vector_elems(t, elems)
                }
            },
            ObjT::Table { keys, cols } => Self::wf_all(keys) && Self::wf_all(cols),
            ObjT::Dict { keys, vals } => Self::wf_all(keys) && Self::wf_all(vals),
            ObjT::ErrObj { names, vals } => {
                names.len() as u64 <= i64::MAX as u64 && Self::wf_all(vals)
            },
            ObjT::NullObj => true,
            ObjT::Other(t) => {
                let t = *t;
                t >= 0 && !(t <= 12 || t == TAG_TABLE || t == TAG_DICT || t == TAG_NULL
                    || t == TAG_ERR)
            },
        }
    }

    /// Whether every element of `elems` is well-formed, and the length fits
    /// the engine's signed 64-bit counts.
    fn wf_all(elems: &Vec<ObjT>) -> (r: bool)
        ensures
            r == (elems@.len() <= i64::MAX && forall|i: int|
                0 <= i < elems@.len() ==> wf_obj(#[trigger] elems@[i])),
        decreases elems,
    {
        if elems.len() as u64 > i64::MAX as u64 {
            return false;
        }
        let mut k: usize = 0;
        while k < elems.len()
            invariant
                0 <= k <= elems@.len(),
                elems@.len() <= i64::MAX,
                forall|i: int| 0 <= i < k ==> wf_obj(#[trigger] elems@[i]),
            decreases elems@.len() - k,
        {
            if !elems[k].wf() {
                return false;
            }
            k += 1;
        }
        true
    }

    /// Whether every element of a vector with tag `t` is a well-formed atom
    /// of tag `-t`, and the length fits the engine's signed 64-bit counts.
    fn wf_vector_elems(t: i8, elems: &Vec<ObjT>) -> (r: bool)
        requires
            TAG_B8 <= t <= TAG_C8,
        ensures
            r == ({
                &&& elems@.len() <= i64::MAX
                &&& forall|i: int| 0 <= i < elems@.len() ==> wf_obj(#[trigger] elems@[i])
                &&& forall|i: int|
                    0 <= i < elems@.len() ==> tag_of(#[trigger] elems@[i]) == -(t as int)
            }),
        decreases elems,
    {
        if elems.len() as u64 > i64::MAX as u64 {
            return false;
        }
        let mut k: usize = 0;
        while k < elems.len()
            invariant
                0 <= k <= elems@.len(),
                elems@.len() <= i64::MAX,
                TAG_B8 <= t <= TAG_C8,
                forall|i: int| 0 <= i < k ==> wf_obj(#[trigger] elems@[i]),
                forall|i: int| 0 <= i < k ==> tag_of(#[trigger] elems@[i]) == -(t as int),
            decreases elems@.len() - k,
        {
            if !elems[k].wf() {
                return false;
            }
            if elems[k].tag() != -t {
                return false;
            }
            k += 1;
        }
        true
    }
}

} // verus!
