use rayforce_bridge::json::JsonVal;
use rayforce_bridge::materialize::obj_to_json;
use rayforce_bridge::materialize::symbol_to_string;
use rayforce_bridge::obj::ObjT;

fn field(name: &str, value: JsonVal) -> (String, JsonVal) {
    (name.to_string(), value)
}

#[test]
fn atoms_become_leaves() {
    // A boolean is a numeric leaf: 1 for true, 0 for false.
    assert_eq!(obj_to_json(&ObjT::Bool(true)), JsonVal::Int(1));
    assert_eq!(obj_to_json(&ObjT::Bool(false)), JsonVal::Int(0));
    assert_eq!(obj_to_json(&ObjT::Int { tag: -5, val: -7 }), JsonVal::Int(-7));
    assert_eq!(obj_to_json(&ObjT::Int { tag: -7, val: 19000 }), JsonVal::Int(19000));
    let bits = 1.5f64.to_bits();
    assert_eq!(obj_to_json(&ObjT::Float(bits)), JsonVal::Float(bits));
    assert_eq!(obj_to_json(&ObjT::Char(b'A')), JsonVal::Str("A".to_string()));
    assert_eq!(obj_to_json(&ObjT::NullObj), JsonVal::Null);
}

#[test]
fn symbol_decodes_as_utf8() {
    let sym = ObjT::Sym(b"price".to_vec());
    assert_eq!(obj_to_json(&sym), JsonVal::Str("price".to_string()));
}

#[test]
fn invalid_utf8_is_replaced_not_failed() {
    let sym = ObjT::Sym(vec![0xff, 0xfe]);
    assert_eq!(
        obj_to_json(&sym),
        JsonVal::Str("\u{FFFD}\u{FFFD}".to_string())
    );
}

#[test]
fn vector_becomes_array() {
    let v = ObjT::Vector {
        tag: 5,
        elems: vec![ObjT::Int { tag: -5, val: 1 }, ObjT::Int { tag: -5, val: 2 }],
    };
    assert_eq!(
        obj_to_json(&v),
        JsonVal::Arr(vec![JsonVal::Int(1), JsonVal::Int(2)])
    );
}

#[test]
fn nested_list_recurses() {
    let v = ObjT::List(vec![
        ObjT::Bool(false),
        ObjT::List(vec![ObjT::Int { tag: -5, val: 9 }]),
    ]);
    assert_eq!(
        obj_to_json(&v),
        JsonVal::Arr(vec![
            JsonVal::Int(0),
            JsonVal::Arr(vec![JsonVal::Int(9)]),
        ])
    );
}

#[test]
fn table_becomes_row_count_summary() {
    let t = ObjT::Table {
        keys: vec![ObjT::Sym(b"a".to_vec())],
        cols: vec![ObjT::Vector {
            tag: 5,
            elems: vec![ObjT::Int { tag: -5, val: 1 }, ObjT::Int { tag: -5, val: 2 }],
        }],
    };
    assert_eq!(
        obj_to_json(&t),
        JsonVal::Obj(vec![
            field("type", JsonVal::Str("table".to_string())),
            field("rows", JsonVal::Int(2)),
        ])
    );
}

#[test]
fn dict_becomes_object_in_declared_order() {
    let d = ObjT::Dict {
        keys: vec![ObjT::Sym(b"b".to_vec()), ObjT::Sym(b"a".to_vec())],
        vals: vec![ObjT::Int { tag: -5, val: 2 }, ObjT::Int { tag: -5, val: 1 }],
    };
    assert_eq!(
        obj_to_json(&d),
        JsonVal::Obj(vec![
            field("b", JsonVal::Int(2)),
            field("a", JsonVal::Int(1)),
        ])
    );
}

#[test]
fn dict_with_missing_value_fills_null() {
    let d = ObjT::Dict {
        keys: vec![ObjT::Sym(b"a".to_vec()), ObjT::Sym(b"b".to_vec())],
        vals: vec![ObjT::Int { tag: -5, val: 1 }],
    };
    assert_eq!(
        obj_to_json(&d),
        JsonVal::Obj(vec![
            field("a", JsonVal::Int(1)),
            field("b", JsonVal::Null),
        ])
    );
}

#[test]
fn error_value_carries_extracted_message() {
    let e = ObjT::ErrObj {
        names: vec![b"msg".to_vec()],
        vals: vec![ObjT::Vector {
            tag: 12,
            elems: vec![ObjT::Char(b'n'), ObjT::Char(b'o')],
        }],
    };
    assert_eq!(
        obj_to_json(&e),
        JsonVal::Obj(vec![field("error", JsonVal::Str("no".to_string()))])
    );
}

#[test]
fn error_message_must_be_string_data() {
    // A `msg` field that is not string data falls back to the generic text.
    let e = ObjT::ErrObj {
        names: vec![b"msg".to_vec()],
        vals: vec![ObjT::Int { tag: -5, val: 3 }],
    };
    assert_eq!(
        obj_to_json(&e),
        JsonVal::Obj(vec![field(
            "error",
            JsonVal::Str("Query execution error".to_string()),
        )])
    );
}

#[test]
fn unrecognized_tag_becomes_diagnostic_object() {
    assert_eq!(
        obj_to_json(&ObjT::Other(100)),
        JsonVal::Obj(vec![field("type", JsonVal::Int(100))])
    );
    assert_eq!(
        obj_to_json(&ObjT::AtomOther(-11)),
        JsonVal::Obj(vec![field("type", JsonVal::Int(-11))])
    );
}

#[test]
fn key_names_decode_by_kind() {
    assert_eq!(symbol_to_string(&ObjT::Sym(b"size".to_vec())), "size");
    let c8 = ObjT::Vector {
        tag: 12,
        elems: vec![ObjT::Char(b'o'), ObjT::Char(b'k')],
    };
    assert_eq!(symbol_to_string(&c8), "ok");
    assert_eq!(symbol_to_string(&ObjT::Char(b'x')), "x");
    // Anything else falls back to a tag-derived name.
    assert_eq!(symbol_to_string(&ObjT::Bool(true)), "col_-1");
    assert_eq!(
        symbol_to_string(&ObjT::Vector { tag: 5, elems: vec![] }),
        "col_5"
    );
}
