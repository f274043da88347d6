use rayforce_bridge::json::JsonVal;
use rayforce_bridge::obj::TAG_B8;
use rayforce_bridge::obj::TAG_GUID;
use rayforce_bridge::obj::TAG_SYMBOL;
use rayforce_bridge::meta::extract_query_meta;
use rayforce_bridge::obj::ObjT;
use rayforce_bridge::rows::get_table_rows;
use rayforce_bridge::rows::rows_of_value;

fn sym(name: &str) -> ObjT {
    ObjT::Sym(name.as_bytes().to_vec())
}

fn ints(vals: &[i64]) -> ObjT {
    ObjT::Vector {
        tag: 5,
        elems: vals.iter().map(|v| ObjT::Int { tag: -5, val: *v }).collect(),
    }
}

fn sample_table() -> ObjT {
    ObjT::Table {
        keys: vec![sym("id"), sym("qty")],
        cols: vec![ints(&[1, 2, 3]), ints(&[10, 20, 30])],
    }
}

#[test]
fn table_meta_lists_columns_and_first_column_rows() {
    let meta = extract_query_meta(7, &sample_table());
    assert_eq!(meta.handle, 7);
    assert_eq!(meta.result_type, "table");
    assert_eq!(meta.columns, vec!["id".to_string(), "qty".to_string()]);
    assert_eq!(meta.column_types, vec![]);
    assert_eq!(meta.row_count, 3);
}

#[test]
fn dict_meta_has_one_row() {
    let d = ObjT::Dict {
        keys: vec![sym("k1"), sym("k2")],
        vals: vec![ObjT::Bool(true), ObjT::Int { tag: -5, val: 2 }],
    };
    let meta = extract_query_meta(1, &d);
    assert_eq!(meta.result_type, "dict");
    assert_eq!(meta.columns, vec!["k1".to_string(), "k2".to_string()]);
    assert_eq!(meta.row_count, 1);
}

#[test]
fn scalar_meta_has_value_column_and_one_row() {
    let meta = extract_query_meta(1, &ObjT::Int { tag: -5, val: 3 });
    assert_eq!(meta.result_type, "scalar");
    assert_eq!(meta.columns, vec!["value".to_string()]);
    assert_eq!(meta.row_count, 1);
}

#[test]
fn list_meta_counts_elements() {
    let meta = extract_query_meta(1, &ObjT::List(vec![ObjT::Bool(true), ObjT::NullObj]));
    assert_eq!(meta.result_type, "list");
    assert_eq!(meta.columns, vec!["value".to_string()]);
    assert_eq!(meta.row_count, 2);
}

#[test]
fn unknown_tag_meta_is_empty() {
    let meta = extract_query_meta(1, &ObjT::Other(100));
    assert_eq!(meta.result_type, "unknown");
    assert_eq!(meta.columns, Vec::<String>::new());
    assert_eq!(meta.row_count, 0);
}

#[test]
fn empty_table_meta_has_zero_rows() {
    let t = ObjT::Table { keys: vec![], cols: vec![] };
    let meta = extract_query_meta(1, &t);
    assert_eq!(meta.result_type, "table");
    assert_eq!(meta.columns, Vec::<String>::new());
    assert_eq!(meta.row_count, 0);
}

#[test]
fn table_rows_map_each_column_in_declared_order() {
    let rows = get_table_rows(
        &[sym("id"), sym("qty")].into_iter().collect(),
        &[ints(&[1, 2, 3]), ints(&[10, 20, 30])].into_iter().collect(),
        1,
        2,
    );
    assert_eq!(rows.len(), 2);
    assert_eq!(
        rows[0],
        vec![
            ("id".to_string(), JsonVal::Int(2)),
            ("qty".to_string(), JsonVal::Int(20)),
        ]
    );
    assert_eq!(
        rows[1],
        vec![
            ("id".to_string(), JsonVal::Int(3)),
            ("qty".to_string(), JsonVal::Int(30)),
        ]
    );
}

#[test]
fn ragged_table_column_reads_null_past_its_end() {
    let t_keys = vec![sym("a"), sym("b")];
    let t_cols = vec![ints(&[1, 2]), ints(&[10])];
    let rows = get_table_rows(&t_keys, &t_cols, 0, 2);
    assert_eq!(rows.len(), 2);
    assert_eq!(rows[1][0].1, JsonVal::Int(2));
    assert_eq!(rows[1][1].1, JsonVal::Null);
}

#[test]
fn table_with_more_keys_than_columns_skips_the_extras() {
    let t_keys = vec![sym("a"), sym("b")];
    let t_cols = vec![ints(&[1])];
    let rows = get_table_rows(&t_keys, &t_cols, 0, 1);
    assert_eq!(rows.len(), 1);
    assert_eq!(rows[0].len(), 1);
    assert_eq!(rows[0][0].0, "a");
}

#[test]
fn float_vector_window_uses_raw_bits() {
    let bits: Vec<u64> = vec![0.5f64.to_bits(), 2.25f64.to_bits()];
    let v = ObjT::Vector {
        tag: 10,
        elems: bits.iter().map(|b| ObjT::Float(*b)).collect(),
    };
    let rows = rows_of_value(&v, 0, 2).unwrap();
    assert_eq!(rows[0][0].1, JsonVal::Float(bits[0]));
    assert_eq!(rows[1][0].1, JsonVal::Float(bits[1]));
}

#[test]
fn char_vector_window_serves_one_character_strings() {
    let v = ObjT::Vector {
        tag: 12,
        elems: vec![ObjT::Char(b'h'), ObjT::Char(b'i')],
    };
    let rows = rows_of_value(&v, 0, 5).unwrap();
    assert_eq!(rows.len(), 2);
    assert_eq!(rows[0][0].1, JsonVal::Str("h".to_string()));
    assert_eq!(rows[1][0].1, JsonVal::Str("i".to_string()));
}

#[test]
fn dict_serves_one_synthetic_row_at_offset_zero() {
    let d = ObjT::Dict {
        keys: vec![sym("x"), sym("y")],
        vals: vec![ObjT::Int { tag: -5, val: 1 }, ObjT::Bool(false)],
    };
    let rows = rows_of_value(&d, 0, 10).unwrap();
    assert_eq!(rows.len(), 1);
    assert_eq!(
        rows[0],
        vec![
            ("x".to_string(), JsonVal::Int(1)),
            ("y".to_string(), JsonVal::Int(0)),
        ]
    );
    assert_eq!(rows_of_value(&d, 1, 10).unwrap().len(), 0);
}

#[test]
fn table_window_past_end_is_empty() {
    let rows = rows_of_value(&sample_table(), 3, 2).unwrap();
    assert_eq!(rows.len(), 0);
}

#[test]
fn empty_vector_has_zero_rows_and_serves_none() {
    let v = ints(&[]);
    let meta = extract_query_meta(1, &v);
    assert_eq!(meta.result_type, "vector");
    assert_eq!(meta.row_count, 0);
    assert_eq!(rows_of_value(&v, 0, 10).unwrap().len(), 0);
}

#[test]
fn boolean_vector_serves_boolean_rows() {
    let v = ObjT::Vector { tag: TAG_B8, elems: vec![ObjT::Bool(true), ObjT::Bool(false)] };
    let rows = rows_of_value(&v, 0, 2).unwrap();
    assert_eq!(rows[0][0].1, JsonVal::Int(1));
    assert_eq!(rows[1][0].1, JsonVal::Int(0));
}

#[test]
fn guid_atom_is_a_scalar_with_diagnostic_value() {
    let v = ObjT::AtomOther(-(TAG_GUID));
    let meta = extract_query_meta(1, &v);
    assert_eq!(meta.result_type, "scalar");
    assert_eq!(meta.row_count, 1);
    let rows = rows_of_value(&v, 0, 1).unwrap();
    assert_eq!(
        rows[0][0].1,
        JsonVal::Obj(vec![("type".to_string(), JsonVal::Int(-11))])
    );
}

#[test]
fn symbol_vector_serves_decoded_strings() {
    let v = ObjT::Vector {
        tag: TAG_SYMBOL,
        elems: vec![ObjT::Sym(b"ask".to_vec()), ObjT::Sym(b"bid".to_vec())],
    };
    let rows = rows_of_value(&v, 0, 2).unwrap();
    assert_eq!(rows[0][0].1, JsonVal::Str("ask".to_string()));
    assert_eq!(rows[1][0].1, JsonVal::Str("bid".to_string()));
}
