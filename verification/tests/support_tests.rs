use rayforce_bridge::errors::BridgeError;
use rayforce_bridge::poll::OptionT;
use rayforce_bridge::poll::PollEvents;
use rayforce_bridge::poll::SelectorType;
use rayforce_bridge::poll::POLL_ERROR;
use rayforce_bridge::poll::POLL_READ;
use rayforce_bridge::poll::POLL_WRITE;
use rayforce_bridge::json::JsonVal;
use rayforce_bridge::lifecycle::LifeState;
use rayforce_bridge::meta::QueryMeta;
use rayforce_bridge::obj::ObjT;
use rayforce_bridge::scalar::ScalarResult;
use rayforce_bridge::scalar::scalar_result;
use rayforce_bridge::text::col_name;
use rayforce_bridge::text::i64_to_dec;
use rayforce_bridge::text::u64_to_dec;
use rayforce_bridge::text::utf8_lossy;

#[test]
fn decimal_rendering_is_exact() {
    assert_eq!(u64_to_dec(0), "0");
    assert_eq!(u64_to_dec(7), "7");
    assert_eq!(u64_to_dec(10), "10");
    assert_eq!(u64_to_dec(90210), "90210");
    assert_eq!(u64_to_dec(u64::MAX), "18446744073709551615");
    assert_eq!(i64_to_dec(-1), "-1");
    assert_eq!(i64_to_dec(-128), "-128");
    assert_eq!(i64_to_dec(i64::MIN), "-9223372036854775808");
    assert_eq!(i64_to_dec(42), "42");
    assert_eq!(col_name(-6), "col_-6");
    assert_eq!(col_name(11), "col_11");
}

#[test]
fn lossy_decoding_replaces_invalid_bytes() {
    assert_eq!(utf8_lossy(&b"plain".to_vec()), "plain");
    assert_eq!(utf8_lossy(&vec![]), "");
    assert_eq!(utf8_lossy(&vec![b'a', 0x80, b'b']), "a\u{FFFD}b");
    // Multi-byte sequences pass through.
    assert_eq!(utf8_lossy(&"héllo".as_bytes().to_vec()), "héllo");
}

#[test]
fn error_messages_are_rendered() {
    assert_eq!(
        BridgeError::InvalidHandle(42).message(),
        "Invalid handle: 42"
    );
    assert_eq!(
        BridgeError::UnsupportedType(-11).message(),
        "Unsupported type: -11"
    );
    assert_eq!(BridgeError::Cancelled.message(), "Query cancelled");
    assert_eq!(BridgeError::InvalidInput.message(), "Invalid query string");
    assert_eq!(
        BridgeError::EvaluationError("lost".to_string()).message(),
        "lost"
    );
    assert_eq!(
        BridgeError::ChannelClosed.message(),
        "Rayforce thread unavailable"
    );
}

#[test]
fn lifecycle_starts_once_and_stops_for_good() {
    let s = LifeState::new();
    assert_eq!(s, LifeState::NotStarted);
    assert!(!s.is_running());
    let (s, spawn) = s.on_start();
    assert_eq!(s, LifeState::Running);
    assert!(spawn);
    assert!(s.is_running());
    let (s, spawn) = s.on_start();
    assert_eq!(s, LifeState::Running);
    assert!(!spawn);
    let s = s.on_shutdown();
    assert_eq!(s, LifeState::Stopped);
    assert!(!s.is_running());
}

fn meta_of(result_type: &str, handle: u64, row_count: u64) -> QueryMeta {
    QueryMeta {
        handle,
        columns: vec!["value".to_string()],
        column_types: vec![],
        row_count,
        result_type: result_type.to_string(),
    }
}

#[test]
fn scalar_shortcut_takes_the_first_field_of_the_first_row() {
    let row = vec![("value".to_string(), JsonVal::Int(9))];
    let r = scalar_result(&meta_of("scalar", 1, 1), Some(row));
    assert_eq!(
        r,
        ScalarResult { value: JsonVal::Int(9), result_type: "scalar".to_string() }
    );
}

#[test]
fn scalar_shortcut_on_vector_takes_its_first_value() {
    let row = vec![("value".to_string(), JsonVal::Int(0))];
    let r = scalar_result(&meta_of("vector", 1, 5), Some(row));
    assert_eq!(
        r,
        ScalarResult { value: JsonVal::Int(0), result_type: "vector".to_string() }
    );
}

#[test]
fn scalar_shortcut_without_a_row_is_null() {
    let r = scalar_result(&meta_of("scalar", 1, 1), None);
    assert_eq!(r.value, JsonVal::Null);
    assert_eq!(r.result_type, "scalar");
}

#[test]
fn scalar_shortcut_on_table_reports_the_row_count() {
    let r = scalar_result(&meta_of("table", 1, 250), None);
    assert_eq!(
        r,
        ScalarResult {
            value: JsonVal::Obj(vec![("rowCount".to_string(), JsonVal::Int(250))]),
            result_type: "table".to_string(),
        }
    );
}

#[test]
fn tag_predicates_follow_the_tag() {
    let table = ObjT::Table { keys: vec![], cols: vec![] };
    assert!(table.is_table());
    assert!(!table.is_atom());
    assert!(!table.is_vector());
    let atom = ObjT::Int { tag: -5, val: 1 };
    assert!(atom.is_atom());
    assert!(!atom.is_vector());
    assert_eq!(atom.tag(), -5);
    let list = ObjT::List(vec![]);
    assert!(list.is_list());
    assert!(list.is_vector());
    let err = ObjT::ErrObj { names: vec![], vals: vec![] };
    assert!(err.is_error());
    assert_eq!(err.tag(), 127);
    let dict = ObjT::Dict { keys: vec![], vals: vec![] };
    assert!(dict.is_dict());
    assert!(ObjT::Vector { tag: 12, elems: vec![] }.is_vector());
    assert!(ObjT::NullObj.wf());
    assert!(!ObjT::Other(98).wf());
    assert!(!ObjT::Vector { tag: 5, elems: vec![ObjT::Bool(true)] }.wf());
}

#[test]
fn poll_values_are_plain_data() {
    assert_eq!(SelectorType::Stdin.code(), 0);
    assert_eq!(SelectorType::Stdout.code(), 1);
    assert_eq!(SelectorType::Stderr.code(), 2);
    assert_eq!(SelectorType::Socket.code(), 3);
    assert_eq!(SelectorType::File.code(), 4);
    let rw = PollEvents(POLL_READ).union(PollEvents(POLL_WRITE));
    assert_eq!(rw, PollEvents(5));
    assert!(rw.contains(PollEvents(POLL_READ)));
    assert!(!rw.contains(PollEvents(POLL_ERROR)));
    assert_eq!(OptionT { ok: 1, value: 9 }.as_option(), Some(9));
    assert_eq!(OptionT { ok: 0, value: 9 }.as_option(), None);
}
