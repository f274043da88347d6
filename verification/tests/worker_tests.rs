use rayforce_bridge::errors::BridgeError;
use rayforce_bridge::json::JsonVal;
use rayforce_bridge::meta::QueryMeta;
use rayforce_bridge::obj::ObjT;
use rayforce_bridge::worker::RayCommand;
use rayforce_bridge::worker::RayResponse;
use rayforce_bridge::worker::StepAction;
use rayforce_bridge::worker::WorkerState;

fn int_atom(val: i64) -> ObjT {
    ObjT::Int { tag: -5, val }
}

fn i64_vector(vals: &[i64]) -> ObjT {
    ObjT::Vector { tag: 5, elems: vals.iter().map(|v| int_atom(*v)).collect() }
}

fn execute(state: &mut WorkerState, id: &str, value: ObjT) -> Result<QueryMeta, BridgeError> {
    let action = state.step(RayCommand::Execute {
        query_id: id.to_string(),
        code: "(src)".to_string(),
    });
    match action {
        StepAction::NeedEval { .. } => match state.finish_execute(Some(value)) {
            RayResponse::QueryResult(r) => r,
            other => panic!("unexpected response: {:?}", other),
        },
        StepAction::Reply(RayResponse::QueryResult(r)) => r,
        other => panic!("unexpected action: {:?}", other),
    }
}

#[test]
fn roundtrip_integer_vector() {
    let mut state = WorkerState::new();
    let meta = execute(&mut state, "q1", i64_vector(&[0, 1, 2, 3, 4])).unwrap();
    assert_eq!(meta.result_type, "vector");
    assert_eq!(meta.row_count, 5);
    assert_eq!(meta.columns, vec!["value".to_string()]);
    let h = meta.handle;

    let rows = state.get_rows(h, 0, 5).unwrap();
    assert_eq!(rows.len(), 5);
    for (i, row) in rows.iter().enumerate() {
        assert_eq!(row.len(), 1);
        assert_eq!(row[0].0, "value");
        assert_eq!(row[0].1, JsonVal::Int(i as i64));
    }

    assert!(state.release(h));
    assert_eq!(state.get_rows(h, 0, 5), Err(BridgeError::InvalidHandle(h)));
}

#[test]
fn handles_strictly_increase_and_are_not_reused() {
    let mut state = WorkerState::new();
    let h1 = execute(&mut state, "a", int_atom(1)).unwrap().handle;
    let h2 = execute(&mut state, "b", int_atom(2)).unwrap().handle;
    assert!(h1 < h2);
    assert!(state.release(h1));
    let h3 = execute(&mut state, "c", int_atom(3)).unwrap().handle;
    assert!(h3 > h2);
    assert_ne!(h3, h1);
    assert_eq!((h1, h2, h3), (1, 2, 3));
}

#[test]
fn cancel_before_execute_suppresses_it() {
    let mut state = WorkerState::new();
    let action = state.step(RayCommand::Cancel { query_id: "q9".to_string() });
    assert_eq!(action, StepAction::Reply(RayResponse::Cancelled));

    let action = state.step(RayCommand::Execute {
        query_id: "q9".to_string(),
        code: "(work)".to_string(),
    });
    assert_eq!(
        action,
        StepAction::Reply(RayResponse::QueryResult(Err(BridgeError::Cancelled)))
    );

    // The cancellation is consumed: the same id now executes normally.
    let meta = execute(&mut state, "q9", int_atom(7)).unwrap();
    assert_eq!(meta.result_type, "scalar");
    assert_eq!(meta.handle, 1);
}

#[test]
fn cancel_of_other_id_does_not_interfere() {
    let mut state = WorkerState::new();
    state.step(RayCommand::Cancel { query_id: "other".to_string() });
    let meta = execute(&mut state, "mine", int_atom(7)).unwrap();
    assert_eq!(meta.handle, 1);
}

#[test]
fn release_twice_is_not_an_error() {
    let mut state = WorkerState::new();
    let h = execute(&mut state, "q", int_atom(5)).unwrap().handle;
    assert!(state.release(h));
    assert!(!state.release(h));
    assert_eq!(state.get_rows(h, 0, 1), Err(BridgeError::InvalidHandle(h)));
}

#[test]
fn get_rows_past_end_is_empty_not_error() {
    let mut state = WorkerState::new();
    let h = execute(&mut state, "q", i64_vector(&[10, 20, 30])).unwrap().handle;
    assert_eq!(state.get_rows(h, 3, 5).unwrap(), Vec::<Vec<(String, JsonVal)>>::new());
    assert_eq!(state.get_rows(h, 100, 1).unwrap().len(), 0);
}

#[test]
fn get_rows_overshooting_window_is_clamped() {
    let mut state = WorkerState::new();
    let h = execute(&mut state, "q", i64_vector(&[10, 20, 30])).unwrap().handle;
    let rows = state.get_rows(h, 1, 10).unwrap();
    assert_eq!(rows.len(), 2);
    assert_eq!(rows[0][0].1, JsonVal::Int(20));
    assert_eq!(rows[1][0].1, JsonVal::Int(30));
}

#[test]
fn shutdown_releases_every_handle() {
    let mut state = WorkerState::new();
    let h1 = execute(&mut state, "a", int_atom(1)).unwrap().handle;
    let h2 = execute(&mut state, "b", i64_vector(&[1, 2])).unwrap().handle;
    let action = state.step(RayCommand::Shutdown);
    match action {
        StepAction::Stop { released } => {
            assert_eq!(released, vec![h1, h2]);
        }
        other => panic!("unexpected action: {:?}", other),
    }
    assert_eq!(state.get_rows(h1, 0, 1), Err(BridgeError::InvalidHandle(h1)));
    assert_eq!(state.get_rows(h2, 0, 1), Err(BridgeError::InvalidHandle(h2)));
}

#[test]
fn null_outcome_fails_the_call() {
    let mut state = WorkerState::new();
    let action = state.step(RayCommand::Execute {
        query_id: "q".to_string(),
        code: "()".to_string(),
    });
    assert!(matches!(action, StepAction::NeedEval { .. }));
    match state.finish_execute(None) {
        RayResponse::QueryResult(Err(BridgeError::EvaluationError(msg))) => {
            assert_eq!(msg, "evaluation returned nothing");
        }
        other => panic!("unexpected response: {:?}", other),
    }
    // Nothing was allocated: the next result still gets handle 1.
    assert_eq!(execute(&mut state, "q", int_atom(1)).unwrap().handle, 1);
}

#[test]
fn error_value_fails_the_call_with_its_message() {
    let mut state = WorkerState::new();
    let boom = ObjT::ErrObj {
        names: vec![b"code".to_vec(), b"msg".to_vec()],
        vals: vec![
            int_atom(3),
            ObjT::Vector {
                tag: 12,
                elems: vec![ObjT::Char(b'b'), ObjT::Char(b'o'), ObjT::Char(b'o'), ObjT::Char(b'm')],
            },
        ],
    };
    let err = execute(&mut state, "q", boom).unwrap_err();
    assert_eq!(err, BridgeError::EvaluationError("boom".to_string()));
    // No handle was allocated for the error value.
    assert_eq!(execute(&mut state, "q", int_atom(1)).unwrap().handle, 1);
}

#[test]
fn error_value_without_message_gets_the_generic_one() {
    let mut state = WorkerState::new();
    let bare = ObjT::ErrObj { names: vec![], vals: vec![] };
    let err = execute(&mut state, "q", bare).unwrap_err();
    assert_eq!(
        err,
        BridgeError::EvaluationError("Query execution error".to_string())
    );
}

#[test]
fn source_with_embedded_null_is_rejected() {
    let mut state = WorkerState::new();
    let action = state.step(RayCommand::Execute {
        query_id: "q".to_string(),
        code: "(til\0 5)".to_string(),
    });
    assert_eq!(
        action,
        StepAction::Reply(RayResponse::QueryResult(Err(BridgeError::InvalidInput)))
    );
}

#[test]
fn release_command_reports_whether_a_value_was_held() {
    let mut state = WorkerState::new();
    let h = execute(&mut state, "q", int_atom(5)).unwrap().handle;
    let action = state.step(RayCommand::Release { handle: h });
    assert_eq!(action, StepAction::Reply(RayResponse::Released(true)));
    let action = state.step(RayCommand::Release { handle: h });
    assert_eq!(action, StepAction::Reply(RayResponse::Released(false)));
}

#[test]
fn get_rows_on_stored_null_value_is_unsupported() {
    let mut state = WorkerState::new();
    let h = execute(&mut state, "q", ObjT::NullObj).unwrap().handle;
    assert_eq!(state.get_rows(h, 0, 1), Err(BridgeError::UnsupportedType(126)));
}

#[test]
fn scalar_row_is_served_at_offset_zero_only() {
    let mut state = WorkerState::new();
    let h = execute(&mut state, "q", int_atom(42)).unwrap().handle;
    let rows = state.get_rows(h, 0, 1).unwrap();
    assert_eq!(rows.len(), 1);
    assert_eq!(rows[0][0], ("value".to_string(), JsonVal::Int(42)));
    assert_eq!(state.get_rows(h, 1, 1).unwrap().len(), 0);
    assert_eq!(state.get_rows(h, 0, 0).unwrap().len(), 0);
}
