use cmd_utils::{classify_exit, spawn_outcome, ChildError, CmdSpawnError, ExitState, UNKNOWN_PROGRAM};

fn failed(code: Option<i32>) -> ExitState {
    ExitState { success: false, code }
}

#[test]
fn cmd_spawn_success() {
    let status = ExitState { success: true, code: Some(0) };
    assert!(classify_exit(Some("test".to_string()), status).is_ok());
    assert!(spawn_outcome(Some("test".to_string()), Ok(status)).is_ok());
}

#[test]
fn cmd_spawn_child_error() {
    let program = "test";
    match spawn_outcome(Some(program.to_string()), Ok(failed(Some(1)))) {
        Ok(_) => panic!("should not have succeded"),
        Err(e) => match e {
            CmdSpawnError::IO(e) => panic!("{}", e),
            CmdSpawnError::ChildError(e) => {
                assert_eq!(e.program, program.to_owned());
                assert_eq!(e.code, Some(1 as i32));
            }
        },
    }
}

#[test]
fn child_error_without_program_name_uses_fallback() {
    let e = classify_exit(None, failed(Some(2))).unwrap_err();
    assert_eq!(e.program, UNKNOWN_PROGRAM);
    assert_eq!(e.program, "unknwown");
    assert_eq!(e.code, Some(2));
}

#[test]
fn child_error_after_signal_has_no_code() {
    let e = classify_exit(Some("sleep".to_string()), failed(None)).unwrap_err();
    assert_eq!(e.code, None);
    assert_eq!(e.message(), "program \"sleep\" failed with status code unknown");
}

#[test]
fn classification_is_repeatable() {
    let first = classify_exit(Some("false".to_string()), failed(Some(1))).unwrap_err();
    let second = classify_exit(Some("false".to_string()), failed(Some(1))).unwrap_err();
    assert_eq!(first.program, second.program);
    assert_eq!(first.code, second.code);
    let ok = ExitState { success: true, code: Some(0) };
    assert!(classify_exit(Some("true".to_string()), ok).is_ok());
    assert!(classify_exit(Some("true".to_string()), ok).is_ok());
}

#[test]
fn child_error_message_formats_code() {
    let msg = |code: Option<i32>| ChildError { program: "p".to_string(), code }.message();
    assert_eq!(msg(Some(1)), "program \"p\" failed with status code 1");
    assert_eq!(msg(Some(0)), "program \"p\" failed with status code 0");
    assert_eq!(msg(Some(255)), "program \"p\" failed with status code 255");
    assert_eq!(msg(Some(-15)), "program \"p\" failed with status code -15");
    assert_eq!(msg(Some(i32::MIN)), "program \"p\" failed with status code -2147483648");
    assert_eq!(msg(Some(i32::MAX)), "program \"p\" failed with status code 2147483647");
}

#[test]
fn io_failure_is_passed_on() {
    let err = std::io::Error::new(std::io::ErrorKind::NotFound, "no such program");
    match spawn_outcome(Some("missing".to_string()), Err(err)) {
        Err(CmdSpawnError::IO(e)) => {
            assert_eq!(e.kind(), std::io::ErrorKind::NotFound);
            let wrapped = CmdSpawnError::IO(e);
            assert_eq!(wrapped.message(), "command IO error no such program");
        }
        _ => panic!("expected an I/O failure"),
    }
}

#[test]
fn child_failure_message() {
    let e = CmdSpawnError::ChildError(ChildError { program: "test".to_string(), code: Some(1) });
    assert_eq!(e.message(), "child program \"test\" failed with status code 1");
}
