use cargo_valgrind::classify::classify;
use cargo_valgrind::valgrind::{report_from_document, settle, valgrind_flags, waits_for_report, Error as RunError, Exit};
use cargo_valgrind::decode::{DecodeError, OutputElement};
use cargo_valgrind::xml::{Error, Frame, Kind, Output, ProtocolVersion, Resources, Stack, Tool};

fn frame(ip: u64, function: Option<&str>, file: Option<&str>, line: Option<usize>) -> Frame {
    Frame {
        instruction_pointer: ip,
        object: None,
        directory: None,
        function: function.map(String::from),
        file: file.map(String::from),
        line,
    }
}

fn finding(kind: Kind, bytes: usize, blocks: usize) -> Error {
    Error {
        unique: 0,
        kind,
        resources: Resources { bytes, blocks },
        main_info: Some("what happened".into()),
        auxiliary_info: vec![],
        stack_trace: vec![Stack {
            frames: vec![
                frame(0x10, Some("realloc"), Some("alloc.rs"), Some(125)),
                frame(0x20, None, None, None),
            ],
        }],
    }
}

fn report(errors: Vec<Error>) -> Output {
    Output {
        protocol_version: ProtocolVersion::Version4,
        tool: Tool::MemCheck,
        errors,
    }
}

#[test]
fn empty_leaks_are_dropped_and_nothing_else() {
    let classified = classify(report(vec![
        finding(Kind::LeakStillReachable, 0, 0),
        finding(Kind::LeakDefinitelyLost, 15, 1),
        finding(Kind::InvalidRead, 0, 0),
        finding(Kind::LeakPossiblyLost, 0, 2),
        finding(Kind::LeakIndirectlyLost, 24, 1),
    ]));
    assert_eq!(classified.leaks.len(), 3);
    assert_eq!(classified.errors.len(), 1);
    assert_eq!(classified.errors[0].kind, Kind::InvalidRead);
    assert_eq!(classified.total_bytes, 39);
    assert_eq!(classified.leaks[0].leaked_bytes(), 15);
    assert_eq!(classified.leaks[0].leaked_blocks(), 1);
    assert_eq!(classified.leaks[0].leak_kind(), Kind::LeakDefinitelyLost);
    assert_eq!(classified.leaks[1].leaked_bytes(), 0);
    assert_eq!(classified.leaks[1].leaked_blocks(), 2);
    assert_eq!(classified.leaks[2].leak_kind(), Kind::LeakIndirectlyLost);
}

#[test]
fn clean_report_classifies_empty() {
    let classified = classify(report(vec![]));
    assert!(classified.leaks.is_empty());
    assert!(classified.errors.is_empty());
    assert_eq!(classified.total_bytes, 0);
}

#[test]
fn invalid_free_is_kept_among_errors() {
    let mut free = finding(Kind::InvalidFree, 0, 0);
    free.main_info = Some("Invalid free() / delete / delete[] / realloc()".into());
    let classified = classify(report(vec![free.clone(), finding(Kind::LeakDefinitelyLost, 8, 1)]));
    assert_eq!(classified.errors, vec![free]);
    assert_eq!(classified.leaks.len(), 1);
}

#[test]
fn leak_trace_lists_the_functions_of_the_main_trace() {
    let classified = classify(report(vec![finding(Kind::LeakDefinitelyLost, 4, 1)]));
    let trace = classified.leaks[0].back_trace();
    assert_eq!(trace.len(), 2);
    assert_eq!(trace[0].name(), Some("realloc"));
    assert_eq!(trace[0].file(), Some("alloc.rs"));
    assert_eq!(trace[0].line(), Some(125));
    assert_eq!(trace[0].to_text(), "realloc (alloc.rs:125)");
    assert_eq!(trace[1].name(), None);
    assert_eq!(trace[1].to_text(), "unknown");
}

#[test]
fn function_text_leaves_out_what_is_unknown() {
    let f = frame(1, Some("main"), Some("main.rs"), None);
    assert_eq!(cargo_valgrind::Function::from_frame(&f).to_text(), "main (main.rs)");
    let f = frame(1, None, Some("lib.rs"), Some(7));
    assert_eq!(cargo_valgrind::Function::from_frame(&f).to_text(), "unknown (lib.rs:7)");
}

#[test]
fn valgrind_gets_its_flags_before_the_command() {
    let flags = valgrind_flags("127.0.0.1:4000", Some("--leak-check=full -q"), &vec!["/tmp/rust.supp".to_string()]);
    assert_eq!(
        flags,
        vec![
            "--xml=yes",
            "--xml-socket=127.0.0.1:4000",
            "--suppressions=/tmp/rust.supp",
            "--leak-check=full",
            "-q",
        ]
    );
    let flags = valgrind_flags("127.0.0.1:1", None, &vec![]);
    assert_eq!(flags, vec!["--xml=yes", "--xml-socket=127.0.0.1:1"]);
    let flags = valgrind_flags("h:2", Some("a  b"), &vec![]);
    assert_eq!(flags, vec!["--xml=yes", "--xml-socket=h:2", "a", "", "b"]);
}

#[test]
fn missing_valgrind_is_reported_without_waiting() {
    assert!(!waits_for_report(Exit::NotStarted));
    assert!(matches!(
        settle(Exit::NotStarted, String::new(), None),
        Err(RunError::ValgrindNotInstalled)
    ));
}

#[test]
fn failing_valgrind_reports_its_stderr() {
    assert!(!waits_for_report(Exit::Failure));
    match settle(Exit::Failure, "valgrind: Unknown option: --bogus".into(), None) {
        Err(RunError::ValgrindFailure(text)) => assert_eq!(text, "valgrind: Unknown option: --bogus"),
        other => panic!("unexpected {:?}", other),
    }
    assert!(matches!(settle(Exit::WaitFailed, String::new(), None), Err(RunError::ProcessFailed)));
}

#[test]
fn successful_run_yields_the_report() {
    assert!(waits_for_report(Exit::Success));
    let result = settle(Exit::Success, String::new(), Some(Ok(report(vec![]))));
    assert_eq!(result.unwrap().errors.len(), 0);
    assert!(matches!(
        settle(Exit::Success, String::new(), None),
        Err(RunError::SocketConnection)
    ));
}

#[test]
fn signal_keeps_the_findings_read_before() {
    assert!(waits_for_report(Exit::Signal(6)));
    let partial = report(vec![finding(Kind::LeakDefinitelyLost, 4, 1)]);
    match settle(Exit::Signal(6), String::new(), Some(Ok(partial.clone()))) {
        Err(RunError::ProcessSignal(6, Some(output))) => assert_eq!(output, partial),
        other => panic!("unexpected {:?}", other),
    }
    assert!(matches!(
        settle(Exit::Signal(11), String::new(), Some(Err(RunError::SocketConnection))),
        Err(RunError::ProcessSignal(11, None))
    ));
    assert!(matches!(
        settle(Exit::Signal(9), String::new(), None),
        Err(RunError::ProcessSignal(9, None))
    ));
}

#[test]
fn undecodable_report_keeps_its_bytes() {
    let bytes = b"<valgrindoutput>".to_vec();
    match report_from_document(bytes.clone(), Err(DecodeError::Syntax("unexpected end".into()))) {
        Err(RunError::MalformedOutput(DecodeError::Syntax(m), b)) => {
            assert_eq!(m, "unexpected end");
            assert_eq!(b, bytes);
        }
        other => panic!("unexpected {:?}", other),
    }
    let doc = OutputElement {
        protocol_version: "2".into(),
        protocol_tool: "memcheck".into(),
        errors: vec![],
    };
    assert!(matches!(
        report_from_document(bytes.clone(), Ok(doc)),
        Err(RunError::MalformedOutput(DecodeError::UnsupportedVersion(_), _))
    ));
    let doc = OutputElement {
        protocol_version: "6".into(),
        protocol_tool: "memcheck".into(),
        errors: vec![],
    };
    assert!(report_from_document(bytes, Ok(doc)).is_ok());
}
