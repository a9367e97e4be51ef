use cargo_valgrind::decode::{
    decode, decode_error, kind_from_name, DecodeError, ErrorChild, ErrorElement, FrameElement, OutputElement,
    StackElement, XWhatElement,
};
use cargo_valgrind::hex::{parse_decimal, parse_hex64, HexError};
use cargo_valgrind::xml::{Error, Frame, Kind, ProtocolVersion, Resources, Stack};

fn frame(ip: &str) -> FrameElement {
    FrameElement {
        ip: ip.into(),
        obj: None,
        dir: None,
        function: None,
        file: None,
        line: None,
    }
}

fn stack(ip: &str) -> ErrorChild {
    ErrorChild::Stack(StackElement {
        frames: vec![frame(ip)],
    })
}

fn leak_element(unique: &str) -> ErrorElement {
    ErrorElement {
        unique: unique.into(),
        kind: "Leak_DefinitelyLost".into(),
        what: None,
        xwhat: Some(XWhatElement {
            text: "...".into(),
            leaked_bytes: Some("15".into()),
            leaked_blocks: Some("1".into()),
        }),
        children: vec![stack("0x483AD7B")],
    }
}

fn bare_frame(ip: u64) -> Frame {
    Frame {
        instruction_pointer: ip,
        object: None,
        directory: None,
        function: None,
        file: None,
        line: None,
    }
}

fn document(version: &str, tool: &str, errors: Vec<ErrorElement>) -> OutputElement {
    OutputElement {
        protocol_version: version.into(),
        protocol_tool: tool.into(),
        errors,
    }
}

#[test]
fn tests_unique_ids_have_to_be_in_hex_with_prefix() {
    let result = decode_error(&leak_element("0xDEAD1234")).expect("Could not parse test XML");
    assert_eq!(result.unique, 0xDEAD_1234);
}

#[test]
fn tests_missing_hex_prefix_is_an_error() {
    let result = decode_error(&leak_element("0DEADBEEF"));
    assert!(result.is_err());

    let result = decode_error(&leak_element("xDEADBEEF"));
    assert!(result.is_err());

    let result = decode_error(&leak_element("DEADBEEF"));
    assert!(result.is_err());
}

#[test]
fn tests_invalid_hex_digits_are_an_error() {
    let result = decode_error(&leak_element("0xhello"));
    assert!(result.is_err());
}

#[test]
fn tests_hex_and_prefix_case_is_ignored() {
    let result = decode_error(&leak_element("0XdEaDbEeF")).expect("Could not parse test XML");
    assert_eq!(result.unique, 0xDEAD_BEEF);
}

#[test]
fn tests_unique_id_is_64bit() {
    let result =
        decode_error(&leak_element("0x123456789ABCDEF0")).expect("Could not parse test XML");
    assert_eq!(result.unique, 0x1234_5678_9ABC_DEF0);
}

#[test]
fn auxwhat_and_multiple_stacks() {
    let mut element = leak_element("0x00");
    element.children = vec![
        stack("0x483AD7B"),
        ErrorChild::AuxText("Something else happened here".into()),
        stack("0x1"),
        ErrorChild::AuxText("more auxwhat".into()),
    ];
    let result = decode_error(&element).expect("Could not parse test XML");
    assert_eq!(
        result,
        Error {
            unique: 0x00,
            kind: Kind::LeakDefinitelyLost,
            resources: Resources {
                bytes: 15,
                blocks: 1
            },
            main_info: Some("...".to_string()),
            auxiliary_info: vec![
                "Something else happened here".to_string(),
                "more auxwhat".to_string(),
            ],
            stack_trace: vec![
                Stack {
                    frames: vec![bare_frame(0x483AD7B)],
                },
                Stack {
                    frames: vec![bare_frame(0x1)],
                },
            ],
        }
    );
    assert_eq!(
        result.auxiliary_description(1).map(String::as_str),
        Some("Something else happened here")
    );
}

#[test]
fn later_traces_pair_with_auxiliary_texts_by_position() {
    let element = ErrorElement {
        unique: "0x2".into(),
        kind: "InvalidFree".into(),
        what: Some("Invalid free() / delete / delete[] / realloc()".into()),
        xwhat: None,
        children: vec![
            stack("0x10"),
            ErrorChild::AuxText("Address 0x4a5 is 0 bytes inside a block of size 8 free'd".into()),
            stack("0x20"),
            stack("0x30"),
        ],
    };
    let result = decode_error(&element).unwrap();
    assert_eq!(result.kind, Kind::InvalidFree);
    assert_eq!(result.resources, Resources { bytes: 0, blocks: 0 });
    assert_eq!(result.stack_trace.len(), 3);
    assert_eq!(result.stack_trace[0].frames[0].instruction_pointer, 0x10);
    assert_eq!(
        result.auxiliary_description(1).map(String::as_str),
        Some("Address 0x4a5 is 0 bytes inside a block of size 8 free'd")
    );
    assert_eq!(result.stack_trace[2].frames[0].instruction_pointer, 0x30);
    assert_eq!(result.auxiliary_description(2), None);
}

#[test]
fn hex_decodes_to_the_full_64_bit_value() {
    assert_eq!(parse_hex64("0x123456789ABCDEF0"), Ok(0x1234_5678_9ABC_DEF0));
    assert_eq!(parse_hex64("0x123456789ABCDEF0"), Ok(1311768467463790320));
    assert_eq!(parse_hex64("0xffffffffffffffff"), Ok(u64::MAX));
    assert_eq!(parse_hex64("0x10000000000000000"), Err(HexError::InvalidDigits));
}

#[test]
fn hex_case_does_not_matter() {
    assert_eq!(parse_hex64("0xdeadbeef"), Ok(0xdead_beef));
    assert_eq!(parse_hex64("0XDEADBEEF"), Ok(0xdead_beef));
    assert_eq!(parse_hex64("0xDeAdBeEf"), Ok(0xdead_beef));
}

#[test]
fn malformed_hex_is_rejected() {
    assert_eq!(parse_hex64("DEADBEEF"), Err(HexError::MissingPrefix));
    assert_eq!(parse_hex64(""), Err(HexError::MissingPrefix));
    assert_eq!(parse_hex64("0x"), Err(HexError::InvalidDigits));
    assert_eq!(parse_hex64("0x12g4"), Err(HexError::InvalidDigits));
    assert_eq!(parse_hex64("0x+12"), Err(HexError::InvalidDigits));
}

#[test]
fn decimal_numbers_are_read() {
    assert_eq!(parse_decimal("826"), Some(826));
    assert_eq!(parse_decimal("0"), Some(0));
    assert_eq!(parse_decimal(""), None);
    assert_eq!(parse_decimal("12a"), None);
    assert_eq!(parse_decimal("-1"), None);
}

#[test]
fn clean_document_decodes_to_no_findings() {
    for version in ["4", "5", "6"] {
        let output = decode(&document(version, "memcheck", vec![])).unwrap();
        assert!(output.errors.is_empty());
    }
    let output = decode(&document("5", "memcheck", vec![])).unwrap();
    assert_eq!(output.protocol_version, ProtocolVersion::Version5);
}

#[test]
fn unknown_versions_and_tools_are_rejected() {
    assert_eq!(
        decode(&document("3", "memcheck", vec![])),
        Err(DecodeError::UnsupportedVersion("3".into()))
    );
    assert_eq!(
        decode(&document("7", "memcheck", vec![])),
        Err(DecodeError::UnsupportedVersion("7".into()))
    );
    assert_eq!(
        decode(&document("4", "helgrind", vec![])),
        Err(DecodeError::UnsupportedTool("helgrind".into()))
    );
}

#[test]
fn leak_counts_are_kept() {
    let output = decode(&document("4", "memcheck", vec![leak_element("0x1")])).unwrap();
    assert_eq!(output.errors.len(), 1);
    assert_eq!(output.errors[0].resources, Resources { bytes: 15, blocks: 1 });
    assert_eq!(output.errors[0].stack_trace.len(), 1);
    assert_eq!(output.errors[0].main_info.as_deref(), Some("..."));
}

#[test]
fn each_rule_gives_its_error() {
    let mut e = leak_element("0x1");
    e.kind = "Leak_Nowhere".into();
    assert_eq!(decode_error(&e), Err(DecodeError::UnknownKind("Leak_Nowhere".into())));

    let mut e = leak_element("0x1");
    e.xwhat = None;
    assert_eq!(decode_error(&e), Err(DecodeError::MissingDescription));

    let mut e = leak_element("0x1");
    e.what = Some("text".into());
    assert_eq!(decode_error(&e), Err(DecodeError::AmbiguousDescription));

    let mut e = leak_element("0x1");
    e.xwhat = None;
    e.what = Some("8 bytes in 1 blocks are definitely lost".into());
    assert_eq!(decode_error(&e), Err(DecodeError::DescriptionMismatch));

    let mut e = leak_element("0x1");
    e.kind = "InvalidRead".into();
    assert_eq!(decode_error(&e), Err(DecodeError::DescriptionMismatch));

    let mut e = leak_element("0x1");
    e.xwhat.as_mut().unwrap().leaked_bytes = Some("many".into());
    assert_eq!(decode_error(&e), Err(DecodeError::InvalidCount));

    let mut e = leak_element("0x1");
    e.xwhat.as_mut().unwrap().leaked_blocks = None;
    assert_eq!(decode_error(&e), Err(DecodeError::InvalidCount));

    let mut e = leak_element("0x1");
    e.children = vec![ErrorChild::AuxText("alone".into())];
    assert_eq!(decode_error(&e), Err(DecodeError::MissingStack));

    let mut e = leak_element("0x1");
    e.children = vec![stack("483AD7B")];
    assert_eq!(
        decode_error(&e),
        Err(DecodeError::InvalidAddress(HexError::MissingPrefix))
    );

    let mut e = leak_element("0x1");
    let mut f = frame("0x1");
    f.line = Some("ten".into());
    e.children = vec![ErrorChild::Stack(StackElement { frames: vec![f] })];
    assert_eq!(decode_error(&e), Err(DecodeError::InvalidLine("ten".into())));

    assert_eq!(
        decode_error(&leak_element("12")),
        Err(DecodeError::InvalidUnique(HexError::MissingPrefix))
    );
}

#[test]
fn the_first_bad_finding_decides_the_error() {
    let doc = document(
        "4",
        "memcheck",
        vec![leak_element("0x1"), leak_element("0xzz"), leak_element("nope")],
    );
    assert_eq!(
        decode(&doc),
        Err(DecodeError::InvalidUnique(HexError::InvalidDigits))
    );
}

#[test]
fn frames_keep_their_optional_fields() {
    let mut f = frame("0x483AD7B");
    f.obj = Some("/usr/lib/valgrind/vgpreload_memcheck-amd64-linux.so".into());
    f.dir = Some("/build/valgrind/src/valgrind/coregrind/m_replacemalloc".into());
    f.function = Some("realloc".into());
    f.file = Some("vg_replace_malloc.c".into());
    f.line = Some("826".into());
    let decoded = cargo_valgrind::decode::decode_frame(&f).unwrap();
    assert_eq!(
        decoded,
        Frame {
            instruction_pointer: 0x483_AD7B,
            object: Some("/usr/lib/valgrind/vgpreload_memcheck-amd64-linux.so".into()),
            directory: Some("/build/valgrind/src/valgrind/coregrind/m_replacemalloc".into()),
            function: Some("realloc".into()),
            file: Some("vg_replace_malloc.c".into()),
            line: Some(826),
        }
    );
    assert_eq!(decoded.to_text(), "realloc (vg_replace_malloc.c:826)");
    assert_eq!(bare_frame(1).to_text(), "unknown");
}

#[test]
fn kinds_are_read_by_name() {
    assert_eq!(kind_from_name("Leak_StillReachable"), Some(Kind::LeakStillReachable));
    assert_eq!(kind_from_name("FdBadUse"), Some(Kind::FdBadUse));
    assert_eq!(kind_from_name("InvalidFree"), Some(Kind::InvalidFree));
    assert_eq!(kind_from_name("invalidfree"), None);
    assert!(Kind::LeakPossiblyLost.is_leak());
    assert!(!Kind::InvalidRead.is_leak());
    assert_eq!(Kind::InvalidFree.description(), "invalid free");
    assert_eq!(Kind::LeakIndirectlyLost.description(), "Leak (indirectly lost)");
}
