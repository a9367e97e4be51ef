//! Checks a report document against the protocol and builds the typed model.
//!
//! The document arrives as elements whose text is still unchecked: the
//! identifier and the addresses as written, the kind by its name, the counts
//! and line numbers as decimal text, and the children of each finding in
//! document order. Reading the XML syntax into these elements is the XML
//! reader's work; the rules of the protocol are checked here.
use vstd::prelude::*;
use crate::hex::{
    decimal_value, is_usize_decimal, parse_decimal, parse_hex64, spec_parse_hex64, HexError,
};
use crate::text::{clone_text, str_eq};
use crate::xml::{Error, Frame, Kind, Output, ProtocolVersion, Resources, Stack, Tool, spec_is_leak};

verus! {

/// One `<frame>` element.
#[derive(Debug, Clone, PartialEq, Eq)]
pub struct FrameElement {
    pub ip: String,
    pub obj: Option<String>,
    pub dir: Option<String>,
    pub function: Option<String>,
    pub file: Option<String>,
    pub line: Option<String>,
}

/// One `<stack>` element.
#[derive(Debug, Clone, PartialEq, Eq)]
pub struct StackElement {
    pub frames: Vec<FrameElement>,
}

/// The `<xwhat>` element of a finding: its text and, for a leak, its size.
#[derive(Debug, Clone, PartialEq, Eq)]
pub struct XWhatElement {
    pub text: String,
    pub leaked_bytes: Option<String>,
    pub leaked_blocks: Option<String>,
}

/// A child of an `<error>` element whose position matters: a stack trace,
/// or the text of an `<auxwhat>` or `<xauxwhat>`.
#[derive(Debug, Clone, PartialEq, Eq)]
pub enum ErrorChild {
    Stack(StackElement),
    AuxText(String),
}

/// One `<error>` element.
#[derive(Debug, Clone, PartialEq, Eq)]
pub struct ErrorElement {
    pub unique: String,
    pub kind: String,
    pub what: Option<String>,
    pub xwhat: Option<XWhatElement>,
    pub children: Vec<ErrorChild>,
}

/// The `<valgrindoutput>` element.
#[derive(Debug, Clone, PartialEq, Eq)]
pub struct OutputElement {
    pub protocol_version: String,
    pub protocol_tool: String,
    pub errors: Vec<ErrorElement>,
}

/// Why a report could not be decoded.
#[derive(Debug, Clone, PartialEq, Eq)]
pub enum DecodeError {
    /// The document is not well-formed; the message says where.
    Syntax(String),
    /// The protocol version is not one of 4, 5 and 6.
    UnsupportedVersion(String),
    /// The tool is not memcheck.
    UnsupportedTool(String),
    /// A finding's identifier is not `0x`-prefixed hexadecimal.
    InvalidUnique(HexError),
    /// An instruction address is not `0x`-prefixed hexadecimal.
    InvalidAddress(HexError),
    /// A finding's kind is not a known name.
    UnknownKind(String),
    /// A finding has neither `<what>` nor `<xwhat>`.
    MissingDescription,
    /// A finding has both `<what>` and `<xwhat>`.
    AmbiguousDescription,
    /// A leak is described by `<what>`, or another kind by `<xwhat>`.
    DescriptionMismatch,
    /// A leaked byte or block count is absent or not a decimal number.
    InvalidCount,
    /// A line number is not a decimal number.
    InvalidLine(String),
    /// A finding has no stack trace.
    MissingStack,
}

// ---- what each element decodes to ----

/// The protocol version that a text names.
pub open spec fn spec_version(s: Seq<char>) -> Option<ProtocolVersion> {
    if s == "4"@ {
        Some(ProtocolVersion::Version4)
    } else if s == "5"@ {
        Some(ProtocolVersion::Version5)
    } else if s == "6"@ {
        Some(ProtocolVersion::Version6)
    } else {
        None
    }
}

/// The kind that a name stands for.
pub open spec fn spec_kind(s: Seq<char>) -> Option<Kind> {
    if s == "Leak_DefinitelyLost"@ {
        Some(Kind::LeakDefinitelyLost)
    } else if s == "Leak_StillReachable"@ {
        Some(Kind::LeakStillReachable)
    } else if s == "Leak_IndirectlyLost"@ {
        Some(Kind::LeakIndirectlyLost)
    } else if s == "Leak_PossiblyLost"@ {
        Some(Kind::LeakPossiblyLost)
    } else if s == "InvalidFree"@ {
        Some(Kind::InvalidFree)
    } else if s == "MismatchedFree"@ {
        Some(Kind::MismatchedFree)
    } else if s == "InvalidRead"@ {
        Some(Kind::InvalidRead)
    } else if s == "InvalidWrite"@ {
        Some(Kind::InvalidWrite)
    } else if s == "InvalidJump"@ {
        Some(Kind::InvalidJump)
    } else if s == "Overlap"@ {
        Some(Kind::Overlap)
    } else if s == "InvalidMemPool"@ {
        Some(Kind::InvalidMemPool)
    } else if s == "UninitCondition"@ {
        Some(Kind::UninitCondition)
    } else if s == "UninitValue"@ {
        Some(Kind::UninitValue)
    } else if s == "SyscallParam"@ {
        Some(Kind::SyscallParam)
    } else if s == "FdBadUse"@ {
        Some(Kind::FdBadUse)
    } else if s == "ClientCheck"@ {
        Some(Kind::ClientCheck)
    } else {
        None
    }
}

/// The error in a frame, if any.
pub open spec fn frame_error(f: FrameElement) -> Option<DecodeError> {
    match spec_parse_hex64(f.ip@) {
        Err(e) => Some(DecodeError::InvalidAddress(e)),
        Ok(_) => match f.line {
            Some(l) => if is_usize_decimal(l@) {
                None
            } else {
                Some(DecodeError::InvalidLine(l))
            },
            None => None,
        },
    }
}

/// `fr` is what the valid frame `f` decodes to.
pub open spec fn decodes_frame(f: FrameElement, fr: Frame) -> bool {
    &&& spec_parse_hex64(f.ip@) == Ok::<u64, HexError>(fr.instruction_pointer)
    &&& fr.object == f.obj
    &&& fr.directory == f.dir
    &&& fr.function == f.function
    &&& fr.file == f.file
    &&& fr.line == match f.line {
        Some(l) => Some(decimal_value(l@) as usize),
        None => None,
    }
}

/// The error of the first frame in `fs` that has one.
pub open spec fn first_frame_error(fs: Seq<FrameElement>) -> Option<DecodeError>
    decreases fs.len(),
{
    if fs.len() == 0 {
        None
    } else if first_frame_error(fs.drop_last()) is Some {
        first_frame_error(fs.drop_last())
    } else {
        frame_error(fs.last())
    }
}

pub open spec fn decodes_stack(s: StackElement, st: Stack) -> bool {
    &&& st.frames@.len() == s.frames@.len()
    &&& forall|i: int| 0 <= i < s.frames@.len() ==> decodes_frame(s.frames@[i], #[trigger] st.frames@[i])
}

/// The stack traces among `cs`, in order.
pub open spec fn stack_children(cs: Seq<ErrorChild>) -> Seq<StackElement>
    decreases cs.len(),
{
    if cs.len() == 0 {
        Seq::empty()
    } else {
        match cs.last() {
            ErrorChild::Stack(s) => stack_children(cs.drop_last()).push(s),
            ErrorChild::AuxText(_) => stack_children(cs.drop_last()),
        }
    }
}

/// The auxiliary texts among `cs`, in order.
pub open spec fn aux_children(cs: Seq<ErrorChild>) -> Seq<String>
    decreases cs.len(),
{
    if cs.len() == 0 {
        Seq::empty()
    } else {
        match cs.last() {
            ErrorChild::Stack(_) => aux_children(cs.drop_last()),
            ErrorChild::AuxText(t) => aux_children(cs.drop_last()).push(t),
        }
    }
}

/// The error of the first frame of the first stack among `cs` that has one.
pub open spec fn first_stack_error(cs: Seq<ErrorChild>) -> Option<DecodeError>
    decreases cs.len(),
{
    if cs.len() == 0 {
        None
    } else if first_stack_error(cs.drop_last()) is Some {
        first_stack_error(cs.drop_last())
    } else {
        match cs.last() {
            ErrorChild::Stack(s) => first_frame_error(s.frames@),
            ErrorChild::AuxText(_) => None,
        }
    }
}

/// The error in the description of a finding (`<what>` or `<xwhat>`), if
/// any: a leak is described by `<xwhat>` with its counts, every other kind
/// by `<what>`.
pub open spec fn description_error(e: ErrorElement, leak: bool) -> Option<DecodeError> {
    match (e.what, e.xwhat) {
        (None, None) => Some(DecodeError::MissingDescription),
        (Some(_), Some(_)) => Some(DecodeError::AmbiguousDescription),
        (Some(_), None) => if leak {
            Some(DecodeError::DescriptionMismatch)
        } else {
            None
        },
        (None, Some(_)) if !leak => Some(DecodeError::DescriptionMismatch),
        (None, Some(x)) => match (x.leaked_bytes, x.leaked_blocks) {
            (Some(b), Some(k)) => if is_usize_decimal(b@) && is_usize_decimal(k@) {
                None
            } else {
                Some(DecodeError::InvalidCount)
            },
            _ => Some(DecodeError::InvalidCount),
        },
    }
}

/// The error in a finding, if any: the identifier is checked first, then the
/// kind, the description and the stack traces.
pub open spec fn error_error(e: ErrorElement) -> Option<DecodeError> {
    if spec_parse_hex64(e.unique@) is Err {
        Some(DecodeError::InvalidUnique(spec_parse_hex64(e.unique@)->Err_0))
    } else if spec_kind(e.kind@) is None {
        Some(DecodeError::UnknownKind(e.kind))
    } else if description_error(e, spec_is_leak(spec_kind(e.kind@)->Some_0)) is Some {
        description_error(e, spec_is_leak(spec_kind(e.kind@)->Some_0))
    } else if first_stack_error(e.children@) is Some {
        first_stack_error(e.children@)
    } else if stack_children(e.children@).len() == 0 {
        Some(DecodeError::MissingStack)
    } else {
        None
    }
}

/// `err` is what the valid finding `e` decodes to.
pub open spec fn decodes_error(e: ErrorElement, err: Error) -> bool {
    &&& spec_parse_hex64(e.unique@) == Ok::<u64, HexError>(err.unique)
    &&& spec_kind(e.kind@) == Some(err.kind)
    &&& match (e.what, e.xwhat) {
        (Some(w), _) => err.main_info == Some(w) && err.resources == Resources { bytes: 0, blocks: 0 },
        (None, Some(x)) => err.main_info == Some(x.text) && err.resources == Resources {
            bytes: decimal_value(x.leaked_bytes->Some_0@) as usize,
            blocks: decimal_value(x.leaked_blocks->Some_0@) as usize,
        },
        (None, None) => false,
    }
    &&& err.auxiliary_info@ == aux_children(e.children@)
    &&& err.stack_trace@.len() == stack_children(e.children@).len()
    &&& forall|i: int| 0 <= i < err.stack_trace@.len() ==> decodes_stack(
        stack_children(e.children@)[i], #[trigger] err.stack_trace@[i])
}

/// The error of the first finding in `es` that has one.
pub open spec fn first_error_error(es: Seq<ErrorElement>) -> Option<DecodeError>
    decreases es.len(),
{
    if es.len() == 0 {
        None
    } else if first_error_error(es.drop_last()) is Some {
        first_error_error(es.drop_last())
    } else {
        error_error(es.last())
    }
}

/// The error in a document, if any.
pub open spec fn output_error(d: OutputElement) -> Option<DecodeError> {
    if spec_version(d.protocol_version@) is None {
        Some(DecodeError::UnsupportedVersion(d.protocol_version))
    } else if d.protocol_tool@ != "memcheck"@ {
        Some(DecodeError::UnsupportedTool(d.protocol_tool))
    } else {
        first_error_error(d.errors@)
    }
}

/// `o` is what the valid document `d` decodes to.
pub open spec fn decodes_output(d: OutputElement, o: Output) -> bool {
    &&& spec_version(d.protocol_version@) == Some(o.protocol_version)
    &&& o.tool == Tool::MemCheck
    &&& o.errors@.len() == d.errors@.len()
    &&& forall|i: int| 0 <= i < d.errors@.len() ==> decodes_error(d.errors@[i], #[trigger] o.errors@[i])
}


// ---- a first error stays the first error as the sequence grows ----

proof fn lemma_first_frame_error_kept(fs: Seq<FrameElement>, k: int)
    requires
        0 <= k <= fs.len(),
        first_frame_error(fs.subrange(0, k)) is Some,
    ensures
        first_frame_error(fs) == first_frame_error(fs.subrange(0, k)),
    decreases fs.len() - k,
{
    if k < fs.len() {
        let next = fs.subrange(0, k + 1);
        assert(next.drop_last() == fs.subrange(0, k));
        lemma_first_frame_error_kept(fs, k + 1);
    } else {
        assert(fs.subrange(0, k) == fs);
    }
}

proof fn lemma_first_stack_error_kept(cs: Seq<ErrorChild>, k: int)
    requires
        0 <= k <= cs.len(),
        first_stack_error(cs.subrange(0, k)) is Some,
    ensures
        first_stack_error(cs) == first_stack_error(cs.subrange(0, k)),
    decreases cs.len() - k,
{
    if k < cs.len() {
        let next = cs.subrange(0, k + 1);
        assert(next.drop_last() == cs.subrange(0, k));
        lemma_first_stack_error_kept(cs, k + 1);
    } else {
        assert(cs.subrange(0, k) == cs);
    }
}

proof fn lemma_first_error_error_kept(es: Seq<ErrorElement>, k: int)
    requires
        0 <= k <= es.len(),
        first_error_error(es.subrange(0, k)) is Some,
    ensures
        first_error_error(es) == first_error_error(es.subrange(0, k)),
    decreases es.len() - k,
{
    if k < es.len() {
        let next = es.subrange(0, k + 1);
        assert(next.drop_last() == es.subrange(0, k));
        lemma_first_error_error_kept(es, k + 1);
    } else {
        assert(es.subrange(0, k) == es);
    }
}

// ---- decoding ----

/// The kind that a name stands for.
pub fn kind_from_name(s: &str) -> (r: Option<Kind>)
    ensures
        r == spec_kind(s@),
{
    if str_eq(s, "Leak_DefinitelyLost") {
        Some(Kind::LeakDefinitelyLost)
    } else if str_eq(s, "Leak_StillReachable") {
        Some(Kind::LeakStillReachable)
    } else if str_eq(s, "Leak_IndirectlyLost") {
        Some(Kind::LeakIndirectlyLost)
    } else if str_eq(s, "Leak_PossiblyLost") {
        Some(Kind::LeakPossiblyLost)
    } else if str_eq(s, "InvalidFree") {
        Some(Kind::InvalidFree)
    } else if str_eq(s, "MismatchedFree") {
        Some(Kind::MismatchedFree)
    } else if str_eq(s, "InvalidRead") {
        Some(Kind::InvalidRead)
    } else if str_eq(s, "InvalidWrite") {
        Some(Kind::InvalidWrite)
    } else if str_eq(s, "InvalidJump") {
        Some(Kind::InvalidJump)
    } else if str_eq(s, "Overlap") {
        Some(Kind::Overlap)
    } else if str_eq(s, "InvalidMemPool") {
        Some(Kind::InvalidMemPool)
    } else if str_eq(s, "UninitCondition") {
        Some(Kind::UninitCondition)
    } else if str_eq(s, "UninitValue") {
        Some(Kind::UninitValue)
    } else if str_eq(s, "SyscallParam") {
        Some(Kind::SyscallParam)
    } else if str_eq(s, "FdBadUse") {
        Some(Kind::FdBadUse)
    } else if str_eq(s, "ClientCheck") {
        Some(Kind::ClientCheck)
    } else {
        None
    }
}


/// The protocol version that a text names.
pub fn version_from_text(s: &str) -> (r: Option<ProtocolVersion>)
    ensures
        r == spec_version(s@),
{
    if str_eq(s, "4") {
        Some(ProtocolVersion::Version4)
    } else if str_eq(s, "5") {
        Some(ProtocolVersion::Version5)
    } else if str_eq(s, "6") {
        Some(ProtocolVersion::Version6)
    } else {
        None
    }
}

/// Decodes one frame of a stack trace.
pub fn decode_frame(f: &FrameElement) -> (r: Result<Frame, DecodeError>)
    ensures
        match r {
            Ok(fr) => frame_error(*f) is None && decodes_frame(*f, fr),
            Err(e) => frame_error(*f) == Some(e),
        },
{
    let ip = match parse_hex64(f.ip.as_str()) {
        Ok(v) => v,
        Err(e) => return Err(DecodeError::InvalidAddress(e)),
    };
    let line = match &f.line {
        Some(l) => match parse_decimal(l.as_str()) {
            Some(n) => Some(n),
            None => return Err(DecodeError::InvalidLine(l.clone())),
        },
        None => None,
    };
    Ok(Frame {
        instruction_pointer: ip,
        object: clone_text(&f.obj),
        directory: clone_text(&f.dir),
        function: clone_text(&f.function),
        file: clone_text(&f.file),
        line,
    })
}

/// Decodes a stack trace, frame by frame.
pub fn decode_stack(s: &StackElement) -> (r: Result<Stack, DecodeError>)
    ensures
        match r {
            Ok(st) => first_frame_error(s.frames@) is None && decodes_stack(*s, st),
            Err(e) => first_frame_error(s.frames@) == Some(e),
        },
{
    let mut frames: Vec<Frame> = Vec::new();
    let mut i: usize = 0;
    while i < s.frames.len()
        invariant
            i <= s.frames@.len(),
            frames@.len() == i,
            first_frame_error(s.frames@.subrange(0, i as int)) is None,
            forall|j: int| 0 <= j < i ==> decodes_frame(s.frames@[j], #[trigger] frames@[j]),
        decreases s.frames@.len() - i,
    {
        let ghost next = s.frames@.subrange(0, i + 1);
        assert(next.drop_last() == s.frames@.subrange(0, i as int));
        match decode_frame(&s.frames[i]) {
            Ok(fr) => frames.push(fr),
            Err(e) => {
                proof {
                    lemma_first_frame_error_kept(s.frames@, i + 1);
                }
                return Err(e);
            },
        }
        i = i + 1;
    }
    assert(s.frames@.subrange(0, i as int) == s.frames@);
    Ok(Stack { frames })
}

fn decode_count(c: &Option<String>) -> (r: Result<usize, DecodeError>)
    ensures
        match r {
            Ok(n) => c is Some && is_usize_decimal(c->Some_0@) && n == decimal_value(c->Some_0@),
            Err(e) => e == DecodeError::InvalidCount && !(c is Some && is_usize_decimal(c->Some_0@)),
        },
{
    match c {
        Some(t) => match parse_decimal(t.as_str()) {
            Some(n) => Ok(n),
            None => Err(DecodeError::InvalidCount),
        },
        None => Err(DecodeError::InvalidCount),
    }
}

/// Decodes one finding.
///
/// The first stack trace becomes the main one; the later ones keep their
/// order, as do the auxiliary texts, so that the k-th later trace goes with
/// the k-th auxiliary text.
pub fn decode_error(e: &ErrorElement) -> (r: Result<Error, DecodeError>)
    ensures
        match r {
            Ok(err) => error_error(*e) is None && decodes_error(*e, err) && err.wf(),
            Err(x) => error_error(*e) == Some(x),
        },
{
    let unique = match parse_hex64(e.unique.as_str()) {
        Ok(v) => v,
        Err(h) => return Err(DecodeError::InvalidUnique(h)),
    };
    let kind = match kind_from_name(e.kind.as_str()) {
        Some(k) => k,
        None => return Err(DecodeError::UnknownKind(e.kind.clone())),
    };
    let leak = kind.is_leak();
    let (main_info, resources) = match (&e.what, &e.xwhat) {
        (None, None) => return Err(DecodeError::MissingDescription),
        (Some(_), Some(_)) => return Err(DecodeError::AmbiguousDescription),
        (Some(w), None) => {
            if leak {
                return Err(DecodeError::DescriptionMismatch);
            }
            (Some(w.clone()), Resources { bytes: 0, blocks: 0 })
        },
        (None, Some(x)) => {
            if !leak {
                return Err(DecodeError::DescriptionMismatch);
            }
            let bytes = decode_count(&x.leaked_bytes)?;
            let blocks = decode_count(&x.leaked_blocks)?;
            (Some(x.text.clone()), Resources { bytes, blocks })
        },
    };
    let mut stacks: Vec<Stack> = Vec::new();
    let mut aux: Vec<String> = Vec::new();
    let mut i: usize = 0;
    while i < e.children.len()
        invariant
            i <= e.children@.len(),
            spec_parse_hex64(e.unique@) == Ok::<u64, HexError>(unique),
            spec_kind(e.kind@) == Some(kind),
            description_error(*e, spec_is_leak(kind)) is None,
            match (e.what, e.xwhat) {
                (Some(w), _) => main_info == Some(w) && resources == Resources { bytes: 0, blocks: 0 },
                (None, Some(x)) => main_info == Some(x.text) && resources == Resources {
                    bytes: decimal_value(x.leaked_bytes->Some_0@) as usize,
                    blocks: decimal_value(x.leaked_blocks->Some_0@) as usize,
                },
                (None, None) => false,
            },
            first_stack_error(e.children@.subrange(0, i as int)) is None,
            aux@ == aux_children(e.children@.subrange(0, i as int)),
            stacks@.len() == stack_children(e.children@.subrange(0, i as int)).len(),
            forall|j: int| 0 <= j < stacks@.len() ==> decodes_stack(
                stack_children(e.children@.subrange(0, i as int))[j], #[trigger] stacks@[j]),
        decreases e.children@.len() - i,
    {
        let ghost prev = e.children@.subrange(0, i as int);
        let ghost next = e.children@.subrange(0, i + 1);
        assert(next.drop_last() == prev);
        match &e.children[i] {
            ErrorChild::Stack(st) => match decode_stack(st) {
                Ok(decoded) => stacks.push(decoded),
                Err(x) => {
                    proof {
                        lemma_first_stack_error_kept(e.children@, i + 1);
                    }
                    return Err(x);
                },
            },
            ErrorChild::AuxText(t) => aux.push(t.clone()),
        }
        i = i + 1;
    }
    assert(e.children@.subrange(0, i as int) == e.children@);
    if stacks.len() == 0 {
        return Err(DecodeError::MissingStack);
    }
    Ok(Error { unique, kind, resources, main_info, auxiliary_info: aux, stack_trace: stacks })
}

/// Decodes a whole report document.
///
/// The version and the tool are checked first; then each finding in order,
/// and the first one that breaks a rule decides the error.
pub fn decode(d: &OutputElement) -> (r: Result<Output, DecodeError>)
    ensures
        match r {
            Ok(o) => output_error(*d) is None && decodes_output(*d, o),
            Err(x) => output_error(*d) == Some(x),
        },
{
    let protocol_version = match version_from_text(d.protocol_version.as_str()) {
        Some(v) => v,
        None => return Err(DecodeError::UnsupportedVersion(d.protocol_version.clone())),
    };
    if !str_eq(d.protocol_tool.as_str(), "memcheck") {
        return Err(DecodeError::UnsupportedTool(d.protocol_tool.clone()));
    }
    let mut errors: Vec<Error> = Vec::new();
    let mut i: usize = 0;
    while i < d.errors.len()
        invariant
            i <= d.errors@.len(),
            spec_version(d.protocol_version@) == Some(protocol_version),
            d.protocol_tool@ == "memcheck"@,
            errors@.len() == i,
            first_error_error(d.errors@.subrange(0, i as int)) is None,
            forall|j: int| 0 <= j < i ==> decodes_error(d.errors@[j], #[trigger] errors@[j]),
        decreases d.errors@.len() - i,
    {
        let ghost next = d.errors@.subrange(0, i + 1);
        assert(next.drop_last() == d.errors@.subrange(0, i as int));
        match decode_error(&d.errors[i]) {
            Ok(err) => errors.push(err),
            Err(x) => {
                proof {
                    lemma_first_error_error_kept(d.errors@, i + 1);
                }
                return Err(x);
            },
        }
        i = i + 1;
    }
    assert(d.errors@.subrange(0, i as int) == d.errors@);
    Ok(Output { protocol_version, tool: Tool::MemCheck, errors })
}

// ---- laws ----

/// A document that declares a supported version and the memcheck tool and
/// holds no findings decodes, and the report it decodes to has no findings.
pub proof fn lemma_clean_document_decodes_empty(d: OutputElement, o: Output)
    requires
        spec_version(d.protocol_version@) is Some,
        d.protocol_tool@ == "memcheck"@,
        d.errors@.len() == 0,
    ensures
        output_error(d) is None,
        decodes_output(d, o) ==> o.errors@.len() == 0,
{
}

/// A leak finding is described by an `<xwhat>` and keeps its byte and block
/// counts exactly; one stack trace in the document gives it exactly one
/// trace.
pub proof fn lemma_leak_counts_kept(e: ErrorElement, err: Error)
    requires
        error_error(e) is None,
        decodes_error(e, err),
        spec_is_leak(err.kind),
    ensures
        e.what is None,
        e.xwhat is Some,
        err.resources.bytes == decimal_value(e.xwhat->Some_0.leaked_bytes->Some_0@),
        err.resources.blocks == decimal_value(e.xwhat->Some_0.leaked_blocks->Some_0@),
        stack_children(e.children@).len() == 1 ==> err.stack_trace@.len() == 1,
{
}

/// A finding whose identifier, or one of whose instruction addresses, is not
/// `0x`-prefixed hexadecimal is rejected.
pub proof fn lemma_bad_hex_rejected(e: ErrorElement, k: int, m: int)
    ensures
        spec_parse_hex64(e.unique@) is Err ==> error_error(e) is Some,
        0 <= k < stack_children(e.children@).len() && 0 <= m < stack_children(e.children@)[k].frames@.len()
            && spec_parse_hex64(stack_children(e.children@)[k].frames@[m].ip@) is Err
            ==> error_error(e) is Some,
{
    let cs = e.children@;
    if 0 <= k < stack_children(cs).len() && 0 <= m < stack_children(cs)[k].frames@.len()
        && spec_parse_hex64(stack_children(cs)[k].frames@[m].ip@) is Err {
        lemma_bad_frame_fails_stack(stack_children(cs)[k].frames@, m);
        lemma_failing_stack_fails_children(cs, k);
    }
}

proof fn lemma_bad_frame_fails_stack(fs: Seq<FrameElement>, m: int)
    requires
        0 <= m < fs.len(),
        frame_error(fs[m]) is Some,
    ensures
        first_frame_error(fs) is Some,
    decreases fs.len(),
{
    if m < fs.len() - 1 {
        assert(fs.drop_last()[m] == fs[m]);
        lemma_bad_frame_fails_stack(fs.drop_last(), m);
    }
}

proof fn lemma_failing_stack_fails_children(cs: Seq<ErrorChild>, k: int)
    requires
        0 <= k < stack_children(cs).len(),
        first_frame_error(stack_children(cs)[k].frames@) is Some,
    ensures
        first_stack_error(cs) is Some,
    decreases cs.len(),
{
    if cs.len() > 0 {
        let p = cs.drop_last();
        match cs.last() {
            ErrorChild::Stack(s) => {
                if k < stack_children(p).len() {
                    assert(stack_children(cs)[k] == stack_children(p)[k]);
                    lemma_failing_stack_fails_children(p, k);
                }
            },
            ErrorChild::AuxText(_) => {
                lemma_failing_stack_fails_children(p, k);
            },
        }
    }
}

/// In a decoded finding the first stack trace of the document is the main
/// one, and each later trace keeps its position and goes with the
/// auxiliary text at the same position among the auxiliary texts.
pub proof fn lemma_traces_paired_by_position(e: ErrorElement, err: Error)
    requires
        error_error(e) is None,
        decodes_error(e, err),
    ensures
        err.stack_trace@.len() >= 1,
        decodes_stack(stack_children(e.children@)[0], err.stack_trace@[0]),
        forall|k: int| 1 <= k < err.stack_trace@.len() ==> decodes_stack(
            stack_children(e.children@)[k], #[trigger] err.stack_trace@[k])
            && (k - 1 < err.auxiliary_info@.len() ==> err.auxiliary_info@[k - 1]
            == aux_children(e.children@)[k - 1]),
{
}

} // verus!
