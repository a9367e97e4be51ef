//! The typed model of one memcheck report.
//!
//! A report is only ever built by [`crate::decode::decode`], which checks the
//! protocol's rules on the elements of the document.
use vstd::prelude::*;
use crate::text::{decimal, decimal_digits};

verus! {

/// The versions of the report protocol that are understood.
#[derive(Debug, Clone, Copy, PartialEq, Eq, Hash, Structural)]
pub enum ProtocolVersion {
    Version4,
    Version5,
    Version6,
}

/// The checking tool that produced the report; only memcheck is understood.
#[derive(Debug, Clone, Copy, PartialEq, Eq, Hash, Structural)]
pub enum Tool {
    MemCheck,
}

/// The kind of a finding: four kinds of leak and the other memory errors.
#[derive(Debug, Clone, Copy, PartialEq, Eq, Hash, Structural)]
pub enum Kind {
    LeakDefinitelyLost,
    LeakStillReachable,
    LeakIndirectlyLost,
    LeakPossiblyLost,
    InvalidFree,
    MismatchedFree,
    InvalidRead,
    InvalidWrite,
    InvalidJump,
    Overlap,
    InvalidMemPool,
    UninitCondition,
    UninitValue,
    SyscallParam,
    FdBadUse,
    ClientCheck,
}

pub open spec fn spec_is_leak(k: Kind) -> bool {
    match k {
        Kind::LeakDefinitelyLost | Kind::LeakStillReachable | Kind::LeakIndirectlyLost
        | Kind::LeakPossiblyLost => true,
        _ => false,
    }
}

/// The human-readable text of a kind.
pub open spec fn kind_text(k: Kind) -> Seq<char> {
    match k {
        Kind::LeakDefinitelyLost => "Leak (definitely lost)"@,
        Kind::LeakStillReachable => "Leak (still reachable)"@,
        Kind::LeakIndirectlyLost => "Leak (indirectly lost)"@,
        Kind::LeakPossiblyLost => "Leak (possibly lost)"@,
        Kind::InvalidFree => "invalid free"@,
        Kind::MismatchedFree => "mismatched free"@,
        Kind::InvalidRead => "invalid read"@,
        Kind::InvalidWrite => "invalid write"@,
        Kind::InvalidJump => "invalid jump"@,
        Kind::Overlap => "overlap"@,
        Kind::InvalidMemPool => "invalid memory pool"@,
        Kind::UninitCondition => "uninitialized condition"@,
        Kind::UninitValue => "uninitialized value"@,
        Kind::SyscallParam => "syscall parameter"@,
        Kind::FdBadUse => "bad file descriptor use"@,
        Kind::ClientCheck => "client check"@,
    }
}

impl Kind {
    /// Whether this kind is one of the four kinds of memory leak.
    pub fn is_leak(self) -> (r: bool)
        ensures
            r == spec_is_leak(self),
    {
        match self {
            Kind::LeakDefinitelyLost
            | Kind::LeakStillReachable
            | Kind::LeakIndirectlyLost
            | Kind::LeakPossiblyLost => true,
            Kind::InvalidFree
            | Kind::MismatchedFree
            | Kind::InvalidRead
            | Kind::InvalidWrite
            | Kind::InvalidJump
            | Kind::Overlap
            | Kind::InvalidMemPool
            | Kind::UninitCondition
            | Kind::UninitValue
            | Kind::SyscallParam
            | Kind::FdBadUse
            | Kind::ClientCheck => false,
        }
    }

    /// The human-readable text of this kind, such as `invalid free`.
    pub fn description(self) -> (r: &'static str)
        ensures
            r@ == kind_text(self),
    {
        match self {
            Kind::LeakDefinitelyLost => "Leak (definitely lost)",
            Kind::LeakStillReachable => "Leak (still reachable)",
            Kind::LeakIndirectlyLost => "Leak (indirectly lost)",
            Kind::LeakPossiblyLost => "Leak (possibly lost)",
            Kind::InvalidFree => "invalid free",
            Kind::MismatchedFree => "mismatched free",
            Kind::InvalidRead => "invalid read",
            Kind::InvalidWrite => "invalid write",
            Kind::InvalidJump => "invalid jump",
            Kind::Overlap => "overlap",
            Kind::InvalidMemPool => "invalid memory pool",
            Kind::UninitCondition => "uninitialized condition",
            Kind::UninitValue => "uninitialized value",
            Kind::SyscallParam => "syscall parameter",
            Kind::FdBadUse => "bad file descriptor use",
            Kind::ClientCheck => "client check",
        }
    }
}

/// The memory that a leak holds; zero for the other kinds.
#[derive(Debug, Default, Clone, Copy, PartialEq, Eq, Hash, Structural)]
pub struct Resources {
    pub bytes: usize,
    pub blocks: usize,
}

/// One entry of a stack trace.
///
/// Only the instruction address is always known: without debug information
/// every other field may be absent.
#[derive(Debug, Clone, PartialEq, Eq, Hash)]
pub struct Frame {
    pub instruction_pointer: u64,
    pub object: Option<String>,
    pub directory: Option<String>,
    pub function: Option<String>,
    pub file: Option<String>,
    pub line: Option<usize>,
}

/// A stack trace, most recent call first.
#[derive(Debug, Clone, PartialEq, Eq, Hash)]
pub struct Stack {
    pub frames: Vec<Frame>,
}

/// One finding of the report.
///
/// `stack_trace[0]` is the main trace; each later trace `stack_trace[k]` is
/// described by `auxiliary_info[k - 1]`, where there is such an entry.
#[derive(Debug, Clone, PartialEq, Eq, Hash)]
pub struct Error {
    pub unique: u64,
    pub kind: Kind,
    pub resources: Resources,
    pub main_info: Option<String>,
    pub auxiliary_info: Vec<String>,
    pub stack_trace: Vec<Stack>,
}

impl Error {
    /// Every decoded finding has a main stack trace.
    pub open spec fn wf(&self) -> bool {
        self.stack_trace@.len() >= 1
    }

    /// The text that describes the stack trace at position `trace`, which
    /// must be one of the later traces.
    pub fn auxiliary_description(&self, trace: usize) -> (r: Option<&String>)
        requires
            1 <= trace,
        ensures
            trace - 1 < self.auxiliary_info@.len() ==> r == Some(
                &self.auxiliary_info@[trace - 1],
            ),
            trace - 1 >= self.auxiliary_info@.len() ==> r is None,
    {
        if trace - 1 < self.auxiliary_info.len() {
            Some(&self.auxiliary_info[trace - 1])
        } else {
            None
        }
    }
}

/// A whole report.
#[derive(Debug, Clone, PartialEq, Eq, Hash)]
pub struct Output {
    pub protocol_version: ProtocolVersion,
    pub tool: Tool,
    pub errors: Vec<Error>,
}

/// How a code location reads: the function (or `unknown`), then the file
/// and line in parentheses, where known, as in `realloc (alloc.rs:125)`.
pub open spec fn location_text(function: Option<String>, file: Option<String>, line: Option<usize>) -> Seq<char> {
    let name = match function {
        Some(f) => f@,
        None => "unknown"@,
    };
    match file {
        None => name,
        Some(f) => name + " ("@ + f@ + match line {
            Some(l) => ":"@ + decimal_digits(l as nat),
            None => Seq::empty(),
        } + ")"@,
    }
}

/// Writes a code location (see [`location_text`]).
pub fn location(function: &Option<String>, file: &Option<String>, line: Option<usize>) -> (r: String)
    ensures
        r@ == location_text(*function, *file, line),
{
    let mut out = match function {
        Some(f) => f.clone(),
        None => String::from_str("unknown"),
    };
    match file {
        None => {},
        Some(f) => {
            out.append(" (");
            out.append(f.as_str());
            match line {
                Some(l) => {
                    out.append(":");
                    out.append(decimal(l).as_str());
                },
                None => {},
            }
            out.append(")");
        },
    }
    proof {
        let name = match function {
            Some(f) => f@,
            None => "unknown"@,
        };
        match file {
            None => {},
            Some(f) => {
                match line {
                    Some(l) => {
                        assert(out@ =~= name + " ("@ + f@ + (":"@ + decimal_digits(l as nat)) + ")"@);
                    },
                    None => {
                        assert(out@ =~= name + " ("@ + f@ + Seq::<char>::empty() + ")"@);
                    },
                }
            },
        }
    }
    out
}

impl Frame {
    /// The frame as text: its function, file and line, such as
    /// `realloc (alloc.rs:125)`.
    pub fn to_text(&self) -> (r: String)
        ensures
            r@ == location_text(self.function, self.file, self.line),
    {
        location(&self.function, &self.file, self.line)
    }
}

} // verus!
