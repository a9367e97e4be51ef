//! The decisions of a valgrind run: which flags valgrind gets, and what a run
//! yields once the process has ended and its report has been read.
//!
//! Spawning the process, reading the report socket and waiting are left to
//! the caller, which hands the outcome of each step to the functions here.
use vstd::prelude::*;
use crate::decode::{DecodeError, OutputElement, decode, output_error, decodes_output};
use crate::text::{split, split_on, views};
use crate::xml::Output;

verus! {

/// Why a valgrind run did not yield a report.
#[derive(Debug)]
pub enum Error {
    /// The `valgrind` executable could not be started.
    ValgrindNotInstalled,
    /// Opening, accepting on or reading the report socket failed.
    SocketConnection,
    /// Waiting on the valgrind process failed.
    ProcessFailed,
    /// Valgrind exited with a failure; this is what it wrote to stderr.
    ValgrindFailure(String),
    /// The program under test was killed by this signal; the report holds
    /// what valgrind wrote before, where it could be read.
    ProcessSignal(i32, Option<Output>),
    /// The report could not be decoded; the bytes are what was received.
    MalformedOutput(DecodeError, Vec<u8>),
}

/// How the valgrind process ended, as far as its parent could tell.
#[derive(Debug, Clone, Copy, PartialEq, Eq, Structural)]
pub enum Exit {
    /// The process could not be started.
    NotStarted,
    /// Waiting on the process failed.
    WaitFailed,
    /// The process exited successfully.
    Success,
    /// The process exited with a failure code.
    Failure,
    /// The process was terminated by this signal.
    Signal(i32),
}

/// Whether the report reader's result is wanted after the process ended so.
///
/// Only after a successful exit or a signal is a report expected: after a
/// failure valgrind may never have connected, and waiting on the reader
/// would never end.
pub fn waits_for_report(exit: Exit) -> (r: bool)
    ensures
        r == (exit is Success || exit is Signal),
{
    match exit {
        Exit::Success | Exit::Signal(_) => true,
        Exit::NotStarted | Exit::WaitFailed | Exit::Failure => false,
    }
}

/// The result of reading a report: the bytes received and the document they
/// were parsed into.
pub fn report_from_document(bytes: Vec<u8>, document: Result<OutputElement, DecodeError>) -> (r:
    Result<Output, Error>)
    ensures
        match document {
            Err(e) => r matches Err(Error::MalformedOutput(x, b)) && x == e && b@ == bytes@,
            Ok(d) => match output_error(d) {
                Some(e) => r matches Err(Error::MalformedOutput(x, b)) && x == e && b@ == bytes@,
                None => r matches Ok(o) && decodes_output(d, o),
            },
        },
{
    match document {
        Err(e) => Err(Error::MalformedOutput(e, bytes)),
        Ok(d) => match decode(&d) {
            Ok(o) => Ok(o),
            Err(e) => Err(Error::MalformedOutput(e, bytes)),
        },
    }
}

/// What a run yields, given how the process ended, what it wrote to stderr
/// and, where it was waited for, what the report reader ended with.
pub fn settle(exit: Exit, stderr: String, report: Option<Result<Output, Error>>) -> (r: Result<
    Output,
    Error,
>)
    ensures
        match exit {
            Exit::NotStarted => r matches Err(Error::ValgrindNotInstalled),
            Exit::WaitFailed => r matches Err(Error::ProcessFailed),
            Exit::Failure => r matches Err(Error::ValgrindFailure(s)) && s == stderr,
            Exit::Success => match report {
                Some(x) => r == x,
                None => r matches Err(Error::SocketConnection),
            },
            Exit::Signal(n) => match report {
                Some(Ok(o)) => r matches Err(Error::ProcessSignal(m, Some(p))) && m == n && p == o,
                _ => r matches Err(Error::ProcessSignal(m, None)) && m == n,
            },
        },
{
    match exit {
        Exit::NotStarted => Err(Error::ValgrindNotInstalled),
        Exit::WaitFailed => Err(Error::ProcessFailed),
        Exit::Failure => Err(Error::ValgrindFailure(stderr)),
        Exit::Success => match report {
            Some(x) => x,
            None => Err(Error::SocketConnection),
        },
        Exit::Signal(n) => match report {
            Some(Ok(o)) => Err(Error::ProcessSignal(n, Some(o))),
            _ => Err(Error::ProcessSignal(n, None)),
        },
    }
}

/// The flags that valgrind is started with, before the command to check:
/// XML output sent to the report socket at `socket` (`host:port`), one
/// suppression file per path, then the extra flags that the user gave
/// (split at each space).
pub open spec fn spec_valgrind_flags(
    socket: Seq<char>,
    extra: Option<Seq<char>>,
    suppressions: Seq<Seq<char>>,
) -> Seq<Seq<char>> {
    let user = match extra {
        Some(e) => split_on(e, ' '),
        None => Seq::empty(),
    };
    seq!["--xml=yes"@, "--xml-socket="@ + socket] + suppressions.map_values(
        |p: Seq<char>| "--suppressions="@ + p,
    ) + user
}

/// Builds the flags that valgrind is started with (see
/// [`spec_valgrind_flags`]).
pub fn valgrind_flags(socket: &str, extra: Option<&str>, suppressions: &Vec<String>) -> (r: Vec<
    String,
>)
    ensures
        views(r@) == spec_valgrind_flags(
            socket@,
            match extra {
                Some(e) => Some(e@),
                None => None,
            },
            views(suppressions@),
        ),
{
    let mut flags: Vec<String> = Vec::new();
    flags.push(String::from_str("--xml=yes"));
    flags.push(String::from_str("--xml-socket=").concat(socket));
    let ghost head = seq!["--xml=yes"@, "--xml-socket="@ + socket@];
    assert(views(flags@) =~= head);
    let mut i: usize = 0;
    while i < suppressions.len()
        invariant
            i <= suppressions@.len(),
            views(flags@) == head + views(suppressions@).subrange(0, i as int).map_values(
                |p: Seq<char>| "--suppressions="@ + p,
            ),
        decreases suppressions@.len() - i,
    {
        let ghost before = views(flags@);
        let ghost vs = views(suppressions@);
        flags.push(String::from_str("--suppressions=").concat(suppressions[i].as_str()));
        assert(views(flags@) =~= before.push("--suppressions="@ + vs[i as int]));
        assert(vs.subrange(0, i + 1).map_values(|p: Seq<char>| "--suppressions="@ + p)
            =~= vs.subrange(0, i as int).map_values(|p: Seq<char>| "--suppressions="@ + p).push(
            "--suppressions="@ + vs[i as int]));
        i = i + 1;
        assert(views(flags@) =~= head + views(suppressions@).subrange(0, i as int).map_values(
            |p: Seq<char>| "--suppressions="@ + p,
        ));
    }
    assert(views(suppressions@).subrange(0, i as int) == views(suppressions@));
    let mut user: Vec<String> = match extra {
        Some(e) => split(e, ' '),
        None => Vec::new(),
    };
    let ghost before = flags@;
    let ghost user_views = views(user@);
    flags.append(&mut user);
    assert(views(flags@) =~= views(before) + user_views);
    flags
}

} // verus!
