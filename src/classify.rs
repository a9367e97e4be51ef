//! Splits the findings of a report into leaks and other memory errors.
use vstd::prelude::*;
use crate::decode::{OutputElement, decodes_error, decodes_output, output_error, spec_kind, spec_version};
use crate::text::clone_text;
use crate::xml::{Error, Frame, Kind, Output, location, location_text, spec_is_leak};

verus! {

/// A function in a call trace: its name, file and line, each of which may be
/// unknown where the code carries no debug information.
#[derive(Debug, Clone, PartialEq, Eq, Hash)]
pub struct Function {
    name: Option<String>,
    file: Option<String>,
    line: Option<usize>,
}

/// The function that a frame of a stack trace lies in.
pub closed spec fn function_of(f: Frame) -> Function {
    Function { name: f.function, file: f.file, line: f.line }
}

impl Function {
    pub closed spec fn spec_name(&self) -> Option<String> {
        self.name
    }

    pub closed spec fn spec_file(&self) -> Option<String> {
        self.file
    }

    pub closed spec fn spec_line(&self) -> Option<usize> {
        self.line
    }

    /// The function that frame `f` lies in.
    pub fn from_frame(f: &Frame) -> (r: Function)
        ensures
            r == function_of(*f),
            r.spec_name() == f.function,
            r.spec_file() == f.file,
            r.spec_line() == f.line,
    {
        Function {
            name: clone_text(&f.function),
            file: clone_text(&f.file),
            line: f.line,
        }
    }

    /// The name of the function, if known.
    pub fn name(&self) -> (r: Option<&str>)
        ensures
            match r {
                Some(s) => self.spec_name() is Some && s@ == self.spec_name()->Some_0@,
                None => self.spec_name() is None,
            },
    {
        match &self.name {
            Some(n) => Some(n.as_str()),
            None => None,
        }
    }

    /// The file that defines the function, if known.
    pub fn file(&self) -> (r: Option<&str>)
        ensures
            match r {
                Some(s) => self.spec_file() is Some && s@ == self.spec_file()->Some_0@,
                None => self.spec_file() is None,
            },
    {
        match &self.file {
            Some(n) => Some(n.as_str()),
            None => None,
        }
    }

    /// The function as text: its name, file and line, such as
    /// `realloc (alloc.rs:125)`.
    pub fn to_text(&self) -> (r: String)
        ensures
            r@ == location_text(self.spec_name(), self.spec_file(), self.spec_line()),
    {
        location(&self.name, &self.file, self.line)
    }

    /// The line of the call, if known.
    pub fn line(&self) -> (r: Option<usize>)
        ensures
            r == self.spec_line(),
    {
        self.line
    }
}

/// A memory leak: how much memory it holds, its kind, and the trace of the
/// calls that allocated it.
#[derive(Debug, Clone, PartialEq, Eq, Hash)]
pub struct Leak {
    bytes: usize,
    blocks: usize,
    kind: Kind,
    stack_trace: Vec<Function>,
}

/// The frames of the main stack trace of a finding (none, where it has no
/// trace at all).
pub open spec fn main_frames(e: Error) -> Seq<Frame> {
    if e.stack_trace@.len() >= 1 {
        e.stack_trace@[0].frames@
    } else {
        Seq::empty()
    }
}

impl Leak {
    pub closed spec fn spec_bytes(&self) -> usize {
        self.bytes
    }

    pub closed spec fn spec_blocks(&self) -> usize {
        self.blocks
    }

    pub closed spec fn spec_kind(&self) -> Kind {
        self.kind
    }

    pub closed spec fn spec_trace(&self) -> Seq<Function> {
        self.stack_trace@
    }

    /// `self` is the leak that finding `e` reports.
    pub open spec fn reports(&self, e: Error) -> bool {
        &&& self.spec_bytes() == e.resources.bytes
        &&& self.spec_blocks() == e.resources.blocks
        &&& self.spec_kind() == e.kind
        &&& self.spec_trace() == main_frames(e).map_values(|f: Frame| function_of(f))
    }

    /// The leak that finding `e` reports.
    pub fn from_error(e: &Error) -> (r: Leak)
        ensures
            r.reports(*e),
    {
        let mut trace: Vec<Function> = Vec::new();
        if e.stack_trace.len() >= 1 {
            let frames = &e.stack_trace[0].frames;
            let mut i: usize = 0;
            while i < frames.len()
                invariant
                    i <= frames@.len(),
                    e.stack_trace@.len() >= 1,
                    *frames == e.stack_trace@[0].frames,
                    trace@ == frames@.subrange(0, i as int).map_values(|f: Frame| function_of(f)),
                decreases frames@.len() - i,
            {
                trace.push(Function::from_frame(&frames[i]));
                i = i + 1;
                assert(trace@ =~= frames@.subrange(0, i as int).map_values(|f: Frame| function_of(f)));
            }
            assert(frames@.subrange(0, i as int) == frames@);
        } else {
            assert(trace@ =~= main_frames(*e).map_values(|f: Frame| function_of(f)));
        }
        Leak { bytes: e.resources.bytes, blocks: e.resources.blocks, kind: e.kind, stack_trace: trace }
    }

    /// The number of bytes leaked.
    pub fn leaked_bytes(&self) -> (r: usize)
        ensures
            r == self.spec_bytes(),
    {
        self.bytes
    }

    /// The number of blocks leaked.
    pub fn leaked_blocks(&self) -> (r: usize)
        ensures
            r == self.spec_blocks(),
    {
        self.blocks
    }

    /// The kind of the leak.
    pub fn leak_kind(&self) -> (r: Kind)
        ensures
            r == self.spec_kind(),
    {
        self.kind
    }

    /// The functions that led to the leak, most recent call first.
    pub fn back_trace(&self) -> (r: &Vec<Function>)
        ensures
            r@ == self.spec_trace(),
    {
        &self.stack_trace
    }
}

/// A leak finding that holds no memory at all: nothing to act on.
pub open spec fn is_empty_leak(e: Error) -> bool {
    spec_is_leak(e.kind) && e.resources.bytes == 0 && e.resources.blocks == 0
}

/// The leak findings of `es` that are kept, in order.
pub open spec fn kept_leaks(es: Seq<Error>) -> Seq<Error>
    decreases es.len(),
{
    if es.len() == 0 {
        Seq::empty()
    } else if spec_is_leak(es.last().kind) && !is_empty_leak(es.last()) {
        kept_leaks(es.drop_last()).push(es.last())
    } else {
        kept_leaks(es.drop_last())
    }
}

/// The findings of `es` that are not leaks, in order.
pub open spec fn other_errors(es: Seq<Error>) -> Seq<Error>
    decreases es.len(),
{
    if es.len() == 0 {
        Seq::empty()
    } else if !spec_is_leak(es.last().kind) {
        other_errors(es.drop_last()).push(es.last())
    } else {
        other_errors(es.drop_last())
    }
}

/// The sum of the leaked bytes of `es`.
pub open spec fn byte_sum(es: Seq<Error>) -> nat
    decreases es.len(),
{
    if es.len() == 0 {
        0
    } else {
        byte_sum(es.drop_last()) + es.last().resources.bytes as nat
    }
}

/// The findings of a report, sorted into leaks and other errors.
#[derive(Debug, Clone, PartialEq, Eq)]
pub struct ClassifiedReport {
    /// The leaks that hold memory, in report order.
    pub leaks: Vec<Leak>,
    /// The findings that are not leaks, in report order.
    pub errors: Vec<Error>,
    /// The bytes that the kept leaks hold together.
    pub total_bytes: u128,
}

/// `c` is the classification of the findings `es`.
pub open spec fn classifies(es: Seq<Error>, c: ClassifiedReport) -> bool {
    &&& c.leaks@.len() == kept_leaks(es).len()
    &&& forall|i: int| 0 <= i < c.leaks@.len() ==> (#[trigger] c.leaks@[i]).reports(kept_leaks(es)[i])
    &&& c.errors@ == other_errors(es)
    &&& c.total_bytes == byte_sum(kept_leaks(es))
}

proof fn lemma_byte_sum_bound(es: Seq<Error>)
    ensures
        byte_sum(es) <= es.len() * (usize::MAX as int),
    decreases es.len(),
{
    if es.len() > 0 {
        lemma_byte_sum_bound(es.drop_last());
    }
}

proof fn lemma_kept_leaks_len(es: Seq<Error>)
    ensures
        kept_leaks(es).len() <= es.len(),
    decreases es.len(),
{
    if es.len() > 0 {
        lemma_kept_leaks_len(es.drop_last());
    }
}

/// Sorts the findings of a report into leaks and other errors.
///
/// Leaks that hold neither bytes nor blocks are dropped; every other finding
/// is kept, in order.
pub fn classify(report: Output) -> (r: ClassifiedReport)
    ensures
        classifies(report.errors@, r),
{
    let ghost es = report.errors@;
    let mut rest = report.errors;
    let mut leaks: Vec<Leak> = Vec::new();
    let mut errors: Vec<Error> = Vec::new();
    let mut total: u128 = 0;
    let mut i: usize = 0;
    assert(es.len() == rest.len());
    while rest.len() > 0
        invariant
            i <= es.len() <= usize::MAX,
            rest@ == es.subrange(i as int, es.len() as int),
            leaks@.len() == kept_leaks(es.subrange(0, i as int)).len(),
            forall|j: int| 0 <= j < leaks@.len() ==> (#[trigger] leaks@[j]).reports(
                kept_leaks(es.subrange(0, i as int))[j]),
            errors@ == other_errors(es.subrange(0, i as int)),
            total == byte_sum(kept_leaks(es.subrange(0, i as int))),
        decreases rest@.len(),
    {
        let e = rest.remove(0);
        let ghost prefix = es.subrange(0, i as int);
        let ghost next = es.subrange(0, i + 1);
        assert(next.drop_last() == prefix);
        assert(e == es[i as int]);
        assert(next.last() == e);
        if e.kind.is_leak() {
            if !(e.resources.bytes == 0 && e.resources.blocks == 0) {
                proof {
                    lemma_byte_sum_bound(kept_leaks(prefix));
                    lemma_kept_leaks_len(prefix);
                    assert(kept_leaks(prefix).len() * (usize::MAX as int) <= usize::MAX as int
                        * (usize::MAX as int)) by (nonlinear_arith)
                        requires
                            kept_leaks(prefix).len() <= usize::MAX,
                    ;
                }
                total = total + e.resources.bytes as u128;
                assert(kept_leaks(next).drop_last() == kept_leaks(prefix));
                leaks.push(Leak::from_error(&e));
            }
        } else {
            errors.push(e);
        }
        i = i + 1;
    }
    assert(es.subrange(0, i as int) == es);
    ClassifiedReport { leaks, errors, total_bytes: total }
}

// ---- laws ----

/// The number of leak findings in `es` that hold no memory.
pub open spec fn empty_leak_count(es: Seq<Error>) -> nat
    decreases es.len(),
{
    if es.len() == 0 {
        0
    } else {
        empty_leak_count(es.drop_last()) + if is_empty_leak(es.last()) {
            1nat
        } else {
            0nat
        }
    }
}

/// The bytes that the leaks `ls` hold together.
pub open spec fn leak_bytes(ls: Seq<Leak>) -> nat
    decreases ls.len(),
{
    if ls.len() == 0 {
        0
    } else {
        leak_bytes(ls.drop_last()) + ls.last().spec_bytes() as nat
    }
}

proof fn lemma_counts(es: Seq<Error>)
    ensures
        kept_leaks(es).len() + other_errors(es).len() + empty_leak_count(es) == es.len(),
        forall|i: int| 0 <= i < kept_leaks(es).len() ==> spec_is_leak(#[trigger] kept_leaks(es)[i].kind)
            && !is_empty_leak(kept_leaks(es)[i]),
    decreases es.len(),
{
    if es.len() > 0 {
        lemma_counts(es.drop_last());
    }
}

proof fn lemma_sums_agree(ls: Seq<Leak>, ks: Seq<Error>)
    requires
        ls.len() == ks.len(),
        forall|i: int| 0 <= i < ls.len() ==> (#[trigger] ls[i]).reports(ks[i]),
    ensures
        leak_bytes(ls) == byte_sum(ks),
    decreases ls.len(),
{
    if ls.len() > 0 {
        let (lp, kp) = (ls.drop_last(), ks.drop_last());
        assert forall|i: int| 0 <= i < lp.len() implies (#[trigger] lp[i]).reports(kp[i]) by {
            assert(ls[i].reports(ks[i]));
        }
        lemma_sums_agree(lp, kp);
        assert(ls.last().reports(ks.last()));
    }
}

/// Classifying drops exactly the leak findings that hold neither bytes nor
/// blocks: each kept leak holds memory, and the kept leaks, the other
/// errors and the dropped findings account for every finding. The total is
/// the sum of the bytes of the kept leaks.
pub proof fn lemma_only_empty_leaks_dropped(es: Seq<Error>, c: ClassifiedReport)
    requires
        classifies(es, c),
    ensures
        c.leaks@.len() + c.errors@.len() + empty_leak_count(es) == es.len(),
        forall|i: int| 0 <= i < kept_leaks(es).len() ==> spec_is_leak(#[trigger] kept_leaks(es)[i].kind)
            && !is_empty_leak(kept_leaks(es)[i]),
        c.total_bytes == leak_bytes(c.leaks@),
{
    lemma_counts(es);
    lemma_sums_agree(c.leaks@, kept_leaks(es));
}

proof fn lemma_other_errors_contain(es: Seq<Error>, i: int)
    requires
        0 <= i < es.len(),
        !spec_is_leak(es[i].kind),
    ensures
        other_errors(es).contains(es[i]),
    decreases es.len(),
{
    if i < es.len() - 1 {
        assert(es.drop_last()[i] == es[i]);
        lemma_other_errors_contain(es.drop_last(), i);
        let w = choose|j: int| 0 <= j < other_errors(es.drop_last()).len() && other_errors(es.drop_last())[j] == es[i];
        if !spec_is_leak(es.last().kind) {
            assert(other_errors(es)[w] == es[i]);
        }
    } else {
        assert(other_errors(es).last() == es[i]);
    }
}

/// Every finding that is not a leak, such as an invalid free, is kept among
/// the errors, with its descriptions and traces.
pub proof fn lemma_non_leaks_kept(es: Seq<Error>, c: ClassifiedReport, i: int)
    requires
        classifies(es, c),
        0 <= i < es.len(),
        !spec_is_leak(es[i].kind),
    ensures
        c.errors@.contains(es[i]),
{
    lemma_other_errors_contain(es, i);
}

/// A report without findings classifies to no leaks, no errors and no bytes.
pub proof fn lemma_clean_report_classifies_empty(es: Seq<Error>, c: ClassifiedReport)
    requires
        classifies(es, c),
        es.len() == 0,
    ensures
        c.leaks@.len() == 0,
        c.errors@.len() == 0,
        c.total_bytes == 0,
{
}

/// A run whose report holds an invalid free with a description keeps that
/// finding among the classified errors, with its description.
pub proof fn lemma_invalid_free_reported(
    d: OutputElement,
    o: Output,
    c: ClassifiedReport,
    i: int,
    w: String,
)
    requires
        output_error(d) is None,
        decodes_output(d, o),
        classifies(o.errors@, c),
        0 <= i < d.errors@.len(),
        spec_kind(d.errors@[i].kind@) == Some(Kind::InvalidFree),
        d.errors@[i].what == Some(w),
        w@.len() > 0,
    ensures
        exists|j: int|
            0 <= j < c.errors@.len() && c.errors@[j].kind == Kind::InvalidFree
                && c.errors@[j].main_info == Some(w) && w@.len() > 0,
{
    assert(decodes_error(d.errors@[i], o.errors@[i]));
    lemma_non_leaks_kept(o.errors@, c, i);
    let j = choose|j: int| 0 <= j < c.errors@.len() && c.errors@[j] == o.errors@[i];
    assert(c.errors@[j].kind == Kind::InvalidFree);
}

/// A run whose document declares a supported version and memcheck and holds
/// no findings classifies to no leaks, no errors and no bytes.
pub proof fn lemma_clean_run_classifies_empty(d: OutputElement, o: Output, c: ClassifiedReport)
    requires
        spec_version(d.protocol_version@) is Some,
        d.protocol_tool@ == "memcheck"@,
        d.errors@.len() == 0,
        decodes_output(d, o),
        classifies(o.errors@, c),
    ensures
        output_error(d) is None,
        c.leaks@.len() == 0,
        c.errors@.len() == 0,
        c.total_bytes == 0,
{
    lemma_clean_report_classifies_empty(o.errors@, c);
}

} // verus!
