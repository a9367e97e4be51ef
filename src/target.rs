//! The build types and the runnable targets of a crate.
use vstd::prelude::*;
use crate::text::starts_with;

verus! {

/// The possible build types.
#[derive(Debug, Clone, Copy, PartialEq, Eq, Hash, Structural)]
pub enum Build {
    /// A debug build.
    Debug,
    /// A release build.
    Release,
}

/// A debug build is made unless another is asked for.
impl Default for Build {
    fn default() -> (r: Build)
        ensures
            r == Build::Debug,
    {
        Build::Debug
    }
}

impl Build {
    /// The name of the directory below the target directory that holds the
    /// artifacts of this build type.
    pub fn directory(&self) -> (r: &'static str)
        ensures
            r@ == build_directory(*self),
    {
        match self {
            Build::Debug => "debug",
            Build::Release => "release",
        }
    }
}

pub open spec fn build_directory(b: Build) -> Seq<char> {
    match b {
        Build::Debug => "debug"@,
        Build::Release => "release"@,
    }
}

/// A runnable target, with the path of its executable (`/`-separated).
#[derive(Debug, Clone)]
pub enum Target {
    /// A normal binary.
    Binary(String),
    /// An example.
    Example(String),
    /// A benchmark.
    Benchmark(String),
    /// An integration test.
    Test(String),
}

/// What follows the last `/` of a text (all of it where it has none).
pub open spec fn last_segment(p: Seq<char>) -> Seq<char>
    decreases p.len(),
{
    if p.len() == 0 {
        Seq::empty()
    } else if p.last() == '/' {
        Seq::empty()
    } else {
        last_segment(p.drop_last()).push(p.last())
    }
}

proof fn lemma_last_segment(p: Seq<char>)
    ensures
        last_segment(p).len() <= p.len(),
        last_segment(p) == p.subrange(p.len() - last_segment(p).len(), p.len() as int),
        p.len() > 0 && p.last() != '/' ==> last_segment(p).len() >= 1,
    decreases p.len(),
{
    if p.len() > 0 && p.last() != '/' {
        lemma_last_segment(p.drop_last());
        assert(last_segment(p) =~= p.subrange(p.len() - last_segment(p).len(), p.len() as int));
    } else if p.len() > 0 {
        assert(last_segment(p) =~= p.subrange(p.len() as int, p.len() as int));
    } else {
        assert(last_segment(p) =~= p.subrange(0, 0));
    }
}

/// The file name of a path, as `Path::file_name` gives it: trailing `/` and
/// `.` components are dropped and the last component is taken. There is none
/// where the path is empty, is the root or `.`, or ends in `..`.
pub open spec fn file_name(p: Seq<char>) -> Option<Seq<char>>
    decreases p.len(),
{
    if p.len() == 0 {
        None
    } else if p.last() == '/' {
        file_name(p.drop_last())
    } else {
        let c = last_segment(p);
        if c.len() == 0 || c.len() > p.len() {
            None
        } else if c == "."@ {
            file_name(p.subrange(0, p.len() - c.len()))
        } else if c == ".."@ {
            None
        } else {
            Some(c)
        }
    }
}

/// The position in `p` where the component that ends at `end` starts: just
/// after the last `/` before `end`, or 0.
fn segment_start(p: &str, end: usize) -> (start: usize)
    requires
        end <= p@.len(),
    ensures
        start <= end,
        p@.subrange(start as int, end as int) == last_segment(p@.subrange(0, end as int)),
{
    let mut start: usize = end;
    while start > 0 && p.get_char(start - 1) != '/'
        invariant
            start <= end <= p@.len(),
            last_segment(p@.subrange(0, end as int)) == last_segment(p@.subrange(0, start as int))
                + p@.subrange(start as int, end as int),
        decreases start,
    {
        let ghost pre = p@.subrange(0, start as int);
        assert(pre.drop_last() == p@.subrange(0, start - 1));
        assert(p@.subrange(start - 1, end as int) == seq![pre.last()] + p@.subrange(
            start as int,
            end as int,
        ));
        assert(last_segment(p@.subrange(0, start - 1)) + p@.subrange(start - 1, end as int)
            == last_segment(pre) + p@.subrange(start as int, end as int));
        start = start - 1;
    }
    if start > 0 {
        let ghost pre = p@.subrange(0, start as int);
        assert(pre.last() == '/');
    }
    assert(last_segment(p@.subrange(0, start as int)) == Seq::<char>::empty());
    assert(last_segment(p@.subrange(0, end as int)) =~= p@.subrange(start as int, end as int));
    start
}

/// The file name of the path `p` (see [`file_name`]).
pub fn path_file_name(p: &str) -> (r: Option<&str>)
    ensures
        match r {
            Some(s) => file_name(p@) == Some(s@),
            None => file_name(p@) is None,
        },
{
    let n = p.unicode_len();
    let mut end: usize = n;
    assert(p@.subrange(0, n as int) == p@);
    loop
        invariant
            end <= n,
            n == p@.len(),
            file_name(p@) == file_name(p@.subrange(0, end as int)),
        decreases end,
    {
        let ghost q = p@.subrange(0, end as int);
        if end == 0 {
            return None;
        }
        if p.get_char(end - 1) == '/' {
            assert(q.drop_last() == p@.subrange(0, end - 1));
            end = end - 1;
        } else {
            let start = segment_start(p, end);
            let seg = p.substring_char(start, end);
            proof {
                lemma_last_segment(q);
                assert(q.subrange(0, q.len() - last_segment(q).len()) == p@.subrange(0, start as int));
                reveal_strlit(".");
                reveal_strlit("..");
            }
            if crate::text::str_eq(seg, ".") {
                end = start;
            } else if crate::text::str_eq(seg, "..") {
                return None;
            } else {
                return Some(seg);
            }
        }
    }
}

/// The flag that selects a target of this kind on cargo's command line.
pub open spec fn target_flag(t: Target) -> Seq<char> {
    match t {
        Target::Binary(_) => "bin"@,
        Target::Example(_) => "example"@,
        Target::Benchmark(_) => "bench"@,
        Target::Test(_) => "test"@,
    }
}

pub open spec fn same_kind(a: Target, b: Target) -> bool {
    match (a, b) {
        (Target::Binary(_), Target::Binary(_)) => true,
        (Target::Example(_), Target::Example(_)) => true,
        (Target::Benchmark(_), Target::Benchmark(_)) => true,
        (Target::Test(_), Target::Test(_)) => true,
        _ => false,
    }
}

impl Target {
    pub open spec fn spec_path(&self) -> Seq<char> {
        match self {
            Target::Binary(p) => p@,
            Target::Example(p) => p@,
            Target::Benchmark(p) => p@,
            Target::Test(p) => p@,
        }
    }

    /// The file name of the target's path, if it has one.
    pub open spec fn spec_file_name(&self) -> Option<Seq<char>> {
        file_name(self.spec_path())
    }

    /// Whether the target's path has a file name, which is its name.
    pub open spec fn has_name(&self) -> bool {
        self.spec_file_name() is Some
    }

    /// The target's name, where it has one.
    pub open spec fn spec_name(&self) -> Seq<char> {
        self.spec_file_name()->Some_0
    }

    /// The path to the target's executable.
    pub fn path(&self) -> (r: &str)
        ensures
            r@ == self.spec_path(),
    {
        match self {
            Target::Binary(p) | Target::Example(p) | Target::Benchmark(p) | Target::Test(p) => {
                p.as_str()
            },
        }
    }

    /// The file name of the target's path (see [`file_name`]), if any.
    pub fn file_name(&self) -> (r: Option<&str>)
        ensures
            match r {
                Some(s) => self.spec_file_name() == Some(s@),
                None => self.spec_file_name() is None,
            },
    {
        path_file_name(self.path())
    }

    /// The name of the target: the file name of its path.
    pub fn name(&self) -> (r: &str)
        requires
            self.has_name(),
        ensures
            r@ == self.spec_name(),
    {
        match self.file_name() {
            Some(s) => s,
            None => "",
        }
    }

    /// Whether the target is a normal binary.
    pub fn is_binary(&self) -> (r: bool)
        ensures
            r == self is Binary,
    {
        match self {
            Target::Binary(_) => true,
            _ => false,
        }
    }

    /// Whether the target is an example.
    pub fn is_example(&self) -> (r: bool)
        ensures
            r == self is Example,
    {
        match self {
            Target::Example(_) => true,
            _ => false,
        }
    }

    /// Whether the target is a benchmark.
    pub fn is_benchmark(&self) -> (r: bool)
        ensures
            r == self is Benchmark,
    {
        match self {
            Target::Benchmark(_) => true,
            _ => false,
        }
    }

    /// Whether the target is an integration test.
    pub fn is_test(&self) -> (r: bool)
        ensures
            r == self is Test,
    {
        match self {
            Target::Test(_) => true,
            _ => false,
        }
    }

    /// A copy of the target.
    pub fn duplicate(&self) -> (r: Target)
        ensures
            r == *self,
    {
        match self {
            Target::Binary(p) => Target::Binary(p.clone()),
            Target::Example(p) => Target::Example(p.clone()),
            Target::Benchmark(p) => Target::Benchmark(p.clone()),
            Target::Test(p) => Target::Test(p.clone()),
        }
    }

    /// The flag that selects this target on cargo's command line, without
    /// its dashes.
    pub fn flag(&self) -> (r: &'static str)
        ensures
            r@ == target_flag(*self),
    {
        match self {
            Target::Binary(_) => "bin",
            Target::Example(_) => "example",
            Target::Benchmark(_) => "bench",
            Target::Test(_) => "test",
        }
    }
}

/// Two targets are the same when they have the same name and kind.
impl PartialEq for Target {
    fn eq(&self, other: &Target) -> (r: bool) {
        let same = match (self, other) {
            (Target::Binary(_), Target::Binary(_))
            | (Target::Example(_), Target::Example(_))
            | (Target::Benchmark(_), Target::Benchmark(_))
            | (Target::Test(_), Target::Test(_)) => true,
            _ => false,
        };
        same && match (self.file_name(), other.file_name()) {
            (Some(a), Some(b)) => crate::text::str_eq(a, b),
            (None, None) => true,
            _ => false,
        }
    }
}

impl Eq for Target {}

impl vstd::std_specs::cmp::PartialEqSpecImpl for Target {
    open spec fn obeys_eq_spec() -> bool {
        true
    }

    open spec fn eq_spec(&self, other: &Target) -> bool {
        same_kind(*self, *other) && self.spec_file_name() == other.spec_file_name()
    }
}

/// Whether `p` is a prefix of `s`.
pub open spec fn is_prefix(p: Seq<char>, s: Seq<char>) -> bool {
    p.len() <= s.len() && s.subrange(0, p.len() as int) == p
}

/// Every target of `ts` has a name.
pub open spec fn all_named(ts: Seq<Target>) -> bool {
    forall|i: int| 0 <= i < ts.len() ==> (#[trigger] ts[i]).has_name()
}

/// The position of the first target whose name starts with `name`.
pub fn position_by_name(name: &str, targets: &Vec<Target>) -> (r: Option<usize>)
    requires
        all_named(targets@),
    ensures
        match r {
            Some(i) => i < targets@.len() && is_prefix(name@, targets@[i as int].spec_name())
                && forall|j: int| 0 <= j < i ==> !is_prefix(name@, #[trigger] targets@[j].spec_name()),
            None => forall|j: int| 0 <= j < targets@.len() ==> !is_prefix(name@, #[trigger] targets@[j].spec_name()),
        },
{
    let mut i: usize = 0;
    while i < targets.len()
        invariant
            i <= targets@.len(),
            all_named(targets@),
            forall|j: int| 0 <= j < i ==> !is_prefix(name@, #[trigger] targets@[j].spec_name()),
        decreases targets@.len() - i,
    {
        if starts_with(targets[i].name(), name) {
            return Some(i);
        }
        i = i + 1;
    }
    None
}

/// Why no target could be chosen.
#[derive(Debug, Clone)]
pub enum TargetError {
    /// The crate has no runnable target.
    NoRunnableTarget,
    /// None was asked for and there are several; each line names one as
    /// `--<flag> <name>`.
    MultipleTargets(Vec<String>),
    /// No target's name starts with the name of the one asked for.
    NotFound(Target),
}

/// How a target is named on cargo's command line: `--<flag> <name>`.
pub open spec fn selector(t: Target) -> Seq<char> {
    "--"@ + target_flag(t) + " "@ + t.spec_name()
}

/// The target to run: the one asked for, or else the only one there is.
pub open spec fn wanted_target(specified: Option<Target>, targets: Seq<Target>) -> Option<Target> {
    match specified {
        Some(t) => Some(t),
        None => if targets.len() == 1 {
            Some(targets[0])
        } else {
            None
        },
    }
}

/// Chooses the target to run among `targets`, which all have names, as has
/// the one asked for.
///
/// Where one is asked for, the result is the first target whose name starts
/// with its name. Where none is asked for, the only target is taken; it is an
/// error where there is none or there are several.
pub fn find_target(specified: Option<Target>, targets: &Vec<Target>) -> (r: Result<Target, TargetError>)
    requires
        all_named(targets@),
        specified matches Some(t) ==> t.has_name(),
    ensures
        match wanted_target(specified, targets@) {
            None => if targets@.len() == 0 {
                r matches Err(TargetError::NoRunnableTarget)
            } else {
                r matches Err(TargetError::MultipleTargets(lines)) && crate::text::views(lines@)
                    == targets@.map_values(|t: Target| selector(t))
            },
            Some(w) => match r {
                Ok(t) => exists|i: int| 0 <= i < targets@.len() && t == targets@[i]
                    && is_prefix(w.spec_name(), targets@[i].spec_name())
                    && forall|j: int| 0 <= j < i ==> !is_prefix(w.spec_name(), #[trigger] targets@[j].spec_name()),
                Err(TargetError::NotFound(x)) => x == w && forall|j: int| 0 <= j < targets@.len()
                    ==> !is_prefix(w.spec_name(), #[trigger] targets@[j].spec_name()),
                Err(_) => false,
            },
        },
{
    let wanted = match specified {
        Some(t) => t,
        None => {
            if targets.len() == 1 {
                targets[0].duplicate()
            } else if targets.len() == 0 {
                return Err(TargetError::NoRunnableTarget);
            } else {
                let mut lines: Vec<String> = Vec::new();
                let mut i: usize = 0;
                while i < targets.len()
                    invariant
                        i <= targets@.len(),
                        all_named(targets@),
                        crate::text::views(lines@) == targets@.subrange(0, i as int).map_values(
                            |t: Target| selector(t),
                        ),
                    decreases targets@.len() - i,
                {
                    let ghost before = crate::text::views(lines@);
                    let line = String::from_str("--").concat(targets[i].flag()).concat(" ").concat(
                        targets[i].name(),
                    );
                    lines.push(line);
                    assert(crate::text::views(lines@) =~= before.push(selector(targets@[i as int])));
                    assert(targets@.subrange(0, i + 1).map_values(|t: Target| selector(t))
                        =~= targets@.subrange(0, i as int).map_values(|t: Target| selector(t)).push(
                        selector(targets@[i as int])));
                    i = i + 1;
                }
                assert(targets@.subrange(0, i as int) == targets@);
                return Err(TargetError::MultipleTargets(lines));
            }
        },
    };
    match position_by_name(wanted.name(), targets) {
        Some(i) => Ok(targets[i].duplicate()),
        None => Err(TargetError::NotFound(wanted)),
    }
}

/// The target asked for on the command line: the first of a binary, an
/// example, a benchmark and a test that was named.
pub fn specified_target(
    bin: Option<String>,
    example: Option<String>,
    bench: Option<String>,
    test: Option<String>,
) -> (r: Option<Target>)
    ensures
        r == (match (bin, example, bench, test) {
            (Some(p), _, _, _) => Some(Target::Binary(p)),
            (None, Some(p), _, _) => Some(Target::Example(p)),
            (None, None, Some(p), _) => Some(Target::Benchmark(p)),
            (None, None, None, Some(p)) => Some(Target::Test(p)),
            (None, None, None, None) => None::<Target>,
        }),
{
    match bin {
        Some(p) => return Some(Target::Binary(p)),
        None => {},
    }
    match example {
        Some(p) => return Some(Target::Example(p)),
        None => {},
    }
    match bench {
        Some(p) => return Some(Target::Benchmark(p)),
        None => {},
    }
    match test {
        Some(p) => Some(Target::Test(p)),
        None => None,
    }
}

} // verus!
