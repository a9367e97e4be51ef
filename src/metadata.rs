//! The metadata that `cargo metadata` gives of a workspace, and the runnable
//! targets found in it.
use vstd::prelude::*;
use crate::target::{Build, build_directory};

verus! {

/// The metadata of a workspace.
#[derive(Debug, Clone)]
pub struct Metadata {
    pub packages: Vec<Package>,
    pub target_directory: String,
    pub version: u32,
}

/// One package of the workspace.
#[derive(Debug, Clone)]
pub struct Package {
    pub id: String,
    pub targets: Vec<Target>,
    pub manifest_path: String,
}

/// One target of a package.
#[derive(Debug, Clone)]
pub struct Target {
    pub kind: Vec<Kind>,
    pub crate_types: Vec<CrateType>,
    pub name: String,
}

/// The kind of a target.
#[derive(Debug, Clone, Copy, PartialEq, Eq, Hash, Structural)]
pub enum Kind {
    Binary,
    Example,
    Bench,
    Library,
    DyLib,
    CDyLib,
    StaticLib,
    RLib,
    Test,
    ProcMacro,
    CustomBuild,
}

/// The type of crate that a target compiles to.
#[derive(Debug, Clone, Copy, PartialEq, Eq, Hash, Structural)]
pub enum CrateType {
    Binary,
    Library,
    DyLib,
    CDyLib,
    StaticLib,
    RLib,
    ProcMacro,
}


/// Whether the metadata format has a version that is understood.
pub fn is_supported_version(version: u64) -> (r: bool)
    ensures
        r == (version == 1),
{
    version == 1
}

/// `a` and `b` joined as paths: with a `/` between them unless `a` is empty
/// or already ends in one.
pub open spec fn join_path(a: Seq<char>, b: Seq<char>) -> Seq<char> {
    if a.len() == 0 || a.last() == '/' {
        a + b
    } else {
        a + "/"@ + b
    }
}

/// Joins two paths (see [`join_path`]).
pub fn join(a: &str, b: &str) -> (r: String)
    ensures
        r@ == join_path(a@, b@),
{
    let n = a.unicode_len();
    if n == 0 || a.get_char(n - 1) == '/' {
        String::from_str(a).concat(b)
    } else {
        String::from_str(a).concat("/").concat(b)
    }
}

/// Whether a target compiles to an executable.
pub open spec fn is_executable(t: Target) -> bool {
    exists|i: int| 0 <= i < t.crate_types@.len() && t.crate_types@[i] == CrateType::Binary
}

/// Whether a kind of target can be run.
pub open spec fn is_runnable_kind(k: Kind) -> bool {
    k == Kind::Binary || k == Kind::Example || k == Kind::Bench
}

/// The directory below a build's directory that holds a kind's executables.
pub open spec fn kind_directory(k: Kind) -> Seq<char> {
    match k {
        Kind::Example => "examples"@,
        Kind::Bench => "benches"@,
        _ => Seq::empty(),
    }
}

/// Where the executable of a target of kind `k` named `name` lies below the
/// build directory `dir`.
pub open spec fn executable_path(dir: Seq<char>, k: Kind, name: Seq<char>) -> Seq<char> {
    join_path(join_path(dir, kind_directory(k)), name)
}

/// The runnable targets among `ts`, as kinds and paths below `dir`.
pub open spec fn package_executables(ts: Seq<Target>, dir: Seq<char>) -> Seq<(Kind, Seq<char>)>
    decreases ts.len(),
{
    if ts.len() == 0 {
        Seq::empty()
    } else if is_executable(ts.last()) {
        package_executables(ts.drop_last(), dir).push(
            (ts.last().kind@[0], executable_path(dir, ts.last().kind@[0], ts.last().name@)),
        )
    } else {
        package_executables(ts.drop_last(), dir)
    }
}

/// The runnable targets of the packages among `ps` whose manifest is
/// `requested`.
pub open spec fn workspace_executables(ps: Seq<Package>, requested: Seq<char>, dir: Seq<char>) -> Seq<
    (Kind, Seq<char>),
>
    decreases ps.len(),
{
    if ps.len() == 0 {
        Seq::empty()
    } else if ps.last().manifest_path@ == requested {
        workspace_executables(ps.drop_last(), requested, dir) + package_executables(
            ps.last().targets@,
            dir,
        )
    } else {
        workspace_executables(ps.drop_last(), requested, dir)
    }
}

/// Every executable target of the packages with manifest `requested` is a
/// binary, an example or a benchmark.
pub open spec fn only_runnable(ps: Seq<Package>, requested: Seq<char>) -> bool {
    forall|i: int, j: int|
        0 <= i < ps.len() && ps[i].manifest_path@ == requested && 0 <= j < ps[i].targets@.len()
            && is_executable(#[trigger] ps[i].targets@[j]) ==> ps[i].targets@[j].kind@.len() > 0
            && is_runnable_kind(ps[i].targets@[j].kind@[0])
}

/// A runnable target as a kind and a path.
pub open spec fn target_view(t: crate::target::Target) -> (Kind, Seq<char>) {
    match t {
        crate::target::Target::Binary(p) => (Kind::Binary, p@),
        crate::target::Target::Example(p) => (Kind::Example, p@),
        crate::target::Target::Benchmark(p) => (Kind::Bench, p@),
        crate::target::Target::Test(p) => (Kind::Test, p@),
    }
}

pub open spec fn target_views(ts: Seq<crate::target::Target>) -> Seq<(Kind, Seq<char>)> {
    ts.map_values(|t: crate::target::Target| target_view(t))
}

fn produces_executable(t: &Target) -> (r: bool)
    ensures
        r == is_executable(*t),
{
    let mut i: usize = 0;
    while i < t.crate_types.len()
        invariant
            i <= t.crate_types@.len(),
            forall|j: int| 0 <= j < i ==> t.crate_types@[j] != CrateType::Binary,
        decreases t.crate_types@.len() - i,
    {
        if t.crate_types[i] == CrateType::Binary {
            return true;
        }
        i = i + 1;
    }
    false
}

/// The runnable targets of the package whose manifest is `requested`, with
/// the paths of their executables for the given build type.
///
/// Other packages of the workspace are ignored. Integration tests and build
/// scripts are not supported.
pub fn binaries_from(package: Metadata, requested: &str, build: Build) -> (r: Vec<crate::target::Target>)
    requires
        only_runnable(package.packages@, requested@),
    ensures
        target_views(r@) == workspace_executables(
            package.packages@,
            requested@,
            join_path(package.target_directory@, build_directory(build)),
        ),
{
    let target_dir = join(package.target_directory.as_str(), build.directory());
    let ghost dir = target_dir@;
    let ghost ps = package.packages@;
    let mut result: Vec<crate::target::Target> = Vec::new();
    let mut i: usize = 0;
    while i < package.packages.len()
        invariant
            i <= ps.len(),
            ps == package.packages@,
            dir == target_dir@,
            only_runnable(ps, requested@),
            target_views(result@) == workspace_executables(ps.subrange(0, i as int), requested@, dir),
        decreases ps.len() - i,
    {
        let ghost pre = ps.subrange(0, i as int);
        let ghost next = ps.subrange(0, i + 1);
        assert(next.drop_last() == pre);
        let p = &package.packages[i];
        if crate::text::str_eq(p.manifest_path.as_str(), requested) {
            let ghost base = target_views(result@);
            let mut j: usize = 0;
            while j < p.targets.len()
                invariant
                    j <= p.targets@.len(),
                    *p == ps[i as int],
                    p.manifest_path@ == requested@,
                    i < ps.len(),
                    dir == target_dir@,
                    only_runnable(ps, requested@),
                    target_views(result@) == base + package_executables(p.targets@.subrange(0, j as int), dir),
                decreases p.targets@.len() - j,
            {
                let ghost tpre = p.targets@.subrange(0, j as int);
                let ghost tnext = p.targets@.subrange(0, j + 1);
                assert(tnext.drop_last() == tpre);
                let t = &p.targets[j];
                if produces_executable(t) {
                    assert(is_executable(ps[i as int].targets@[j as int]));
                    let kind = t.kind[0];
                    let sub: &str = match kind {
                        Kind::Example => "examples",
                        Kind::Bench => "benches",
                        _ => "",
                    };
                    proof {
                        reveal_strlit("");
                    }
                    let dir_path = join(target_dir.as_str(), sub);
                    let path = join(dir_path.as_str(), t.name.as_str());
                    let ghost before = target_views(result@);
                    let run = match kind {
                        Kind::Binary => crate::target::Target::Binary(path),
                        Kind::Example => crate::target::Target::Example(path),
                        _ => crate::target::Target::Benchmark(path),
                    };
                    result.push(run);
                    assert(target_views(result@) =~= before.push(target_view(run)));
                }
                j = j + 1;
            }
            assert(p.targets@.subrange(0, j as int) == p.targets@);
        }
        i = i + 1;
    }
    assert(ps.subrange(0, i as int) == ps);
    result
}

/// Whether every executable target of the packages with manifest
/// `requested` is a binary, an example or a benchmark, as
/// [`binaries_from`] requires.
pub fn only_runnable_targets(m: &Metadata, requested: &str) -> (r: bool)
    ensures
        r == only_runnable(m.packages@, requested@),
{
    let ps = &m.packages;
    let mut i: usize = 0;
    while i < ps.len()
        invariant
            i <= ps@.len(),
            *ps == m.packages,
            forall|a: int, b: int|
                0 <= a < i && ps@[a].manifest_path@ == requested@ && 0 <= b < ps@[a].targets@.len()
                    && is_executable(#[trigger] ps@[a].targets@[b]) ==> ps@[a].targets@[b].kind@.len() > 0
                    && is_runnable_kind(ps@[a].targets@[b].kind@[0]),
        decreases ps@.len() - i,
    {
        if crate::text::str_eq(ps[i].manifest_path.as_str(), requested) {
            let ts = &ps[i].targets;
            let mut j: usize = 0;
            while j < ts.len()
                invariant
                    i < ps@.len(),
                    *ps == m.packages,
                    *ts == ps@[i as int].targets,
                    ps@[i as int].manifest_path@ == requested@,
                    j <= ts@.len(),
                    forall|a: int, b: int|
                        0 <= a < i && ps@[a].manifest_path@ == requested@ && 0 <= b < ps@[a].targets@.len()
                            && is_executable(#[trigger] ps@[a].targets@[b]) ==> ps@[a].targets@[b].kind@.len() > 0
                            && is_runnable_kind(ps@[a].targets@[b].kind@[0]),
                    forall|b: int|
                        0 <= b < j && is_executable(#[trigger] ts@[b]) ==> ts@[b].kind@.len() > 0
                            && is_runnable_kind(ts@[b].kind@[0]),
                decreases ts@.len() - j,
            {
                if produces_executable(&ts[j]) {
                    assert(is_executable(ps@[i as int].targets@[j as int]));
                    if ts[j].kind.len() == 0 {
                        return false;
                    }
                    let k = ts[j].kind[0];
                    if !(k == Kind::Binary || k == Kind::Example || k == Kind::Bench) {
                        return false;
                    }
                }
                j = j + 1;
            }
        }
        i = i + 1;
    }
    true
}

} // verus!
