//! A `cargo build` of one target, configured step by step.
use vstd::prelude::*;
use crate::cargo_config::Manifest;
use crate::target::{Build, Target, target_flag};
use crate::text::{split, split_on, strip_all, trim_start_all, views};

verus! {

/// A configured `cargo build` of one target.
///
/// It is started with [`Cargo::new`], which leads through the manifest, the
/// target and the build type; features may be added at the end.
#[derive(Debug, Clone)]
pub struct Cargo {
    pub(crate) manifest: String,
    pub(crate) build: Build,
    pub(crate) target: Target,
    pub(crate) features: Vec<String>,
}

/// The pieces of `parts` joined with a space between each two.
pub open spec fn join_spaced(parts: Seq<Seq<char>>) -> Seq<char>
    decreases parts.len(),
{
    if parts.len() == 0 {
        Seq::empty()
    } else if parts.len() == 1 {
        parts[0]
    } else {
        join_spaced(parts.drop_last()) + " "@ + parts.last()
    }
}

/// The arguments of the `cargo` command that builds `target` of the crate at
/// `manifest` with the given build type and features.
pub open spec fn cargo_build_arguments(
    manifest: Seq<char>,
    build: Build,
    target: Target,
    features: Seq<Seq<char>>,
) -> Seq<Seq<char>> {
    let release = if build == Build::Release {
        seq!["--release"@]
    } else {
        Seq::empty()
    };
    let feature_args = if features.len() > 0 {
        seq!["--features"@, join_spaced(features)]
    } else {
        Seq::empty()
    };
    seq!["build"@] + release + seq!["--manifest-path"@, manifest, "--"@ + target_flag(target),
        target.spec_name()] + feature_args
}

impl Cargo {
    pub closed spec fn spec_manifest(&self) -> Seq<char> {
        self.manifest@
    }

    pub closed spec fn spec_build(&self) -> Build {
        self.build
    }

    pub closed spec fn spec_target(&self) -> Target {
        self.target
    }

    pub closed spec fn spec_features(&self) -> Seq<Seq<char>> {
        views(self.features@)
    }

    pub(crate) fn assemble(manifest: String, target: Target, build: Build) -> (r: Cargo)
        ensures
            r.spec_manifest() == manifest@,
            r.spec_target() == target,
            r.spec_build() == build,
            r.spec_features().len() == 0,
    {
        Cargo { manifest, target, build, features: Vec::new() }
    }

    /// Starts configuring the build; the manifest comes first.
    pub fn new() -> (r: Manifest) {
        Manifest::new()
    }

    /// Adds one feature to build with.
    pub fn feature(self, feature: String) -> (r: Self)
        ensures
            r.spec_manifest() == self.spec_manifest(),
            r.spec_build() == self.spec_build(),
            r.spec_target() == self.spec_target(),
            r.spec_features() == self.spec_features().push(feature@),
    {
        let mut features = Vec::new();
        features.push(feature);
        self.features(features)
    }

    /// Adds features to build with, after those already given.
    pub fn features(self, features: Vec<String>) -> (r: Self)
        ensures
            r.spec_manifest() == self.spec_manifest(),
            r.spec_build() == self.spec_build(),
            r.spec_target() == self.spec_target(),
            r.spec_features() == self.spec_features() + views(features@),
    {
        let ghost start = views(self.features@);
        let mut cargo = self;
        let mut i: usize = 0;
        while i < features.len()
            invariant
                i <= features@.len(),
                cargo.manifest == self.manifest,
                cargo.build == self.build,
                cargo.target == self.target,
                views(cargo.features@) == start + views(features@).subrange(0, i as int),
            decreases features@.len() - i,
        {
            let ghost before = views(cargo.features@);
            cargo.features.push(features[i].clone());
            assert(views(cargo.features@) =~= before.push(features@[i as int]@));
            assert(views(features@).subrange(0, i + 1) =~= views(features@).subrange(0, i as int).push(features@[i as int]@));
            i = i + 1;
            assert(views(cargo.features@) =~= start + views(features@).subrange(0, i as int));
        }
        assert(views(features@).subrange(0, i as int) == views(features@));
        cargo
    }

    /// Whether the target to build has a name, which its arguments need.
    pub fn has_named_target(&self) -> (r: bool)
        ensures
            r == self.spec_target().has_name(),
    {
        self.target.file_name().is_some()
    }

    /// The arguments of the `cargo` command that makes this build; its
    /// target must have a name.
    pub fn build_arguments(&self) -> (r: Vec<String>)
        requires
            self.spec_target().has_name(),
        ensures
            views(r@) == cargo_build_arguments(
                self.spec_manifest(),
                self.spec_build(),
                self.spec_target(),
                self.spec_features(),
            ),
    {
        let mut args: Vec<String> = Vec::new();
        args.push(String::from_str("build"));
        if self.build == Build::Release {
            args.push(String::from_str("--release"));
        }
        args.push(String::from_str("--manifest-path"));
        args.push(self.manifest.clone());
        args.push(String::from_str("--").concat(self.target.flag()));
        args.push(String::from_str(self.target.name()));
        if self.features.len() > 0 {
            args.push(String::from_str("--features"));
            args.push(join_with_spaces(&self.features));
        }
        proof {
            let release = if self.build == Build::Release {
                seq!["--release"@]
            } else {
                Seq::empty()
            };
            let feature_args = if self.features@.len() > 0 {
                seq!["--features"@, join_spaced(views(self.features@))]
            } else {
                Seq::empty()
            };
            assert(views(args@) =~= seq!["build"@] + release + seq!["--manifest-path"@,
                self.manifest@, "--"@ + target_flag(self.target), self.target.spec_name()]
                + feature_args);
        }
        args
    }
}

/// Joins texts with a space between each two.
pub fn join_with_spaces(parts: &Vec<String>) -> (r: String)
    ensures
        r@ == join_spaced(views(parts@)),
{
    let mut out = String::new();
    let mut i: usize = 0;
    while i < parts.len()
        invariant
            i <= parts@.len(),
            out@ == join_spaced(views(parts@).subrange(0, i as int)),
        decreases parts@.len() - i,
    {
        let ghost sub = views(parts@).subrange(0, i + 1);
        assert(sub.drop_last() == views(parts@).subrange(0, i as int));
        if i > 0 {
            out.append(" ");
        }
        out.append(parts[i].as_str());
        i = i + 1;
        if i == 1 {
            assert(out@ =~= join_spaced(sub));
        }
    }
    assert(views(parts@).subrange(0, i as int) == views(parts@));
    out
}

/// Whether `c` has Unicode's `White_Space` property.
pub open spec fn is_white_space(c: char) -> bool {
    let n = c as u32;
    ||| (0x9 <= n && n <= 0xd)
    ||| n == 0x20
    ||| n == 0x85
    ||| n == 0xa0
    ||| n == 0x1680
    ||| (0x2000 <= n && n <= 0x200a)
    ||| n == 0x2028
    ||| n == 0x2029
    ||| n == 0x202f
    ||| n == 0x205f
    ||| n == 0x3000
}

/// Whether `c` is white space (see [`is_white_space`]), as
/// `char::is_whitespace` decides it.
fn is_whitespace(c: char) -> (r: bool)
    ensures
        r == is_white_space(c),
{
    let n = c as u32;
    (0x9 <= n && n <= 0xd) || n == 0x20 || n == 0x85 || n == 0xa0 || n == 0x1680 || (0x2000 <= n
        && n <= 0x200a) || n == 0x2028 || n == 0x2029 || n == 0x202f || n == 0x205f || n == 0x3000
}

/// `s` without the white space at its end.
pub open spec fn trim_end_spec(s: Seq<char>) -> Seq<char>
    decreases s.len(),
{
    if s.len() > 0 && is_white_space(s.last()) {
        trim_end_spec(s.drop_last())
    } else {
        s
    }
}

/// Removes the white space at the end of `s`.
pub fn trim_end(s: &str) -> (r: &str)
    ensures
        r@ == trim_end_spec(s@),
{
    let mut end = s.unicode_len();
    assert(s@.subrange(0, end as int) == s@);
    while end > 0 && is_whitespace(s.get_char(end - 1))
        invariant
            end <= s@.len(),
            trim_end_spec(s@) == trim_end_spec(s@.subrange(0, end as int)),
        decreases end,
    {
        assert(s@.subrange(0, end as int).drop_last() == s@.subrange(0, end - 1));
        end = end - 1;
    }
    s.substring_char(0, end)
}

/// The message of a failed cargo command, from what it wrote to stderr:
/// without the leading `error: ` and the trailing white space.
pub open spec fn cargo_failure_text(stderr: Seq<char>) -> Seq<char> {
    let msg = trim_end_spec(strip_all(stderr, "error: "@));
    if msg.len() == 0 {
        "cargo command failed"@
    } else {
        "cargo command failed: "@ + msg
    }
}

/// Builds the message of a failed cargo command (see
/// [`cargo_failure_text`]).
pub fn cargo_failure_message(stderr: &str) -> (r: String)
    ensures
        r@ == cargo_failure_text(stderr@),
{
    proof {
        reveal_strlit("error: ");
    }
    let stripped = trim_start_all(stderr, "error: ");
    let msg = trim_end(stripped.as_str());
    if msg.unicode_len() == 0 {
        String::from_str("cargo command failed")
    } else {
        String::from_str("cargo command failed: ").concat(msg)
    }
}

/// `s` with each `,` replaced by a space.
pub open spec fn commas_spaced(s: Seq<char>) -> Seq<char> {
    s.map_values(|c: char| if c == ',' { ' ' } else { c })
}

/// The non-empty texts among `ws`, in order.
pub open spec fn non_empty(ws: Seq<Seq<char>>) -> Seq<Seq<char>>
    decreases ws.len(),
{
    if ws.len() == 0 {
        Seq::empty()
    } else if ws.last().len() > 0 {
        non_empty(ws.drop_last()).push(ws.last())
    } else {
        non_empty(ws.drop_last())
    }
}

/// The feature names in the values given on the command line: each value
/// may list several, separated by spaces or commas.
pub open spec fn feature_names(values: Seq<Seq<char>>) -> Seq<Seq<char>>
    decreases values.len(),
{
    if values.len() == 0 {
        Seq::empty()
    } else {
        feature_names(values.drop_last()) + non_empty(split_on(commas_spaced(values.last()), ' '))
    }
}

fn space_commas(s: &str) -> (r: String)
    ensures
        r@ == commas_spaced(s@),
{
    let n = s.unicode_len();
    let mut out = String::new();
    let mut i: usize = 0;
    while i < n
        invariant
            i <= n,
            n == s@.len(),
            out@ == commas_spaced(s@.subrange(0, i as int)),
        decreases n - i,
    {
        if s.get_char(i) == ',' {
            out.append(" ");
        } else {
            out.append(s.substring_char(i, i + 1));
        }
        proof {
            reveal_strlit(" ");
        }
        i = i + 1;
        assert(out@ =~= commas_spaced(s@.subrange(0, i as int)));
    }
    assert(s@.subrange(0, n as int) == s@);
    out
}

/// The feature names in the values of `--features`.
pub fn parse_features(values: &Vec<String>) -> (r: Vec<String>)
    ensures
        views(r@) == feature_names(views(values@)),
{
    let mut names: Vec<String> = Vec::new();
    let mut i: usize = 0;
    while i < values.len()
        invariant
            i <= values@.len(),
            views(names@) == feature_names(views(values@).subrange(0, i as int)),
        decreases values@.len() - i,
    {
        let ghost vs = views(values@);
        assert(vs.subrange(0, i + 1).drop_last() == vs.subrange(0, i as int));
        let spaced = space_commas(values[i].as_str());
        let pieces = split(spaced.as_str(), ' ');
        let ghost base = views(names@);
        let mut j: usize = 0;
        while j < pieces.len()
            invariant
                j <= pieces@.len(),
                views(pieces@) == split_on(commas_spaced(vs[i as int]), ' '),
                views(names@) == base + non_empty(views(pieces@).subrange(0, j as int)),
            decreases pieces@.len() - j,
        {
            let ghost ps = views(pieces@);
            assert(ps.subrange(0, j + 1).drop_last() == ps.subrange(0, j as int));
            if pieces[j].unicode_len() > 0 {
                let ghost before = views(names@);
                names.push(pieces[j].clone());
                assert(views(names@) =~= before.push(ps[j as int]));
            }
            j = j + 1;
        }
        assert(views(pieces@).subrange(0, j as int) == views(pieces@));
        i = i + 1;
    }
    assert(views(values@).subrange(0, i as int) == views(values@));
    names
}

} // verus!
