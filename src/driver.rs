//! The decisions of running as cargo's runner: finding the host triple in
//! cargo's version output and naming the variable that selects the runner.
use vstd::prelude::*;
use crate::text::{split, split_on, starts_with, strip_all, trim_start_all, views};

verus! {

/// `s` with every `-` and `.` replaced by `_`.
pub open spec fn underscored(s: Seq<char>) -> Seq<char> {
    s.map_values(|c: char| if c == '-' || c == '.' { '_' } else { c })
}

/// What `str::to_uppercase` makes of a text.
pub uninterp spec fn upper_of(s: Seq<char>) -> Seq<char>;

/// Relies on `str::to_uppercase`: the result depends on the characters of
/// the text alone.
#[verifier::external_body]
fn to_uppercase(s: &str) -> (r: String)
    ensures
        r@ == upper_of(s@),
{
    s.to_uppercase()
}

/// Replaces each `-` and `.` of `s` with `_`.
pub fn underscore(s: &str) -> (r: String)
    ensures
        r@ == underscored(s@),
{
    let n = s.unicode_len();
    let mut out = String::new();
    let mut i: usize = 0;
    while i < n
        invariant
            i <= n,
            n == s@.len(),
            out@ == underscored(s@.subrange(0, i as int)),
        decreases n - i,
    {
        let c = s.get_char(i);
        if c == '-' || c == '.' {
            out.append("_");
        } else {
            out.append(s.substring_char(i, i + 1));
        }
        proof {
            reveal_strlit("_");
        }
        i = i + 1;
        assert(out@ =~= underscored(s@.subrange(0, i as int)));
    }
    assert(s@.subrange(0, n as int) == s@);
    out
}

/// The name of the variable that sets cargo's runner, for a host whose
/// triple has already been underscored and upper-cased.
pub fn runner_variable_of(upper: &str) -> (r: String)
    ensures
        r@ == "CARGO_TARGET_"@ + upper@ + "_RUNNER"@,
{
    String::from_str("CARGO_TARGET_").concat(upper).concat("_RUNNER")
}

/// The name of the variable that sets cargo's runner for the host triple
/// `host`, such as `CARGO_TARGET_X86_64_UNKNOWN_LINUX_GNU_RUNNER`.
pub fn runner_variable(host: &str) -> (r: String)
    ensures
        r@ == "CARGO_TARGET_"@ + upper_of(underscored(host@)) + "_RUNNER"@,
{
    let replaced = underscore(host);
    let upper = to_uppercase(replaced.as_str());
    runner_variable_of(upper.as_str())
}

/// The lines of a text as `str::lines` gives them: split at each `\n`, a
/// `\r` before it removed, and nothing after a final `\n`.
pub open spec fn line_of(s: Seq<char>) -> Seq<char> {
    if s.len() > 0 && s.last() == '\r' {
        s.drop_last()
    } else {
        s
    }
}

/// The prefix of the line that names the host in cargo's version output.
pub open spec fn host_prefix() -> Seq<char> {
    "host: "@
}

/// The lines of `s`, each without a `\r` at its end.
pub open spec fn spec_lines(s: Seq<char>) -> Seq<Seq<char>> {
    split_on(s, '\n').map_values(|l: Seq<char>| line_of(l))
}

/// The host triple named in the output of `cargo version -v` (or of
/// `rustc -vV`): what follows `host: ` on the first line that starts so.
pub fn find_host(output: &str) -> (r: Option<String>)
    ensures
        match r {
            Some(h) => exists|i: int|
                0 <= i < spec_lines(output@).len() && starts_with_spec(spec_lines(output@)[i], host_prefix())
                && (forall|j: int| 0 <= j < i ==> !starts_with_spec(#[trigger] spec_lines(output@)[j], host_prefix()))
                && h@ == strip_all(spec_lines(output@)[i], host_prefix()),
            None => forall|j: int| 0 <= j < spec_lines(output@).len() ==> !starts_with_spec(
                #[trigger] spec_lines(output@)[j], host_prefix()),
        },
{
    let pieces = split(output, '\n');
    let ghost ls = spec_lines(output@);
    assert(ls.len() == pieces@.len());
    let mut i: usize = 0;
    while i < pieces.len()
        invariant
            i <= pieces@.len(),
            ls == spec_lines(output@),
            ls.len() == pieces@.len(),
            views(pieces@) == split_on(output@, '\n'),
            forall|j: int| 0 <= j < i ==> !starts_with_spec(#[trigger] ls[j], host_prefix()),
        decreases pieces@.len() - i,
    {
        let piece = pieces[i].as_str();
        assert(piece@ == split_on(output@, '\n')[i as int]);
        let m = piece.unicode_len();
        let line = if m > 0 && piece.get_char(m - 1) == '\r' {
            piece.substring_char(0, m - 1)
        } else {
            piece
        };
        assert(line@ == ls[i as int]);
        proof {
            reveal_strlit("host: ");
        }
        if starts_with(line, "host: ") {
            return Some(trim_start_all(line, "host: "));
        }
        i = i + 1;
    }
    None
}

pub open spec fn starts_with_spec(s: Seq<char>, prefix: Seq<char>) -> bool {
    prefix.len() <= s.len() && s.subrange(0, prefix.len() as int) == prefix
}

} // verus!
