//! Numbers as they appear in the report: `0x`-prefixed hexadecimal and plain
//! decimal text.
use vstd::prelude::*;

verus! {

/// The value of a hexadecimal digit, in either case.
pub open spec fn hex_digit_value(c: char) -> int {
    if '0' <= c && c <= '9' {
        c as int - '0' as int
    } else if 'a' <= c && c <= 'f' {
        c as int - 'a' as int + 10
    } else if 'A' <= c && c <= 'F' {
        c as int - 'A' as int + 10
    } else {
        -1
    }
}

pub open spec fn is_hex_digit(c: char) -> bool {
    hex_digit_value(c) >= 0
}

/// The number that a string of hexadecimal digits denotes, most significant
/// digit first.
pub open spec fn hex_value(s: Seq<char>) -> nat
    decreases s.len(),
{
    if s.len() == 0 {
        0
    } else {
        hex_value(s.drop_last()) * 16 + hex_digit_value(s.last()) as nat
    }
}

/// `s` starts with `0x` or `0X`.
pub open spec fn has_hex_prefix(s: Seq<char>) -> bool {
    s.len() >= 2 && s[0] == '0' && (s[1] == 'x' || s[1] == 'X')
}

/// What follows a `0x` prefix is a non-empty run of hexadecimal digits whose
/// value fits in 64 bits.
pub open spec fn is_hex64_digits(d: Seq<char>) -> bool {
    &&& d.len() > 0
    &&& forall|i: int| 0 <= i < d.len() ==> is_hex_digit(#[trigger] d[i])
    &&& hex_value(d) <= u64::MAX
}

/// Why a text is not a `0x`-prefixed 64-bit hexadecimal number.
#[derive(Debug, Clone, Copy, PartialEq, Eq, Structural)]
pub enum HexError {
    /// The text does not start with `0x` or `0X`.
    MissingPrefix,
    /// After the prefix there is nothing, a character that is not a
    /// hexadecimal digit, or a number too large for 64 bits.
    InvalidDigits,
}

/// What decoding `s` as a `0x`-prefixed 64-bit hexadecimal number yields.
pub open spec fn spec_parse_hex64(s: Seq<char>) -> Result<u64, HexError> {
    if !has_hex_prefix(s) {
        Err(HexError::MissingPrefix)
    } else if !is_hex64_digits(s.subrange(2, s.len() as int)) {
        Err(HexError::InvalidDigits)
    } else {
        Ok(hex_value(s.subrange(2, s.len() as int)) as u64)
    }
}

/// Decodes a number written as `0x` (or `0X`) followed by hexadecimal digits
/// of either case.
pub fn parse_hex64(s: &str) -> (r: Result<u64, HexError>)
    ensures
        r == spec_parse_hex64(s@),
{
    let n = s.unicode_len();
    if n < 2 {
        return Err(HexError::MissingPrefix);
    }
    let c0 = s.get_char(0);
    let c1 = s.get_char(1);
    if !(c0 == '0' && (c1 == 'x' || c1 == 'X')) {
        return Err(HexError::MissingPrefix);
    }
    if n == 2 {
        return Err(HexError::InvalidDigits);
    }
    let ghost d = s@.subrange(2, n as int);
    let mut acc: u64 = 0;
    let mut overflow = false;
    let mut i: usize = 2;
    while i < n
        invariant
            2 <= i <= n,
            n == s@.len(),
            d == s@.subrange(2, n as int),
            has_hex_prefix(s@),
            forall|j: int| 0 <= j < i - 2 ==> is_hex_digit(#[trigger] d[j]),
            overflow ==> hex_value(d.subrange(0, i - 2)) > u64::MAX,
            !overflow ==> acc == hex_value(d.subrange(0, i - 2)),
        decreases n - i,
    {
        let c = s.get_char(i);
        let v: u64 = if '0' <= c && c <= '9' {
            (c as u64) - ('0' as u64)
        } else if 'a' <= c && c <= 'f' {
            (c as u64) - ('a' as u64) + 10
        } else if 'A' <= c && c <= 'F' {
            (c as u64) - ('A' as u64) + 10
        } else {
            assert(d[i - 2] == c);
            assert(!is_hex_digit(d[i - 2]));
            assert(!is_hex64_digits(d));
            return Err(HexError::InvalidDigits);
        };
        let ghost prev = d.subrange(0, i - 2);
        let ghost next = d.subrange(0, i - 1);
        assert(next.drop_last() == prev);
        assert(next.last() == c);
        if !overflow {
            if acc > (u64::MAX - v) / 16 {
                overflow = true;
            } else {
                acc = acc * 16 + v;
            }
        }
        i = i + 1;
    }
    assert(d.subrange(0, n - 2) == d);
    if overflow {
        Err(HexError::InvalidDigits)
    } else {
        Ok(acc)
    }
}

/// The number that a string of decimal digits denotes.
pub open spec fn decimal_value(s: Seq<char>) -> nat
    decreases s.len(),
{
    if s.len() == 0 {
        0
    } else {
        decimal_value(s.drop_last()) * 10 + (s.last() as int - '0' as int) as nat
    }
}

pub open spec fn is_decimal_digit(c: char) -> bool {
    '0' <= c && c <= '9'
}

/// `s` is a non-empty run of decimal digits whose value fits in a `usize`.
pub open spec fn is_usize_decimal(s: Seq<char>) -> bool {
    &&& s.len() > 0
    &&& forall|i: int| 0 <= i < s.len() ==> is_decimal_digit(#[trigger] s[i])
    &&& decimal_value(s) <= usize::MAX
}

/// Decodes a non-negative decimal number, such as a byte count or a line
/// number; `None` where `s` is not one or does not fit in a `usize`.
pub fn parse_decimal(s: &str) -> (r: Option<usize>)
    ensures
        r == (if is_usize_decimal(s@) {
            Some(decimal_value(s@) as usize)
        } else {
            None::<usize>
        }),
{
    let n = s.unicode_len();
    if n == 0 {
        return None;
    }
    let mut acc: usize = 0;
    let mut overflow = false;
    let mut i: usize = 0;
    while i < n
        invariant
            i <= n,
            n == s@.len(),
            forall|j: int| 0 <= j < i ==> is_decimal_digit(#[trigger] s@[j]),
            overflow ==> decimal_value(s@.subrange(0, i as int)) > usize::MAX,
            !overflow ==> acc == decimal_value(s@.subrange(0, i as int)),
        decreases n - i,
    {
        let c = s.get_char(i);
        if !('0' <= c && c <= '9') {
            return None;
        }
        let v: usize = (c as usize) - ('0' as usize);
        let ghost prev = s@.subrange(0, i as int);
        let ghost next = s@.subrange(0, i + 1);
        assert(next.drop_last() == prev);
        assert(next.last() == c);
        if !overflow {
            if acc > (usize::MAX - v) / 10 {
                overflow = true;
            } else {
                acc = acc * 10 + v;
            }
        }
        i = i + 1;
    }
    assert(s@.subrange(0, n as int) == s@);
    if overflow {
        None
    } else {
        Some(acc)
    }
}

/// `a` and `b` are the same character, or the same ASCII letter in two cases.
pub open spec fn same_ignoring_case(a: char, b: char) -> bool {
    ||| a == b
    ||| ('a' <= a && a <= 'z' && b as int == a as int - 32)
    ||| ('A' <= a && a <= 'Z' && b as int == a as int + 32)
}

proof fn lemma_hex_value_ignores_case(s: Seq<char>, t: Seq<char>)
    requires
        s.len() == t.len(),
        forall|i: int| 0 <= i < s.len() ==> same_ignoring_case(#[trigger] s[i], t[i]),
    ensures
        hex_value(s) == hex_value(t),
        forall|i: int| 0 <= i < s.len() ==> hex_digit_value(#[trigger] s[i]) == hex_digit_value(t[i]),
    decreases s.len(),
{
    if s.len() > 0 {
        lemma_hex_value_ignores_case(s.drop_last(), t.drop_last());
        assert(same_ignoring_case(s[s.len() - 1], t[t.len() - 1]));
    }
}

/// Hexadecimal decoding ignores case, in the prefix and in the digits: two
/// texts that differ only in the case of letters decode alike.
pub proof fn lemma_hex_ignores_case(s: Seq<char>, t: Seq<char>)
    requires
        s.len() == t.len(),
        forall|i: int| 0 <= i < s.len() ==> same_ignoring_case(#[trigger] s[i], t[i]),
    ensures
        spec_parse_hex64(s) == spec_parse_hex64(t),
{
    if s.len() >= 2 {
        assert(same_ignoring_case(s[0], t[0]));
        assert(same_ignoring_case(s[1], t[1]));
        let ds = s.subrange(2, s.len() as int);
        let dt = t.subrange(2, t.len() as int);
        assert forall|i: int| 0 <= i < ds.len() implies same_ignoring_case(#[trigger] ds[i], dt[i]) by {
            assert(same_ignoring_case(s[i + 2], t[i + 2]));
        }
        lemma_hex_value_ignores_case(ds, dt);
        if is_hex64_digits(ds) {
            assert forall|i: int| 0 <= i < dt.len() implies is_hex_digit(#[trigger] dt[i]) by {
                assert(is_hex_digit(ds[i]));
            }
        }
        if is_hex64_digits(dt) {
            assert forall|i: int| 0 <= i < ds.len() implies is_hex_digit(#[trigger] ds[i]) by {
                assert(is_hex_digit(dt[i]));
            }
        }
    }
}

/// A text without the `0x` prefix, or with a character after it that is not
/// a hexadecimal digit, never decodes to a number.
pub proof fn lemma_malformed_hex_rejected(s: Seq<char>)
    requires
        !has_hex_prefix(s) || exists|i: int| 2 <= i < s.len() && !is_hex_digit(#[trigger] s[i]),
    ensures
        spec_parse_hex64(s) is Err,
{
    if has_hex_prefix(s) {
        let i = choose|i: int| 2 <= i < s.len() && !is_hex_digit(#[trigger] s[i]);
        let d = s.subrange(2, s.len() as int);
        assert(d[i - 2] == s[i]);
    }
}

} // verus!
