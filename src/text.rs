//! Character-level helpers: attribute file name matching, decimal parsing
//! and decimal rendering.

use vstd::prelude::*;

verus! {

pub open spec fn is_digit(c: char) -> bool {
    '0' <= c && c <= '9'
}

pub open spec fn all_digits(s: Seq<char>) -> bool {
    forall|i: int| 0 <= i < s.len() ==> #[trigger] is_digit(s[i])
}

/// The channel index carried by `name` when it reads `prefix`, a non-empty
/// run of ASCII digits, then `suffix`.
pub open spec fn spec_extract_index(name: Seq<char>, prefix: Seq<char>, suffix: Seq<char>) -> Option<
    Seq<char>,
> {
    if prefix.len() + suffix.len() < name.len() && name.subrange(0, prefix.len() as int) == prefix
        && name.subrange(name.len() - suffix.len(), name.len() as int) == suffix && all_digits(
        name.subrange(prefix.len() as int, name.len() - suffix.len()),
    ) {
        Some(name.subrange(prefix.len() as int, name.len() - suffix.len()))
    } else {
        None
    }
}

/// `extract_index` finds exactly the decompositions `name == prefix + d + suffix`
/// where `d` is a non-empty run of ASCII digits, and returns that `d`.
pub proof fn lemma_extract_index_exact(
    name: Seq<char>,
    prefix: Seq<char>,
    suffix: Seq<char>,
    d: Seq<char>,
)
    ensures
        spec_extract_index(name, prefix, suffix) == Some(d) <==> (d.len() > 0 && all_digits(d)
            && name == prefix + d + suffix),
{
    if d.len() > 0 && all_digits(d) && name == prefix + d + suffix {
        assert(name.subrange(0, prefix.len() as int) =~= prefix);
        assert(name.subrange(name.len() - suffix.len(), name.len() as int) =~= suffix);
        assert(name.subrange(prefix.len() as int, name.len() - suffix.len()) =~= d);
    }
    if spec_extract_index(name, prefix, suffix) == Some(d) {
        assert(name =~= name.subrange(0, prefix.len() as int) + d + name.subrange(
            name.len() - suffix.len(),
            name.len() as int,
        ));
    }
}

/// Whether `s[start..start + part.len()]` equals `part`, character by character.
fn matches_at(s: &str, start: usize, part: &str) -> (r: bool)
    requires
        start + part@.len() <= s@.len(),
        s@.len() <= usize::MAX,
    ensures
        r == (s@.subrange(start as int, start + part@.len()) == part@),
{
    let n = part.unicode_len();
    let mut i: usize = 0;
    while i < n
        invariant
            n == part@.len(),
            start + n <= s@.len(),
            s@.len() <= usize::MAX,
            i <= n,
            forall|j: int| 0 <= j < i ==> s@[start + j] == part@[j],
        decreases n - i,
    {
        if s.get_char(start + i) != part.get_char(i) {
            assert(s@.subrange(start as int, start + n)[i as int] != part@[i as int]);
            return false;
        }
        i = i + 1;
    }
    assert(s@.subrange(start as int, start + n) =~= part@);
    true
}

/// Whether every character of `s` is an ASCII digit.
fn is_all_digits(s: &str) -> (r: bool)
    ensures
        r == all_digits(s@),
{
    let n = s.unicode_len();
    let mut i: usize = 0;
    while i < n
        invariant
            n == s@.len(),
            i <= n,
            forall|j: int| 0 <= j < i ==> is_digit(#[trigger] s@[j]),
        decreases n - i,
    {
        let c = s.get_char(i);
        if !('0' <= c && c <= '9') {
            assert(!is_digit(s@[i as int]));
            return false;
        }
        i = i + 1;
    }
    true
}

/// Returns the digits between `prefix` and `suffix` when `name` is exactly
/// `prefix`, a non-empty run of ASCII digits, and `suffix`.
pub fn extract_index(name: &str, prefix: &str, suffix: &str) -> (r: Option<String>)
    ensures
        r matches Some(d) ==> spec_extract_index(name@, prefix@, suffix@) == Some(d@),
        r is None ==> spec_extract_index(name@, prefix@, suffix@) is None,
{
    let n = name.unicode_len();
    let p = prefix.unicode_len();
    let s = suffix.unicode_len();
    if p >= n || s >= n - p {
        return None;
    }
    if !matches_at(name, 0, prefix) || !matches_at(name, n - s, suffix) {
        return None;
    }
    let mid = name.substring_char(p, n - s);
    if !is_all_digits(mid) {
        return None;
    }
    Some(String::from_str(mid))
}

pub open spec fn digit_value(c: char) -> int {
    c as int - '0' as int
}

/// The number written by a run of decimal digits, most significant first.
pub open spec fn digits_value(s: Seq<char>) -> int
    decreases s.len(),
{
    if s.len() == 0 {
        0
    } else {
        digits_value(s.drop_last()) * 10 + digit_value(s.last())
    }
}

/// What `i32::from_str` accepts: an optional `+` or `-`, then a non-empty run
/// of ASCII digits whose value fits in an `i32`.
pub open spec fn spec_parse_i32(s: Seq<char>) -> Option<i32> {
    let neg = s.len() > 0 && s[0] == '-';
    let body = if s.len() > 0 && (s[0] == '-' || s[0] == '+') {
        s.drop_first()
    } else {
        s
    };
    let v = if neg {
        -digits_value(body)
    } else {
        digits_value(body)
    };
    if body.len() > 0 && all_digits(body) && i32::MIN <= v <= i32::MAX {
        Some(v as i32)
    } else {
        None
    }
}

/// An attribute reading as an integer, with 0 for text that does not parse.
pub open spec fn spec_int_or_zero(s: Seq<char>) -> i32 {
    match spec_parse_i32(s) {
        Some(v) => v,
        None => 0,
    }
}

proof fn lemma_digits_value_nonneg(s: Seq<char>)
    requires
        all_digits(s),
    ensures
        digits_value(s) >= 0,
    decreases s.len(),
{
    if s.len() > 0 {
        assert(is_digit(s[s.len() - 1]));
        assert(all_digits(s.drop_last())) by {
            assert forall|i: int| 0 <= i < s.drop_last().len() implies is_digit(
                #[trigger] s.drop_last()[i],
            ) by {
                assert(is_digit(s[i]));
            }
        }
        lemma_digits_value_nonneg(s.drop_last());
    }
}

/// Largest magnitude that the accumulator keeps exactly; anything larger
/// is out of range for an `i32` whatever the sign.
const SATURATION: i64 = 2147483649;

/// Parses decimal text as `i32::from_str` does.
pub fn parse_i32(s: &str) -> (r: Option<i32>)
    ensures
        r == spec_parse_i32(s@),
{
    let n = s.unicode_len();
    if n == 0 {
        return None;
    }
    let first = s.get_char(0);
    let neg = first == '-';
    let start: usize = if first == '-' || first == '+' {
        1
    } else {
        0
    };
    let body = s.substring_char(start, n);
    let ghost body_seq = if s@[0] == '-' || s@[0] == '+' {
        s@.drop_first()
    } else {
        s@
    };
    assert(body@ =~= body_seq);
    let m = body.unicode_len();
    if m == 0 {
        return None;
    }
    let mut acc: i64 = 0;
    let mut i: usize = 0;
    while i < m
        invariant
            m == body@.len(),
            i <= m,
            all_digits(body@.subrange(0, i as int)),
            body@ == body_seq,
            n == s@.len(),
            n > 0,
            neg == (s@[0] == '-'),
            body_seq == if s@[0] == '-' || s@[0] == '+' {
                s@.drop_first()
            } else {
                s@
            },
            0 <= acc <= SATURATION,
            acc == if digits_value(body@.subrange(0, i as int)) < SATURATION {
                digits_value(body@.subrange(0, i as int))
            } else {
                SATURATION as int
            },
        decreases m - i,
    {
        let c = body.get_char(i);
        if !('0' <= c && c <= '9') {
            assert(!all_digits(body@)) by {
                assert(!is_digit(body@[i as int]));
            }
            assert(!all_digits(body_seq));
            return None;
        }
        let d = (c as u32 - '0' as u32) as i64;
        let ghost pre = body@.subrange(0, i as int);
        let ghost next = body@.subrange(0, i + 1);
        assert(next.drop_last() =~= pre);
        assert(all_digits(next)) by {
            assert forall|j: int| 0 <= j < next.len() implies #[trigger] is_digit(next[j]) by {
                if j < i {
                    assert(is_digit(pre[j]));
                }
            }
        }
        proof {
            lemma_digits_value_nonneg(pre);
        }
        if acc >= SATURATION {
            assert(digits_value(next) >= SATURATION) by (nonlinear_arith)
                requires
                    digits_value(next) == digits_value(pre) * 10 + (c as int - '0' as int),
                    digits_value(pre) >= SATURATION,
                    0 <= c as int - '0' as int,
            ;
        } else {
            acc = acc * 10 + d;
            if acc > SATURATION {
                acc = SATURATION;
            }
        }
        i = i + 1;
    }
    assert(body@.subrange(0, m as int) =~= body@);
    let v: i64 = if neg {
        -acc
    } else {
        acc
    };
    if v < i32::MIN as i64 || v > i32::MAX as i64 {
        return None;
    }
    Some(v as i32)
}

/// What `usize::from_str` accepts: an optional `+`, then a non-empty run of
/// ASCII digits whose value fits in a `usize`.
pub open spec fn spec_parse_usize(s: Seq<char>) -> Option<usize> {
    let body = if s.len() > 0 && s[0] == '+' {
        s.drop_first()
    } else {
        s
    };
    if body.len() > 0 && all_digits(body) && digits_value(body) <= usize::MAX {
        Some(digits_value(body) as usize)
    } else {
        None
    }
}

/// Parses decimal text as `usize::from_str` does.
pub fn parse_usize(s: &str) -> (r: Option<usize>)
    ensures
        r == spec_parse_usize(s@),
{
    let n = s.unicode_len();
    if n == 0 {
        return None;
    }
    let start: usize = if s.get_char(0) == '+' {
        1
    } else {
        0
    };
    let body = s.substring_char(start, n);
    let ghost body_seq = if s@[0] == '+' {
        s@.drop_first()
    } else {
        s@
    };
    assert(body@ =~= body_seq);
    let m = body.unicode_len();
    if m == 0 {
        return None;
    }
    let cap: u128 = usize::MAX as u128 + 1;
    let mut acc: u128 = 0;
    let mut i: usize = 0;
    while i < m
        invariant
            m == body@.len(),
            i <= m,
            cap == usize::MAX + 1,
            all_digits(body@.subrange(0, i as int)),
            body@ == body_seq,
            n == s@.len(),
            n > 0,
            body_seq == if s@[0] == '+' {
                s@.drop_first()
            } else {
                s@
            },
            acc <= cap,
            acc == if digits_value(body@.subrange(0, i as int)) < cap {
                digits_value(body@.subrange(0, i as int))
            } else {
                cap as int
            },
        decreases m - i,
    {
        let c = body.get_char(i);
        if !('0' <= c && c <= '9') {
            assert(!all_digits(body@)) by {
                assert(!is_digit(body@[i as int]));
            }
            assert(!all_digits(body_seq));
            return None;
        }
        let d = (c as u32 - '0' as u32) as u128;
        let ghost pre = body@.subrange(0, i as int);
        let ghost next = body@.subrange(0, i + 1);
        assert(next.drop_last() =~= pre);
        assert(all_digits(next)) by {
            assert forall|j: int| 0 <= j < next.len() implies #[trigger] is_digit(next[j]) by {
                if j < i {
                    assert(is_digit(pre[j]));
                }
            }
        }
        proof {
            lemma_digits_value_nonneg(pre);
        }
        if acc >= cap {
            assert(digits_value(next) >= cap) by (nonlinear_arith)
                requires
                    digits_value(next) == digits_value(pre) * 10 + (c as int - '0' as int),
                    digits_value(pre) >= cap,
                    0 <= c as int - '0' as int,
            ;
        } else {
            acc = acc * 10 + d;
            if acc > cap {
                acc = cap;
            }
        }
        i = i + 1;
    }
    assert(body@.subrange(0, m as int) =~= body@);
    if acc >= cap {
        return None;
    }
    Some(acc as usize)
}

/// Whether `s` begins with `prefix`.
pub fn starts_with(s: &str, prefix: &str) -> (r: bool)
    ensures
        r == (prefix@.len() <= s@.len() && s@.subrange(0, prefix@.len() as int) == prefix@),
{
    let n = s.unicode_len();
    let p = prefix.unicode_len();
    if p > n {
        return false;
    }
    matches_at(s, 0, prefix)
}

/// Lexicographic order of character sequences, a prefix first.
pub open spec fn lex_le(a: Seq<char>, b: Seq<char>) -> bool
    decreases a.len(),
{
    if a.len() == 0 {
        true
    } else if b.len() == 0 {
        false
    } else if a[0] != b[0] {
        a[0] < b[0]
    } else {
        lex_le(a.drop_first(), b.drop_first())
    }
}

pub proof fn lemma_lex_total(a: Seq<char>, b: Seq<char>)
    ensures
        lex_le(a, b) || lex_le(b, a),
    decreases a.len(),
{
    if a.len() > 0 && b.len() > 0 && a[0] == b[0] {
        lemma_lex_total(a.drop_first(), b.drop_first());
    }
}

pub proof fn lemma_lex_transitive(a: Seq<char>, b: Seq<char>, c: Seq<char>)
    requires
        lex_le(a, b),
        lex_le(b, c),
    ensures
        lex_le(a, c),
    decreases a.len(),
{
    if a.len() > 0 && b.len() > 0 && c.len() > 0 && a[0] == b[0] && b[0] == c[0] {
        lemma_lex_transitive(a.drop_first(), b.drop_first(), c.drop_first());
    }
}

/// Whether `a` comes no later than `b` in lexicographic order.
pub fn text_le(a: &str, b: &str) -> (r: bool)
    ensures
        r == lex_le(a@, b@),
{
    let n = a.unicode_len();
    let m = b.unicode_len();
    let mut i: usize = 0;
    assert(a@.skip(0) =~= a@ && b@.skip(0) =~= b@);
    while i < n && i < m
        invariant
            n == a@.len(),
            m == b@.len(),
            i <= n,
            i <= m,
            lex_le(a@, b@) == lex_le(a@.skip(i as int), b@.skip(i as int)),
        decreases n - i,
    {
        let x = a.get_char(i);
        let y = b.get_char(i);
        assert(a@.skip(i as int)[0] == x && b@.skip(i as int)[0] == y);
        if x != y {
            return x < y;
        }
        assert(a@.skip(i as int).drop_first() =~= a@.skip(i + 1));
        assert(b@.skip(i as int).drop_first() =~= b@.skip(i + 1));
        i = i + 1;
    }
    i == n
}

/// Decimal character for a digit value below ten.
pub open spec fn digit_char(d: int) -> char {
    if d == 0 {
        '0'
    } else if d == 1 {
        '1'
    } else if d == 2 {
        '2'
    } else if d == 3 {
        '3'
    } else if d == 4 {
        '4'
    } else if d == 5 {
        '5'
    } else if d == 6 {
        '6'
    } else if d == 7 {
        '7'
    } else if d == 8 {
        '8'
    } else {
        '9'
    }
}

/// Decimal digits of a natural number, without leading zeros.
pub open spec fn nat_decimal(n: nat) -> Seq<char>
    decreases n,
{
    if n < 10 {
        seq![digit_char(n as int)]
    } else {
        nat_decimal(n / 10).push(digit_char((n % 10) as int))
    }
}

/// Decimal text of an integer, as `{}` formatting writes it.
pub open spec fn decimal(n: int) -> Seq<char> {
    if n < 0 {
        seq!['-'] + nat_decimal((-n) as nat)
    } else {
        nat_decimal(n as nat)
    }
}

pub fn digit_text(d: u64) -> (r: &'static str)
    requires
        d < 10,
    ensures
        r@ == seq![digit_char(d as int)],
{
    let r = match d {
        0 => "0",
        1 => "1",
        2 => "2",
        3 => "3",
        4 => "4",
        5 => "5",
        6 => "6",
        7 => "7",
        8 => "8",
        _ => "9",
    };
    proof {
        reveal_strlit("0");
        reveal_strlit("1");
        reveal_strlit("2");
        reveal_strlit("3");
        reveal_strlit("4");
        reveal_strlit("5");
        reveal_strlit("6");
        reveal_strlit("7");
        reveal_strlit("8");
        reveal_strlit("9");
    }
    assert(r@ =~= seq![digit_char(d as int)]);
    r
}

pub fn nat_to_text(n: u64) -> (r: String)
    ensures
        r@ == nat_decimal(n as nat),
    decreases n,
{
    if n < 10 {
        String::from_str(digit_text(n))
    } else {
        let mut r = nat_to_text(n / 10);
        r.append(digit_text(n % 10));
        r
    }
}

/// Decimal text of `n`.
pub fn int_to_text(n: i64) -> (r: String)
    ensures
        r@ == decimal(n as int),
{
    if n < 0 {
        let mag: u64 = if n == i64::MIN {
            9223372036854775808u64
        } else {
            (-n) as u64
        };
        let digits = nat_to_text(mag);
        let mut r = String::from_str("-");
        proof {
            reveal_strlit("-");
        }
        r.append(digits.as_str());
        assert(r@ =~= decimal(n as int));
        r
    } else {
        nat_to_text(n as u64)
    }
}

} // verus!
