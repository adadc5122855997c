//! Byte-level text helpers: searching, ASCII case folding and decimal numbers.

use vstd::prelude::*;
use vstd::string::StringExecFns;

verus! {

/// Index of the first byte at or after `i` equal to `a` or `b`; `s.len()` if there is none.
pub open spec fn first_match_from(s: Seq<u8>, a: u8, b: u8, i: int) -> int
    decreases s.len() - i,
{
    if i < 0 || i >= s.len() {
        s.len() as int
    } else if s[i] == a || s[i] == b {
        i
    } else {
        first_match_from(s, a, b, i + 1)
    }
}

/// `pat` stands in `s` at index `i`.
pub open spec fn occurs_at(s: Seq<u8>, pat: Seq<u8>, i: int) -> bool {
    0 <= i && i + pat.len() <= s.len() && s.subrange(i, i + pat.len()) == pat
}

/// Index of the first occurrence of `pat` in `s` at or after `i`.
pub open spec fn find_from(s: Seq<u8>, pat: Seq<u8>, i: int) -> Option<int>
    decreases s.len() + 1 - i,
{
    if i < 0 || i + pat.len() > s.len() {
        None
    } else if occurs_at(s, pat, i) {
        Some(i)
    } else {
        find_from(s, pat, i + 1)
    }
}

/// ASCII upper case of one byte; other bytes unchanged.
pub open spec fn upper_byte(b: u8) -> u8 {
    if 97 <= b <= 122 {
        (b - 32) as u8
    } else {
        b
    }
}

/// ASCII upper case of every byte.
pub open spec fn upper_seq(s: Seq<u8>) -> Seq<u8> {
    s.map_values(|b: u8| upper_byte(b))
}

/// An ASCII decimal digit.
pub open spec fn is_digit(b: u8) -> bool {
    48 <= b <= 57
}

/// Decimal value of a string of digits.
pub open spec fn digits_value(s: Seq<u8>) -> int
    decreases s.len(),
{
    if s.len() == 0 {
        0
    } else {
        digits_value(s.drop_last()) * 10 + (s.last() - 48)
    }
}

/// The digits after an optional leading `+`.
pub open spec fn unsigned_digits(s: Seq<u8>) -> Seq<u8> {
    if s.len() > 0 && s[0] == 43 {
        s.drop_first()
    } else {
        s
    }
}

/// A `u16` written in decimal: an optional `+`, then one or more digits, at most 65535.
pub open spec fn parse_u16_spec(s: Seq<u8>) -> Option<u16> {
    let d = unsigned_digits(s);
    if d.len() > 0 && (forall|i: int| 0 <= i < d.len() ==> is_digit(#[trigger] d[i]))
        && digits_value(d) <= 65535 {
        Some(digits_value(d) as u16)
    } else {
        None
    }
}

/// Decimal digits of `n`, most significant first, no leading zeros.
pub open spec fn decimal_chars(n: nat) -> Seq<char>
    decreases n,
{
    if n < 10 {
        seq![((n + 48) as u8) as char]
    } else {
        decimal_chars(n / 10).push((((n % 10) + 48) as u8) as char)
    }
}

/// The one-character text of a decimal digit.
fn digit_str(d: u8) -> (r: &'static str)
    requires
        d < 10,
    ensures
        r@ == seq![((d + 48) as u8) as char],
{
    proof {
        reveal_strlit("0");
        reveal_strlit("1");
        reveal_strlit("2");
        reveal_strlit("3");
        reveal_strlit("4");
        reveal_strlit("5");
        reveal_strlit("6");
        reveal_strlit("7");
        reveal_strlit("8");
        reveal_strlit("9");
    }
    let r = match d {
        0 => "0",
        1 => "1",
        2 => "2",
        3 => "3",
        4 => "4",
        5 => "5",
        6 => "6",
        7 => "7",
        8 => "8",
        _ => "9",
    };
    assert(r@ =~= seq![((d + 48) as u8) as char]);
    r
}

/// The decimal digits of `n`, no leading zeros.
pub fn decimal_string(n: u8) -> (r: String)
    ensures
        r@ == decimal_chars(n as nat),
{
    if n < 10 {
        String::from_str(digit_str(n))
    } else if n < 100 {
        let r = String::from_str(digit_str(n / 10)).concat(digit_str(n % 10));
        assert(decimal_chars((n / 10) as nat) == seq![(((n / 10) + 48) as u8) as char]);
        assert(r@ =~= decimal_chars(n as nat));
        r
    } else {
        let r = String::from_str(digit_str(n / 100)).concat(digit_str((n / 10) % 10)).concat(
            digit_str(n % 10),
        );
        assert(decimal_chars((n / 100) as nat) == seq![(((n / 100) + 48) as u8) as char]);
        assert((n / 10) as nat / 10 == (n / 100) as nat);
        assert(decimal_chars((n / 10) as nat) == decimal_chars((n / 100) as nat).push(
            ((((n / 10) % 10) + 48) as u8) as char,
        ));
        assert(r@ =~= decimal_chars(n as nat));
        r
    }
}

/// Index of the first byte at or after `i` equal to `a` or `b`; `s.len()` if there is none.
pub fn find_either_from(s: &[u8], a: u8, b: u8, i: usize) -> (r: usize)
    requires
        i <= s@.len(),
    ensures
        r as int == first_match_from(s@, a, b, i as int),
        i <= r <= s@.len(),
{
    let mut j: usize = i;
    while j < s.len()
        invariant
            i <= j <= s@.len(),
            first_match_from(s@, a, b, i as int) == first_match_from(s@, a, b, j as int),
        decreases s@.len() - j,
    {
        if s[j] == a || s[j] == b {
            return j;
        }
        j = j + 1;
    }
    j
}

/// Whether `pat` stands in `s` at index `i`.
pub fn occurs_at_exec(s: &[u8], pat: &[u8], i: usize) -> (r: bool)
    ensures
        r == occurs_at(s@, pat@, i as int),
{
    let n: usize = s.len();
    if i > n || pat.len() > n - i {
        return false;
    }
    let mut k: usize = 0;
    while k < pat.len()
        invariant
            n == s@.len(),
            i + pat@.len() <= s@.len(),
            k <= pat@.len(),
            forall|m: int| 0 <= m < k ==> s@[i + m] == pat@[m],
        decreases pat@.len() - k,
    {
        assert(i + k < s@.len());
        if s[i + k] != pat[k] {
            proof {
                assert(s@.subrange(i as int, i + pat@.len())[k as int] != pat@[k as int]);
            }
            return false;
        }
        k = k + 1;
    }
    assert(s@.subrange(i as int, i + pat@.len()) =~= pat@);
    true
}

/// Index of the first occurrence of `pat` in `s`.
pub fn find_pattern(s: &[u8], pat: &[u8]) -> (r: Option<usize>)
    ensures
        r matches Some(i) ==> find_from(s@, pat@, 0) == Some(i as int),
        r is None ==> find_from(s@, pat@, 0) is None,
{
    if pat.len() > s.len() {
        return None;
    }
    let limit: usize = s.len() - pat.len();
    let mut j: usize = 0;
    while j < limit
        invariant
            limit == s@.len() - pat@.len(),
            j <= limit,
            find_from(s@, pat@, 0) == find_from(s@, pat@, j as int),
        decreases limit - j,
    {
        if occurs_at_exec(s, pat, j) {
            return Some(j);
        }
        j = j + 1;
    }
    if occurs_at_exec(s, pat, limit) {
        Some(limit)
    } else {
        assert(find_from(s@, pat@, limit + 1) is None);
        None
    }
}

/// ASCII upper case of every byte.
pub fn to_ascii_upper(s: &[u8]) -> (r: Vec<u8>)
    ensures
        r@ == upper_seq(s@),
{
    let mut r: Vec<u8> = Vec::new();
    let mut i: usize = 0;
    while i < s.len()
        invariant
            i <= s@.len(),
            r@ =~= upper_seq(s@).subrange(0, i as int),
        decreases s@.len() - i,
    {
        let b = s[i];
        let u: u8 = if 97 <= b && b <= 122 {
            b - 32
        } else {
            b
        };
        r.push(u);
        i = i + 1;
    }
    assert(r@ =~= upper_seq(s@));
    r
}

/// Reads a decimal `u16` from `s[start..end]`, as `str::parse::<u16>` does.
pub fn parse_u16(s: &[u8], start: usize, end: usize) -> (r: Option<u16>)
    requires
        start <= end <= s@.len(),
    ensures
        r == parse_u16_spec(s@.subrange(start as int, end as int)),
{
    let ghost w = s@.subrange(start as int, end as int);
    let first: usize = if start < end && s[start] == 43 {
        start + 1
    } else {
        start
    };
    let ghost d = unsigned_digits(w);
    assert(d =~= s@.subrange(first as int, end as int));
    if first == end {
        return None;
    }
    let mut value: u32 = 0;
    let mut i: usize = first;
    while i < end
        invariant
            first <= i <= end <= s@.len(),
            w == s@.subrange(start as int, end as int),
            d == unsigned_digits(w),
            d == s@.subrange(first as int, end as int),
            value as int == digits_value(s@.subrange(first as int, i as int)),
            value <= 65535,
            forall|m: int| first <= m < i ==> is_digit(#[trigger] s@[m]),
        decreases end - i,
    {
        let c = s[i];
        if c < 48 || c > 57 {
            proof {
                assert(d[i - first] == c);
                assert(!is_digit(d[i - first]));
                lemma_parse_rejects_non_digit(w, i - first);
            }
            return None;
        }
        let ghost prefix = s@.subrange(first as int, i + 1);
        assert(prefix.drop_last() =~= s@.subrange(first as int, i as int));
        value = value * 10 + (c - 48) as u32;
        i = i + 1;
        if value > 65535 {
            proof {
                assert(d.subrange(0, i - first) =~= s@.subrange(first as int, i as int));
                if forall|m: int| 0 <= m < d.len() ==> is_digit(#[trigger] d[m]) {
                    lemma_digits_value_prefix(d, i - first);
                }
            }
            return None;
        }
    }
    assert(s@.subrange(first as int, end as int) =~= d);
    assert forall|m: int| 0 <= m < d.len() implies is_digit(#[trigger] d[m]) by {
        assert(d[m] == s@[first + m]);
    }
    Some(value as u16)
}

/// A byte that is not a digit among the digits makes the number invalid.
proof fn lemma_parse_rejects_non_digit(w: Seq<u8>, k: int)
    requires
        0 <= k < unsigned_digits(w).len(),
        !is_digit(unsigned_digits(w)[k]),
    ensures
        parse_u16_spec(w) is None,
{
}

/// A run of digits is worth at least as much as any of its prefixes.
proof fn lemma_digits_value_prefix(d: Seq<u8>, n: int)
    requires
        0 <= n <= d.len(),
        forall|i: int| 0 <= i < d.len() ==> is_digit(#[trigger] d[i]),
    ensures
        digits_value(d) >= digits_value(d.subrange(0, n)),
        digits_value(d) >= 0,
    decreases d.len(),
{
    if d.len() == 0 {
        assert(d.subrange(0, n) =~= d);
    } else {
        let e = d.drop_last();
        assert forall|i: int| 0 <= i < e.len() implies is_digit(#[trigger] e[i]) by {
            assert(e[i] == d[i]);
        }
        assert(is_digit(d[d.len() - 1]));
        if n == d.len() {
            lemma_digits_value_prefix(e, 0);
            assert(d.subrange(0, n) =~= d);
        } else {
            lemma_digits_value_prefix(e, n);
            assert(e.subrange(0, n) =~= d.subrange(0, n));
        }
    }
}

} // verus!
