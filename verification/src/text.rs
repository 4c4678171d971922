//! Numbers written as ASCII text: reading them from bytes and writing them
//! as strings.

use vstd::prelude::*;
use vstd::string::StringExecFns;

verus! {

/// The value of the ASCII digit `c` in the given radix, when it is one.
/// Letters stand for ten and up, in either case.
pub open spec fn spec_digit(c: u8, radix: int) -> Option<int> {
    let v: int = if 0x30 <= c <= 0x39 {
        c - 0x30
    } else if 0x61 <= c <= 0x7a {
        c - 0x61 + 10
    } else if 0x41 <= c <= 0x5a {
        c - 0x41 + 10
    } else {
        36
    };
    if v < radix {
        Some(v)
    } else {
        None
    }
}

/// The number that the digits `s` write, most significant first; nothing
/// when one of them is no digit. The empty run writes zero.
pub open spec fn spec_digits_value(s: Seq<u8>, radix: int) -> Option<int>
    decreases s.len(),
{
    if s.len() == 0 {
        Some(0)
    } else {
        match (spec_digits_value(s.drop_last(), radix), spec_digit(s.last(), radix)) {
            (Some(v), Some(d)) => Some(v * radix + d),
            _ => None,
        }
    }
}

/// The text without one leading plus sign.
pub open spec fn spec_unsigned_body(s: Seq<u8>) -> Seq<u8> {
    if s.len() > 0 && s[0] == 0x2b {
        s.subrange(1, s.len() as int)
    } else {
        s
    }
}

/// The unsigned number that `s` writes: an optional plus sign, then at least
/// one digit and nothing else, with a value of at most `max`.
pub open spec fn spec_parse_unsigned(s: Seq<u8>, radix: int, max: int) -> Option<int> {
    let body = spec_unsigned_body(s);
    if body.len() == 0 {
        None
    } else {
        match spec_digits_value(body, radix) {
            Some(v) => if v <= max {
                Some(v)
            } else {
                None
            },
            None => None,
        }
    }
}

/// The value of one digit.
pub fn digit(c: u8, radix: u8) -> (r: Option<u8>)
    requires
        radix <= 36,
    ensures
        r matches Some(d) ==> spec_digit(c, radix as int) == Some(d as int),
        r is None ==> spec_digit(c, radix as int) is None,
{
    let v: u8 = if 0x30 <= c && c <= 0x39 {
        c - 0x30
    } else if 0x61 <= c && c <= 0x7a {
        c - 0x61 + 10
    } else if 0x41 <= c && c <= 0x5a {
        c - 0x41 + 10
    } else {
        36
    };
    if v < radix {
        Some(v)
    } else {
        None
    }
}

proof fn lemma_digits_grow(s: Seq<u8>, n: int, radix: int)
    requires
        0 <= n <= s.len(),
        radix >= 1,
    ensures
        spec_digits_value(s, radix) matches Some(v) ==> (spec_digits_value(s.subrange(0, n), radix) matches Some(p)
            && 0 <= p <= v),
    decreases s.len() - n,
{
    if n == s.len() {
        assert(s.subrange(0, n) =~= s);
        lemma_digits_nonnegative(s, radix);
    } else {
        lemma_digits_grow(s, n + 1, radix);
        let t = s.subrange(0, n + 1);
        assert(t.drop_last() =~= s.subrange(0, n));
        if spec_digits_value(s, radix) is Some {
            let q = spec_digits_value(t, radix)->0;
            let p = spec_digits_value(s.subrange(0, n), radix)->0;
            let d = spec_digit(t.last(), radix)->0;
            lemma_digits_nonnegative(s.subrange(0, n), radix);
            assert(p <= p * radix + d) by (nonlinear_arith)
                requires
                    p >= 0,
                    radix >= 1,
                    d >= 0,
            ;
        }
    }
}

proof fn lemma_digits_nonnegative(s: Seq<u8>, radix: int)
    requires
        radix >= 1,
    ensures
        spec_digits_value(s, radix) matches Some(v) ==> v >= 0,
    decreases s.len(),
{
    if s.len() > 0 {
        lemma_digits_nonnegative(s.drop_last(), radix);
        if spec_digits_value(s, radix) is Some {
            let p = spec_digits_value(s.drop_last(), radix)->0;
            let d = spec_digit(s.last(), radix)->0;
            assert(p * radix + d >= 0) by (nonlinear_arith)
                requires
                    p >= 0,
                    radix >= 1,
                    d >= 0,
            ;
        }
    }
}

/// Reads an unsigned number of at most `max`, written as `u64::from_str_radix`
/// accepts it: an optional plus sign, then digits only.
pub fn parse_unsigned(s: &[u8], radix: u8, max: u64) -> (r: Option<u64>)
    requires
        2 <= radix <= 36,
    ensures
        r matches Some(v) ==> spec_parse_unsigned(s@, radix as int, max as int) == Some(v as int),
        r is None ==> spec_parse_unsigned(s@, radix as int, max as int) is None,
{
    let start: usize = if s.len() > 0 && s[0] == 0x2b {
        1
    } else {
        0
    };
    if start >= s.len() {
        return None;
    }
    let ghost body = spec_unsigned_body(s@);
    assert(body =~= s@.subrange(start as int, s@.len() as int));
    let mut acc: u64 = 0;
    let mut i: usize = start;
    while i < s.len()
        invariant
            start <= i <= s.len(),
            2 <= radix <= 36,
            body == s@.subrange(start as int, s@.len() as int),
            body == spec_unsigned_body(s@),
            body.len() > 0,
            spec_digits_value(body.subrange(0, i - start), radix as int) == Some(acc as int),
            acc <= max,
        decreases s.len() - i,
    {
        let ghost prefix = body.subrange(0, i - start);
        let ghost next = body.subrange(0, i - start + 1);
        proof {
            assert(next.drop_last() =~= prefix);
            assert(next.last() == s@[i as int]);
            lemma_digits_grow(body, i - start + 1, radix as int);
        }
        let d: u64 = match digit(s[i], radix) {
            Some(d) => d as u64,
            None => {
                return None;
            },
        };
        let r: u64 = radix as u64;
        if d > max || acc > (max - d) / r {
            proof {
                assert(acc * r + d > max) by (nonlinear_arith)
                    requires
                        d > max || acc > (max - d) / (r as int),
                        r >= 2,
                        d >= 0,
                        acc >= 0,
                        max >= 0,
                ;
                assert(spec_digits_value(next, radix as int) == Some(acc * r + d));
            }
            return None;
        }
        assert(acc * r + d <= max) by (nonlinear_arith)
            requires
                acc <= (max - d) / (r as int),
                d <= max,
                r >= 2,
        ;
        acc = acc * r + d;
        i = i + 1;
    }
    assert(body.subrange(0, i - start) =~= body);
    Some(acc)
}

/// The ASCII upper-case hexadecimal digit for a value below sixteen.
pub open spec fn spec_hex_upper(d: int) -> char {
    if d == 0 { '0' } else if d == 1 { '1' } else if d == 2 { '2' } else if d == 3 { '3' }
    else if d == 4 { '4' } else if d == 5 { '5' } else if d == 6 { '6' } else if d == 7 { '7' }
    else if d == 8 { '8' } else if d == 9 { '9' } else if d == 10 { 'A' } else if d == 11 { 'B' }
    else if d == 12 { 'C' } else if d == 13 { 'D' } else if d == 14 { 'E' } else { 'F' }
}

/// `value` written with exactly `width` upper-case hexadecimal digits, the
/// most significant first; higher digits are dropped.
pub open spec fn spec_hex_fixed(value: int, width: nat) -> Seq<char>
    decreases width,
{
    if width == 0 {
        Seq::empty()
    } else {
        spec_hex_fixed(value / 16, (width - 1) as nat).push(spec_hex_upper(value % 16))
    }
}

/// `value` written in decimal without leading zeros; zero is written "0".
pub open spec fn spec_decimal(value: nat) -> Seq<char>
    decreases value,
{
    if value < 10 {
        seq![spec_hex_upper(value as int)]
    } else {
        spec_decimal(value / 10).push(spec_hex_upper((value % 10) as int))
    }
}

fn hex_upper_str(d: u8) -> (s: &'static str)
    requires
        d < 16,
    ensures
        s@ == seq![spec_hex_upper(d as int)],
{
    proof {
        reveal_strlit("0");
        reveal_strlit("1");
        reveal_strlit("2");
        reveal_strlit("3");
        reveal_strlit("4");
        reveal_strlit("5");
        reveal_strlit("6");
        reveal_strlit("7");
        reveal_strlit("8");
        reveal_strlit("9");
        reveal_strlit("A");
        reveal_strlit("B");
        reveal_strlit("C");
        reveal_strlit("D");
        reveal_strlit("E");
        reveal_strlit("F");
    }
    let s: &'static str = match d {
        0 => "0",
        1 => "1",
        2 => "2",
        3 => "3",
        4 => "4",
        5 => "5",
        6 => "6",
        7 => "7",
        8 => "8",
        9 => "9",
        10 => "A",
        11 => "B",
        12 => "C",
        13 => "D",
        14 => "E",
        _ => "F",
    };
    assert(s@ =~= seq![spec_hex_upper(d as int)]);
    s
}

proof fn lemma_hex_fixed_split(value: int, hi: nat, lo: nat)
    requires
        value >= 0,
    ensures
        spec_hex_fixed(value, hi + lo) == spec_hex_fixed(value / vstd::arithmetic::power::pow(16, lo), hi)
            + spec_hex_fixed(value, lo),
    decreases lo,
{
    vstd::arithmetic::power::lemma_pow0(16);
    if lo == 0 {
        assert(spec_hex_fixed(value, 0) =~= Seq::<char>::empty());
        assert(spec_hex_fixed(value, hi) + Seq::<char>::empty() =~= spec_hex_fixed(value, hi));
    } else {
        let l1 = (lo - 1) as nat;
        lemma_hex_fixed_split(value / 16, hi, l1);
        let p = vstd::arithmetic::power::pow(16, l1);
        vstd::arithmetic::power::lemma_pow_positive(16, l1);
        vstd::arithmetic::power::lemma_pow1(16);
        vstd::arithmetic::power::lemma_pow_adds(16, 1, l1);
        assert(vstd::arithmetic::power::pow(16, lo) == 16 * p);
        vstd::arithmetic::div_mod::lemma_div_denominator(value, 16, p);
        assert((value / 16) / p == value / (16 * p));
        assert(spec_hex_fixed(value, hi + lo) =~= spec_hex_fixed(value / 16, (hi + l1) as nat).push(
            spec_hex_upper(value % 16),
        ));
        assert(spec_hex_fixed(value, hi + lo) =~= spec_hex_fixed(value / vstd::arithmetic::power::pow(16, lo), hi)
            + spec_hex_fixed(value, lo));
    }
}

/// Writes `value` with exactly `width` upper-case hexadecimal digits.
pub fn hex_fixed(value: u64, width: usize) -> (s: String)
    requires
        width <= 16,
    ensures
        s@ == spec_hex_fixed(value as int, width as nat),
{
    let mut out = String::from_str("");
    proof {
        reveal_strlit("");
    }
    // Digits are produced from the most significant one down.
    let mut i: usize = 0;
    while i < width
        invariant
            i <= width <= 16,
            out@ == spec_hex_fixed(
                value as int / vstd::arithmetic::power::pow(16, (width - i) as nat),
                i as nat,
            ),
        decreases width - i,
    {
        let shift: usize = width - i - 1;
        let scaled: u64 = shift_right_nibbles(value, shift);
        let d: u8 = (scaled % 16) as u8;
        proof {
            let p = vstd::arithmetic::power::pow(16, shift as nat);
            vstd::arithmetic::power::lemma_pow_positive(16, shift as nat);
            vstd::arithmetic::power::lemma_pow1(16);
            vstd::arithmetic::power::lemma_pow_adds(16, 1, shift as nat);
            assert(vstd::arithmetic::power::pow(16, (width - i) as nat) == 16 * p);
            vstd::arithmetic::div_mod::lemma_div_denominator(value as int, p, 16);
            assert((value as int / p) / 16 == value as int / (p * 16));
        }
        out.append(hex_upper_str(d));
        i = i + 1;
    }
    proof {
        vstd::arithmetic::power::lemma_pow0(16);
    }
    out
}

/// `value` divided by the `n`-th power of sixteen.
fn shift_right_nibbles(value: u64, n: usize) -> (r: u64)
    requires
        n <= 16,
    ensures
        r == value as int / vstd::arithmetic::power::pow(16, n as nat),
{
    let mut r: u64 = value;
    let mut k: usize = 0;
    proof {
        vstd::arithmetic::power::lemma_pow0(16);
    }
    while k < n
        invariant
            k <= n,
            r == value as int / vstd::arithmetic::power::pow(16, k as nat),
        decreases n - k,
    {
        proof {
            let p = vstd::arithmetic::power::pow(16, k as nat);
            vstd::arithmetic::power::lemma_pow_positive(16, k as nat);
            vstd::arithmetic::power::lemma_pow1(16);
            vstd::arithmetic::power::lemma_pow_adds(16, k as nat, 1);
            vstd::arithmetic::div_mod::lemma_div_denominator(value as int, p, 16);
        }
        r = r / 16;
        k = k + 1;
    }
    r
}

/// Writes `value` in decimal.
pub fn decimal(value: u64) -> (s: String)
    ensures
        s@ == spec_decimal(value as nat),
    decreases value,
{
    if value < 10 {
        let mut out = String::from_str("");
        proof {
            reveal_strlit("");
        }
        out.append(hex_upper_str(value as u8));
        assert(out@ =~= seq![spec_hex_upper(value as int)]);
        out
    } else {
        let mut out = decimal(value / 10);
        out.append(hex_upper_str((value % 10) as u8));
        out
    }
}


/// The text that `String::from_utf8_lossy` makes of bytes.
pub uninterp spec fn spec_utf8_lossy(bytes: Seq<u8>) -> Seq<char>;

/// Calls `String::from_utf8_lossy` and takes the result as an owned string.
/// Bytes that are valid UTF-8 give the text they encode; any other bytes
/// give that text with a replacement character in place of each invalid run.
#[verifier::external_body]
pub(crate) fn utf8_lossy(bytes: &[u8]) -> (s: String)
    ensures
        s@ == spec_utf8_lossy(bytes@),
        vstd::utf8::valid_utf8(bytes@) ==> s@ == vstd::utf8::decode_utf8(bytes@),
{
    String::from_utf8_lossy(bytes).into_owned()
}


/// The greatest index at which `s` holds `c`, when it holds it at all.
pub open spec fn spec_last_index_of(s: Seq<char>, c: char) -> Option<int>
    decreases s.len(),
{
    if s.len() == 0 {
        None
    } else if s.last() == c {
        Some(s.len() - 1)
    } else {
        spec_last_index_of(s.drop_last(), c)
    }
}

/// What `spec_last_index_of` finds is a place of `c` after which no other
/// lies.
pub proof fn lemma_last_index_of(s: Seq<char>, c: char)
    ensures
        match spec_last_index_of(s, c) {
            Some(i) => 0 <= i < s.len() && s[i] == c && forall|j: int| i < j < s.len() ==> s[j] != c,
            None => forall|j: int| 0 <= j < s.len() ==> s[j] != c,
        },
    decreases s.len(),
{
    if s.len() > 0 && s.last() != c {
        let head = s.drop_last();
        lemma_last_index_of(head, c);
        assert forall|j: int| 0 <= j < head.len() implies head[j] == s[j] by {}
        match spec_last_index_of(head, c) {
            Some(i) => {
                assert(s[i] == c);
                assert forall|j: int| i < j < s.len() implies s[j] != c by {
                    if j < head.len() {
                        assert(head[j] != c);
                    }
                }
            },
            None => {
                assert forall|j: int| 0 <= j < s.len() implies s[j] != c by {
                    if j < head.len() {
                        assert(head[j] != c);
                    }
                }
            },
        }
    }
}

/// Finds the last place of `c` in `s`, counted in characters.
pub fn last_index_of(s: &str, c: char) -> (r: Option<usize>)
    ensures
        match r {
            Some(i) => spec_last_index_of(s@, c) == Some(i as int),
            None => spec_last_index_of(s@, c) is None,
        },
{
    let n: usize = s.unicode_len();
    let mut i: usize = n;
    assert(s@.subrange(0, n as int) =~= s@);
    while i > 0
        invariant
            i <= n == s@.len(),
            spec_last_index_of(s@, c) == spec_last_index_of(s@.subrange(0, i as int), c),
        decreases i,
    {
        let ghost head = s@.subrange(0, i as int);
        if s.get_char(i - 1) == c {
            assert(head.last() == c);
            return Some(i - 1);
        }
        proof {
            assert(head.drop_last() =~= s@.subrange(0, i - 1));
        }
        i = i - 1;
    }
    None
}


/// The first index from `from` on at which `s` holds `c`; the length of `s`
/// when there is none.
pub open spec fn spec_index_of(s: Seq<char>, c: char, from: int) -> int
    decreases s.len() - from,
{
    if from >= s.len() {
        s.len() as int
    } else if from >= 0 && s[from] == c {
        from
    } else {
        spec_index_of(s, c, from + 1)
    }
}

/// `spec_index_of` gives the least index at or after `from` that holds `c`.
pub proof fn lemma_index_of(s: Seq<char>, c: char, from: int)
    requires
        0 <= from <= s.len(),
    ensures
        from <= spec_index_of(s, c, from) <= s.len(),
        spec_index_of(s, c, from) < s.len() ==> s[spec_index_of(s, c, from)] == c,
        forall|j: int| from <= j < spec_index_of(s, c, from) ==> s[j] != c,
    decreases s.len() - from,
{
    if from < s.len() && s[from] != c {
        lemma_index_of(s, c, from + 1);
    }
}

/// Finds the first place of `c` in `s`, counted in characters; the number of
/// characters of `s` when there is none.
pub fn index_of(s: &str, c: char) -> (r: usize)
    ensures
        r == spec_index_of(s@, c, 0),
        r <= s@.len(),
        r < s@.len() ==> s@[r as int] == c,
        forall|j: int| 0 <= j < r ==> s@[j] != c,
{
    let n: usize = s.unicode_len();
    let mut i: usize = 0;
    while i < n && s.get_char(i) != c
        invariant
            i <= n == s@.len(),
            spec_index_of(s@, c, 0) == spec_index_of(s@, c, i as int),
        decreases n - i,
    {
        i = i + 1;
    }
    proof {
        lemma_index_of(s@, c, 0);
    }
    i
}

} // verus!
