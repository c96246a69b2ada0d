//! Character-level helpers on strings: ASCII case folding, prefixes,
//! decimal parsing and decimal formatting.

use vstd::prelude::*;
use vstd::string::*;

verus! {

/// ASCII lower-casing of one character; other characters are unchanged.
pub open spec fn ascii_lower(c: char) -> char {
    if 'A' <= c && c <= 'Z' {
        ((c as int) + 32) as char
    } else {
        c
    }
}

/// ASCII lower-casing of every character of a sequence.
pub open spec fn ascii_lower_all(s: Seq<char>) -> Seq<char> {
    Seq::new(s.len(), |i: int| ascii_lower(s[i]))
}

pub fn to_ascii_lower(c: char) -> (r: char)
    ensures
        r == ascii_lower(c),
{
    if 'A' <= c && c <= 'Z' {
        let b: u8 = c as u8;
        (b + 32) as char
    } else {
        c
    }
}

/// Compares `s` with `t` after ASCII lower-casing every character of `s`.
pub fn eq_lowered(s: &str, t: &str) -> (r: bool)
    ensures
        r == (ascii_lower_all(s@) == t@),
{
    let n = s.unicode_len();
    let m = t.unicode_len();
    if n != m {
        assert(ascii_lower_all(s@).len() != t@.len());
        return false;
    }
    let mut i: usize = 0;
    while i < n
        invariant
            n == s@.len(),
            m == t@.len(),
            n == m,
            i <= n,
            forall|j: int| 0 <= j < i ==> ascii_lower(s@[j]) == t@[j],
        decreases n - i,
    {
        let c = to_ascii_lower(s.get_char(i));
        if c != t.get_char(i) {
            assert(ascii_lower_all(s@)[i as int] != t@[i as int]);
            return false;
        }
        i = i + 1;
    }
    assert(ascii_lower_all(s@) =~= t@);
    true
}


/// Exact equality of two strings.
pub fn str_eq(s: &str, t: &str) -> (r: bool)
    ensures
        r == (s@ == t@),
{
    let n = s.unicode_len();
    if n != t.unicode_len() {
        return false;
    }
    let mut i: usize = 0;
    while i < n
        invariant
            n == s@.len(),
            n == t@.len(),
            i <= n,
            forall|j: int| 0 <= j < i ==> s@[j] == t@[j],
        decreases n - i,
    {
        if s.get_char(i) != t.get_char(i) {
            return false;
        }
        i = i + 1;
    }
    assert(s@ =~= t@);
    true
}

/// When `p` is a prefix of `s`, the rest of `s` after it.
pub fn strip_prefix<'a>(s: &'a str, p: &str) -> (r: Option<&'a str>)
    ensures
        r is Some <==> p@.is_prefix_of(s@),
        r matches Some(rest) ==> rest@ == s@.skip(p@.len() as int),
{
    let n = s.unicode_len();
    let m = p.unicode_len();
    if m > n {
        return None;
    }
    let mut i: usize = 0;
    while i < m
        invariant
            n == s@.len(),
            m == p@.len(),
            m <= n,
            i <= m,
            forall|j: int| 0 <= j < i ==> s@[j] == p@[j],
        decreases m - i,
    {
        if s.get_char(i) != p.get_char(i) {
            return None;
        }
        i = i + 1;
    }
    assert(p@ =~= s@.subrange(0, m as int));
    let rest = s.substring_char(m, n);
    assert(rest@ =~= s@.skip(m as int));
    Some(rest)
}

/// Whether `c` occurs in `s`.
pub fn contains_char(s: &str, c: char) -> (r: bool)
    ensures
        r == s@.contains(c),
{
    let n = s.unicode_len();
    let mut i: usize = 0;
    while i < n
        invariant
            n == s@.len(),
            i <= n,
            forall|j: int| 0 <= j < i ==> s@[j] != c,
        decreases n - i,
    {
        if s.get_char(i) == c {
            assert(s@[i as int] == c);
            return true;
        }
        i = i + 1;
    }
    false
}

// ---------------------------------------------------------------- decimal

pub open spec fn is_digit(c: char) -> bool {
    '0' <= c && c <= '9'
}

pub open spec fn digit_value(c: char) -> int {
    (c as int) - ('0' as int)
}

/// A non-empty sequence of ASCII digits.
pub open spec fn all_digits(s: Seq<char>) -> bool {
    s.len() > 0 && forall|i: int| 0 <= i < s.len() ==> is_digit(#[trigger] s[i])
}

/// The number written by a sequence of digits, most significant first.
pub open spec fn digits_value(s: Seq<char>) -> int
    decreases s.len(),
{
    if s.len() == 0 {
        0
    } else {
        10 * digits_value(s.drop_last()) + digit_value(s.last())
    }
}

/// The value of an optional `+` followed by digits, as the standard
/// integer parsers of unsigned types read it.
pub open spec fn unsigned_text_value(s: Seq<char>) -> Option<int> {
    if s.len() > 0 && s[0] == '+' {
        if all_digits(s.drop_first()) {
            Some(digits_value(s.drop_first()))
        } else {
            None
        }
    } else if all_digits(s) {
        Some(digits_value(s))
    } else {
        None
    }
}

/// The value of an optional sign (`+` or `-`) followed by digits, as the
/// standard integer parsers of signed types read it.
pub open spec fn signed_text_value(s: Seq<char>) -> Option<int> {
    if s.len() > 0 && s[0] == '-' {
        if all_digits(s.drop_first()) {
            Some(-digits_value(s.drop_first()))
        } else {
            None
        }
    } else {
        unsigned_text_value(s)
    }
}

pub proof fn lemma_digits_value_nonneg(s: Seq<char>)
    requires
        forall|i: int| 0 <= i < s.len() ==> is_digit(#[trigger] s[i]),
    ensures
        digits_value(s) >= 0,
    decreases s.len(),
{
    if s.len() > 0 {
        lemma_digits_value_nonneg(s.drop_last());
    }
}

/// Reads the digits `s[from..]`, giving `None` when one is not a digit, when
/// there are none, or when the value exceeds `max`.
fn read_digits(s: &str, from: usize, max: u64) -> (r: Option<u64>)
    requires
        from <= s@.len(),
    ensures
        ({
            let d = s@.skip(from as int);
            match r {
                Some(v) => all_digits(d) && v == digits_value(d) && v <= max,
                None => !all_digits(d) || digits_value(d) > max,
            }
        }),
{
    let n = s.unicode_len();
    if from == n {
        return None;
    }
    let ghost d = s@.skip(from as int);
    let mut acc: u64 = 0;
    let mut too_big = false;
    let mut i: usize = from;
    while i < n
        invariant
            n == s@.len(),
            from < n,
            d == s@.skip(from as int),
            from <= i <= n,
            forall|j: int| from <= j < i ==> is_digit(#[trigger] s@[j]),
            !too_big ==> acc == digits_value(d.subrange(0, i - from)) && acc <= max,
            too_big ==> digits_value(d.subrange(0, i - from)) > max,
        decreases n - i,
    {
        let c = s.get_char(i);
        if !('0' <= c && c <= '9') {
            assert(!is_digit(d[i - from]));
            return None;
        }
        let ghost prefix = d.subrange(0, i - from);
        let ghost next = d.subrange(0, i + 1 - from);
        assert(next.drop_last() =~= prefix);
        assert(next.last() == c);
        proof {
            assert forall|j: int| 0 <= j < prefix.len() implies is_digit(#[trigger] prefix[j]) by {
                assert(prefix[j] == s@[from + j]);
            }
            lemma_digits_value_nonneg(prefix);
        }
        let dv: u64 = ((c as u32) - ('0' as u32)) as u64;
        if !too_big {
            if dv > max || acc > (max - dv) / 10 {
                too_big = true;
                assert(10 * acc + dv > max) by (nonlinear_arith)
                    requires
                        dv > max || acc > (max - dv) / 10,
                        acc >= 0,
                ;
            } else {
                assert(10 * acc + dv <= max) by (nonlinear_arith)
                    requires
                        acc <= (max - dv) / 10,
                        dv <= max,
                ;
                acc = 10 * acc + dv;
            }
        } else {
            assert(digits_value(next) > max);
        }
        i = i + 1;
    }
    assert(d.subrange(0, n - from) =~= d);
    assert(all_digits(d)) by {
        assert forall|j: int| 0 <= j < d.len() implies is_digit(#[trigger] d[j]) by {
            assert(d[j] == s@[from + j]);
        }
    }
    if too_big {
        None
    } else {
        Some(acc)
    }
}


/// `v` when it lies within `lo..=hi`.
pub open spec fn within(v: Option<int>, lo: int, hi: int) -> Option<int> {
    match v {
        Some(x) => if lo <= x && x <= hi { Some(x) } else { None },
        None => None,
    }
}

/// Parses an optional `+` followed by decimal digits whose value is at most `max`.
pub fn parse_unsigned(s: &str, max: u64) -> (r: Option<u64>)
    ensures
        r is Some <==> within(unsigned_text_value(s@), 0, max as int) is Some,
        r matches Some(v) ==> within(unsigned_text_value(s@), 0, max as int) == Some(v as int),
{
    let n = s.unicode_len();
    let from: usize = if n > 0 && s.get_char(0) == '+' { 1 } else { 0 };
    assert(from == 1 ==> s@.drop_first() =~= s@.skip(1));
    assert(from == 0 ==> s@ =~= s@.skip(0));
    if from == 0 && n > 0 {
        assert(s@[0] != '+');
    }
    let r = read_digits(s, from, max);
    proof {
        let d = s@.skip(from as int);
        if all_digits(d) {
            lemma_digits_value_nonneg(d);
        }
    }
    r
}

/// Parses an optional sign followed by decimal digits whose value lies in
/// `min..=max`.
pub fn parse_signed(s: &str, min: i64, max: i64) -> (r: Option<i64>)
    requires
        min < 0 <= max,
    ensures
        r is Some <==> within(signed_text_value(s@), min as int, max as int) is Some,
        r matches Some(v) ==> within(signed_text_value(s@), min as int, max as int) == Some(v as int),
{
    let n = s.unicode_len();
    if n > 0 && s.get_char(0) == '-' {
        let m: i64 = -(min + 1);
        let bound: u64 = (m as u64) + 1;
        assert(bound == -min);
        let r = read_digits(s, 1, bound);
        assert(s@.drop_first() =~= s@.skip(1));
        proof {
            if all_digits(s@.drop_first()) {
                lemma_digits_value_nonneg(s@.drop_first());
            }
        }
        match r {
            Some(v) => {
                if v == 0 {
                    Some(0)
                } else {
                    assert(v - 1 <= m);
                    let w: i64 = (v - 1) as i64;
                    assert(-w - 1 == -(v as int));
                    Some(-w - 1)
                }
            },
            None => None,
        }
    } else {
        if n > 0 {
            assert(s@[0] != '-');
        }
        let r = parse_unsigned(s, max as u64);
        proof {
            if n > 0 && s@[0] == '+' && all_digits(s@.drop_first()) {
                lemma_digits_value_nonneg(s@.drop_first());
            }
            if all_digits(s@) {
                lemma_digits_value_nonneg(s@);
            }
        }
        match r {
            Some(v) => Some(v as i64),
            None => None,
        }
    }
}

/// Reads a `u16` the way `str::parse::<u16>` does.
pub fn parse_u16(s: &str) -> (r: Option<u16>)
    ensures
        r is Some <==> within(unsigned_text_value(s@), 0, u16::MAX as int) is Some,
        r matches Some(v) ==> unsigned_text_value(s@) == Some(v as int),
{
    match parse_unsigned(s, u16::MAX as u64) {
        Some(v) => Some(v as u16),
        None => None,
    }
}

/// Reads a `usize` the way `str::parse::<usize>` does.
pub fn parse_usize(s: &str) -> (r: Option<usize>)
    ensures
        r is Some <==> within(unsigned_text_value(s@), 0, usize::MAX as int) is Some,
        r matches Some(v) ==> unsigned_text_value(s@) == Some(v as int),
{
    match parse_unsigned(s, usize::MAX as u64) {
        Some(v) => Some(v as usize),
        None => None,
    }
}

/// Reads an `i32` the way `str::parse::<i32>` does.
pub fn parse_i32(s: &str) -> (r: Option<i32>)
    ensures
        r is Some <==> within(signed_text_value(s@), i32::MIN as int, i32::MAX as int) is Some,
        r matches Some(v) ==> signed_text_value(s@) == Some(v as int),
{
    match parse_signed(s, i32::MIN as i64, i32::MAX as i64) {
        Some(v) => Some(v as i32),
        None => None,
    }
}


/// The ASCII digit for a value below ten.
pub open spec fn digit_char(d: int) -> char {
    ((d + 48) as char)
}

/// Decimal text of a natural number, without leading zeros.
pub open spec fn nat_text(n: nat) -> Seq<char>
    decreases n,
{
    if n < 10 {
        seq![digit_char(n as int)]
    } else {
        nat_text(n / 10) + seq![digit_char((n % 10) as int)]
    }
}

/// Decimal text of an integer, with a leading `-` when it is negative.
pub open spec fn int_text(n: int) -> Seq<char> {
    if n < 0 {
        seq!['-'] + nat_text((-n) as nat)
    } else {
        nat_text(n as nat)
    }
}

fn digit_text(d: u64) -> (r: &'static str)
    requires
        d < 10,
    ensures
        r@ == seq![digit_char(d as int)],
{
    proof {
        reveal_strlit("0");
        reveal_strlit("1");
        reveal_strlit("2");
        reveal_strlit("3");
        reveal_strlit("4");
        reveal_strlit("5");
        reveal_strlit("6");
        reveal_strlit("7");
        reveal_strlit("8");
        reveal_strlit("9");
    }
    let r = match d {
        0 => "0",
        1 => "1",
        2 => "2",
        3 => "3",
        4 => "4",
        5 => "5",
        6 => "6",
        7 => "7",
        8 => "8",
        _ => "9",
    };
    assert(r@ =~= seq![digit_char(d as int)]);
    r
}

/// Decimal text of an unsigned number, as `to_string` writes it.
pub fn u64_text(n: u64) -> (r: String)
    ensures
        r@ == nat_text(n as nat),
    decreases n,
{
    if n < 10 {
        String::from_str(digit_text(n))
    } else {
        let mut s = u64_text(n / 10);
        s.append(digit_text(n % 10));
        s
    }
}

/// Decimal text of a signed number, as `to_string` writes it.
pub fn i64_text(n: i64) -> (r: String)
    ensures
        r@ == int_text(n as int),
{
    if n < 0 {
        let magnitude: u64 = ((-(n + 1)) as u64) + 1;
        let digits = u64_text(magnitude);
        let mut s = String::from_str("-");
        proof {
            reveal_strlit("-");
        }
        s.append(digits.as_str());
        assert(s@ =~= int_text(n as int));
        s
    } else {
        u64_text(n as u64)
    }
}


pub proof fn lemma_nat_text_digits(n: nat)
    ensures
        all_digits(nat_text(n)),
        digits_value(nat_text(n)) == n,
    decreases n,
{
    if n < 10 {
        let t = nat_text(n);
        assert(t.drop_last() =~= Seq::<char>::empty());
        assert(digit_value(digit_char(n as int)) == n);
        assert(digits_value(t) == 10 * digits_value(t.drop_last()) + digit_value(t.last()));
    } else {
        lemma_nat_text_digits(n / 10);
        let t = nat_text(n);
        let d = digit_char((n % 10) as int);
        assert(t.drop_last() =~= nat_text(n / 10));
        assert(t.last() == d);
        assert(digit_value(d) == n % 10);
        assert(digits_value(t) == 10 * digits_value(t.drop_last()) + digit_value(t.last()));
        assert(n == 10 * (n / 10) + n % 10);
        assert forall|i: int| 0 <= i < t.len() implies is_digit(#[trigger] t[i]) by {
            if i < t.len() - 1 {
                assert(t[i] == nat_text(n / 10)[i]);
            }
        }
    }
}

/// Reading back what the decimal formatter writes gives the number that
/// was written, for unsigned and for signed numbers.
pub proof fn lemma_decimal_text_round_trip(n: nat, i: int)
    ensures
        unsigned_text_value(nat_text(n)) == Some(n as int),
        signed_text_value(int_text(i)) == Some(i),
{
    lemma_nat_text_digits(n);
    assert(nat_text(n)[0] != '+' && nat_text(n)[0] != '-') by {
        assert(is_digit(nat_text(n)[0]));
    }
    if i < 0 {
        let m = (-i) as nat;
        lemma_nat_text_digits(m);
        let t = int_text(i);
        assert(t.drop_first() =~= nat_text(m));
    } else {
        let m = i as nat;
        lemma_nat_text_digits(m);
        assert(is_digit(nat_text(m)[0]));
    }
}

} // verus!
