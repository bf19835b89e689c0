//! Character-level helpers on strings: conversion between `String` and
//! character vectors, prefixes, and decimal numbers.
use vstd::prelude::*;
use vstd::string::*;

verus! {

/// Appends one character to a string (`String::push`).
#[verifier::external_body]
pub(crate) fn push_char(s: &mut String, c: char)
    ensures
        final(s)@ == old(s)@.push(c),
{
    s.push(c);
}

/// Decodes UTF-8 bytes into a string (`String::from_utf8`), which the
/// documentation says fails exactly when the bytes are not valid UTF-8.
#[verifier::external_body]
pub(crate) fn string_from_utf8(bytes: Vec<u8>) -> (r: Option<String>)
    ensures
        r is Some <==> vstd::utf8::valid_utf8(bytes@),
        r is Some ==> r->0@ == vstd::utf8::decode_utf8(bytes@),
{
    String::from_utf8(bytes).ok()
}

/// The characters of `s`, in order.
pub fn chars_of(s: &str) -> (v: Vec<char>)
    ensures
        v@ == s@,
{
    let n = s.unicode_len();
    let mut v: Vec<char> = Vec::new();
    let mut i: usize = 0;
    while i < n
        invariant
            n == s@.len(),
            i <= n,
            v@ == s@.subrange(0, i as int),
        decreases n - i,
    {
        let c = s.get_char(i);
        v.push(c);
        i = i + 1;
    }
    v
}

/// A string holding the characters of `cs`.
pub fn string_from_chars(cs: &Vec<char>) -> (s: String)
    ensures
        s@ == cs@,
{
    let mut s = String::new();
    let mut i: usize = 0;
    while i < cs.len()
        invariant
            i <= cs.len(),
            s@ == cs@.subrange(0, i as int),
        decreases cs.len() - i,
    {
        push_char(&mut s, cs[i]);
        i = i + 1;
    }
    s
}

/// A fresh string with the characters of `s`.
pub fn owned(s: &str) -> (r: String)
    ensures
        r@ == s@,
{
    s.to_owned()
}

/// The concatenation of `a` and `b`.
pub fn join2(a: &str, b: &str) -> (r: String)
    ensures
        r@ == a@ + b@,
{
    let r = a.to_owned();
    r.concat(b)
}

/// `s` begins with `prefix`.
pub open spec fn has_prefix(s: Seq<char>, prefix: Seq<char>) -> bool {
    prefix.len() <= s.len() && s.subrange(0, prefix.len() as int) == prefix
}

/// Whether `s` begins with `prefix` (`str::starts_with`).
pub fn starts_with(s: &str, prefix: &str) -> (b: bool)
    ensures
        b == has_prefix(s@, prefix@),
{
    let sc = chars_of(s);
    let pc = chars_of(prefix);
    if pc.len() > sc.len() {
        return false;
    }
    let mut i: usize = 0;
    while i < pc.len()
        invariant
            pc@ == prefix@,
            sc@ == s@,
            pc.len() <= sc.len(),
            i <= pc.len(),
            forall|j: int| 0 <= j < i ==> sc@[j] == pc@[j],
        decreases pc.len() - i,
    {
        if sc[i] != pc[i] {
            assert(s@.subrange(0, prefix@.len() as int)[i as int] != prefix@[i as int]);
            return false;
        }
        i = i + 1;
    }
    assert(s@.subrange(0, prefix@.len() as int) =~= prefix@);
    true
}

/// The part of `s` before the first occurrence of `sep` (all of `s` when
/// `sep` does not occur): the first item of `str::split`.
pub open spec fn before_first(s: Seq<char>, sep: char) -> Seq<char>
    decreases s.len(),
{
    if s.len() == 0 {
        s
    } else if s[0] == sep {
        Seq::empty()
    } else {
        seq![s[0]] + before_first(s.drop_first(), sep)
    }
}

proof fn lemma_before_first_skip(s: Seq<char>, sep: char, i: int)
    requires
        0 <= i <= s.len(),
        forall|j: int| 0 <= j < i ==> s[j] != sep,
    ensures
        before_first(s, sep) == s.subrange(0, i) + before_first(s.subrange(i, s.len() as int), sep),
    decreases i,
{
    if i == 0 {
        assert(s.subrange(0, 0) + before_first(s.subrange(0, s.len() as int), sep) =~= before_first(s, sep)) by {
            assert(s.subrange(0, s.len() as int) =~= s);
        }
    } else {
        let t = s.drop_first();
        assert forall|j: int| 0 <= j < i - 1 implies t[j] != sep by {
            assert(t[j] == s[j + 1]);
        }
        lemma_before_first_skip(t, sep, i - 1);
        assert(t.subrange(i - 1, t.len() as int) =~= s.subrange(i, s.len() as int));
        assert(seq![s[0]] + t.subrange(0, i - 1) =~= s.subrange(0, i));
    }
}

/// The part of `s` before the first `sep` (`s.split(sep).next()`).
pub fn prefix_before(s: &str, sep: char) -> (r: String)
    ensures
        r@ == before_first(s@, sep),
{
    let sc = chars_of(s);
    let mut out: Vec<char> = Vec::new();
    let mut i: usize = 0;
    while i < sc.len()
        invariant
            sc@ == s@,
            i <= sc.len(),
            out@ == s@.subrange(0, i as int),
            forall|j: int| 0 <= j < i ==> s@[j] != sep,
        decreases sc.len() - i,
    {
        if sc[i] == sep {
            proof {
                lemma_before_first_skip(s@, sep, i as int);
                assert(before_first(s@.subrange(i as int, s@.len() as int), sep) =~= Seq::<char>::empty());
                assert(s@.subrange(0, i as int) + Seq::<char>::empty() =~= s@.subrange(0, i as int));
            }
            return string_from_chars(&out);
        }
        out.push(sc[i]);
        i = i + 1;
    }
    proof {
        lemma_before_first_skip(s@, sep, i as int);
        assert(s@.subrange(i as int, s@.len() as int) =~= Seq::<char>::empty());
        assert(s@.subrange(0, i as int) + Seq::<char>::empty() =~= s@);
    }
    string_from_chars(&out)
}

/// The decimal digit for a number below ten.
pub open spec fn digit_char(d: nat) -> char {
    if d == 0 { '0' } else if d == 1 { '1' } else if d == 2 { '2' } else if d == 3 { '3' }
    else if d == 4 { '4' } else if d == 5 { '5' } else if d == 6 { '6' } else if d == 7 { '7' }
    else if d == 8 { '8' } else { '9' }
}

/// The shortest decimal numeral of `n`.
pub open spec fn decimal(n: nat) -> Seq<char>
    decreases n,
{
    if n < 10 {
        seq![digit_char(n)]
    } else {
        decimal(n / 10).push(digit_char(n % 10))
    }
}

/// `c` is one of the ASCII digits `0`..`9`.
pub open spec fn is_digit(c: char) -> bool {
    '0' <= c && c <= '9'
}

/// The number that a sequence of ASCII digits denotes.
pub open spec fn digits_value(s: Seq<char>) -> nat
    decreases s.len(),
{
    if s.len() == 0 {
        0
    } else {
        digits_value(s.drop_last()) * 10 + ((s.last() as int - '0' as int) as nat)
    }
}

/// `s` with one leading `+` removed, if it has one.
pub open spec fn without_plus(s: Seq<char>) -> Seq<char> {
    if s.len() > 0 && s[0] == '+' { s.drop_first() } else { s }
}

/// Every character of `s` is an ASCII digit.
pub open spec fn all_digits(s: Seq<char>) -> bool {
    forall|i: int| 0 <= i < s.len() ==> is_digit(#[trigger] s[i])
}

/// What `u16::from_str` gives for `s`: an optional leading `+`, then one or
/// more ASCII digits whose value fits in 16 bits.
pub open spec fn u16_from_text(s: Seq<char>) -> Option<u16> {
    let digits = without_plus(s);
    if digits.len() > 0 && all_digits(digits) && digits_value(digits) <= u16::MAX {
        Some(digits_value(digits) as u16)
    } else {
        None
    }
}

proof fn lemma_digits_value_prefix(s: Seq<char>, i: int)
    requires
        0 <= i < s.len(),
    ensures
        digits_value(s.subrange(0, i + 1)) == digits_value(s.subrange(0, i)) * 10 + ((s[i] as int
            - '0' as int) as nat),
{
    assert(s.subrange(0, i + 1).drop_last() =~= s.subrange(0, i));
}

proof fn lemma_digits_value_monotone(s: Seq<char>, i: int)
    requires
        0 <= i <= s.len(),
        forall|j: int| 0 <= j < s.len() ==> is_digit(#[trigger] s[j]),
    ensures
        digits_value(s.subrange(0, i)) <= digits_value(s),
    decreases s.len() - i,
{
    if i < s.len() {
        lemma_digits_value_monotone(s, i + 1);
        lemma_digits_value_prefix(s, i);
        assert(is_digit(s[i]));
    } else {
        assert(s.subrange(0, i) =~= s);
    }
}

/// Parses a decimal `u16` as `str::parse::<u16>` does.
pub fn parse_u16(s: &str) -> (r: Option<u16>)
    ensures
        r == u16_from_text(s@),
{
    let sc = chars_of(s);
    let start: usize = if sc.len() > 0 && sc[0] == '+' { 1 } else { 0 };
    let ghost digits = without_plus(s@);
    assert(digits =~= s@.subrange(start as int, s@.len() as int));
    if start >= sc.len() {
        return None;
    }
    let mut value: u32 = 0;
    let mut i: usize = start;
    while i < sc.len()
        invariant
            sc@ == s@,
            start <= i <= sc.len(),
            digits == s@.subrange(start as int, s@.len() as int),
            digits == without_plus(s@),
            forall|j: int| 0 <= j < i - start ==> is_digit(#[trigger] digits[j]),
            value == digits_value(digits.subrange(0, i - start)),
            value <= u16::MAX,
        decreases sc.len() - i,
    {
        let c = sc[i];
        if !('0' <= c && c <= '9') {
            assert(!is_digit(digits[i - start]));
            assert(!all_digits(digits));
            assert(u16_from_text(s@) is None);
            return None;
        }
        proof { lemma_digits_value_prefix(digits, i - start); }
        let d: u32 = (c as u32) - ('0' as u32);
        let next: u32 = value * 10 + d;
        if next > 65535 {
            proof {
                assert(forall|j: int| 0 <= j < i - start + 1 ==> is_digit(#[trigger] digits[j]));
                if all_digits(digits) {
                    lemma_digits_value_monotone(digits, i - start + 1);
                    assert(digits_value(digits) > u16::MAX);
                }
                assert(u16_from_text(s@) is None);
            }
            return None;
        }
        value = next;
        i = i + 1;
    }
    assert(digits.subrange(0, digits.len() as int) =~= digits);
    Some(value as u16)
}

proof fn lemma_digit_char(d: nat)
    requires
        d < 10,
    ensures
        is_digit(digit_char(d)),
        digit_char(d) as int - '0' as int == d,
        digit_char(d) != '+',
{
}

proof fn lemma_decimal_digits(n: nat)
    ensures
        decimal(n).len() > 0,
        forall|i: int| 0 <= i < decimal(n).len() ==> is_digit(#[trigger] decimal(n)[i]),
        digits_value(decimal(n)) == n,
        decimal(n)[0] != '+',
    decreases n,
{
    lemma_digit_char(n % 10);
    if n < 10 {
        assert(decimal(n).drop_last() =~= Seq::<char>::empty());
        assert(digits_value(Seq::<char>::empty()) == 0);
        assert(digits_value(decimal(n)) == digits_value(decimal(n).drop_last()) * 10 + ((decimal(n).last() as int - '0' as int) as nat));
    }
    if n >= 10 {
        lemma_decimal_digits(n / 10);
        let s = decimal(n);
        assert(s.last() == digit_char(n % 10));
        assert(s.drop_last() =~= decimal(n / 10));
        assert(digits_value(s) == digits_value(s.drop_last()) * 10 + ((s.last() as int - '0' as int) as nat));
        assert(digits_value(s) == (n / 10) * 10 + (n % 10));
        assert((n / 10) * 10 + n % 10 == n);
        assert forall|i: int| 0 <= i < s.len() implies is_digit(#[trigger] s[i]) by {
            if i < s.len() - 1 {
                assert(s[i] == decimal(n / 10)[i]);
            }
        }
    }
}

/// Reading back a `u16` written in decimal gives the same number.
pub proof fn lemma_u16_decimal_round_trip(n: u16)
    ensures
        u16_from_text(decimal(n as nat)) == Some(n),
{
    lemma_decimal_digits(n as nat);
}

/// The decimal numeral of `n` (`u16::to_string`).
pub fn u16_to_string(n: u16) -> (s: String)
    ensures
        s@ == decimal(n as nat),
{
    let mut rev: Vec<char> = Vec::new();
    let mut m: u16 = n;
    loop
        invariant
            decimal(n as nat) == decimal(m as nat) + rev@.reverse(),
        decreases m,
    {
        let d: u16 = m % 10;
        let c: char = if d == 0 { '0' } else if d == 1 { '1' } else if d == 2 { '2' }
            else if d == 3 { '3' } else if d == 4 { '4' } else if d == 5 { '5' }
            else if d == 6 { '6' } else if d == 7 { '7' } else if d == 8 { '8' } else { '9' };
        assert(c == digit_char(d as nat));
        let ghost old_rev = rev@;
        rev.push(c);
        assert(rev@.reverse() =~= seq![c] + old_rev.reverse());
        if m < 10 {
            assert(decimal(m as nat) =~= seq![c]);
            let mut out: Vec<char> = Vec::new();
            let mut k: usize = rev.len();
            while k > 0
                invariant
                    k <= rev.len(),
                    out@ == rev@.reverse().subrange(0, (rev.len() - k) as int),
                decreases k,
            {
                k = k - 1;
                out.push(rev[k]);
                assert(out@ =~= rev@.reverse().subrange(0, (rev.len() - k) as int));
            }
            assert(out@ =~= rev@.reverse());
            assert(decimal(n as nat) =~= rev@.reverse());
            return string_from_chars(&out);
        }
        assert(decimal(m as nat) == decimal((m / 10) as nat).push(c));
        assert(decimal(m as nat) + old_rev.reverse() =~= decimal((m / 10) as nat) + (seq![c] + old_rev.reverse()));
        m = m / 10;
    }
}

} // verus!
