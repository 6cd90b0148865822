//! Text primitives: character sequences, decimal numerals and substring search.
//!
//! Strings are modelled by their views, `Seq<char>`. Every function here states its result
//! over that model.

use crate::seqs::{first_where, lemma_first_where_is};
use vstd::prelude::*;
use vstd::std_specs::iter::IteratorSpec;

verus! {

/// The characters of a string slice, in order.
pub fn chars_of(s: &str) -> (v: Vec<char>)
    ensures
        v@ == s@,
{
    let mut v: Vec<char> = Vec::new();
    for c in it: s.chars()
        invariant
            v@ == it.seq().take(it.index() as int),
            it.seq() == s@,
    {
        v.push(c);
    }
    v
}

/// The view of a text that may be absent.
pub open spec fn text_view(t: Option<String>) -> Option<Seq<char>> {
    match t {
        Some(s) => Some(s@),
        None => None,
    }
}

/// Trusted: `String::push` of the standard library, which appends one character to the end
/// of the string and leaves what was there before in place.
#[verifier::external_body]
fn push_char(s: &mut String, c: char)
    ensures
        final(s)@ == old(s)@.push(c),
{
    s.push(c)
}

/// The string made of the given characters, in order.
pub fn string_of(v: &Vec<char>) -> (s: String)
    ensures
        s@ == v@,
{
    let mut s = String::new();
    let mut i: usize = 0;
    while i < v.len()
        invariant
            i <= v.len(),
            s@ == v@.take(i as int),
        decreases v.len() - i,
    {
        push_char(&mut s, v[i]);
        i += 1;
        assert(v@.take(i as int) == v@.take(i - 1).push(v@[i - 1]));
    }
    s
}

/// Whether two character vectors hold the same text.
pub fn same_chars(a: &Vec<char>, b: &Vec<char>) -> (r: bool)
    ensures
        r == (a@ == b@),
{
    if a.len() != b.len() {
        return false;
    }
    let mut i: usize = 0;
    while i < a.len()
        invariant
            i <= a.len(),
            a.len() == b.len(),
            a@.take(i as int) == b@.take(i as int),
        decreases a.len() - i,
    {
        if a[i] != b[i] {
            return false;
        }
        i += 1;
        assert(a@.take(i as int) == a@.take(i - 1).push(a@[i - 1]));
        assert(b@.take(i as int) == b@.take(i - 1).push(b@[i - 1]));
    }
    assert(a@.take(a.len() as int) == a@);
    assert(b@.take(b.len() as int) == b@);
    true
}

/// Whether two string slices hold the same text.
pub fn same_text(a: &str, b: &str) -> (r: bool)
    ensures
        r == (a@ == b@),
{
    let x = chars_of(a);
    let y = chars_of(b);
    same_chars(&x, &y)
}

/// `needle` occurs in `hay` starting at position `at`.
pub open spec fn occurs_at(hay: Seq<char>, needle: Seq<char>, at: int) -> bool {
    0 <= at && at + needle.len() <= hay.len() && hay.subrange(at, at + needle.len()) == needle
}

/// `needle` occurs somewhere in `hay`. The empty text occurs in every text.
pub open spec fn has_subseq(hay: Seq<char>, needle: Seq<char>) -> bool {
    exists|at: int| occurs_at(hay, needle, at)
}

/// Whether `needle` occurs in `hay` at position `at`.
pub fn matches_at(hay: &Vec<char>, needle: &Vec<char>, at: usize) -> (r: bool)
    ensures
        r == occurs_at(hay@, needle@, at as int),
{
    if at > hay.len() || needle.len() > hay.len() - at {
        return false;
    }
    let mut j: usize = 0;
    while j < needle.len()
        invariant
            j <= needle.len(),
            at + needle.len() <= hay.len(),
            hay@.subrange(at as int, at + j) == needle@.take(j as int),
        decreases needle.len() - j,
    {
        if hay[at + j] != needle[j] {
            assert(hay@.subrange(at as int, at + needle.len())[j as int] == hay@[at + j]);
            return false;
        }
        j += 1;
        assert(hay@.subrange(at as int, at + j) == hay@.subrange(at as int, at + j - 1).push(
            hay@[at + j - 1],
        ));
        assert(needle@.take(j as int) == needle@.take(j - 1).push(needle@[j - 1]));
    }
    assert(needle@.take(needle.len() as int) == needle@);
    true
}

/// Whether `needle` occurs in `hay`.
pub fn contains_chars(hay: &Vec<char>, needle: &Vec<char>) -> (r: bool)
    ensures
        r == has_subseq(hay@, needle@),
{
    let mut at: usize = 0;
    loop
        invariant
            at <= hay.len(),
            forall|k: int| 0 <= k < at ==> !occurs_at(hay@, needle@, k),
        decreases hay.len() - at,
    {
        if matches_at(hay, needle, at) {
            return true;
        }
        if at == hay.len() {
            return false;
        }
        at += 1;
    }
}

/// Whether the text `needle` occurs in the text `hay`.
pub fn contains_text(hay: &str, needle: &str) -> (r: bool)
    ensures
        r == has_subseq(hay@, needle@),
{
    let h = chars_of(hay);
    let n = chars_of(needle);
    contains_chars(&h, &n)
}

/// An ASCII decimal digit.
pub open spec fn is_digit(c: char) -> bool {
    '0' <= c <= '9'
}

/// The number that a decimal digit stands for.
pub open spec fn digit_of(c: char) -> nat {
    (c as u32 - 48) as nat
}

/// The digit that stands for a number below ten.
pub open spec fn digit_char(d: nat) -> char {
    ((d + 48) as u8) as char
}

/// Every character is a decimal digit.
pub open spec fn all_digits(s: Seq<char>) -> bool {
    forall|i: int| 0 <= i < s.len() ==> is_digit(#[trigger] s[i])
}

/// The number written by a run of decimal digits, most significant first. The empty run
/// writes zero.
pub open spec fn digits_value(s: Seq<char>) -> nat
    decreases s.len(),
{
    if s.len() == 0 {
        0
    } else {
        digits_value(s.drop_last()) * 10 + digit_of(s.last())
    }
}

/// The decimal numeral of a number, without leading zeros.
pub open spec fn decimal_text(n: nat) -> Seq<char>
    decreases n,
{
    if n < 10 {
        seq![digit_char(n)]
    } else {
        decimal_text(n / 10).push(digit_char(n % 10))
    }
}

/// A numeral is made of digits and writes the number it was made from.
pub proof fn lemma_decimal_text_value(n: nat)
    ensures
        decimal_text(n).len() >= 1,
        all_digits(decimal_text(n)),
        digits_value(decimal_text(n)) == n,
    decreases n,
{
    if n < 10 {
        let s = decimal_text(n);
        assert(s.drop_last() == Seq::<char>::empty());
        assert(digits_value(s.drop_last()) == 0);
    } else {
        lemma_decimal_text_value(n / 10);
        let s = decimal_text(n);
        assert(s.drop_last() == decimal_text(n / 10));
    }
}

/// Appends the decimal numeral of `n` to `out`.
pub fn push_decimal(out: &mut Vec<char>, n: u64)
    ensures
        final(out)@ == old(out)@ + decimal_text(n as nat),
    decreases n,
{
    if n >= 10 {
        push_decimal(out, n / 10);
    }
    let d: u8 = (n % 10) as u8;
    out.push((d + 48) as char);
    assert(old(out)@ + decimal_text(n as nat) == out@);
}

/// The decimal numeral of `n` as a string.
pub fn decimal_string(n: u64) -> (s: String)
    ensures
        s@ == decimal_text(n as nat),
{
    let mut v: Vec<char> = Vec::new();
    push_decimal(&mut v, n);
    string_of(&v)
}

/// The text without one leading plus sign, if it has one.
pub open spec fn without_plus(s: Seq<char>) -> Seq<char> {
    if s.len() > 0 && s[0] == '+' {
        s.subrange(1, s.len() as int)
    } else {
        s
    }
}

/// The number that a text writes in decimal, if it is a numeral of a number up to `max`:
/// an optional plus sign, then at least one digit and nothing else.
pub open spec fn parsed_unsigned(s: Seq<char>, max: nat) -> Option<nat> {
    let d = without_plus(s);
    if d.len() > 0 && all_digits(d) && digits_value(d) <= max {
        Some(digits_value(d))
    } else {
        None
    }
}

/// Reading a numeral gives back the number that it was written for.
pub proof fn lemma_numeral_reads_back(n: nat, max: nat)
    requires
        n <= max,
    ensures
        parsed_unsigned(decimal_text(n), max) == Some(n),
{
    lemma_decimal_text_value(n);
    assert(is_digit(decimal_text(n)[0]));
}

/// A run of digits writes at least as much as any of its prefixes.
pub proof fn lemma_digits_value_prefix(s: Seq<char>, k: int)
    requires
        0 <= k <= s.len(),
    ensures
        digits_value(s.take(k)) <= digits_value(s),
    decreases s.len(),
{
    if k == s.len() {
        assert(s.take(k) == s);
    } else {
        lemma_digits_value_prefix(s.drop_last(), k);
        assert(s.drop_last().take(k) == s.take(k));
    }
}

/// The number written by the digits of `v` from `from` on, if they are digits and the
/// number is at most `max`.
pub fn parse_digits(v: &Vec<char>, from: usize, max: u64) -> (r: Option<u64>)
    requires
        from <= v.len(),
    ensures
        r is Some <==> all_digits(v@.skip(from as int)) && digits_value(v@.skip(from as int))
            <= max,
        r is Some ==> r->0 == digits_value(v@.skip(from as int)),
{
    let ghost s = v@.skip(from as int);
    let mut acc: u64 = 0;
    let mut i: usize = from;
    assert(s.take(0) == Seq::<char>::empty());
    while i < v.len()
        invariant
            from <= i <= v.len(),
            s == v@.skip(from as int),
            all_digits(s.take(i - from)),
            acc == digits_value(s.take(i - from)),
            acc <= max,
        decreases v.len() - i,
    {
        let c = v[i];
        assert(s[i - from] == c);
        if !(c >= '0' && c <= '9') {
            return None;
        }
        let d: u64 = (c as u32 - 48) as u64;
        let ghost next = s.take(i - from + 1);
        assert(next.drop_last() == s.take(i - from));
        assert(next.last() == c);
        assert(digits_value(next) == acc * 10 + d);
        if d > max || acc > (max - d) / 10 {
            proof {
                lemma_digits_value_prefix(s, i - from + 1);
            }
            return None;
        }
        acc = acc * 10 + d;
        i += 1;
    }
    assert(s.take(i - from) == s);
    Some(acc)
}

/// Reads a decimal numeral of a number up to `max`.
pub fn parse_unsigned(s: &str, max: u64) -> (r: Option<u64>)
    ensures
        r is Some <==> parsed_unsigned(s@, max as nat) is Some,
        r is Some ==> r->0 == parsed_unsigned(s@, max as nat)->0,
{
    let v = chars_of(s);
    let from: usize = if v.len() > 0 && v[0] == '+' {
        1
    } else {
        0
    };
    assert(v@.skip(from as int) == without_plus(s@));
    if from == v.len() {
        return None;
    }
    parse_digits(&v, from, max)
}

/// What holds of the character `c` and of no other.
pub open spec fn is_char(c: char) -> spec_fn(char) -> bool {
    |x: char| x == c
}

/// The position of the first `c` in the text, or the text's length where it has none.
pub open spec fn first_index(s: Seq<char>, c: char) -> int {
    first_where(s, is_char(c))
}

/// The first `c` is where `c` stands with no `c` before it.
pub proof fn lemma_first_index(s: Seq<char>, c: char, at: int)
    requires
        0 <= at <= s.len(),
        forall|k: int| 0 <= k < at ==> s[k] != c,
        at < s.len() ==> s[at] == c,
    ensures
        first_index(s, c) == at,
{
    lemma_first_where_is(s, is_char(c), at);
}

/// The position of the first `c` in `v`, or the length of `v` where it has none.
pub fn find_char(v: &Vec<char>, c: char) -> (at: usize)
    ensures
        at == first_index(v@, c),
        at <= v.len(),
        forall|k: int| 0 <= k < at ==> v@[k] != c,
        at < v.len() ==> v@[at as int] == c,
{
    let mut at: usize = 0;
    while at < v.len() && v[at] != c
        invariant
            at <= v.len(),
            forall|k: int| 0 <= k < at ==> v@[k] != c,
        decreases v.len() - at,
    {
        at += 1;
    }
    proof {
        lemma_first_index(v@, c, at as int);
    }
    at
}

/// The parts of a text before and after its first `separator`; none where it has none.
pub open spec fn split_at_first(s: Seq<char>, separator: char) -> Option<(Seq<char>, Seq<char>)> {
    let at = first_index(s, separator);
    if at < s.len() {
        Some((s.take(at), s.skip(at + 1)))
    } else {
        None
    }
}

/// The characters of `v` from `from` up to `to`.
pub fn slice_of(v: &Vec<char>, from: usize, to: usize) -> (r: Vec<char>)
    requires
        from <= to <= v.len(),
    ensures
        r@ == v@.subrange(from as int, to as int),
{
    let mut r: Vec<char> = Vec::new();
    let mut i: usize = from;
    while i < to
        invariant
            from <= i <= to <= v.len(),
            r@ == v@.subrange(from as int, i as int),
        decreases to - i,
    {
        r.push(v[i]);
        i += 1;
        assert(v@.subrange(from as int, i as int) == v@.subrange(from as int, i - 1).push(
            v@[i - 1],
        ));
    }
    r
}

/// Splits a text at its first `separator`.
pub fn split_once(s: &str, separator: char) -> (r: Option<(String, String)>)
    ensures
        match split_at_first(s@, separator) {
            Some(parts) => r matches Some(got) && got.0@ == parts.0 && got.1@ == parts.1,
            None => r is None,
        },
{
    let v = chars_of(s);
    let at = find_char(&v, separator);
    if at >= v.len() {
        return None;
    }
    let head = slice_of(&v, 0, at);
    let tail = slice_of(&v, at + 1, v.len());
    assert(head@ == v@.take(at as int));
    assert(tail@ == v@.skip(at + 1));
    Some((string_of(&head), string_of(&tail)))
}

/// The first `places` digits of a fraction, with zeros where the fraction is shorter.
pub open spec fn padded(frac: Seq<char>, places: nat) -> Seq<char> {
    Seq::new(
        places,
        |i: int|
            if i < frac.len() {
                frac[i]
            } else {
                '0'
            },
    )
}

/// What stands before the first point of a decimal text.
pub open spec fn whole_part(s: Seq<char>) -> Seq<char> {
    s.take(first_index(s, '.'))
}

/// What stands after the first point of a decimal text; nothing where it has no point.
pub open spec fn fraction_part(s: Seq<char>) -> Seq<char> {
    if first_index(s, '.') < s.len() {
        s.skip(first_index(s, '.') + 1)
    } else {
        Seq::empty()
    }
}

/// A plain decimal number: digits, with at most one point among them, and at least one
/// digit. No sign and no exponent.
pub open spec fn is_decimal(s: Seq<char>) -> bool {
    all_digits(whole_part(s)) && all_digits(fraction_part(s)) && whole_part(s).len()
        + fraction_part(s).len() > 0
}

/// The number that a plain decimal text writes, in units of ten to the minus `places`,
/// rounded down: the whole part's digits followed by the first `places` of the fraction.
pub open spec fn fixed_point(s: Seq<char>, places: nat) -> nat {
    digits_value(whole_part(s) + padded(fraction_part(s), places))
}

/// Whether the characters of `v` from `from` on are all digits.
pub fn digits_from(v: &Vec<char>, from: usize) -> (r: bool)
    requires
        from <= v.len(),
    ensures
        r == all_digits(v@.skip(from as int)),
{
    let mut i: usize = from;
    while i < v.len()
        invariant
            from <= i <= v.len(),
            forall|k: int| from <= k < i ==> is_digit(v@[k]),
        decreases v.len() - i,
    {
        let c = v[i];
        if !(c >= '0' && c <= '9') {
            assert(v@.skip(from as int)[i - from] == c);
            return false;
        }
        i += 1;
    }
    true
}

/// Reads a plain decimal number as a whole number of units of ten to the minus `places`.
/// A text that is no plain decimal, or whose number does not fit, gives `None`.
pub fn parse_fixed(s: &str, places: u8) -> (r: Option<u64>)
    ensures
        r is Some <==> is_decimal(s@) && fixed_point(s@, places as nat) <= u64::MAX,
        r is Some ==> r->0 == fixed_point(s@, places as nat),
{
    let v = chars_of(s);
    let dot = find_char(&v, '.');
    let ghost whole = whole_part(s@);
    let ghost frac = fraction_part(s@);
    let frac_from: usize = if dot < v.len() {
        dot + 1
    } else {
        dot
    };
    assert(frac == v@.skip(frac_from as int));
    if !digits_from(&v, frac_from) {
        return None;
    }
    if dot + (v.len() - frac_from) == 0 {
        return None;
    }
    let mut digits = slice_of(&v, 0, dot);
    assert(digits@ =~= whole + padded(frac, 0));
    let mut k: u8 = 0;
    while k < places
        invariant
            k <= places,
            frac_from <= v.len(),
            frac == v@.skip(frac_from as int),
            digits@ == whole + padded(frac, k as nat),
        decreases places - k,
    {
        let c = if (k as usize) < v.len() - frac_from {
            v[frac_from + k as usize]
        } else {
            '0'
        };
        digits.push(c);
        k += 1;
        assert(digits@ =~= whole + padded(frac, k as nat));
    }
    let ghost all = whole + padded(frac, places as nat);
    assert(digits@.skip(0) == digits@);
    proof {
        if all_digits(whole) {
            assert forall|j: int| 0 <= j < all.len() implies is_digit(#[trigger] all[j]) by {
                if j < whole.len() {
                    assert(all[j] == whole[j]);
                } else if j - whole.len() < frac.len() {
                    assert(all[j] == frac[j - whole.len()]);
                }
            }
        } else {
            let j = choose|j: int| 0 <= j < whole.len() && !is_digit(#[trigger] whole[j]);
            assert(all[j] == whole[j]);
        }
    }
    parse_digits(&digits, 0, u64::MAX)
}

} // verus!
