//! Character-level text building: digits in base ten and sixteen, and a
//! `String` grown one character at a time.

use vstd::prelude::*;

verus! {

/// The lowercase digit for `d`, for `d < 16`.
pub open spec fn digit_char(d: nat) -> char {
    if d == 0 { '0' }
    else if d == 1 { '1' }
    else if d == 2 { '2' }
    else if d == 3 { '3' }
    else if d == 4 { '4' }
    else if d == 5 { '5' }
    else if d == 6 { '6' }
    else if d == 7 { '7' }
    else if d == 8 { '8' }
    else if d == 9 { '9' }
    else if d == 10 { 'a' }
    else if d == 11 { 'b' }
    else if d == 12 { 'c' }
    else if d == 13 { 'd' }
    else if d == 14 { 'e' }
    else { 'f' }
}

/// The digits of `n` in base `radix`, most significant first, with no
/// leading zeros (`0` is the single digit `0`).
pub open spec fn radix_digits(n: nat, radix: nat) -> Seq<char>
    recommends
        2 <= radix <= 16,
    decreases n,
{
    if radix < 2 || n < radix {
        seq![digit_char(n)]
    } else {
        proof {
            assert(n / radix < n) by (nonlinear_arith)
                requires
                    n >= radix,
                    radix >= 2,
            ;
        }
        radix_digits(n / radix, radix).push(digit_char(n % radix))
    }
}

/// What `{}` prints for an unsigned integer.
pub open spec fn decimal_text(n: nat) -> Seq<char> {
    radix_digits(n, 10)
}

/// What `{:#x}` prints for an unsigned integer.
pub open spec fn hex_text(n: nat) -> Seq<char> {
    seq!['0', 'x'] + radix_digits(n, 16)
}

fn digit(d: u32) -> (c: char)
    requires
        d < 16,
    ensures
        c == digit_char(d as nat),
{
    if d == 0 { '0' }
    else if d == 1 { '1' }
    else if d == 2 { '2' }
    else if d == 3 { '3' }
    else if d == 4 { '4' }
    else if d == 5 { '5' }
    else if d == 6 { '6' }
    else if d == 7 { '7' }
    else if d == 8 { '8' }
    else if d == 9 { '9' }
    else if d == 10 { 'a' }
    else if d == 11 { 'b' }
    else if d == 12 { 'c' }
    else if d == 13 { 'd' }
    else if d == 14 { 'e' }
    else { 'f' }
}

/// Appends one character (`String::push`).
#[verifier::external_body]
pub(crate) fn push_char(s: &mut String, c: char)
    ensures
        final(s)@ == old(s)@.push(c),
{
    s.push(c);
}

/// Appends the digits of `n` in base `radix`.
pub(crate) fn push_digits(s: &mut String, n: u32, radix: u32)
    requires
        2 <= radix <= 16,
    ensures
        final(s)@ == old(s)@ + radix_digits(n as nat, radix as nat),
    decreases n,
{
    let ghost start = s@;
    if n >= radix {
        assert(n / radix < n) by (nonlinear_arith)
            requires
                n >= radix,
                radix >= 2,
        ;
        push_digits(s, n / radix, radix);
    }
    if n < radix {
        assert(n % radix == n) by (nonlinear_arith)
            requires
                n < radix,
        ;
    }
    push_char(s, digit(n % radix));
    assert(s@ =~= start + radix_digits(n as nat, radix as nat));
}

/// Appends `n` as `{}` prints it.
pub(crate) fn push_decimal(s: &mut String, n: u32)
    ensures
        final(s)@ == old(s)@ + decimal_text(n as nat),
{
    push_digits(s, n, 10);
}

/// Appends `n` as `{:#x}` prints it.
pub(crate) fn push_hex(s: &mut String, n: u32)
    ensures
        final(s)@ == old(s)@ + hex_text(n as nat),
{
    push_char(s, '0');
    push_char(s, 'x');
    push_digits(s, n, 16);
    assert(final(s)@ =~= old(s)@ + hex_text(n as nat));
}


/// The characters of `s`, in order.
pub(crate) fn chars_of(s: &str) -> (v: Vec<char>)
    ensures
        v@ == s@,
{
    let mut v: Vec<char> = Vec::new();
    for c in it: s.chars()
        invariant
            v@ == it.seq().take(it.index() as int),
    {
        v.push(c);
    }
    v
}


/// True when `a` and `b` hold the same characters.
pub(crate) fn chars_equal(a: &[char], b: &[char]) -> (r: bool)
    ensures
        r == (a@ == b@),
{
    if a.len() != b.len() {
        return false;
    }
    let mut i: usize = 0;
    while i < a.len()
        invariant
            a@.len() == b@.len(),
            i <= a@.len(),
            a@.take(i as int) == b@.take(i as int),
        decreases a@.len() - i,
    {
        if a[i] != b[i] {
            assert(a@.take(i as int + 1)[i as int] != b@.take(i as int + 1)[i as int]);
            assert(a@ != b@) by {
                if a@ == b@ {
                    assert(a@[i as int] == b@[i as int]);
                }
            }
            return false;
        }
        assert(a@.take(i as int + 1) =~= a@.take(i as int).push(a@[i as int]));
        assert(b@.take(i as int + 1) =~= b@.take(i as int).push(b@[i as int]));
        i = i + 1;
    }
    assert(a@ =~= a@.take(i as int));
    assert(b@ =~= b@.take(i as int));
    true
}

/// True when the characters of `p` stand in `a` from position `start` on.
pub(crate) fn matches_at(a: &[char], start: usize, p: &[char]) -> (r: bool)
    ensures
        r == (start + p@.len() <= a@.len() && a@.subrange(start as int, start + p@.len()) == p@),
{
    if start > a.len() || p.len() > a.len() - start {
        return false;
    }
    let mut i: usize = 0;
    while i < p.len()
        invariant
            start + p@.len() <= a@.len(),
            a@.len() == a.len(),
            i <= p@.len(),
            a@.subrange(start as int, start + i) == p@.take(i as int),
        decreases p@.len() - i,
    {
        if a[start + i] != p[i] {
            assert(a@.subrange(start as int, start + p@.len())[i as int] != p@[i as int]);
            return false;
        }
        assert(a@.subrange(start as int, start + i + 1) =~= a@.subrange(start as int, start + i).push(
            a@[start + i],
        ));
        assert(p@.take(i as int + 1) =~= p@.take(i as int).push(p@[i as int]));
        i = i + 1;
    }
    assert(p@ =~= p@.take(i as int));
    true
}

/// A `String` holding the characters of `v` from `from` up to `to`.
pub(crate) fn string_of(v: &[char], from: usize, to: usize) -> (s: String)
    requires
        from <= to <= v@.len(),
    ensures
        s@ == v@.subrange(from as int, to as int),
{
    let mut s = String::new();
    let mut i: usize = from;
    while i < to
        invariant
            from <= i <= to <= v@.len(),
            s@ == v@.subrange(from as int, i as int),
        decreases to - i,
    {
        push_char(&mut s, v[i]);
        assert(v@.subrange(from as int, i + 1) =~= v@.subrange(from as int, i as int).push(
            v@[i as int],
        ));
        i = i + 1;
    }
    s
}

/// What `char::to_ascii_uppercase` gives: ASCII lowercase letters become
/// uppercase, every other character stays.
pub open spec fn ascii_upper(c: char) -> char {
    if 'a' <= c <= 'z' {
        ((c as u32) - 32) as char
    } else {
        c
    }
}

/// What `char::to_ascii_lowercase` gives: ASCII uppercase letters become
/// lowercase, every other character stays.
pub open spec fn ascii_lower(c: char) -> char {
    if 'A' <= c <= 'Z' {
        ((c as u32) + 32) as char
    } else {
        c
    }
}

pub(crate) fn to_ascii_upper(c: char) -> (r: char)
    ensures
        r == ascii_upper(c),
{
    if 'a' <= c && c <= 'z' {
        let b: u8 = c as u8;
        (b - 32) as char
    } else {
        c
    }
}

pub(crate) fn to_ascii_lower(c: char) -> (r: char)
    ensures
        r == ascii_lower(c),
{
    if 'A' <= c && c <= 'Z' {
        let b: u8 = c as u8;
        (b + 32) as char
    } else {
        c
    }
}

/// Whether `c` has the Unicode `Alphabetic` property.
pub uninterp spec fn char_is_alphabetic(c: char) -> bool;

/// Whether `c` has the Unicode `Uppercase` property.
pub uninterp spec fn char_is_uppercase(c: char) -> bool;

/// `char::is_alphabetic`. Its result is named `char_is_alphabetic(c)`; of it
/// the contract states only what the Unicode tables give for ASCII: exactly
/// the letters `a`..`z` and `A`..`Z` are alphabetic.
#[verifier::external_body]
pub(crate) fn is_alphabetic(c: char) -> (r: bool)
    ensures
        r == char_is_alphabetic(c),
        (c as u32) < 128 ==> (r <==> ('a' <= c <= 'z' || 'A' <= c <= 'Z')),
{
    c.is_alphabetic()
}

/// `char::is_uppercase`. Its result is named `char_is_uppercase(c)`; of it
/// the contract states only what the Unicode tables give for ASCII: exactly
/// the letters `A`..`Z` are uppercase.
#[verifier::external_body]
pub(crate) fn is_uppercase(c: char) -> (r: bool)
    ensures
        r == char_is_uppercase(c),
        (c as u32) < 128 ==> (r <==> 'A' <= c <= 'Z'),
{
    c.is_uppercase()
}


/// The digits of a number are at least one character long, at least two
/// for a number not below the radix, and hold no `|`.
pub(crate) proof fn lemma_radix_digits_shape(n: nat, radix: nat)
    requires
        2 <= radix <= 16,
    ensures
        radix_digits(n, radix).len() >= 1,
        n >= radix ==> radix_digits(n, radix).len() >= 2,
        forall|i: int| 0 <= i < radix_digits(n, radix).len() ==> #[trigger] radix_digits(n, radix)[i] != '|',
    decreases n,
{
    if n >= radix {
        assert(n / radix < n) by (nonlinear_arith)
            requires
                n >= radix,
                radix >= 2,
        ;
        lemma_radix_digits_shape(n / radix, radix);
    }
}

/// Two numbers with the same digits in one radix are the same number.
pub(crate) proof fn lemma_radix_digits_injective(n: nat, m: nat, radix: nat)
    requires
        2 <= radix <= 16,
        radix_digits(n, radix) == radix_digits(m, radix),
    ensures
        n == m,
    decreases n,
{
    lemma_radix_digits_shape(n, radix);
    lemma_radix_digits_shape(m, radix);
    let dn = radix_digits(n, radix);
    let dm = radix_digits(m, radix);
    if n < radix && m < radix {
        assert(dn[0] == dm[0]);
    } else if n >= radix && m >= radix {
        assert(n / radix < n) by (nonlinear_arith)
            requires
                n >= radix,
                radix >= 2,
        ;
        assert(dn.drop_last() =~= radix_digits(n / radix, radix));
        assert(dm.drop_last() =~= radix_digits(m / radix, radix));
        lemma_radix_digits_injective(n / radix, m / radix, radix);
        assert(dn.last() == dm.last());
        assert(n % radix < 16 && m % radix < 16) by (nonlinear_arith)
            requires
                radix <= 16,
                radix >= 2,
        ;
        assert(n % radix == m % radix);
        assert(n == radix * (n / radix) + n % radix && m == radix * (m / radix) + m % radix)
            by (nonlinear_arith)
            requires
                radix >= 2,
        ;
    } else {
        assert(dn.len() != dm.len());
    }
}


/// The number a digit character stands for: `0`..`9`, then `a`..`f` for ten
/// to fifteen.
pub open spec fn digit_value(c: char) -> int {
    if '0' <= c <= '9' {
        c as int - '0' as int
    } else {
        c as int - 'a' as int + 10
    }
}

/// The number that the digits `s`, most significant first, stand for.
pub open spec fn digits_value(s: Seq<char>, radix: nat) -> int
    decreases s.len(),
{
    if s.len() == 0 {
        0
    } else {
        digits_value(s.drop_last(), radix) * radix + digit_value(s.last())
    }
}

proof fn lemma_digit_char_value(d: nat)
    requires
        d < 16,
    ensures
        digit_value(digit_char(d)) == d,
        '0' <= digit_char(d) <= '9' || 'a' <= digit_char(d) <= 'f',
        digit_char(d) == '0' ==> d == 0,
{
}

/// The digits of `n` in base `radix` are its canonical numeral: each one is
/// `0`..`9` or `a`..`f` and below the radix, together they stand for `n`,
/// and only the numeral of zero starts with `0`.
pub proof fn law_radix_digits_numeral(n: nat, radix: nat)
    requires
        2 <= radix <= 16,
    ensures
        digits_value(radix_digits(n, radix), radix) == n,
        forall|i: int|
            0 <= i < radix_digits(n, radix).len() ==> {
                let c = #[trigger] radix_digits(n, radix)[i];
                &&& ('0' <= c <= '9' || 'a' <= c <= 'f')
                &&& 0 <= digit_value(c) < radix
            },
        radix_digits(n, radix)[0] == '0' ==> n == 0,
    decreases n,
{
    lemma_radix_digits_shape(n, radix);
    if n < radix {
        lemma_digit_char_value(n);
        let d = radix_digits(n, radix);
        assert(d.drop_last() =~= Seq::<char>::empty());
        assert(digits_value(d, radix) == digits_value(d.drop_last(), radix) * radix + digit_value(
            d.last(),
        ));
        assert(digits_value(d.drop_last(), radix) == 0);
    } else {
        assert(n / radix < n) by (nonlinear_arith)
            requires
                n >= radix,
                radix >= 2,
        ;
        law_radix_digits_numeral(n / radix, radix);
        lemma_radix_digits_shape(n / radix, radix);
        let d = radix_digits(n, radix);
        assert(d.drop_last() =~= radix_digits(n / radix, radix));
        assert(n % radix < radix) by (nonlinear_arith)
            requires
                radix >= 2,
        ;
        assert(n == (n / radix) * radix + n % radix) by (nonlinear_arith)
            requires
                radix >= 2,
        ;
        assert(n / radix >= 1) by (nonlinear_arith)
            requires
                n >= radix,
                radix >= 2,
        ;
        assert(d[0] == radix_digits(n / radix, radix)[0]);
        lemma_digit_char_value(n % radix);
        assert(d.last() == digit_char(n % radix));
        assert(digits_value(d, radix) == digits_value(d.drop_last(), radix) * radix + digit_value(
            d.last(),
        ));
        assert forall|i: int| 0 <= i < d.len() implies {
            let c = #[trigger] d[i];
            &&& ('0' <= c <= '9' || 'a' <= c <= 'f')
            &&& 0 <= digit_value(c) < radix
        } by {
            if i < d.len() - 1 {
                assert(d[i] == radix_digits(n / radix, radix)[i]);
            }
        }
    }
}

} // verus!
