//! Numbers as text: the digits of a number in hexadecimal and in decimal, and
//! the few calls into std's strings for which the prover has no specification.

use vstd::prelude::*;

verus! {

/// The character for a digit below 16: `0` to `9`, then `a` to `f`.
pub open spec fn digit_char(d: int) -> char
    recommends
        0 <= d < 16,
{
    if d < 10 {
        (48 + d) as char
    } else {
        (97 + d - 10) as char
    }
}

/// The digits of `v` in hexadecimal, in lower case, most significant first,
/// without leading zeros; the single digit `0` for 0.
pub open spec fn hex_digits(v: nat) -> Seq<char>
    decreases v,
{
    if v < 16 {
        seq![digit_char(v as int)]
    } else {
        hex_digits(v / 16).push(digit_char((v % 16) as int))
    }
}

/// Whether a character is a digit in hexadecimal, in lower case.
pub open spec fn is_hex_digit(c: char) -> bool {
    ('0' <= c && c <= '9') || ('a' <= c && c <= 'f')
}

/// The digits of a number in hexadecimal are digits, and there is one at
/// least.
pub proof fn lemma_hex_digits_chars(v: nat)
    ensures
        hex_digits(v).len() >= 1,
        forall|i: int| 0 <= i < hex_digits(v).len() ==> is_hex_digit(#[trigger] hex_digits(v)[i]),
    decreases v,
{
    if v >= 16 {
        lemma_hex_digits_chars(v / 16);
    }
}

/// A number of 32 bits has eight digits in hexadecimal at most.
pub proof fn lemma_hex_digits_short(v: nat)
    requires
        v <= u32::MAX,
    ensures
        hex_digits(v).len() <= 8,
{
    reveal_with_fuel(hex_digits, 9);
}

/// The digits of `v` in decimal, most significant first, without leading
/// zeros; the single digit `0` for 0.
pub open spec fn decimal_digits(v: nat) -> Seq<char>
    decreases v,
{
    if v < 10 {
        seq![digit_char(v as int)]
    } else {
        decimal_digits(v / 10).push(digit_char((v % 10) as int))
    }
}

/// `String::push`: appends one character.
#[verifier::external_body]
pub(crate) fn push_char(s: &mut String, c: char)
    ensures
        final(s)@ == old(s)@.push(c),
{
    s.push(c)
}

fn digit(d: u8) -> (c: char)
    requires
        d < 16,
    ensures
        c == digit_char(d as int),
{
    if d < 10 {
        (48u8 + d) as char
    } else {
        (97u8 + (d - 10)) as char
    }
}

/// Appends the digits of `v` in hexadecimal to `out`.
pub fn push_hex(out: &mut String, v: u64)
    ensures
        final(out)@ == old(out)@ + hex_digits(v as nat),
    decreases v,
{
    if v < 16 {
        push_char(out, digit(v as u8));
        assert(final(out)@ =~= old(out)@ + hex_digits(v as nat));
    } else {
        push_hex(out, v / 16);
        push_char(out, digit((v % 16) as u8));
        assert(final(out)@ =~= old(out)@ + hex_digits(v as nat));
    }
}

/// Appends the digits of `v` in decimal to `out`.
pub fn push_decimal(out: &mut String, v: u64)
    ensures
        final(out)@ == old(out)@ + decimal_digits(v as nat),
    decreases v,
{
    if v < 10 {
        push_char(out, digit(v as u8));
        assert(final(out)@ =~= old(out)@ + decimal_digits(v as nat));
    } else {
        push_decimal(out, v / 10);
        push_char(out, digit((v % 10) as u8));
        assert(final(out)@ =~= old(out)@ + decimal_digits(v as nat));
    }
}

/// A number has at least one hexadecimal digit.
pub proof fn lemma_hex_digits_len(v: nat)
    ensures
        hex_digits(v).len() >= 1,
        v < 16 ==> hex_digits(v).len() == 1,
        v >= 16 ==> hex_digits(v).len() == hex_digits(v / 16).len() + 1,
    decreases v,
{
    if v >= 16 {
        lemma_hex_digits_len(v / 16);
    }
}


/// What `str::trim` leaves of a text: the text without the white space at its
/// start and at its end.
pub uninterp spec fn trimmed(s: Seq<char>) -> Seq<char>;

/// What `str::to_lowercase` makes of a text: the text in lower case.
pub uninterp spec fn lowercase(s: Seq<char>) -> Seq<char>;

/// `str::trim`: the text without leading and trailing white space, as Unicode
/// defines white space.
#[verifier::external_body]
pub(crate) fn trim(s: &str) -> (r: &str)
    ensures
        r@ == trimmed(s@),
{
    s.trim()
}

/// `str::to_lowercase`: the lower case equivalent of the text, as Unicode
/// defines lower case.
#[verifier::external_body]
pub(crate) fn to_lowercase(s: &str) -> (r: String)
    ensures
        r@ == lowercase(s@),
{
    s.to_lowercase()
}

/// The characters of a text.
pub fn chars_of(s: &str) -> (v: Vec<char>)
    ensures
        v@ == s@,
{
    let n: usize = s.unicode_len();
    let mut v: Vec<char> = Vec::new();
    let mut i: usize = 0;
    while i < n
        invariant
            0 <= i <= n,
            n == s@.len(),
            v@ == s@.take(i as int),
        decreases n - i,
    {
        v.push(s.get_char(i));
        assert(s@.take(i + 1) == s@.take(i as int).push(s@[i as int]));
        i += 1;
    }
    assert(s@.take(n as int) == s@);
    v
}

/// Whether `t` begins with `prefix`.
pub open spec fn starts_with(t: Seq<char>, prefix: Seq<char>) -> bool {
    prefix.len() <= t.len() && t.take(prefix.len() as int) == prefix
}

/// Whether `t` ends with `suffix`.
pub open spec fn ends_with(t: Seq<char>, suffix: Seq<char>) -> bool {
    suffix.len() <= t.len() && t.skip(t.len() - suffix.len()) == suffix
}

/// Whether the characters of `t` from `from` up to `to` begin with `prefix`.
pub fn range_starts_with(t: &Vec<char>, from: usize, to: usize, prefix: &str) -> (r: bool)
    requires
        from <= to <= t@.len(),
    ensures
        r == starts_with(t@.subrange(from as int, to as int), prefix@),
{
    let n: usize = prefix.unicode_len();
    if n > to - from {
        return false;
    }
    let ghost w = t@.subrange(from as int, to as int);
    let mut i: usize = 0;
    while i < n
        invariant
            0 <= i <= n <= to - from,
            from <= to <= t@.len(),
            n == prefix@.len(),
            w == t@.subrange(from as int, to as int),
            w.take(i as int) == prefix@.take(i as int),
        decreases n - i,
    {
        if t[from + i] != prefix.get_char(i) {
            assert(w.take(n as int)[i as int] != prefix@[i as int]);
            return false;
        }
        assert(w.take(i + 1) =~= w.take(i as int).push(w[i as int]));
        assert(prefix@.take(i + 1) =~= prefix@.take(i as int).push(prefix@[i as int]));
        i += 1;
    }
    assert(prefix@.take(n as int) == prefix@);
    true
}

/// Whether the characters of `t` from `from` up to `to` end with `suffix`.
pub fn range_ends_with(t: &Vec<char>, from: usize, to: usize, suffix: &str) -> (r: bool)
    requires
        from <= to <= t@.len(),
    ensures
        r == ends_with(t@.subrange(from as int, to as int), suffix@),
{
    let n: usize = suffix.unicode_len();
    if n > to - from {
        return false;
    }
    let r = range_starts_with(t, to - n, to, suffix);
    proof {
        let w = t@.subrange(from as int, to as int);
        assert(w.skip(w.len() - n) =~= t@.subrange(to - n, to as int));
        assert(t@.subrange(to - n, to as int).take(n as int) =~= t@.subrange(to - n, to as int));
    }
    r
}

} // verus!
