//! Guest addresses and sizes, as they are given on the command line and as
//! they are shown.

use vstd::prelude::*;
use crate::text::chars_of;
use crate::text::decimal_digits;
use crate::text::ends_with;
use crate::text::hex_digits;
use crate::text::lemma_hex_digits_len;
use crate::text::lowercase;
use crate::text::push_char;
use crate::text::push_decimal;
use crate::text::push_hex;
use crate::text::range_ends_with;
use crate::text::range_starts_with;
use crate::text::starts_with;
use crate::text::to_lowercase;
use crate::text::trim;
use crate::text::trimmed;

verus! {

/// Why a text is no address and no size.
#[derive(Copy, Clone, Debug, PartialEq, Eq, Structural)]
pub enum ParseError {
    /// The digits are no number of the radix, or the number does not fit in
    /// 64 bits.
    Number,
    /// The number times the unit does not fit in 64 bits.
    Overflow,
}

/// The value of a digit in a radix of at most 36: `0` to `9`, then the letters
/// in either case; `None` for another character or a digit that the radix
/// does not have.
pub open spec fn digit_value(c: char, radix: nat) -> Option<nat> {
    let v: nat = if '0' as u32 <= c as u32 <= '9' as u32 {
        (c as u32 - '0' as u32) as nat
    } else if 'a' as u32 <= c as u32 <= 'z' as u32 {
        (c as u32 - 'a' as u32 + 10) as nat
    } else if 'A' as u32 <= c as u32 <= 'Z' as u32 {
        (c as u32 - 'A' as u32 + 10) as nat
    } else {
        radix
    };
    if v < radix {
        Some(v)
    } else {
        None
    }
}

/// The number that the digits of `s` write in `radix`; `None` where `s` is
/// empty or holds anything but digits of the radix.
pub open spec fn digits_value(s: Seq<char>, radix: nat) -> Option<nat>
    decreases s.len(),
{
    if s.len() == 0 {
        None
    } else if s.len() == 1 {
        digit_value(s[0], radix)
    } else {
        match (digits_value(s.drop_last(), radix), digit_value(s.last(), radix)) {
            (Some(high), Some(low)) => Some(high * radix + low),
            _ => None,
        }
    }
}

/// The number that `s` writes in `radix`: digits, with or without a `+` before
/// them.
pub open spec fn unsigned_value(s: Seq<char>, radix: nat) -> Option<nat> {
    if s.len() > 0 && s[0] == '+' {
        digits_value(s.skip(1), radix)
    } else {
        digits_value(s, radix)
    }
}

/// The prefixes that select a radix, in the order in which they are tried.
pub open spec fn radix_prefixes() -> Seq<(u64, Seq<char>)> {
    seq![(16u64, "0x"@), (2u64, "0b"@), (10u64, ""@)]
}

/// The suffixes that select a unit, in the order in which they are tried.
pub open spec fn unit_suffixes() -> Seq<(u64, Seq<char>)> {
    seq![
        (1073741824u64, "gib"@),
        (1073741824u64, "gb"@),
        (1073741824u64, "g"@),
        (1048576u64, "mib"@),
        (1048576u64, "mb"@),
        (1048576u64, "m"@),
        (1024u64, "kib"@),
        (1024u64, "kb"@),
        (1024u64, "k"@),
        (1u64, ""@),
    ]
}

/// The index of the first prefix of `table`, from `i` on, with which `t`
/// begins; the length of the table if there is none.
pub open spec fn first_prefix(t: Seq<char>, table: Seq<(u64, Seq<char>)>, i: int) -> int
    decreases table.len() - i,
{
    if i < 0 || i >= table.len() {
        table.len() as int
    } else if starts_with(t, table[i].1) {
        i
    } else {
        first_prefix(t, table, i + 1)
    }
}

/// The index of the first suffix of `table`, from `i` on, with which `t` ends;
/// the length of the table if there is none.
pub open spec fn first_suffix(t: Seq<char>, table: Seq<(u64, Seq<char>)>, i: int) -> int
    decreases table.len() - i,
{
    if i < 0 || i >= table.len() {
        table.len() as int
    } else if ends_with(t, table[i].1) {
        i
    } else {
        first_suffix(t, table, i + 1)
    }
}

/// `s` without its underscores and spaces.
pub open spec fn without_separators(s: Seq<char>) -> Seq<char> {
    s.filter(|c: char| c != '_' && c != ' ')
}

/// The number that a text in lower case and without white space around it
/// gives: the prefix `0x` or `0b` selects the radix, else it is 10; a unit at
/// the end multiplies; underscores and spaces between are skipped.
pub open spec fn parse_spec(t: Seq<char>) -> Result<u64, ParseError> {
    let p = first_prefix(t, radix_prefixes(), 0);
    let radix = radix_prefixes()[p].0;
    let rest = t.skip(radix_prefixes()[p].1.len() as int);
    let u = first_suffix(rest, unit_suffixes(), 0);
    let unit = unit_suffixes()[u].0;
    let body = rest.take(rest.len() - unit_suffixes()[u].1.len());
    match unsigned_value(without_separators(body), radix as nat) {
        Some(v) => if v > u64::MAX {
            Err(ParseError::Number)
        } else if v * unit > u64::MAX {
            Err(ParseError::Overflow)
        } else {
            Ok((v * unit) as u64)
        },
        None => Err(ParseError::Number),
    }
}

fn radix_prefix(i: usize) -> (r: (u64, &'static str))
    requires
        i < 3,
    ensures
        r.0 == radix_prefixes()[i as int].0,
        r.1@ == radix_prefixes()[i as int].1,
{
    if i == 0 {
        (16, "0x")
    } else if i == 1 {
        (2, "0b")
    } else {
        (10, "")
    }
}

fn unit_suffix(i: usize) -> (r: (u64, &'static str))
    requires
        i < 10,
    ensures
        r.0 == unit_suffixes()[i as int].0,
        r.1@ == unit_suffixes()[i as int].1,
{
    if i == 0 {
        (1073741824, "gib")
    } else if i == 1 {
        (1073741824, "gb")
    } else if i == 2 {
        (1073741824, "g")
    } else if i == 3 {
        (1048576, "mib")
    } else if i == 4 {
        (1048576, "mb")
    } else if i == 5 {
        (1048576, "m")
    } else if i == 6 {
        (1024, "kib")
    } else if i == 7 {
        (1024, "kb")
    } else if i == 8 {
        (1024, "k")
    } else {
        (1, "")
    }
}

fn digit_of(c: char, radix: u64) -> (r: Option<u64>)
    requires
        radix <= 36,
    ensures
        r is Some == digit_value(c, radix as nat) is Some,
        r matches Some(v) ==> v == digit_value(c, radix as nat)->0 && v < radix,
{
    let code: u32 = c as u32;
    let v: u64 = if 48 <= code && code <= 57 {
        (code - 48) as u64
    } else if 97 <= code && code <= 122 {
        (code - 97 + 10) as u64
    } else if 65 <= code && code <= 90 {
        (code - 65 + 10) as u64
    } else {
        radix
    };
    if v < radix {
        Some(v)
    } else {
        None
    }
}


/// A number does not shrink when a digit is appended to it.
proof fn lemma_append_digit(high: nat, radix: nat, low: nat)
    requires
        radix >= 2,
    ensures
        high * radix + low >= high,
        high > u64::MAX ==> high * radix + low > u64::MAX,
{
    assert(high * radix >= high) by (nonlinear_arith)
        requires
            radix >= 2,
    ;
}

/// The number that `s` writes in `radix`, where it is one that fits in 64 bits.
pub fn parse_unsigned(s: &Vec<char>, radix: u64) -> (r: Option<u64>)
    requires
        2 <= radix <= 36,
    ensures
        match unsigned_value(s@, radix as nat) {
            Some(v) => if v <= u64::MAX {
                r == Some(v as u64)
            } else {
                r is None
            },
            None => r is None,
        },
{
    let n: usize = s.len();
    let first: usize = if n > 0 && s[0] == '+' {
        1
    } else {
        0
    };
    let ghost ds = s@.skip(first as int);
    proof {
        assert(s@.skip(0) =~= s@);
        assert(unsigned_value(s@, radix as nat) == digits_value(ds, radix as nat));
    }
    if first == n {
        return None;
    }
    let mut acc: u64 = 0;
    let mut over: bool = false;
    let ghost mut v: nat = 0;
    let mut i: usize = first;
    while i < n
        invariant
            first <= i <= n,
            n == s@.len(),
            2 <= radix <= 36,
            ds == s@.skip(first as int),
            unsigned_value(s@, radix as nat) == digits_value(ds, radix as nat),
            i > first ==> digits_value(ds.take(i - first), radix as nat) == Some(v),
            i == first ==> v == 0,
            over ==> v > u64::MAX,
            !over ==> acc == v,
        decreases n - i,
    {
        let d: u64 = match digit_of(s[i], radix) {
            Some(d) => d,
            None => {
                proof {
                    lemma_invalid_digit(ds, radix as nat, i - first);
                }
                return None;
            },
        };
        proof {
            let cur = ds.take(i - first + 1);
            assert(cur.drop_last() == ds.take(i - first));
            assert(cur.last() == s@[i as int]);
            lemma_append_digit(v, radix as nat, d as nat);
            if i == first {
                assert(0 * (radix as nat) + d == d) by (nonlinear_arith);
            }
            v = v * (radix as nat) + d as nat;
        }
        if !over {
            match acc.checked_mul(radix) {
                Some(m) => match m.checked_add(d) {
                    Some(a) => {
                        acc = a;
                    },
                    None => {
                        over = true;
                    },
                },
                None => {
                    over = true;
                },
            }
        }
        i += 1;
    }
    proof {
        assert(ds.take(n - first) == ds);
    }
    if over {
        None
    } else {
        Some(acc)
    }
}

/// Digits with a character among them that is no digit write no number.
proof fn lemma_invalid_digit(s: Seq<char>, radix: nat, i: int)
    requires
        0 <= i < s.len(),
        digit_value(s[i], radix) is None,
    ensures
        digits_value(s, radix) is None,
    decreases s.len(),
{
    if s.len() > 1 {
        if i < s.len() - 1 {
            lemma_invalid_digit(s.drop_last(), radix, i);
        }
    }
}

/// The characters of `t` from `from` up to `to`, without underscores and
/// spaces.
pub fn strip_separators(t: &Vec<char>, from: usize, to: usize) -> (v: Vec<char>)
    requires
        from <= to <= t@.len(),
    ensures
        v@ == without_separators(t@.subrange(from as int, to as int)),
{
    let ghost body = t@.subrange(from as int, to as int);
    let ghost keep = |c: char| c != '_' && c != ' ';
    let mut v: Vec<char> = Vec::new();
    let mut i: usize = from;
    proof {
        assert(body.take(0) =~= Seq::<char>::empty());
    }
    while i < to
        invariant
            from <= i <= to <= t@.len(),
            body == t@.subrange(from as int, to as int),
            keep == |c: char| c != '_' && c != ' ',
            v@ == body.take(i - from).filter(keep),
        decreases to - i,
    {
        let c: char = t[i];
        proof {
            let cur = body.take(i - from + 1);
            assert(cur.drop_last() == body.take(i - from));
            assert(cur.last() == c);
            reveal(Seq::filter);
        }
        if c != '_' && c != ' ' {
            v.push(c);
        }
        i += 1;
    }
    proof {
        assert(body.take(to - from) == body);
    }
    v
}

/// Reads a number from a text in lower case and without white space around
/// it.
pub fn parse_normalized(t: &str) -> (r: Result<u64, ParseError>)
    ensures
        r == parse_spec(t@),
{
    let chars: Vec<char> = chars_of(t);
    let n: usize = chars.len();
    proof {
        assert(chars@.subrange(0, n as int) == chars@);
    }
    let (radix, start): (u64, usize) = if range_starts_with(&chars, 0, n, "0x") {
        (16, 2)
    } else if range_starts_with(&chars, 0, n, "0b") {
        (2, 2)
    } else {
        (10, 0)
    };
    let ghost rest = t@.skip(start as int);
    let ghost p = first_prefix(t@, radix_prefixes(), 0);
    proof {
        reveal_strlit("0x");
        reveal_strlit("0b");
        reveal_strlit("");
        reveal_with_fuel(first_prefix, 4);
        assert(rest == chars@.subrange(start as int, n as int));
        assert(t@.take(0) =~= ""@);
        assert(starts_with(t@, radix_prefixes()[2].1));
        assert(radix == radix_prefixes()[p].0);
        assert(start == radix_prefixes()[p].1.len());
    }
    let mut u: usize = 0;
    while u < 9 && !range_ends_with(&chars, start, n, unit_suffix(u).1)
        invariant
            0 <= u <= 9,
            start <= n == chars@.len(),
            chars@ == t@,
            p == first_prefix(t@, radix_prefixes(), 0),
            radix == radix_prefixes()[p].0,
            start == radix_prefixes()[p].1.len(),
            2 <= radix <= 16,
            rest == t@.skip(start as int),
            rest == chars@.subrange(start as int, n as int),
            first_suffix(rest, unit_suffixes(), 0) == first_suffix(rest, unit_suffixes(), u as int),
        decreases 9 - u,
    {
        u += 1;
    }
    let (unit, suffix): (u64, &str) = unit_suffix(u);
    let cut: usize = suffix.unicode_len();
    proof {
        reveal_strlit("");
        if u == 9 {
            assert(rest.skip(rest.len() - 0) =~= ""@);
            assert(ends_with(rest, ""@));
        }
        assert(first_suffix(rest, unit_suffixes(), 0) == u);
    }
    let end: usize = n - cut;
    proof {
        assert(rest.take(rest.len() - cut) == chars@.subrange(start as int, end as int));
    }
    let body: Vec<char> = strip_separators(&chars, start, end);
    match parse_unsigned(&body, radix) {
        Some(v) => match v.checked_mul(unit) {
            Some(value) => Ok(value),
            None => Err(ParseError::Overflow),
        },
        None => Err(ParseError::Number),
    }
}


/// The number that a text gives as it is typed: `parse_spec` of the text
/// without the white space around it and in lower case.
pub open spec fn parse_text(s: Seq<char>) -> Result<u64, ParseError> {
    parse_spec(lowercase(trimmed(s)))
}

fn parse_text_exec(s: &str) -> (r: Result<u64, ParseError>)
    ensures
        r == parse_text(s@),
{
    let lower: String = to_lowercase(trim(s));
    parse_normalized(lower.as_str())
}

/// An address in a guest's physical address space.
#[derive(Clone, Copy, Debug, PartialEq, Eq, PartialOrd, Ord, Structural)]
pub struct GuestAddress(pub u64);

/// A number of bytes of guest memory.
#[derive(Clone, Copy, Debug, PartialEq, Eq, PartialOrd, Ord, Structural)]
pub struct GuestSize(pub u64);

impl View for GuestAddress {
    type V = u64;

    open spec fn view(&self) -> u64 {
        self.0
    }
}

impl View for GuestSize {
    type V = u64;

    open spec fn view(&self) -> u64 {
        self.0
    }
}

/// How many zeros come before the digits of an address so that it has six
/// digits at least.
pub open spec fn address_padding(v: u64) -> Seq<char> {
    let digits = hex_digits(v as nat).len();
    Seq::new(
        if digits < 6 {
            (6 - digits) as nat
        } else {
            0
        },
        |i: int| '0',
    )
}

impl GuestAddress {
    pub fn new(value: u64) -> (a: Self)
        ensures
            a@ == value,
    {
        GuestAddress(value)
    }

    /// The address as a number.
    pub fn get(&self) -> (v: u64)
        ensures
            v == self@,
    {
        self.0
    }

    /// Reads an address: a number in decimal, in hexadecimal after `0x` or in
    /// binary after `0b`, with or without a unit (`k`, `m`, `g`, each also with
    /// `b` or `ib`), in either case, with underscores and spaces anywhere
    /// between, and with white space around it.
    pub fn from_str(s: &str) -> (r: Result<Self, ParseError>)
        ensures
            match parse_text(s@) {
                Ok(v) => r matches Ok(a) && a@ == v,
                Err(e) => r == Err::<Self, ParseError>(e),
            },
    {
        match parse_text_exec(s) {
            Ok(v) => Ok(GuestAddress(v)),
            Err(e) => Err(e),
        }
    }

    /// The address as it is shown: `0x` and the hexadecimal digits, with zeros
    /// before them where they are fewer than six.
    pub fn to_string(&self) -> (s: String)
        ensures
            s@ == "0x"@ + address_padding(self@) + hex_digits(self@ as nat),
    {
        let mut s = String::from_str("0x");
        let v: u64 = self.0;
        let zeros: usize = if v < 0x10 {
            5
        } else if v < 0x100 {
            4
        } else if v < 0x1000 {
            3
        } else if v < 0x1_0000 {
            2
        } else if v < 0x10_0000 {
            1
        } else {
            0
        };
        proof {
            reveal_with_fuel(hex_bound, 7);
            lemma_hex_width(v);
            assert(hex_bound(1) == 0x10 && hex_bound(2) == 0x100 && hex_bound(3) == 0x1000 && hex_bound(4)
                == 0x1_0000 && hex_bound(5) == 0x10_0000);
            assert(zeros == if hex_digits(v as nat).len() < 6 {
                6 - hex_digits(v as nat).len()
            } else {
                0
            });
        }
        let mut count: usize = 0;
        while count < zeros
            invariant
                0 <= count <= zeros,
                s@ == "0x"@ + Seq::new(count as nat, |i: int| '0'),
            decreases zeros - count,
        {
            push_char(&mut s, '0');
            count += 1;
            proof {
                assert(Seq::new(count as nat, |i: int| '0') =~= Seq::new((count - 1) as nat, |i: int| '0').push('0'));
                assert(s@ =~= "0x"@ + Seq::new(count as nat, |i: int| '0'));
            }
        }
        proof {
            assert(Seq::new(count as nat, |i: int| '0') =~= address_padding(self.0));
        }
        let ghost padded = s@;
        push_hex(&mut s, self.0);
        assert(s@ =~= "0x"@ + address_padding(self@) + hex_digits(self@ as nat));
        s
    }

    /// The address `rhs` bytes after this one.
    pub fn add(self, rhs: GuestSize) -> (a: GuestAddress)
        requires
            self@ + rhs@ <= u64::MAX,
        ensures
            a@ == self@ + rhs@,
    {
        GuestAddress(self.0 + rhs.0)
    }

    /// The address `rhs` bytes before this one.
    pub fn sub(self, rhs: GuestSize) -> (a: GuestAddress)
        requires
            rhs@ <= self@,
        ensures
            a@ == self@ - rhs@,
    {
        GuestAddress(self.0 - rhs.0)
    }
}

/// 16 to the power of `n`.
pub open spec fn hex_bound(n: nat) -> nat
    decreases n,
{
    if n == 0 {
        1
    } else {
        16 * hex_bound((n - 1) as nat)
    }
}

/// A number below 16 to the `n` has at most `n` hexadecimal digits, and one
/// that is not below it has more.
proof fn lemma_hex_digits_bound(v: nat, n: nat)
    requires
        n >= 1,
    ensures
        v < hex_bound(n) <==> hex_digits(v).len() <= n,
    decreases n,
{
    lemma_hex_digits_len(v);
    reveal_with_fuel(hex_bound, 2);
    if n > 1 {
        lemma_hex_digits_bound(v / 16, (n - 1) as nat);
    }
}

/// How many hexadecimal digits a number has, for each count up to six.
proof fn lemma_hex_width(v: u64)
    ensures
        hex_digits(v as nat).len() >= 1,
        forall|n: nat| 1 <= n <= 6 ==> (v < #[trigger] hex_bound(n) <==> hex_digits(v as nat).len() <= n),
{
    lemma_hex_digits_len(v as nat);
    assert forall|n: nat| 1 <= n <= 6 implies (v < #[trigger] hex_bound(n) <==> hex_digits(v as nat).len()
        <= n) by {
        lemma_hex_digits_bound(v as nat, n);
    }
}


impl From<u64> for GuestAddress {
    fn from(value: u64) -> (a: Self) {
        GuestAddress(value)
    }
}

impl vstd::std_specs::convert::FromSpecImpl<u64> for GuestAddress {
    open spec fn obeys_from_spec() -> bool {
        true
    }

    open spec fn from_spec(value: u64) -> Self {
        GuestAddress(value)
    }
}

/// Why a size cannot be the size of a window.
#[derive(Copy, Clone, Debug, PartialEq, Eq, Structural)]
pub struct ZeroSize;

/// A size as it is shown: in the largest of the units GiB, MiB and KiB of
/// which it is a multiple, or in bytes without a unit.
pub open spec fn size_text(v: u64) -> Seq<char> {
    if v % 0x4000_0000 == 0 {
        decimal_digits((v / 0x4000_0000) as nat) + "GiB"@
    } else if v % 0x10_0000 == 0 {
        decimal_digits((v / 0x10_0000) as nat) + "MiB"@
    } else if v % 0x400 == 0 {
        decimal_digits((v / 0x400) as nat) + "KiB"@
    } else {
        decimal_digits(v as nat)
    }
}

impl GuestSize {
    pub fn new(value: u64) -> (a: Self)
        ensures
            a@ == value,
    {
        GuestSize(value)
    }

    /// The size as a number of bytes.
    pub fn get(&self) -> (v: u64)
        ensures
            v == self@,
    {
        self.0
    }

    /// Reads a size, written as an address is: see `GuestAddress::from_str`.
    pub fn from_str(s: &str) -> (r: Result<Self, ParseError>)
        ensures
            match parse_text(s@) {
                Ok(v) => r matches Ok(a) && a@ == v,
                Err(e) => r == Err::<Self, ParseError>(e),
            },
    {
        match parse_text_exec(s) {
            Ok(v) => Ok(GuestSize(v)),
            Err(e) => Err(e),
        }
    }

    /// The size as it is shown: see `size_text`.
    pub fn to_string(&self) -> (s: String)
        ensures
            s@ == size_text(self@),
    {
        let v: u64 = self.0;
        let mut s = String::new();
        if v % 0x4000_0000 == 0 {
            push_decimal(&mut s, v / 0x4000_0000);
            s.append("GiB");
        } else if v % 0x10_0000 == 0 {
            push_decimal(&mut s, v / 0x10_0000);
            s.append("MiB");
        } else if v % 0x400 == 0 {
            push_decimal(&mut s, v / 0x400);
            s.append("KiB");
        } else {
            push_decimal(&mut s, v);
        }
        assert(s@ =~= size_text(self@));
        s
    }

    /// The size as the size of a window: a number of bytes that is not zero.
    pub fn to_nonzero(&self) -> (r: Result<usize, ZeroSize>)
        ensures
            r is Ok == (self@ as usize != 0),
            r matches Ok(n) ==> n == self@ as usize,
    {
        let n: usize = #[verifier::truncate] (self.0 as usize);
        if n == 0 {
            Err(ZeroSize)
        } else {
            Ok(n)
        }
    }
}

impl From<u64> for GuestSize {
    fn from(value: u64) -> (a: Self) {
        GuestSize(value)
    }
}

impl vstd::std_specs::convert::FromSpecImpl<u64> for GuestSize {
    open spec fn obeys_from_spec() -> bool {
        true
    }

    open spec fn from_spec(value: u64) -> Self {
        GuestSize(value)
    }
}

impl From<usize> for GuestSize {
    fn from(value: usize) -> (a: Self) {
        GuestSize(value as u64)
    }
}

impl vstd::std_specs::convert::FromSpecImpl<usize> for GuestSize {
    open spec fn obeys_from_spec() -> bool {
        true
    }

    open spec fn from_spec(value: usize) -> Self {
        GuestSize(value as u64)
    }
}

/// The character of a digit is read as that digit again, in every radix that
/// has the digit.
pub proof fn lemma_digit_read_again(d: nat, radix: nat)
    requires
        d < radix <= 16,
    ensures
        digit_value(crate::text::digit_char(d as int), radix) == Some(d),
{
}

/// The hexadecimal digits of a number, as they are shown, are read as the
/// number again.
pub proof fn lemma_hex_read_again(v: nat)
    ensures
        digits_value(hex_digits(v), 16) == Some(v),
    decreases v,
{
    lemma_hex_digits_len(v);
    if v < 16 {
        lemma_digit_read_again(v, 16);
    } else {
        lemma_hex_read_again(v / 16);
        lemma_hex_digits_len(v / 16);
        lemma_digit_read_again(v % 16, 16);
        let s = hex_digits(v);
        assert(s.drop_last() == hex_digits(v / 16));
        assert(s.last() == crate::text::digit_char((v % 16) as int));
    }
}

/// The decimal digits of a number, as they are shown, are read as the number
/// again.
pub proof fn lemma_decimal_read_again(v: nat)
    ensures
        decimal_digits(v).len() >= 1,
        digits_value(decimal_digits(v), 10) == Some(v),
    decreases v,
{
    if v < 10 {
        lemma_digit_read_again(v, 10);
    } else {
        lemma_decimal_read_again(v / 10);
        lemma_digit_read_again(v % 10, 10);
        let s = decimal_digits(v);
        assert(s.drop_last() == decimal_digits(v / 10));
        assert(s.last() == crate::text::digit_char((v % 10) as int));
    }
}

/// The units in which a size is shown, said with the bits of the size: a size
/// is a multiple of a unit where it has none of the bits below the unit, and
/// its number of units is the size shifted down by the unit's bits.
pub proof fn lemma_size_units(v: u64)
    ensures
        (v % 0x4000_0000 == 0) == (v & 0x3fffffff == 0),
        (v % 0x10_0000 == 0) == (v & 0xfffff == 0),
        (v % 0x400 == 0) == (v & 0x3ff == 0),
        v / 0x4000_0000 == v >> 30,
        v / 0x10_0000 == v >> 20,
        v / 0x400 == v >> 10,
{
    assert((v % 0x4000_0000 == 0) == (v & 0x3fffffff == 0)) by (bit_vector);
    assert((v % 0x10_0000 == 0) == (v & 0xfffff == 0)) by (bit_vector);
    assert((v % 0x400 == 0) == (v & 0x3ff == 0)) by (bit_vector);
    assert(v / 0x4000_0000 == v >> 30) by (bit_vector);
    assert(v / 0x10_0000 == v >> 20) by (bit_vector);
    assert(v / 0x400 == v >> 10) by (bit_vector);
}

} // verus!
