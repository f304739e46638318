//! Byte and character helpers shared by the terminal protocol and the
//! configuration readers: ASCII literals as bytes, decimal rendering of
//! unsigned integers and decimal parsing with the rules of `u32::from_str`.
use vstd::prelude::*;
use vstd::utf8::is_ascii_chars;

verus! {

/// The bytes of an ASCII character sequence.
pub open spec fn ascii(s: Seq<char>) -> Seq<u8> {
    s.map_values(|c: char| c as u8)
}

/// The value of an ASCII decimal digit character.
pub open spec fn digit_value(c: char) -> int {
    (c as int) - ('0' as int)
}

pub open spec fn is_digit(c: char) -> bool {
    '0' <= c && c <= '9'
}

/// The character of a decimal digit `0 <= d < 10`.
pub open spec fn digit_char(d: nat) -> char {
    ((d + ('0' as nat)) as u32) as char
}

/// Decimal representation of `n`, most significant digit first, without
/// leading zeros (`0` is written as a single `0`).
pub open spec fn decimal(n: nat) -> Seq<char>
    decreases n,
{
    if n < 10 {
        seq![digit_char(n)]
    } else {
        decimal(n / 10).push(digit_char(n % 10))
    }
}

/// The number written by a sequence of decimal digits (the empty sequence
/// writes 0).
pub open spec fn digits_value(s: Seq<char>) -> int
    decreases s.len(),
{
    if s.len() == 0 {
        0
    } else {
        digits_value(s.drop_last()) * 10 + digit_value(s.last())
    }
}

pub open spec fn all_digits(s: Seq<char>) -> bool {
    forall|i: int| 0 <= i < s.len() ==> is_digit(#[trigger] s[i])
}

/// The digits that `u32::from_str` reads: an optional leading `+` is
/// dropped.
pub open spec fn unsigned_digits(s: Seq<char>) -> Seq<char> {
    if s.len() > 0 && s[0] == '+' {
        s.drop_first()
    } else {
        s
    }
}

/// What `u32::from_str` accepts: an optional `+` followed by at least one
/// decimal digit, whose value fits in a `u32`.
pub open spec fn parse_u32_spec(s: Seq<char>) -> Option<u32> {
    let d = unsigned_digits(s);
    if d.len() > 0 && all_digits(d) && digits_value(d) <= u32::MAX {
        Some(digits_value(d) as u32)
    } else {
        None
    }
}

/// Appends the bytes of `b` to `out`.
pub fn push_bytes(out: &mut Vec<u8>, b: &[u8])
    ensures
        final(out)@ == old(out)@ + b@,
{
    let mut i: usize = 0;
    while i < b.len()
        invariant
            i <= b@.len(),
            out@ == old(out)@ + b@.subrange(0, i as int),
        decreases b@.len() - i,
    {
        out.push(b[i]);
        i = i + 1;
        assert(b@.subrange(0, i as int) =~= b@.subrange(0, i - 1 as int).push(b@[i - 1]));
    }
    assert(b@.subrange(0, b@.len() as int) =~= b@);
}

/// Appends the bytes of the ASCII string `s` to `out`.
pub fn push_ascii(out: &mut Vec<u8>, s: &str)
    requires
        is_ascii_chars(s@),
    ensures
        final(out)@ == old(out)@ + ascii(s@),
{
    broadcast use vstd::string::is_ascii_spec_bytes;
    assert(vstd::string::is_ascii(s));
    let b = s.as_bytes();
    push_bytes(out, b);
    assert(b@ =~= ascii(s@));
}

/// Appends the decimal representation of `n` to `out`.
pub fn push_decimal(out: &mut Vec<u8>, n: u64)
    ensures
        final(out)@ == old(out)@ + ascii(decimal(n as nat)),
    decreases n,
{
    if n >= 10 {
        push_decimal(out, n / 10);
    }
    let d: u8 = (n % 10) as u8;
    let b: u8 = d + 48;
    out.push(b);
    proof {
        assert(digit_char((n % 10) as nat) as u8 == b) by {
            assert(((n % 10) as nat + ('0' as nat)) < 256);
        }
        if n >= 10 {
            assert(ascii(decimal(n as nat)) =~= ascii(decimal((n / 10) as nat)).push(b));
        } else {
            assert(ascii(decimal(n as nat)) =~= seq![b]);
        }
    }
}

/// Wraps `push_decimal` into a fresh vector.
pub fn decimal_bytes(n: u64) -> (res: Vec<u8>)
    ensures
        res@ == ascii(decimal(n as nat)),
{
    let mut out: Vec<u8> = Vec::new();
    push_decimal(&mut out, n);
    assert(out@ =~= Seq::<u8>::empty() + ascii(decimal(n as nat)));
    out
}

proof fn lemma_digits_value_step(s: Seq<char>, i: int)
    requires
        0 <= i < s.len(),
    ensures
        digits_value(s.subrange(0, i + 1)) == digits_value(s.subrange(0, i)) * 10 + digit_value(
            s[i],
        ),
{
    assert(s.subrange(0, i + 1).drop_last() =~= s.subrange(0, i));
}

/// The characters of `s`, one by one.
pub fn str_chars(s: &str) -> (v: Vec<char>)
    ensures
        v@ == s@,
{
    let n = s.unicode_len();
    let mut v: Vec<char> = Vec::new();
    let mut i: usize = 0;
    while i < n
        invariant
            i <= n,
            n == s@.len(),
            v@ == s@.subrange(0, i as int),
        decreases n - i,
    {
        v.push(s.get_char(i));
        i = i + 1;
        assert(v@ =~= s@.subrange(0, i as int));
    }
    assert(s@.subrange(0, n as int) =~= s@);
    v
}

/// Whether `v[start..]` is exactly `lit`.
pub fn tail_equals(v: &Vec<char>, start: usize, lit: &[char]) -> (b: bool)
    requires
        start <= v@.len(),
    ensures
        b == (v@.subrange(start as int, v@.len() as int) == lit@),
{
    let n = v.len();
    if n - start != lit.len() {
        assert(v@.subrange(start as int, v@.len() as int).len() != lit@.len());
        return false;
    }
    let mut j: usize = 0;
    while j < lit.len()
        invariant
            j <= lit@.len(),
            v@.len() - start == lit@.len(),
            start <= v@.len(),
            n == v@.len(),
            forall|k: int| 0 <= k < j ==> v@[start + k] == lit@[k],
        decreases lit@.len() - j,
    {
        if v[start + j] != lit[j] {
            assert(v@.subrange(start as int, v@.len() as int)[j as int] != lit@[j as int]);
            return false;
        }
        j = j + 1;
    }
    assert(v@.subrange(start as int, v@.len() as int) =~= lit@);
    true
}

/// Parses `s` as `u32::from_str` does: an optional `+`, then one or more
/// decimal digits whose value fits in a `u32`; anything else is `None`.
pub fn parse_u32(s: &str) -> (res: Option<u32>)
    ensures
        res == parse_u32_spec(s@),
{
    let len = s.unicode_len();
    let mut start: usize = 0;
    if len > 0 && s.get_char(0) == '+' {
        start = 1;
    }
    let ghost d = unsigned_digits(s@);
    assert(d =~= s@.subrange(start as int, len as int));
    if start >= len {
        assert(d.len() == 0);
        return None;
    }
    // `acc` holds the value read so far, or `u32::MAX + 1` once it is too large.
    let mut acc: u64 = 0;
    let mut i: usize = start;
    while i < len
        invariant
            start <= i <= len,
            len == s@.len(),
            d =~= s@.subrange(start as int, len as int),
            d == unsigned_digits(s@),
            all_digits(d.subrange(0, i - start)),
            digits_value(d.subrange(0, i - start)) <= u32::MAX ==> acc == digits_value(
                d.subrange(0, i - start),
            ),
            digits_value(d.subrange(0, i - start)) > u32::MAX ==> acc == u32::MAX as u64 + 1,
            0 <= digits_value(d.subrange(0, i - start)),
        decreases len - i,
    {
        let c = s.get_char(i);
        let ghost k: int = i - start;
        assert(d[k] == c);
        if !('0' <= c && c <= '9') {
            assert(!is_digit(d[k]));
            assert(!all_digits(d));
            return None;
        }
        let v: u64 = (c as u64) - 48;
        proof {
            lemma_digits_value_step(d, k);
            assert(d.subrange(0, k + 1).drop_last() =~= d.subrange(0, k));
        }
        if acc > u32::MAX as u64 {
            acc = u32::MAX as u64 + 1;
        } else {
            acc = acc * 10 + v;
            if acc > u32::MAX as u64 {
                acc = u32::MAX as u64 + 1;
            }
        }
        i = i + 1;
        assert forall|j: int| 0 <= j < (i - start) implies is_digit(
            #[trigger] d.subrange(0, i - start)[j],
        ) by {
            if j < k {
                assert(d.subrange(0, i - start)[j] == d.subrange(0, k)[j]);
            }
        }
    }
    assert(d.subrange(0, len - start) =~= d);
    if acc > u32::MAX as u64 {
        None
    } else {
        Some(acc as u32)
    }
}

/// Writing a number in decimal and reading it back gives the number again.
pub proof fn lemma_decimal_round_trip(n: u32)
    ensures
        parse_u32_spec(decimal(n as nat)) == Some(n),
{
    lemma_decimal_digits(n as nat);
}

/// `decimal(n)` is a nonempty digit sequence, not starting with `+`, whose
/// value is `n`.
pub proof fn lemma_decimal_digits(n: nat)
    ensures
        decimal(n).len() > 0,
        all_digits(decimal(n)),
        digits_value(decimal(n)) == n,
        decimal(n)[0] != '+',
    decreases n,
{
    if n < 10 {
        assert(digits_value(decimal(n)) == digits_value(decimal(n).drop_last()) * 10
            + digit_value(decimal(n).last()));
        assert(decimal(n).drop_last() =~= Seq::<char>::empty());
    } else {
        lemma_decimal_digits(n / 10);
        let s = decimal(n);
        assert(s.drop_last() =~= decimal(n / 10));
        assert forall|i: int| 0 <= i < s.len() implies is_digit(#[trigger] s[i]) by {
            if i < s.len() - 1 {
                assert(s[i] == decimal(n / 10)[i]);
            }
        }
        assert(s[0] == decimal(n / 10)[0]);
    }
}

} // verus!
