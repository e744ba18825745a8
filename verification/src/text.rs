//! Text that the discovery engine builds and decodes: decimal numbers, and the
//! NUL-terminated byte strings embedded in device responses.

use vstd::prelude::*;
use vstd::slice::slice_subrange;
use vstd::utf8::{decode_utf8, valid_utf8};

verus! {

/// `String::push` appends the given character to the end of the string and
/// leaves what was there before untouched.
pub assume_specification[ String::push ](s: &mut String, c: char)
    ensures
        final(s)@ == old(s)@.push(c),
;

/// What `String::from_utf8_lossy` makes of a byte sequence. For bytes that are
/// not valid UTF-8 the result holds replacement characters at places that the
/// standard library decides.
pub uninterp spec fn utf8_lossy(bytes: Seq<u8>) -> Seq<char>;

/// Decodes bytes as UTF-8 with `String::from_utf8_lossy`. The result is a
/// function of the bytes alone, and for valid UTF-8 it is the plain decoding.
#[verifier::external_body]
pub(crate) fn decode_lossy(bytes: &[u8]) -> (text: String)
    ensures
        text@ == utf8_lossy(bytes@),
        valid_utf8(bytes@) ==> text@ == decode_utf8(bytes@),
{
    String::from_utf8_lossy(bytes).into_owned()
}

/// The character for a decimal digit `0..=9`.
pub open spec fn digit_char(d: int) -> char
    recommends
        0 <= d <= 9,
{
    ((0x30 + d) as u8) as char
}

/// The decimal notation of `n`, most significant digit first, without padding.
pub open spec fn decimal(n: nat) -> Seq<char>
    decreases n,
{
    if n < 10 {
        seq![digit_char(n as int)]
    } else {
        decimal(n / 10).push(digit_char((n % 10) as int))
    }
}

/// The number that a sequence of decimal digits denotes.
pub open spec fn digits_value(s: Seq<char>) -> nat
    decreases s.len(),
{
    if s.len() == 0 {
        0
    } else {
        (digits_value(s.drop_last()) * 10 + (s.last() as u32 - 0x30)) as nat
    }
}

/// Whether a character is one of the decimal digits.
pub open spec fn is_digit(c: char) -> bool {
    0x30 <= c as u32 <= 0x39
}

/// Decimal notation is made of digits, is never empty, and has no leading zero
/// except for zero itself.
pub proof fn lemma_decimal_shape(n: nat)
    ensures
        decimal(n).len() >= 1,
        forall|i: int| 0 <= i < decimal(n).len() ==> is_digit(#[trigger] decimal(n)[i]),
        n > 0 ==> decimal(n)[0] != '0',
    decreases n,
{
    if n >= 10 {
        lemma_decimal_shape(n / 10);
    }
}

/// Reading decimal notation back gives the number it was written from.
pub proof fn lemma_decimal_round_trip(n: nat)
    ensures
        digits_value(decimal(n)) == n,
    decreases n,
{
    if n < 10 {
        let s = decimal(n);
        assert(s.drop_last() =~= Seq::<char>::empty());
        assert(digits_value(s.drop_last()) == 0);
    } else {
        lemma_decimal_round_trip(n / 10);
        let s = decimal(n);
        assert(s.drop_last() =~= decimal(n / 10));
    }
}

/// Appends the decimal notation of `n` to `s`.
pub fn push_decimal(s: &mut String, n: u64)
    ensures
        final(s)@ == old(s)@ + decimal(n as nat),
    decreases n,
{
    if n >= 10 {
        push_decimal(s, n / 10);
    }
    let d: u8 = (n % 10) as u8;
    let c: char = (0x30 + d) as char;
    assert(c == digit_char((n % 10) as int));
    s.push(c);
    assert(s@ =~= old(s)@ + decimal(n as nat));
}

/// The index of the first NUL byte of `s` at or after `from`, or the length of
/// `s` when there is none.
pub open spec fn nul_index(s: Seq<u8>, from: int) -> int
    recommends
        0 <= from,
    decreases s.len() - from,
{
    if from >= s.len() {
        s.len() as int
    } else if s[from] == 0 {
        from
    } else {
        nul_index(s, from + 1)
    }
}

/// `nul_index` is the least position at or after `from` that holds a NUL byte
/// or lies at the end of `s`.
pub proof fn lemma_nul_index(s: Seq<u8>, from: int)
    requires
        0 <= from <= s.len(),
    ensures
        from <= nul_index(s, from) <= s.len(),
        forall|k: int| from <= k < nul_index(s, from) ==> s[k] != 0,
        nul_index(s, from) < s.len() ==> s[nul_index(s, from)] == 0,
    decreases s.len() - from,
{
    if from < s.len() && s[from] != 0 {
        lemma_nul_index(s, from + 1);
    }
}

/// The bytes of the NUL-terminated string that an offset field of a response
/// points at. Offset zero means that the field is absent; an offset at or past
/// the end of the response points at nothing. Both give the empty string. A
/// string that is not terminated inside the response ends where the response
/// ends.
pub open spec fn text_field(buf: Seq<u8>, offset: int) -> Seq<u8> {
    if offset <= 0 || offset >= buf.len() {
        Seq::<u8>::empty()
    } else {
        buf.subrange(offset, nul_index(buf, offset))
    }
}

/// Cuts the string that `offset` points at out of `buf`.
pub fn text_field_bytes(buf: &[u8], offset: usize) -> (field: &[u8])
    ensures
        field@ == text_field(buf@, offset as int),
{
    if offset == 0 || offset >= buf.len() {
        return slice_subrange(buf, 0, 0);
    }
    let mut end: usize = offset;
    while end < buf.len() && buf[end] != 0
        invariant
            offset <= end <= buf.len(),
            nul_index(buf@, end as int) == nul_index(buf@, offset as int),
        decreases buf.len() - end,
    {
        end += 1;
    }
    slice_subrange(buf, offset, end)
}

} // verus!
