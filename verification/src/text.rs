//! Building text: characters appended to a `String`, numbers written out in a
//! base, and bytes of the guest read as text.

use vstd::prelude::*;

verus! {

/// `String::push`: appends one character.
#[verifier::external_body]
pub(crate) fn push_char(text: &mut String, c: char)
    ensures
        final(text)@ == old(text)@.push(c),
{
    text.push(c);
}

/// The text that `String::from_utf8_lossy` makes of bytes: their decoding as
/// UTF-8, with U+FFFD in place of each ill-formed sequence.
pub uninterp spec fn utf8_lossy(bytes: Seq<u8>) -> Seq<char>;

/// The characters of bytes that are all ASCII.
pub open spec fn ascii_text(bytes: Seq<u8>) -> Seq<char> {
    Seq::new(bytes.len(), |i: int| bytes[i] as char)
}

pub open spec fn all_ascii(bytes: Seq<u8>) -> bool {
    forall|i: int| 0 <= i < bytes.len() ==> bytes[i] < 128
}

/// `String::from_utf8_lossy`, made into an owned `String`. ASCII bytes are
/// well-formed UTF-8 and decode to themselves.
#[verifier::external_body]
pub(crate) fn text_from_bytes(bytes: &Vec<u8>) -> (text: String)
    ensures
        text@ == utf8_lossy(bytes@),
        all_ascii(bytes@) ==> text@ == ascii_text(bytes@),
{
    String::from_utf8_lossy(bytes).into_owned()
}

/// The character for the digit `d` of a base up to 16, in lower case.
pub open spec fn digit_char(d: int) -> char {
    if d < 10 {
        ((48 + d) as u8) as char
    } else {
        ((87 + d) as u8) as char
    }
}

/// The digits of `v` in `base`, most significant first, without leading zeros.
pub open spec fn digits(v: nat, base: nat) -> Seq<char>
    recommends
        2 <= base <= 16,
    decreases v,
    via digits_terminates
{
    if base < 2 || v < base {
        seq![digit_char(v as int)]
    } else {
        digits(v / base, base).push(digit_char((v % base) as int))
    }
}

#[via_fn]
proof fn digits_terminates(v: nat, base: nat) {
    if !(base < 2 || v < base) {
        lemma_quotient_smaller(v, base);
    }
}

/// Division by a base of 2 or more makes a number smaller, by half at least.
pub proof fn lemma_quotient_smaller(v: nat, base: nat)
    requires
        base >= 2,
        v >= base,
    ensures
        v / base < v,
        v / base <= v / 2,
{
    assert(v / base < v && v / base <= v / 2) by (nonlinear_arith)
        requires
            base >= 2,
            v >= base,
    ;
}

/// `text` with `fill` in front, as often as it takes to reach `width`.
pub open spec fn pad_left(text: Seq<char>, width: int, fill: char) -> Seq<char> {
    if text.len() >= width {
        text
    } else {
        Seq::new((width - text.len()) as nat, |i: int| fill) + text
    }
}

/// `text` with spaces behind, as many as it takes to reach `width`.
pub open spec fn pad_right(text: Seq<char>, width: int) -> Seq<char> {
    if text.len() >= width {
        text
    } else {
        text + Seq::new((width - text.len()) as nat, |i: int| ' ')
    }
}

/// The decimal text of a signed number.
pub open spec fn signed_decimal(v: int) -> Seq<char> {
    if v < 0 {
        seq!['-'] + digits((-v) as nat, 10)
    } else {
        digits(v as nat, 10)
    }
}

/// Returns the character for a digit.
fn digit(d: u64) -> (c: char)
    requires
        d < 16,
    ensures
        c == digit_char(d as int),
{
    if d < 10 {
        (48 + d as u8) as char
    } else {
        (87 + d as u8) as char
    }
}

/// Appends the digits of `v` in `base`.
pub fn push_digits(text: &mut String, v: u64, base: u64)
    requires
        2 <= base <= 16,
    ensures
        final(text)@ == old(text)@ + digits(v as nat, base as nat),
    decreases v,
{
    if v >= base {
        proof {
            lemma_quotient_smaller(v as nat, base as nat);
        }
        push_digits(text, v / base, base);
    }
    assert(v % base < base) by (nonlinear_arith)
        requires
            base >= 2,
    ;
    let ghost mid = text@;
    let c = digit(v % base);
    push_char(text, c);
    proof {
        assert(text@ == mid.push(c));
        if v >= base {
            assert(mid == old(text)@ + digits((v / base) as nat, base as nat));
            assert((v as nat) / (base as nat) == (v / base) as nat);
            assert((v as nat) % (base as nat) == (v % base) as nat);
            let rest = digits((v / base) as nat, base as nat);
            assert(digits(v as nat, base as nat) == rest.push(c));
            assert((old(text)@ + rest).push(c) =~= old(text)@ + rest.push(c));
        } else {
            assert(mid == old(text)@);
            assert(v % base == v) by (nonlinear_arith)
                requires
                    v < base,
            ;
            assert(digits(v as nat, base as nat) == seq![c]);
            assert(old(text)@.push(c) =~= old(text)@ + seq![c]);
        }
    }
}

/// Returns the number of digits of `v` in `base`.
pub fn count_digits(v: u64, base: u64) -> (count: usize)
    requires
        2 <= base <= 16,
    ensures
        count == digits(v as nat, base as nat).len(),
        1 <= count <= 64,
    decreases v,
{
    if v >= base {
        proof {
            lemma_quotient_smaller(v as nat, base as nat);
            lemma_digit_bound(v / base, base);
        }
        let rest = count_digits(v / base, base);
        rest + 1
    } else {
        1
    }
}

/// A number below `2^64` has 64 digits at most, and one that was divided by
/// the base has 63 at most.
proof fn lemma_digit_bound(v: u64, base: u64)
    requires
        2 <= base <= 16,
        v <= u64::MAX / 2,
    ensures
        digits(v as nat, base as nat).len() <= 63,
{
    vstd::arithmetic::power2::lemma2_to64_rest();
    lemma_digit_count(v as nat, base as nat, 63);
}

/// A number below `2^bits` has `bits` digits at most.
proof fn lemma_digit_count(v: nat, base: nat, bits: nat)
    requires
        2 <= base <= 16,
        bits >= 1,
        v < vstd::arithmetic::power2::pow2(bits),
    ensures
        digits(v, base).len() <= bits,
    decreases v,
{
    vstd::arithmetic::power2::lemma2_to64();
    if v >= base {
        assert(bits >= 2) by {
            if bits == 1 {
                assert(vstd::arithmetic::power2::pow2(1) == 2);
            }
        }
        vstd::arithmetic::power2::lemma_pow2_unfold(bits);
        lemma_quotient_smaller(v, base);
        assert(v / 2 < vstd::arithmetic::power2::pow2((bits - 1) as nat));
        lemma_digit_count(v / base, base, (bits - 1) as nat);
    }
}

/// Appends `count` copies of `fill`.
pub fn push_repeated(text: &mut String, fill: char, count: usize)
    ensures
        final(text)@ == old(text)@ + Seq::new(count as nat, |i: int| fill),
{
    let mut i: usize = 0;
    assert(text@ =~= old(text)@ + Seq::new(0, |i: int| fill));
    while i < count
        invariant
            i <= count,
            text@ == old(text)@ + Seq::new(i as nat, |j: int| fill),
        decreases count - i,
    {
        push_char(text, fill);
        i += 1;
        assert(text@ =~= old(text)@ + Seq::new(i as nat, |j: int| fill));
    }
}

/// Appends the digits of `v` in `base`, with `fill` in front where they are
/// fewer than `width`.
pub fn push_number(text: &mut String, v: u64, base: u64, width: usize, fill: char)
    requires
        2 <= base <= 16,
    ensures
        final(text)@ == old(text)@ + pad_left(digits(v as nat, base as nat), width as int, fill),
{
    let count = count_digits(v, base);
    if count < width {
        push_repeated(text, fill, width - count);
    }
    push_digits(text, v, base);
    assert(text@ =~= old(text)@ + pad_left(digits(v as nat, base as nat), width as int, fill));
}

/// Appends the decimal text of a signed number.
pub fn push_signed(text: &mut String, v: i64)
    ensures
        final(text)@ == old(text)@ + signed_decimal(v as int),
{
    if v < 0 {
        push_char(text, '-');
        let magnitude: u64 = if v == i64::MIN {
            0x8000_0000_0000_0000
        } else {
            (-v) as u64
        };
        push_digits(text, magnitude, 10);
    } else {
        push_digits(text, v as u64, 10);
    }
    assert(text@ =~= old(text)@ + signed_decimal(v as int));
}

/// Appends `s`, with spaces behind where it is shorter than `width`.
pub fn push_padded(text: &mut String, s: &str, width: usize)
    ensures
        final(text)@ == old(text)@ + pad_right(s@, width as int),
{
    text.append(s);
    let len = s.unicode_len();
    if len < width {
        push_repeated(text, ' ', width - len);
    }
    assert(text@ =~= old(text)@ + pad_right(s@, width as int));
}

} // verus!
