//! Decimal and hexadecimal renderings of integers, as ASCII bytes and as
//! characters.

use vstd::prelude::*;

verus! {

/// Decimal digits `0`..`9`.
pub open spec fn decimal_digits() -> Seq<char> {
    "0123456789"@
}

/// Lowercase hexadecimal digits `0`..`f`.
pub open spec fn hex_digits() -> Seq<char> {
    "0123456789abcdef"@
}

/// The decimal rendering of `n` as ASCII bytes, most significant digit
/// first, without leading zeros (`0` renders as a single `0`).
pub open spec fn dec_bytes(n: nat) -> Seq<u8>
    decreases n,
{
    if n < 10 {
        seq![(48 + n) as u8]
    } else {
        dec_bytes(n / 10).push((48 + n % 10) as u8)
    }
}

/// The decimal rendering of `n` as characters.
pub open spec fn dec_chars(n: nat) -> Seq<char>
    decreases n,
{
    if n < 10 {
        seq![decimal_digits()[n as int]]
    } else {
        dec_chars(n / 10).push(decimal_digits()[(n % 10) as int])
    }
}

/// Two lowercase hexadecimal characters per byte, high nibble first.
pub open spec fn hex_chars(bytes: Seq<u8>) -> Seq<char>
    decreases bytes.len(),
{
    if bytes.len() == 0 {
        Seq::empty()
    } else {
        let b = bytes.last();
        hex_chars(bytes.drop_last()).push(hex_digits()[(b / 16) as int]).push(
            hex_digits()[(b % 16) as int],
        )
    }
}

/// Every byte of a decimal rendering is an ASCII digit.
pub proof fn lemma_dec_bytes_are_digits(n: nat)
    ensures
        dec_bytes(n).len() >= 1,
        forall|i: int| 0 <= i < dec_bytes(n).len() ==> 48 <= #[trigger] dec_bytes(n)[i] <= 57,
    decreases n,
{
    if n >= 10 {
        lemma_dec_bytes_are_digits(n / 10);
    }
}

/// The hexadecimal rendering has exactly two characters per byte, each of
/// them a lowercase hexadecimal digit.
pub proof fn lemma_hex_chars_shape(bytes: Seq<u8>)
    ensures
        hex_chars(bytes).len() == 2 * bytes.len(),
        forall|i: int|
            0 <= i < hex_chars(bytes).len() ==> hex_digits().contains(#[trigger] hex_chars(bytes)[i]),
    decreases bytes.len(),
{
    reveal_strlit("0123456789abcdef");
    if bytes.len() > 0 {
        lemma_hex_chars_shape(bytes.drop_last());
        let b = bytes.last();
        let prev = hex_chars(bytes.drop_last());
        let hi = hex_digits()[(b / 16) as int];
        let lo = hex_digits()[(b % 16) as int];
        assert(hex_digits()[(b / 16) as int] == hi);
        assert(hex_digits()[(b % 16) as int] == lo);
        assert forall|i: int|
            0 <= i < hex_chars(bytes).len() implies hex_digits().contains(
            #[trigger] hex_chars(bytes)[i],
        ) by {
            if i < prev.len() {
                assert(hex_chars(bytes)[i] == prev[i]);
            } else if i == prev.len() {
                assert(hex_chars(bytes)[i] == hi);
            } else {
                assert(hex_chars(bytes)[i] == lo);
            }
        }
    }
}

/// The number that a string of ASCII decimal digits denotes, most
/// significant digit first.
pub open spec fn digits_value(s: Seq<u8>) -> int
    decreases s.len(),
{
    if s.len() == 0 {
        0
    } else {
        digits_value(s.drop_last()) * 10 + (s.last() - 48)
    }
}

/// `dec_bytes(n)` is the decimal numeral of `n`: ASCII digits `0`..`9` that
/// read back as `n`, with no leading zero (zero itself is the single digit
/// `0`). A numeral with these three properties is unique, so no other digit
/// string could take its place.
pub proof fn lemma_dec_bytes_is_numeral(n: nat)
    ensures
        digits_value(dec_bytes(n)) == n,
        dec_bytes(n).len() >= 1,
        forall|i: int| 0 <= i < dec_bytes(n).len() ==> 48 <= #[trigger] dec_bytes(n)[i] <= 57,
        dec_bytes(n)[0] == 48 <==> n == 0,
        n == 0 ==> dec_bytes(n) == seq![48u8],
    decreases n,
{
    lemma_dec_bytes_are_digits(n);
    if n >= 10 {
        lemma_dec_bytes_is_numeral(n / 10);
        let prefix = dec_bytes(n / 10);
        assert(dec_bytes(n).drop_last() =~= prefix);
        assert(dec_bytes(n)[0] == prefix[0]);
        assert(dec_bytes(n).last() == (48 + n % 10) as u8);
        assert(((48 + n % 10) as u8) as int == 48 + n % 10);
        assert((n / 10) * 10 + n % 10 == n);
        assert(digits_value(dec_bytes(n)) == digits_value(prefix) * 10 + (n % 10));
    } else {
        assert(dec_bytes(n).drop_last() =~= Seq::<u8>::empty());
        assert(((48 + n) as u8) as int == 48 + n);
        assert(digits_value(dec_bytes(n)) == digits_value(Seq::<u8>::empty()) * 10 + n);
    }
}

/// The character rendering is the byte rendering, character for character:
/// `dec_chars(n)[i]` is the ASCII character `dec_bytes(n)[i]`.
pub proof fn lemma_dec_chars_match_bytes(n: nat)
    ensures
        dec_chars(n).len() == dec_bytes(n).len(),
        forall|i: int|
            0 <= i < dec_chars(n).len() ==> #[trigger] dec_chars(n)[i] == (dec_bytes(n)[i] as char),
    decreases n,
{
    reveal_strlit("0123456789");
    assert(decimal_digits() =~= seq!['0', '1', '2', '3', '4', '5', '6', '7', '8', '9']);
    assert forall|d: int| 0 <= d < 10 implies #[trigger] decimal_digits()[d] == ((48 + d) as u8
        as char) by {
        assert(decimal_digits()[d] == seq!['0', '1', '2', '3', '4', '5', '6', '7', '8', '9'][d]);
    }
    if n >= 10 {
        lemma_dec_chars_match_bytes(n / 10);
        assert(decimal_digits()[(n % 10) as int] == ((48 + n % 10) as u8 as char));
    } else {
        assert(decimal_digits()[n as int] == ((48 + n) as u8 as char));
    }
}

/// The numeric value of a lowercase hexadecimal digit character.
pub open spec fn hex_digit_value(c: char) -> int {
    if '0' <= c <= '9' {
        c as int - '0' as int
    } else {
        c as int - 'a' as int + 10
    }
}

/// Every byte is rendered as two lowercase hexadecimal digits (`0`-`9`,
/// `a`-`f`) that read back as the byte: high digit * 16 + low digit.
pub proof fn lemma_hex_chars_read_back(bytes: Seq<u8>, i: int)
    requires
        0 <= i < bytes.len(),
    ensures
        hex_chars(bytes).len() == 2 * bytes.len(),
        ('0' <= hex_chars(bytes)[2 * i] <= '9' || 'a' <= hex_chars(bytes)[2 * i] <= 'f'),
        ('0' <= hex_chars(bytes)[2 * i + 1] <= '9' || 'a' <= hex_chars(bytes)[2 * i + 1] <= 'f'),
        hex_digit_value(hex_chars(bytes)[2 * i]) * 16 + hex_digit_value(hex_chars(bytes)[2 * i + 1])
            == bytes[i],
    decreases bytes.len(),
{
    reveal_strlit("0123456789abcdef");
    lemma_hex_chars_shape(bytes);
    let digits = seq!['0', '1', '2', '3', '4', '5', '6', '7', '8', '9', 'a', 'b', 'c', 'd', 'e', 'f'];
    assert(hex_digits() =~= digits);
    assert forall|d: int| 0 <= d < 16 implies {
        &&& ('0' <= #[trigger] hex_digits()[d] <= '9' || 'a' <= hex_digits()[d] <= 'f')
        &&& hex_digit_value(hex_digits()[d]) == d
    } by {
        assert(hex_digits()[d] == digits[d]);
    }
    let k = bytes.len() - 1;
    if i < k {
        lemma_hex_chars_read_back(bytes.drop_last(), i);
        lemma_hex_chars_shape(bytes.drop_last());
        assert(hex_chars(bytes)[2 * i] == hex_chars(bytes.drop_last())[2 * i]);
        assert(hex_chars(bytes)[2 * i + 1] == hex_chars(bytes.drop_last())[2 * i + 1]);
    } else {
        lemma_hex_chars_shape(bytes.drop_last());
        let b = bytes.last();
        assert(hex_chars(bytes)[2 * i] == hex_digits()[(b / 16) as int]);
        assert(hex_chars(bytes)[2 * i + 1] == hex_digits()[(b % 16) as int]);
        assert((b / 16) * 16 + b % 16 == b);
    }
}

/// Appends the decimal rendering of `n` to `out`.
pub fn push_decimal(out: &mut Vec<u8>, n: u64)
    ensures
        final(out)@ == old(out)@ + dec_bytes(n as nat),
    decreases n,
{
    if n < 10 {
        out.push((48 + n) as u8);
        assert(old(out)@ + dec_bytes(n as nat) =~= old(out)@.push((48 + n) as u8));
    } else {
        push_decimal(out, n / 10);
        out.push((48 + n % 10) as u8);
        assert(old(out)@ + dec_bytes(n as nat) =~= old(out)@ + dec_bytes((n / 10) as nat) + seq![
            (48 + n % 10) as u8,
        ]);
    }
}

/// Appends the character `digits[d]` to `s`.
fn append_digit(s: &mut String, digits: &str, d: usize)
    requires
        d < digits@.len() <= 16,
    ensures
        final(s)@ == old(s)@.push(digits@[d as int]),
{
    let one = digits.substring_char(d, d + 1);
    s.append(one);
    assert(one@ =~= seq![digits@[d as int]]);
}

/// Appends the decimal rendering of `n` to `s`.
pub fn append_decimal(s: &mut String, n: u64)
    ensures
        final(s)@ == old(s)@ + dec_chars(n as nat),
    decreases n,
{
    let digits = "0123456789";
    proof {
        reveal_strlit("0123456789");
    }
    if n < 10 {
        append_digit(s, digits, n as usize);
        assert(old(s)@ + dec_chars(n as nat) =~= old(s)@.push(decimal_digits()[n as int]));
    } else {
        append_decimal(s, n / 10);
        let ghost mid = s@;
        append_digit(s, digits, (n % 10) as usize);
        assert(old(s)@ + dec_chars(n as nat) =~= mid.push(decimal_digits()[(n % 10) as int]));
    }
}

/// The lowercase hexadecimal rendering of `bytes`.
pub fn hex_string(bytes: &[u8]) -> (s: String)
    ensures
        s@ == hex_chars(bytes@),
{
    let digits = "0123456789abcdef";
    proof {
        reveal_strlit("0123456789abcdef");
    }
    let mut s = String::new();
    let mut i: usize = 0;
    while i < bytes.len()
        invariant
            i <= bytes@.len(),
            digits@ == hex_digits(),
            digits@.len() == 16,
            s@ == hex_chars(bytes@.take(i as int)),
        decreases bytes@.len() - i,
    {
        let b = bytes[i];
        append_digit(&mut s, digits, (b / 16) as usize);
        append_digit(&mut s, digits, (b % 16) as usize);
        let ghost next = bytes@.take(i + 1);
        assert(next.drop_last() =~= bytes@.take(i as int));
        assert(next.last() == b);
        i = i + 1;
    }
    assert(bytes@.take(bytes@.len() as int) =~= bytes@);
    s
}

} // verus!
