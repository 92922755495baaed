//! Numbers and bytes as text: decimal digits and lower-case hexadecimal.

use vstd::prelude::*;

verus! {

/// `String::push` of std appends the character to the end of the string.
pub assume_specification[ String::push ](s: &mut String, c: char)
    ensures
        final(s)@ == old(s)@.push(c),
;

/// The character of a decimal digit.
pub open spec fn digit_char(d: nat) -> char {
    (48 + d) as char
}

/// The character of a hexadecimal digit, in lower case.
pub open spec fn hex_char(d: nat) -> char {
    if d < 10 {
        (48 + d) as char
    } else {
        (87 + d) as char
    }
}

/// The decimal digits of `n`, without leading zeros.
pub open spec fn decimal(n: nat) -> Seq<char>
    decreases n,
{
    if n < 10 {
        seq![digit_char(n)]
    } else {
        decimal(n / 10).push(digit_char(n % 10))
    }
}

/// The last `width` decimal digits of `n`, with zeros where `n` has fewer.
pub open spec fn decimal_fixed(n: nat, width: nat) -> Seq<char>
    decreases width,
{
    if width == 0 {
        Seq::empty()
    } else {
        decimal_fixed(n / 10, (width - 1) as nat).push(digit_char(n % 10))
    }
}

/// Two hexadecimal digits for each byte, the high half first.
pub open spec fn hex_chars(bytes: Seq<u8>) -> Seq<char> {
    Seq::new(
        2 * bytes.len(),
        |i: int|
            if i % 2 == 0 {
                hex_char(bytes[i / 2] as nat / 16)
            } else {
                hex_char(bytes[i / 2] as nat % 16)
            },
    )
}

/// The characters of the digits in `digits`, last digit first.
pub open spec fn reversed_digit_chars(digits: Seq<u8>) -> Seq<char> {
    Seq::new(digits.len(), |i: int| digit_char(digits[digits.len() - 1 - i] as nat))
}

/// Append the digits in `digits` to `s`, last digit first.
fn push_reversed_digits(s: &mut String, digits: &Vec<u8>)
    requires
        forall|i: int| 0 <= i < digits@.len() ==> digits@[i] < 10,
    ensures
        final(s)@ == old(s)@ + reversed_digit_chars(digits@),
{
    let mut i: usize = digits.len();
    while i > 0
        invariant
            i <= digits@.len(),
            forall|j: int| 0 <= j < digits@.len() ==> digits@[j] < 10,
            s@ == old(s)@ + reversed_digit_chars(digits@).subrange(0, digits@.len() - i),
        decreases i,
    {
        i -= 1;
        let c = (48 + digits[i]) as char;
        s.push(c);
        assert(s@ =~= old(s)@ + reversed_digit_chars(digits@).subrange(0, digits@.len() - i));
    }
    assert(reversed_digit_chars(digits@).subrange(0, digits@.len() as int) =~= reversed_digit_chars(
        digits@,
    ));
}

/// Append the decimal digits of `n` to `s`.
pub fn push_decimal(s: &mut String, n: u64)
    ensures
        final(s)@ == old(s)@ + decimal(n as nat),
{
    let mut digits: Vec<u8> = Vec::new();
    let mut v: u64 = n;
    while v >= 10
        invariant
            forall|j: int| 0 <= j < digits@.len() ==> digits@[j] < 10,
            decimal(n as nat) == decimal(v as nat) + reversed_digit_chars(digits@),
        decreases v,
    {
        let ghost before = digits@;
        digits.push((v % 10) as u8);
        assert(decimal(v as nat) + reversed_digit_chars(before) =~= decimal((v / 10) as nat)
            + reversed_digit_chars(digits@)) by {
            assert(decimal(v as nat) == decimal((v / 10) as nat).push(
                digit_char((v % 10) as nat),
            ));
            assert(forall|i: int|
                1 <= i < digits@.len() ==> reversed_digit_chars(digits@)[i]
                    == reversed_digit_chars(before)[i - 1]);
        }
        v = v / 10;
    }
    let ghost before = digits@;
    digits.push(v as u8);
    assert(reversed_digit_chars(digits@) =~= decimal(v as nat) + reversed_digit_chars(before)) by {
        assert(forall|i: int|
            1 <= i < digits@.len() ==> reversed_digit_chars(digits@)[i] == reversed_digit_chars(
                before,
            )[i - 1]);
    }
    push_reversed_digits(s, &digits);
}

/// Append the last `width` decimal digits of `n` to `s`, with zeros where
/// `n` has fewer.
pub fn push_decimal_fixed(s: &mut String, n: u64, width: usize)
    ensures
        final(s)@ == old(s)@ + decimal_fixed(n as nat, width as nat),
{
    let mut digits: Vec<u8> = Vec::new();
    let mut v: u64 = n;
    let mut k: usize = 0;
    while k < width
        invariant
            k <= width,
            digits@.len() == k,
            forall|j: int| 0 <= j < digits@.len() ==> digits@[j] < 10,
            decimal_fixed(n as nat, width as nat) == decimal_fixed(v as nat, (width - k) as nat)
                + reversed_digit_chars(digits@),
        decreases width - k,
    {
        let ghost before = digits@;
        digits.push((v % 10) as u8);
        assert(decimal_fixed(v as nat, (width - k) as nat) + reversed_digit_chars(before)
            =~= decimal_fixed((v / 10) as nat, (width - k - 1) as nat) + reversed_digit_chars(
            digits@,
        )) by {
            assert(decimal_fixed(v as nat, (width - k) as nat) == decimal_fixed(
                (v / 10) as nat,
                (width - k - 1) as nat,
            ).push(digit_char((v % 10) as nat)));
            assert(forall|i: int|
                1 <= i < digits@.len() ==> reversed_digit_chars(digits@)[i]
                    == reversed_digit_chars(before)[i - 1]);
        }
        v = v / 10;
        k += 1;
    }
    assert(decimal_fixed(v as nat, 0) + reversed_digit_chars(digits@) =~= reversed_digit_chars(
        digits@,
    ));
    push_reversed_digits(s, &digits);
}

/// `hex::encode` of the hex crate: the bytes as lower-case hexadecimal, two
/// digits for each byte, the high half first.
#[verifier::external_body]
pub(crate) fn hex_encode(bytes: &[u8]) -> (s: String)
    ensures
        s@ == hex_chars(bytes@),
{
    hex::encode(bytes)
}

/// The hexadecimal digits of bytes put one after another are the digits of
/// the first followed by the digits of the second.
pub proof fn lemma_hex_chars_concat(a: Seq<u8>, b: Seq<u8>)
    ensures
        hex_chars(a + b) == hex_chars(a) + hex_chars(b),
{
    assert forall|i: int| 0 <= i < 2 * (a.len() + b.len()) implies hex_chars(a + b)[i] == (
    hex_chars(a) + hex_chars(b))[i] by {
        if i >= 2 * a.len() {
            assert((i - 2 * a.len()) / 2 == i / 2 - a.len());
            assert((i - 2 * a.len()) % 2 == i % 2);
        }
    }
    assert(hex_chars(a + b) =~= hex_chars(a) + hex_chars(b));
}

/// `count` zeros.
pub open spec fn zeros(count: nat) -> Seq<char> {
    Seq::new(count, |i: int| digit_char(0))
}

/// The last digits of zero are zeros.
pub proof fn lemma_decimal_fixed_of_zero(width: nat)
    ensures
        decimal_fixed(0, width) == zeros(width),
    decreases width,
{
    if width > 0 {
        lemma_decimal_fixed_of_zero((width - 1) as nat);
        assert(decimal_fixed(0, width) =~= zeros(width));
    } else {
        assert(decimal_fixed(0, width) =~= zeros(width));
    }
}

/// Where `n` has no more than `width` digits, its last `width` digits are
/// its digits after as many zeros as make up the width.
pub proof fn lemma_decimal_fixed_pads(n: nat, width: nat)
    requires
        decimal(n).len() <= width,
    ensures
        decimal_fixed(n, width) == zeros((width - decimal(n).len()) as nat) + decimal(n),
    decreases width,
{
    if n < 10 {
        lemma_decimal_fixed_of_zero((width - 1) as nat);
        assert(decimal_fixed(n, width) =~= zeros((width - 1) as nat) + decimal(n));
    } else {
        lemma_decimal_fixed_pads(n / 10, (width - 1) as nat);
        assert(decimal_fixed(n, width) =~= zeros((width - decimal(n).len()) as nat) + decimal(n));
    }
}

/// A 64-bit number has at most 20 digits.
pub proof fn lemma_decimal_of_u64(n: u64)
    ensures
        1 <= decimal(n as nat).len() <= 20,
{
    reveal_with_fuel(decimal, 21);
}

} // verus!
