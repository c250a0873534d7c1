//! Hexadecimal text for byte strings.

use crate::le::{
    le_value, lemma_le_value_bound, lemma_le_value_order, lemma_le_value_step,
    lemma_le_value_zero, lemma_pow256, pow256,
};
use vstd::arithmetic::div_mod::{lemma_fundamental_div_mod, lemma_fundamental_div_mod_converse};
use vstd::prelude::*;
use vstd::std_specs::iter::IteratorSpec;

verus! {

/// The value of a hexadecimal digit of either case, if `c` is one.
pub open spec fn digit_value(c: char) -> Option<u8> {
    let n = c as u32;
    if 0x30 <= n <= 0x39 {
        Some((n - 0x30) as u8)
    } else if 0x61 <= n <= 0x66 {
        Some((n - 0x61 + 10) as u8)
    } else if 0x41 <= n <= 0x46 {
        Some((n - 0x41 + 10) as u8)
    } else {
        None
    }
}

/// The byte spelled by the `i`-th pair of characters of `text`, if that
/// pair exists and both of its characters are hexadecimal digits.
pub open spec fn pair_at(text: Seq<char>, i: int) -> Option<u8> {
    if 0 <= i && 2 * i + 1 < text.len() {
        match (digit_value(text[2 * i]), digit_value(text[2 * i + 1])) {
            (Some(high), Some(low)) => Some((high * 16 + low) as u8),
            _ => None,
        }
    } else {
        None
    }
}

/// The number of leading pairs of `text`, out of the first `limit`, that
/// spell a byte without interruption.
pub open spec fn leading_pairs(text: Seq<char>, limit: nat) -> nat
    decreases limit,
{
    if limit == 0 {
        0
    } else {
        let before = leading_pairs(text, (limit - 1) as nat);
        if before == limit - 1 && pair_at(text, before as int) is Some {
            limit
        } else {
            before
        }
    }
}

/// `text` is exactly `n` pairs of hexadecimal digits.
pub open spec fn spells(text: Seq<char>, n: nat) -> bool {
    &&& text.len() == 2 * n
    &&& forall|i: int| 0 <= i < n ==> (#[trigger] pair_at(text, i)) is Some
}

/// The bytes spelled by the pairs of `text`.
pub open spec fn decoded(text: Seq<char>) -> Seq<u8> {
    Seq::new(text.len() / 2, |i: int| pair_at(text, i).unwrap())
}

/// Reads one hexadecimal digit.
pub fn digit(c: char) -> (r: Option<u8>)
    ensures
        r == digit_value(c),
        r matches Some(v) ==> v < 16,
{
    let n: u32 = c as u32;
    if 0x30 <= n && n <= 0x39 {
        Some((n - 0x30) as u8)
    } else if 0x61 <= n && n <= 0x66 {
        Some((n - 0x61 + 10) as u8)
    } else if 0x41 <= n && n <= 0x46 {
        Some((n - 0x41 + 10) as u8)
    } else {
        None
    }
}

/// Once a pair fails to spell a byte, no later limit counts further.
pub proof fn lemma_leading_pairs_stops(text: Seq<char>, at: nat, limit: nat)
    requires
        leading_pairs(text, at) == at,
        pair_at(text, at as int) is None,
        at <= limit,
    ensures
        leading_pairs(text, limit) == at,
    decreases limit,
{
    if limit > at {
        lemma_leading_pairs_stops(text, at, (limit - 1) as nat);
    }
}

/// The first `n` pairs all spell a byte exactly when `leading_pairs`
/// counts them all.
pub proof fn lemma_leading_pairs_all(text: Seq<char>, n: nat)
    ensures
        leading_pairs(text, n) <= n,
        leading_pairs(text, n) == n <==> forall|i: int|
            0 <= i < n ==> (#[trigger] pair_at(text, i)) is Some,
        forall|i: int| 0 <= i < leading_pairs(text, n) ==> (#[trigger] pair_at(text, i)) is Some,
    decreases n,
{
    if n > 0 {
        lemma_leading_pairs_all(text, (n - 1) as nat);
    }
}

/// Decodes `input` into `buf`, two hexadecimal digits per byte, and says
/// whether `input` is exactly that many pairs of digits. Bytes are written
/// in order until the first pair that is missing or is not two digits.
pub fn parse(input: &str, buf: &mut [u8]) -> (ok: bool)
    ensures
        final(buf)@.len() == old(buf)@.len(),
        ok <==> spells(input@, old(buf)@.len()),
        ok ==> final(buf)@ == decoded(input@),
        forall|i: int|
            0 <= i < old(buf)@.len() ==> final(buf)@[i] == if i < leading_pairs(
                input@,
                old(buf)@.len(),
            ) {
                pair_at(input@, i).unwrap()
            } else {
                old(buf)@[i]
            },
{
    broadcast use vstd::string::group_string_axioms;

    let n = buf.len();
    let mut chars = input.chars();
    let mut i: usize = 0;
    while i < n
        invariant
            n == buf@.len(),
            n == old(buf)@.len(),
            i <= n,
            2 * i <= input@.len(),
            chars.remaining() == input@.skip(2 * i),
            leading_pairs(input@, i as nat) == i,
            forall|j: int| 0 <= j < i ==> pair_at(input@, j) == Some(#[trigger] buf@[j]),
            forall|j: int| i <= j < n ==> buf@[j] == old(buf)@[j],
        decreases n - i,
    {
        proof {
            lemma_leading_pairs_all(input@, n as nat);
        }
        let high = match chars.next() {
            Some(c) => c,
            None => {
                proof {
                    lemma_leading_pairs_stops(input@, i as nat, n as nat);
                }
                return false;
            },
        };
        let low = match chars.next() {
            Some(c) => c,
            None => {
                proof {
                    lemma_leading_pairs_stops(input@, i as nat, n as nat);
                }
                return false;
            },
        };
        assert(high == input@[2 * i]);
        assert(low == input@[2 * i + 1]);
        let high = match digit(high) {
            Some(v) => v,
            None => {
                proof {
                    lemma_leading_pairs_stops(input@, i as nat, n as nat);
                }
                return false;
            },
        };
        let low = match digit(low) {
            Some(v) => v,
            None => {
                proof {
                    lemma_leading_pairs_stops(input@, i as nat, n as nat);
                }
                return false;
            },
        };
        buf[i] = low | (high << 4);
        assert(low | (high << 4) == high * 16 + low) by (bit_vector)
            requires
                low < 16,
                high < 16,
        ;
        assert(chars.remaining() == input@.skip(2 * (i + 1)));
        i += 1;
    }
    let rest = chars.next();
    proof {
        lemma_leading_pairs_all(input@, n as nat);
        if rest is None {
            assert(final(buf)@ =~= decoded(input@));
        }
    }
    rest.is_none()
}

/// The lower-case hexadecimal digit for a value below sixteen.
pub open spec fn digit_char(v: u8) -> char {
    if v < 10 {
        (0x30 + v) as u8 as char
    } else {
        (0x61 + (v - 10)) as u8 as char
    }
}

/// The text that spells `bytes`: two lower-case digits per byte, the high
/// half first.
pub open spec fn encoded(bytes: Seq<u8>) -> Seq<char> {
    Seq::new(
        2 * bytes.len(),
        |i: int|
            digit_char(
                if i % 2 == 0 {
                    bytes[i / 2] / 16
                } else {
                    bytes[i / 2] % 16
                },
            ),
    )
}

/// `c` with an upper-case hexadecimal letter replaced by its lower-case form.
pub open spec fn lowered_char(c: char) -> char {
    let n = c as u32;
    if 0x41 <= n <= 0x46 {
        (n + 0x20) as u8 as char
    } else {
        c
    }
}

/// `text` with every upper-case hexadecimal letter in lower case.
pub open spec fn lowered(text: Seq<char>) -> Seq<char> {
    Seq::new(text.len(), |i: int| lowered_char(text[i]))
}

/// `String::push` appends one character to the string.
pub assume_specification[ String::push ](s: &mut String, c: char)
    ensures
        final(s)@ == old(s)@.push(c),
;

/// Writes one value below sixteen as a lower-case hexadecimal digit.
pub fn digit_to_char(v: u8) -> (c: char)
    requires
        v < 16,
    ensures
        c == digit_char(v),
        digit_value(c) == Some(v),
{
    if v < 10 {
        (0x30 + v) as char
    } else {
        (0x61 + (v - 10)) as char
    }
}

/// Renders `buf` as text, two lower-case hexadecimal digits per byte.
pub fn render(buf: &[u8]) -> (text: String)
    ensures
        text@ == encoded(buf@),
{
    let mut text = String::new();
    let mut i: usize = 0;
    while i < buf.len()
        invariant
            i <= buf@.len(),
            text@ == encoded(buf@.take(i as int)),
        decreases buf@.len() - i,
    {
        let byte = buf[i];
        text.push(digit_to_char(byte / 16));
        text.push(digit_to_char(byte % 16));
        assert(text@ =~= encoded(buf@.take(i + 1)));
        i += 1;
    }
    assert(buf@.take(i as int) =~= buf@);
    text
}

/// Rendering and then parsing gives the bytes back.
pub proof fn lemma_parse_of_render(bytes: Seq<u8>)
    ensures
        spells(encoded(bytes), bytes.len()),
        decoded(encoded(bytes)) == bytes,
{
    let text = encoded(bytes);
    assert forall|i: int| 0 <= i < bytes.len() implies (#[trigger] pair_at(text, i)) == Some(
        bytes[i],
    ) by {
        let b = bytes[i];
        assert(text[2 * i] == digit_char(b / 16));
        assert(text[2 * i + 1] == digit_char(b % 16));
        assert(digit_value(digit_char(b / 16)) == Some(b / 16));
        assert(digit_value(digit_char(b % 16)) == Some(b % 16));
    }
    assert(decoded(text) =~= bytes);
}

/// Parsing and then rendering gives the text back in lower case.
pub proof fn lemma_render_of_parse(text: Seq<char>, n: nat)
    requires
        spells(text, n),
    ensures
        decoded(text).len() == n,
        encoded(decoded(text)) == lowered(text),
{
    let bytes = decoded(text);
    assert forall|k: int| 0 <= k < text.len() implies encoded(bytes)[k] == lowered(text)[k] by {
        let i = k / 2;
        assert(pair_at(text, i) is Some);
        let high = digit_value(text[2 * i]).unwrap();
        let low = digit_value(text[2 * i + 1]).unwrap();
        assert(bytes[i] == high * 16 + low);
        assert(bytes[i] / 16 == high && bytes[i] % 16 == low);
        assert(digit_char(high) == lowered_char(text[2 * i]));
        assert(digit_char(low) == lowered_char(text[2 * i + 1]));
    }
    assert(encoded(bytes) =~= lowered(text));
}

/// Text that holds no upper-case letter is its own lower-case form.
pub proof fn lemma_lowered_fixed(text: Seq<char>)
    requires
        forall|i: int| 0 <= i < text.len() ==> !(0x41 <= (#[trigger] text[i]) as u32 <= 0x46),
    ensures
        lowered(text) == text,
{
    assert(lowered(text) =~= text);
}

/// Doubles the number in `value` and adds `bit`, dropping a carry out of
/// the top byte.
fn shift_in<const N: usize>(value: &mut [u8; N], bit: u8)
    requires
        bit <= 1,
    ensures
        2 * le_value(old(value)@) + bit < pow256(N as nat) ==> le_value(final(value)@) == 2
            * le_value(old(value)@) + bit,
{
    let mut carry: u8 = bit;
    let mut j: usize = 0;
    while j < N
        invariant
            j <= N,
            carry <= 1,
            le_value(value@.take(j as int)) + pow256(j as nat) * carry == 2 * le_value(
                old(value)@.take(j as int),
            ) + bit,
            forall|k: int| j <= k < N ==> value@[k] == old(value)@[k],
        decreases N - j,
    {
        let ghost before = value@;
        let byte = value[j];
        let shifted = (byte << 1) | carry;
        let out = byte >> 7;
        assert(shifted as int + 256 * (out as int) == 2 * (byte as int) + carry as int && out <= 1)
            by (bit_vector)
            requires
                shifted == (byte << 1) | carry,
                out == byte >> 7,
                carry <= 1,
        ;
        value[j] = shifted;
        proof {
            let p = pow256(j as nat);
            assert(value@.take(j as int) =~= before.take(j as int));
            lemma_le_value_step(value@, j as int);
            lemma_le_value_step(old(value)@, j as int);
            assert(pow256((j + 1) as nat) == 256 * p);
            assert(p * (shifted as nat) + (256 * p) * (out as nat) == 2 * (p * (byte as nat)) + p
                * (carry as nat)) by (nonlinear_arith)
                requires
                    shifted as int + 256 * (out as int) == 2 * (byte as int) + carry as int,
            ;
        }
        carry = out;
        j += 1;
    }
    proof {
        assert(value@.take(N as int) =~= value@);
        assert(old(value)@.take(N as int) =~= old(value)@);
        lemma_pow256(N as nat, 0);
        if carry == 1 {
            assert(pow256(N as nat) * 1 == pow256(N as nat));
        } else {
            assert(pow256(N as nat) * 0 == 0);
        }
    }
}

/// Compares two numbers of the same width.
fn at_least<const N: usize>(a: &[u8; N], b: &[u8; N]) -> (r: bool)
    ensures
        r == (le_value(a@) >= le_value(b@)),
{
    let mut j: usize = N;
    while j > 0
        invariant
            j <= N,
            forall|k: int| j <= k < N ==> a@[k] == b@[k],
        decreases j,
    {
        j -= 1;
        if a[j] != b[j] {
            proof {
                if a[j as int] < b[j as int] {
                    lemma_le_value_order(a@, b@, j as int);
                } else {
                    lemma_le_value_order(b@, a@, j as int);
                }
            }
            return a[j] > b[j];
        }
    }
    assert(a@ =~= b@);
    true
}

/// Takes `amount` away from the number in `value`.
fn subtract<const N: usize>(value: &mut [u8; N], amount: &[u8; N])
    requires
        le_value(old(value)@) >= le_value(amount@),
    ensures
        le_value(final(value)@) == le_value(old(value)@) - le_value(amount@),
{
    let mut borrow: u16 = 0;
    let mut j: usize = 0;
    while j < N
        invariant
            j <= N,
            borrow <= 1,
            le_value(value@.take(j as int)) + le_value(amount@.take(j as int)) == le_value(
                old(value)@.take(j as int),
            ) + pow256(j as nat) * borrow,
            forall|k: int| j <= k < N ==> value@[k] == old(value)@[k],
        decreases N - j,
    {
        let ghost before = value@;
        let have: u16 = value[j] as u16;
        let take: u16 = amount[j] as u16 + borrow;
        let (left, out): (u8, u16) = if have >= take {
            ((have - take) as u8, 0)
        } else {
            ((256 + have - take) as u8, 1)
        };
        value[j] = left;
        proof {
            let p = pow256(j as nat);
            assert(value@.take(j as int) =~= before.take(j as int));
            lemma_le_value_step(value@, j as int);
            lemma_le_value_step(old(value)@, j as int);
            lemma_le_value_step(amount@, j as int);
            assert(pow256((j + 1) as nat) == 256 * p);
            assert(p * (left as nat) + p * (amount@[j as int] as nat) + p * (borrow as nat) == p * (
            have as nat) + (256 * p) * (out as nat)) by (nonlinear_arith)
                requires
                    left as int + amount@[j as int] as int + borrow as int == have as int + 256 * (
                    out as int),
            ;
        }
        borrow = out;
        j += 1;
    }
    proof {
        assert(value@.take(N as int) =~= value@);
        assert(old(value)@.take(N as int) =~= old(value)@);
        assert(amount@.take(N as int) =~= amount@);
        lemma_le_value_bound(value@);
        if borrow == 1 {
            assert(pow256(N as nat) * 1 == pow256(N as nat));
        } else {
            assert(pow256(N as nat) * 0 == 0);
        }
    }
}

/// The bits of `byte` above the lowest `taken`.
spec fn bits_above(byte: u8, taken: u8) -> u8 {
    if taken >= 8 {
        0
    } else {
        byte >> taken
    }
}

/// The weight of the lowest bit of `bits_above(_, taken)` once the bits
/// of a byte down to `taken` have gone by.
spec fn weight_above(taken: u8) -> nat {
    if taken >= 8 {
        1
    } else if taken == 7 {
        2
    } else if taken == 6 {
        4
    } else if taken == 5 {
        8
    } else if taken == 4 {
        16
    } else if taken == 3 {
        32
    } else if taken == 2 {
        64
    } else if taken == 1 {
        128
    } else {
        256
    }
}

/// One step of long division: the next bit of the dividend comes in.
proof fn lemma_division_step(p: nat, d: nat, bit: nat)
    requires
        d > 0,
        bit <= 1,
    ensures
        2 * (p % d) + bit >= d ==> (2 * p + bit) / d == 2 * (p / d) + 1 && (2 * p + bit) % d == 2
            * (p % d) + bit - d,
        2 * (p % d) + bit < d ==> (2 * p + bit) / d == 2 * (p / d) && (2 * p + bit) % d == 2 * (p
            % d) + bit,
{
    let q = p / d;
    let r = p % d;
    lemma_fundamental_div_mod(p as int, d as int);
    assert(0 <= r < d);
    assert(p == d * q + r);
    if 2 * r + bit >= d {
        assert(2 * p + bit == (2 * q + 1) * d + (2 * r + bit - d)) by (nonlinear_arith)
            requires
                p == d * q + r,
        ;
        lemma_fundamental_div_mod_converse(
            (2 * p + bit) as int,
            d as int,
            (2 * q + 1) as int,
            (2 * r + bit - d) as int,
        );
    } else {
        assert(2 * p + bit == (2 * q) * d + (2 * r + bit)) by (nonlinear_arith)
            requires
                p == d * q + r,
        ;
        lemma_fundamental_div_mod_converse(
            (2 * p + bit) as int,
            d as int,
            (2 * q) as int,
            (2 * r + bit) as int,
        );
    }
}

/// Long division of two numbers of `N` bytes, least significant byte
/// first, bit by bit from the most significant bit of the dividend down.
///
/// A divisor of zero leaves the dividend as the remainder and a quotient
/// of all ones.
pub fn divide_le<const N: usize>(
    dividend: &[u8; N],
    divisor: &[u8; N],
    quotient: &mut [u8; N],
    remainder: &mut [u8; N],
)
    ensures
        le_value(divisor@) > 0 ==> le_value(final(quotient)@) == le_value(dividend@) / le_value(
            divisor@,
        ) && le_value(final(remainder)@) == le_value(dividend@) % le_value(divisor@),
        le_value(divisor@) == 0 ==> le_value(final(quotient)@) == pow256(N as nat) - 1 && le_value(
            final(remainder)@,
        ) == le_value(dividend@),
        le_value(divisor@) > 0 ==> le_value(final(remainder)@) < le_value(divisor@) && le_value(
            dividend@,
        ) == le_value(final(quotient)@) * le_value(divisor@) + le_value(final(remainder)@),
{
    let mut i: usize = 0;
    while i < N
        invariant
            i <= N,
            forall|k: int| 0 <= k < i ==> remainder@[k] == 0 && quotient@[k] == 0,
        decreases N - i,
    {
        remainder[i] = 0;
        quotient[i] = 0;
        i += 1;
    }
    let ghost d = le_value(divisor@);
    let ghost mut p: nat = 0;
    let ghost mut weight: nat = 1;
    proof {
        lemma_le_value_zero(remainder@);
        lemma_le_value_zero(quotient@);
        assert(dividend@.skip(N as int).len() == 0);
        lemma_pow256(N as nat, 0);
        if d > 0 {
            lemma_fundamental_div_mod_converse(0, d as int, 0, 0);
        }
    }
    let mut j: usize = N;
    while j > 0
        invariant
            j <= N,
            d == le_value(divisor@),
            p == le_value(dividend@.skip(j as int)),
            weight == pow256((N - j) as nat),
            p < weight,
            d > 0 ==> le_value(quotient@) == p / d && le_value(remainder@) == p % d,
            d == 0 ==> le_value(quotient@) == weight - 1 && le_value(remainder@) == p,
        decreases j,
    {
        j -= 1;
        let byte = dividend[j];
        let ghost top = p;
        let ghost base = weight;
        let ghost mut scale: nat = 1;
        proof {
            lemma_pow256((N - j - 1) as nat, 1);
            lemma_pow256(1, 0);
            lemma_pow256((N - j) as nat, j as nat);
            lemma_pow256(j as nat, 0);
            assert(pow256(1) == 256);
            assert(pow256((N - j) as nat) == base * 256);
            assert(base * 256 <= pow256(N as nat)) by (nonlinear_arith)
                requires
                    pow256(N as nat) == (base * 256) * pow256(j as nat),
                    pow256(j as nat) > 0,
                    base > 0,
            ;
            assert(top * 1 + 0 == top);
            assert(base * 1 == base);
        }
        let mut b: u8 = 8;
        while b > 0
            invariant
                b <= 8,
                j < N,
                byte == dividend@[j as int],
                d == le_value(divisor@),
                base == pow256((N - j - 1) as nat),
                base * 256 <= pow256(N as nat),
                base > 0,
                scale == weight_above(b),
                weight == base * scale,
                p == top * scale + bits_above(byte, b),
                p < weight,
                d > 0 ==> le_value(quotient@) == p / d && le_value(remainder@) == p % d,
                d == 0 ==> le_value(quotient@) == weight - 1 && le_value(remainder@) == p,
            decreases b,
        {
            b -= 1;
            let bit = (byte >> b) & 1;
            assert(bit <= 1 && bits_above(byte, b) == 2 * bits_above(byte, (b + 1) as u8) + bit)
                by (bit_vector)
                requires
                    b < 8,
                    bit == (byte >> b) & 1,
            ;
            let ghost q0 = le_value(quotient@);
            let ghost r0 = le_value(remainder@);
            proof {
                lemma_le_value_bound(remainder@);
                lemma_le_value_bound(quotient@);
                if d > 0 {
                    lemma_fundamental_div_mod(p as int, d as int);
                    assert(d * (p / d) >= p / d) by (nonlinear_arith)
                        requires
                            d > 0,
                            p / d >= 0,
                    ;
                    lemma_division_step(p, d, bit as nat);
                }
                assert(q0 < weight && r0 < weight);
                assert(2 * weight <= pow256(N as nat)) by (nonlinear_arith)
                    requires
                        weight == base * scale,
                        scale <= 128,
                        base * 256 <= pow256(N as nat),
                        base > 0,
                ;
                assert(top * (2 * scale) + (2 * bits_above(byte, (b + 1) as u8) + bit) == 2 * (top
                    * scale + bits_above(byte, (b + 1) as u8)) + bit) by (nonlinear_arith);
                assert(base * (2 * scale) == 2 * (base * scale)) by (nonlinear_arith);
            }
            shift_in(remainder, bit);
            shift_in(quotient, 0);
            if at_least(remainder, divisor) {
                let ghost q1 = quotient@;
                quotient[0] = quotient[0] | 1;
                assert(quotient@[0] == q1[0] + 1) by {
                    let low = q1[0];
                    assert(le_value(q1) == low as nat + 256 * le_value(q1.skip(1)));
                    assert(low % 2 == 0) by {
                        assert((low as nat + 256 * le_value(q1.skip(1))) % 2 == 0nat ==> low % 2
                            == 0) by (nonlinear_arith);
                        assert((2 * q0) % 2 == 0) by (nonlinear_arith);
                    }
                    assert(low % 2 == 0 ==> low | 1 == low + 1) by (bit_vector);
                }
                proof {
                    assert(quotient@.skip(1) =~= q1.skip(1));
                }
                subtract(remainder, divisor);
            }
            proof {
                p = 2 * p + bit as nat;
                scale = 2 * scale;
                weight = 2 * weight;
            }
        }
        proof {
            assert(bits_above(byte, 0) == byte) by (bit_vector);
            assert(dividend@.skip(j as int).skip(1) =~= dividend@.skip(j + 1));
            assert(top * 256 == 256 * top) by (nonlinear_arith);
        }
    }
    proof {
        assert(dividend@.skip(0) =~= dividend@);
        if d > 0 {
            lemma_fundamental_div_mod(p as int, d as int);
            assert(d * (p / d) == (p / d) * d) by (nonlinear_arith);
            assert(p % d < d) by (nonlinear_arith)
                requires
                    d > 0,
            ;
        }
    }
}

} // verus!
