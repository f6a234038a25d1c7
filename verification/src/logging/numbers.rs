//! Numbers as text.

use vstd::prelude::*;

verus! {

/// The decimal digits of a number, as ASCII.
pub open spec fn decimal(n: nat) -> Seq<u8>
    decreases n,
{
    if n < 10 {
        seq![(48 + n) as u8]
    } else {
        decimal(n / 10).push((48 + n % 10) as u8)
    }
}

/// The number that some decimal digits stand for.
pub open spec fn number(digits: Seq<u8>) -> int
    decreases digits.len(),
{
    if digits.len() == 0 {
        0
    } else {
        number(digits.drop_last()) * 10 + (digits.last() - 48)
    }
}

/// The decimal digits of a number, without leading zeros.
pub fn u64_to_decimal(value: u64) -> (digits: Vec<u8>)
    ensures
        digits@ == decimal(value as nat),
{
    let mut rev: Vec<u8> = Vec::new();
    let mut v: u64 = value;
    while v >= 10
        invariant
            decimal(value as nat) == decimal(v as nat) + rev@.reverse(),
        decreases v,
    {
        let ghost before = rev@;
        rev.push((48 + v % 10) as u8);
        assert(rev@.reverse() =~= seq![(48 + v % 10) as u8] + before.reverse());
        assert(decimal(v as nat) + before.reverse() =~= decimal((v / 10) as nat) + rev@.reverse());
        v = v / 10;
    }
    let mut digits: Vec<u8> = Vec::new();
    digits.push((48 + v) as u8);
    let mut i: usize = rev.len();
    assert(digits@ + rev@.take(i as int).reverse() =~= decimal(value as nat)) by {
        assert(rev@.take(i as int) =~= rev@);
    }
    while i > 0
        invariant
            i <= rev@.len(),
            digits@ + rev@.take(i as int).reverse() == decimal(value as nat),
        decreases i,
    {
        i -= 1;
        let ghost before = digits@;
        digits.push(rev[i]);
        assert(before + rev@.take(i + 1).reverse() =~= digits@ + rev@.take(i as int).reverse());
    }
    assert(digits@ + rev@.take(0).reverse() =~= digits@);
    digits
}

/// The digits of a number stand for the number; there are digits and nothing else, and the
/// first of them is no zero unless it is the only one.
pub proof fn law_decimal_reads_back(n: nat)
    ensures
        number(decimal(n)) == n,
        decimal(n).len() >= 1,
        forall|i: int| 0 <= i < decimal(n).len() ==> 48 <= #[trigger] decimal(n)[i] <= 57,
        n > 0 ==> decimal(n)[0] != 48,
    decreases n,
{
    if n < 10 {
        assert(decimal(n).drop_last() =~= Seq::<u8>::empty());
        assert(number(decimal(n).drop_last()) == 0);
    } else {
        law_decimal_reads_back(n / 10);
        assert(decimal(n).drop_last() =~= decimal(n / 10));
    }
}

/// A hexadecimal digit, as ASCII.
pub open spec fn hex_digit(n: int) -> u8 {
    if n < 10 {
        (48 + n) as u8
    } else {
        (87 + n) as u8
    }
}

/// A power of 16.
pub open spec fn pow16(n: int) -> int
    decreases n,
{
    if n <= 0 {
        1
    } else {
        16 * pow16(n - 1)
    }
}

/// The lowest `count` hexadecimal digits of a number, highest first.
pub open spec fn hex_digits(v: int, count: int) -> Seq<u8>
    decreases count,
{
    if count <= 0 {
        Seq::empty()
    } else {
        hex_digits(v / 16, count - 1).push(hex_digit(v % 16))
    }
}

/// A number in hexadecimal: 16 digits behind `0x`.
pub open spec fn hex(v: u64) -> Seq<u8> {
    seq![48u8, 120u8] + hex_digits(v as int, 16)
}

/// A hexadecimal digit, as ASCII.
fn to_hex_digit(n: u8) -> (c: u8)
    requires
        n < 16,
    ensures
        c == hex_digit(n as int),
{
    if n < 10 {
        48 + n
    } else {
        87 + n
    }
}

/// Appends a number in hexadecimal.
pub fn write_hex_u64(out: &mut Vec<u8>, v: u64)
    ensures
        final(out)@ == old(out)@ + hex(v),
{
    let mut rev: Vec<u8> = Vec::new();
    let mut rest: u64 = v;
    let mut n: usize = 0;
    while n < 16
        invariant
            n <= 16,
            hex_digits(v as int, 16) == hex_digits(rest as int, 16 - n) + rev@.reverse(),
            rev@.len() == n,
        decreases 16 - n,
    {
        let ghost before = rev@;
        rev.push(to_hex_digit((rest % 16) as u8));
        assert(rev@.reverse() =~= seq![hex_digit(rest as int % 16)] + before.reverse());
        assert(hex_digits(rest as int, 16 - n) + before.reverse() =~= hex_digits(
            rest as int / 16,
            16 - n - 1,
        ) + rev@.reverse());
        rest = rest / 16;
        n += 1;
    }
    assert(hex_digits(v as int, 16) =~= rev@.reverse());
    out.push(48);
    out.push(120);
    let ghost head = out@;
    assert(head =~= old(out)@ + seq![48u8, 120u8]);
    let mut i: usize = 16;
    while i > 0
        invariant
            i <= 16,
            rev@.len() == 16,
            out@ == head + rev@.reverse().take(16 - i),
        decreases i,
    {
        i -= 1;
        out.push(rev[i]);
        assert(rev@.reverse().take(16 - i) =~= rev@.reverse().take(16 - i - 1).push(
            rev@[i as int],
        ));
    }
    assert(rev@.reverse().take(16) =~= rev@.reverse());
    assert(out@ =~= old(out)@ + hex(v));
}

/// The value of a hexadecimal digit.
pub open spec fn hex_value(c: u8) -> int {
    if c < 58 {
        c - 48
    } else {
        c - 87
    }
}

/// The number that some hexadecimal digits stand for.
pub open spec fn hex_number(digits: Seq<u8>) -> int
    decreases digits.len(),
{
    if digits.len() == 0 {
        0
    } else {
        hex_number(digits.drop_last()) * 16 + hex_value(digits.last())
    }
}

proof fn lemma_hex_digits_read_back(v: int, count: int)
    requires
        0 <= v < pow16(count),
    ensures
        hex_number(hex_digits(v, count)) == v,
        hex_digits(v, count).len() == (if count > 0 { count } else { 0 }),
    decreases count,
{
    if count > 0 {
        assert(v / 16 < pow16(count - 1));
        lemma_hex_digits_read_back(v / 16, count - 1);
        assert(hex_digits(v, count).drop_last() =~= hex_digits(v / 16, count - 1));
    }
}

/// The digits behind `0x` stand for the number, and there are always 16.
pub proof fn law_hex_reads_back(v: u64)
    ensures
        hex(v).len() == 18,
        hex_number(hex(v).skip(2)) == v,
{
    assert(pow16(16) == 0x1_0000_0000_0000_0000) by {
        reveal_with_fuel(pow16, 17);
    }
    lemma_hex_digits_read_back(v as int, 16);
    assert(hex(v).skip(2) =~= hex_digits(v as int, 16));
}

} // verus!
