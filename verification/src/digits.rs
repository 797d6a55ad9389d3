//! Decimal and hexadecimal renderings of integers, as `format!` writes them.
use vstd::prelude::*;

verus! {

/// The ASCII digit for `d` in base 16, lower case (`0`-`9`, `a`-`f`).
pub open spec fn hex_digit(d: nat) -> char {
    if d < 10 {
        (('0' as nat) + d) as char
    } else {
        (('a' as nat) + d - 10) as char
    }
}

/// `n` in decimal without leading zeros (`format!("{n}")`).
pub open spec fn decimal(n: nat) -> Seq<char>
    decreases n,
{
    if n < 10 {
        seq![hex_digit(n)]
    } else {
        decimal(n / 10).push(hex_digit(n % 10))
    }
}

/// `n` in lower-case hexadecimal without leading zeros (`format!("{n:x}")`).
pub open spec fn hex(n: nat) -> Seq<char>
    decreases n,
{
    if n < 16 {
        seq![hex_digit(n)]
    } else {
        hex(n / 16).push(hex_digit(n % 16))
    }
}

/// One byte as exactly two lower-case hex digits (`format!("{b:02x}")`).
pub open spec fn hex_byte(b: u8) -> Seq<char> {
    seq![hex_digit((b / 16) as nat), hex_digit((b % 16) as nat)]
}

/// Bytes as lower-case hex, two digits per byte, in order.
pub open spec fn hex_bytes(bytes: Seq<u8>) -> Seq<char>
    decreases bytes.len(),
{
    if bytes.len() == 0 {
        Seq::empty()
    } else {
        hex_bytes(bytes.drop_last()) + hex_byte(bytes.last())
    }
}

/// The digit for `d` (< 16).
pub fn hex_digit_exec(d: u8) -> (c: char)
    requires
        d < 16,
    ensures
        c == hex_digit(d as nat),
{
    if d < 10 {
        ((48u8 + d) as char)
    } else {
        ((87u8 + d) as char)
    }
}

/// Every character of a decimal rendering is an ASCII digit.
pub proof fn lemma_decimal_digits(n: nat)
    ensures
        forall|i: int| 0 <= i < decimal(n).len() ==> '0' <= #[trigger] decimal(n)[i] <= '9',
        decimal(n).len() >= 1,
        n < 10 <==> decimal(n).len() == 1,
    decreases n,
{
    if n >= 10 {
        lemma_decimal_digits(n / 10);
    }
}

/// The digit characters stand for their values.
pub proof fn lemma_hex_digit_value(d: nat)
    requires
        d < 16,
    ensures
        d < 10 ==> hex_digit(d) as nat == 48 + d,
        d >= 10 ==> hex_digit(d) as nat == 87 + d,
{
}

/// Distinct numbers have distinct decimal renderings.
pub proof fn lemma_decimal_injective(a: nat, b: nat)
    requires
        decimal(a) == decimal(b),
    ensures
        a == b,
    decreases a,
{
    lemma_decimal_digits(a);
    lemma_decimal_digits(b);
    if a >= 10 && b >= 10 {
        let da = decimal(a);
        let db = decimal(b);
        assert(da.drop_last() == decimal(a / 10));
        assert(db.drop_last() == decimal(b / 10));
        assert(da.last() == db.last());
        lemma_hex_digit_value(a % 10);
        lemma_hex_digit_value(b % 10);
        assert(hex_digit(a % 10) == hex_digit(b % 10));
        assert(a % 10 == b % 10);
        lemma_decimal_injective(a / 10, b / 10);
        assert(a == 10 * (a / 10) + a % 10);
        assert(b == 10 * (b / 10) + b % 10);
    } else if a < 10 && b < 10 {
        assert(decimal(a) == seq![hex_digit(a)]);
        assert(decimal(b) == seq![hex_digit(b)]);
        assert(hex_digit(a) == decimal(a)[0]);
        assert(hex_digit(a) == hex_digit(b));
        lemma_hex_digit_value(a);
        lemma_hex_digit_value(b);
    } else {
        assert(decimal(a).len() == decimal(b).len());
    }
}

/// `decimal(n)` for a machine integer.
pub fn decimal_string(n: u64) -> (out: Vec<char>)
    ensures
        out@ == decimal(n as nat),
    decreases n,
{
    if n < 10 {
        let mut out: Vec<char> = Vec::new();
        out.push(hex_digit_exec(n as u8));
        out
    } else {
        let mut out = decimal_string(n / 10);
        out.push(hex_digit_exec((n % 10) as u8));
        out
    }
}

/// `hex(n)` for a machine integer.
pub fn hex_string(n: u64) -> (out: Vec<char>)
    ensures
        out@ == hex(n as nat),
    decreases n,
{
    if n < 16 {
        let mut out: Vec<char> = Vec::new();
        out.push(hex_digit_exec(n as u8));
        out
    } else {
        let mut out = hex_string(n / 16);
        out.push(hex_digit_exec((n % 16) as u8));
        out
    }
}

/// `hex_bytes(bytes)`.
pub fn hex_encode(bytes: &[u8]) -> (out: Vec<char>)
    ensures
        out@ == hex_bytes(bytes@),
{
    let mut out: Vec<char> = Vec::new();
    let mut i: usize = 0;
    while i < bytes.len()
        invariant
            i <= bytes@.len(),
            out@ == hex_bytes(bytes@.take(i as int)),
        decreases bytes@.len() - i,
    {
        let b = bytes[i];
        assert(bytes@.take(i + 1).drop_last() == bytes@.take(i as int));
        out.push(hex_digit_exec(b / 16));
        out.push(hex_digit_exec(b % 16));
        i = i + 1;
    }
    assert(bytes@.take(bytes@.len() as int) == bytes@);
    out
}

} // verus!
