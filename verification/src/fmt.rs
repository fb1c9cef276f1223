use vstd::prelude::*;

verus! {

/// The character of a decimal digit.
pub open spec fn digit_char(d: nat) -> char {
    if d == 0 { '0' } else if d == 1 { '1' } else if d == 2 { '2' } else if d == 3 { '3' }
    else if d == 4 { '4' } else if d == 5 { '5' } else if d == 6 { '6' } else if d == 7 { '7' }
    else if d == 8 { '8' } else { '9' }
}

/// Decimal notation of a natural number, without leading zeros.
pub open spec fn decimal(n: nat) -> Seq<char>
    decreases n,
{
    if n < 10 {
        seq![digit_char(n)]
    } else {
        decimal(n / 10).push(digit_char(n % 10))
    }
}

/// Decimal notation of an integer, with a leading minus sign when negative.
pub open spec fn signed_decimal(v: int) -> Seq<char> {
    if v < 0 {
        seq!['-'] + decimal((-v) as nat)
    } else {
        decimal(v as nat)
    }
}

/// Ten to the power `p`.
pub open spec fn pow10(p: nat) -> nat
    decreases p,
{
    if p == 0 { 1 } else { 10 * pow10((p - 1) as nat) }
}

/// The last `p` decimal digits of `n`, padded with leading zeros.
pub open spec fn padded_digits(n: nat, p: nat) -> Seq<char>
    decreases p,
{
    if p == 0 {
        Seq::empty()
    } else {
        padded_digits(n / 10, (p - 1) as nat).push(digit_char(n % 10))
    }
}

/// Fixed-point notation with `p` fractional digits of the number `v / 10^p`.
pub open spec fn fixed(v: int, p: nat) -> Seq<char> {
    let a: nat = if v < 0 { (-v) as nat } else { v as nat };
    let sign: Seq<char> = if v < 0 { seq!['-'] } else { Seq::empty() };
    sign + decimal(a / pow10(p)) + seq!['.'] + padded_digits(a % pow10(p), p)
}

/// Appends one character to a string (`String::push`).
#[verifier::external_body]
pub(crate) fn push_char(out: &mut String, c: char)
    ensures
        final(out)@ == old(out)@.push(c),
{
    out.push(c)
}

fn digit(d: u128) -> (c: char)
    requires
        d < 10,
    ensures
        c == digit_char(d as nat),
{
    if d == 0 { '0' } else if d == 1 { '1' } else if d == 2 { '2' } else if d == 3 { '3' }
    else if d == 4 { '4' } else if d == 5 { '5' } else if d == 6 { '6' } else if d == 7 { '7' }
    else if d == 8 { '8' } else { '9' }
}

/// Appends the decimal notation of `n`.
pub fn push_decimal(out: &mut String, n: u128)
    ensures
        final(out)@ == old(out)@ + decimal(n as nat),
    decreases n,
{
    if n >= 10 {
        push_decimal(out, n / 10);
    }
    push_char(out, digit(n % 10));
    assert(old(out)@ + decimal(n as nat) =~= if n >= 10 {
        old(out)@ + decimal((n / 10) as nat) + seq![digit_char((n % 10) as nat)]
    } else {
        old(out)@ + seq![digit_char(n as nat)]
    });
}

/// Appends the decimal notation of `v`, with a minus sign when negative.
pub fn push_signed(out: &mut String, v: i128)
    ensures
        final(out)@ == old(out)@ + signed_decimal(v as int),
{
    if v < 0 {
        push_char(out, '-');
        let a: u128 = ((-(v + 1)) as u128) + 1;
        push_decimal(out, a);
        assert(old(out)@ + signed_decimal(v as int) =~= old(out)@.push('-') + decimal(a as nat));
    } else {
        push_decimal(out, v as u128);
    }
}

fn push_padded(out: &mut String, n: u128, p: u32)
    ensures
        final(out)@ == old(out)@ + padded_digits(n as nat, p as nat),
    decreases p,
{
    if p > 0 {
        push_padded(out, n / 10, p - 1);
        push_char(out, digit(n % 10));
        assert(old(out)@ + padded_digits(n as nat, p as nat) =~= old(out)@ + padded_digits(
            (n / 10) as nat,
            (p - 1) as nat,
        ) + seq![digit_char((n % 10) as nat)]);
    } else {
        assert(old(out)@ + padded_digits(n as nat, p as nat) =~= old(out)@);
    }
}

/// Appends `v / 10^p` in fixed-point notation with `p` fractional digits.
pub fn push_fixed(out: &mut String, v: i128, p: u32)
    requires
        p <= 3,
    ensures
        final(out)@ == old(out)@ + fixed(v as int, p as nat),
{
    let scale: u128 = if p == 0 { 1 } else if p == 1 { 10 } else if p == 2 { 100 } else { 1000 };
    assert(scale == pow10(p as nat)) by {
        reveal_with_fuel(pow10, 4);
    }
    let a: u128 = if v < 0 { ((-(v + 1)) as u128) + 1 } else { v as u128 };
    let ghost before = out@;
    if v < 0 {
        push_char(out, '-');
    }
    push_decimal(out, a / scale);
    push_char(out, '.');
    push_padded(out, a % scale, p);
    assert(out@ =~= before + fixed(v as int, p as nat));
}

} // verus!
