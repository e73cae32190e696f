//! Numbers rendered as text, for the messages that interrupts carry.
use vstd::prelude::*;

verus! {

/// The digit for `d` (below 16), upper case past 9.
pub open spec fn digit_char(d: nat) -> char {
    if d == 0 { '0' } else if d == 1 { '1' } else if d == 2 { '2' } else if d == 3 { '3' }
    else if d == 4 { '4' } else if d == 5 { '5' } else if d == 6 { '6' } else if d == 7 { '7' }
    else if d == 8 { '8' } else if d == 9 { '9' } else if d == 10 { 'A' } else if d == 11 { 'B' }
    else if d == 12 { 'C' } else if d == 13 { 'D' } else if d == 14 { 'E' } else { 'F' }
}

/// `n` in base `base`, most significant digit first, without leading zeros.
pub open spec fn digits_text(n: nat, base: nat) -> Seq<char>
    decreases n via digits_text_decreases
{
    if base < 2 || n < base {
        seq![digit_char(n)]
    } else {
        digits_text(n / base, base).push(digit_char(n % base))
    }
}

#[via_fn]
proof fn digits_text_decreases(n: nat, base: nat) {
    if !(base < 2 || n < base) {
        assert(n / base < n) by (nonlinear_arith)
            requires
                base >= 2,
                n >= base,
        ;
    }
}

/// The low `k` hexadecimal digits of `n`, most significant first.
pub open spec fn hex_fixed(n: nat, k: nat) -> Seq<char>
    decreases k,
{
    if k == 0 {
        seq![]
    } else {
        hex_fixed(n / 16, (k - 1) as nat).push(digit_char(n % 16))
    }
}

/// `n` as `0x` and upper-case hexadecimal, padded to at least eight digits.
pub open spec fn address_text(n: nat) -> Seq<char> {
    seq!['0', 'x'] + if n < 0x1_0000_0000 {
        hex_fixed(n, 8)
    } else {
        digits_text(n, 16)
    }
}

fn digit_str(d: u64) -> (r: &'static str)
    requires
        d < 16,
    ensures
        r@ == seq![digit_char(d as nat)],
{
    proof {
        reveal_strlit("0");
        reveal_strlit("1");
        reveal_strlit("2");
        reveal_strlit("3");
        reveal_strlit("4");
        reveal_strlit("5");
        reveal_strlit("6");
        reveal_strlit("7");
        reveal_strlit("8");
        reveal_strlit("9");
        reveal_strlit("A");
        reveal_strlit("B");
        reveal_strlit("C");
        reveal_strlit("D");
        reveal_strlit("E");
        reveal_strlit("F");
    }
    match d {
        0 => "0",
        1 => "1",
        2 => "2",
        3 => "3",
        4 => "4",
        5 => "5",
        6 => "6",
        7 => "7",
        8 => "8",
        9 => "9",
        10 => "A",
        11 => "B",
        12 => "C",
        13 => "D",
        14 => "E",
        _ => "F",
    }
}

/// Appends `n` in base `base` (10 or 16).
pub fn append_digits(s: &mut String, n: u64, base: u64)
    requires
        base == 10 || base == 16,
    ensures
        final(s)@ == old(s)@ + digits_text(n as nat, base as nat),
    decreases n,
{
    if n >= base {
        append_digits(s, n / base, base);
    }
    let ghost mid = s@;
    s.append(digit_str(n % base));
    assert(final(s)@ =~= old(s)@ + digits_text(n as nat, base as nat));
}

fn append_hex_fixed(s: &mut String, n: u64, k: u64)
    ensures
        final(s)@ == old(s)@ + hex_fixed(n as nat, k as nat),
    decreases k,
{
    if k > 0 {
        append_hex_fixed(s, n / 16, k - 1);
        s.append(digit_str(n % 16));
    }
    assert(final(s)@ =~= old(s)@ + hex_fixed(n as nat, k as nat));
}

/// Appends `n` as `0x` and upper-case hexadecimal, at least eight digits.
pub fn append_address(s: &mut String, n: u64)
    ensures
        final(s)@ == old(s)@ + address_text(n as nat),
{
    proof {
        reveal_strlit("0x");
    }
    s.append("0x");
    if n < 0x1_0000_0000 {
        append_hex_fixed(s, n, 8);
    } else {
        append_digits(s, n, 16);
    }
    assert(final(s)@ =~= old(s)@ + address_text(n as nat));
}

} // verus!
