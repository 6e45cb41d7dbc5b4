//! Upper-case hexadecimal rendering of small numbers.

use vstd::prelude::*;
use vstd::string::StringExecFns;

verus! {

/// The character for one hexadecimal digit.
pub open spec fn hex_char(d: int) -> char {
    if d == 0 {
        '0'
    } else if d == 1 {
        '1'
    } else if d == 2 {
        '2'
    } else if d == 3 {
        '3'
    } else if d == 4 {
        '4'
    } else if d == 5 {
        '5'
    } else if d == 6 {
        '6'
    } else if d == 7 {
        '7'
    } else if d == 8 {
        '8'
    } else if d == 9 {
        '9'
    } else if d == 10 {
        'A'
    } else if d == 11 {
        'B'
    } else if d == 12 {
        'C'
    } else if d == 13 {
        'D'
    } else if d == 14 {
        'E'
    } else {
        'F'
    }
}

/// The digits of `n` in base sixteen, most significant first, with no
/// leading zero; zero is the single digit `0`.
pub open spec fn upper_hex(n: nat) -> Seq<char>
    decreases n,
{
    if n < 16 {
        seq![hex_char(n as int)]
    } else {
        upper_hex(n / 16).push(hex_char((n % 16) as int))
    }
}

/// `n` as `0x` and its digits.
pub open spec fn prefixed_hex(n: nat) -> Seq<char> {
    seq!['0', 'x'] + upper_hex(n)
}

/// `n` as `0x` and its digits, with a zero before a lone digit, so that
/// the whole is at least four characters wide.
pub open spec fn padded_hex(n: nat) -> Seq<char> {
    if n < 16 {
        seq!['0', 'x', '0'] + upper_hex(n)
    } else {
        seq!['0', 'x'] + upper_hex(n)
    }
}

/// The one-character text of a hexadecimal digit.
pub fn hex_digit(d: u8) -> (r: &'static str)
    requires
        d < 16,
    ensures
        r@ == seq![hex_char(d as int)],
{
    proof {
        reveal_strlit("0");
        reveal_strlit("1");
        reveal_strlit("2");
        reveal_strlit("3");
        reveal_strlit("4");
        reveal_strlit("5");
        reveal_strlit("6");
        reveal_strlit("7");
        reveal_strlit("8");
        reveal_strlit("9");
        reveal_strlit("A");
        reveal_strlit("B");
        reveal_strlit("C");
        reveal_strlit("D");
        reveal_strlit("E");
        reveal_strlit("F");
    }
    let r = match d {
        0 => "0",
        1 => "1",
        2 => "2",
        3 => "3",
        4 => "4",
        5 => "5",
        6 => "6",
        7 => "7",
        8 => "8",
        9 => "9",
        10 => "A",
        11 => "B",
        12 => "C",
        13 => "D",
        14 => "E",
        _ => "F",
    };
    assert(r@ =~= seq![hex_char(d as int)]);
    r
}

/// Appends the digits of `n`.
pub fn push_upper_hex(s: &mut String, n: u16)
    ensures
        final(s)@ == old(s)@ + upper_hex(n as nat),
{
    let d3: u8 = (n / 4096) as u8;
    let d2: u8 = ((n / 256) % 16) as u8;
    let d1: u8 = ((n / 16) % 16) as u8;
    let d0: u8 = (n % 16) as u8;
    proof {
        reveal_with_fuel(upper_hex, 5);
    }
    if n >= 4096 {
        s.append(hex_digit(d3));
    }
    if n >= 256 {
        s.append(hex_digit(d2));
    }
    if n >= 16 {
        s.append(hex_digit(d1));
    }
    s.append(hex_digit(d0));
    assert(s@ =~= old(s)@ + upper_hex(n as nat));
}

/// Appends `n` as `0x` and its digits.
pub fn push_prefixed_hex(s: &mut String, n: u16)
    ensures
        final(s)@ == old(s)@ + prefixed_hex(n as nat),
{
    proof {
        reveal_strlit("0x");
    }
    s.append("0x");
    push_upper_hex(s, n);
    assert(s@ =~= old(s)@ + prefixed_hex(n as nat));
}

/// Appends `n` as `0x` and its digits, at least four characters wide.
pub fn push_padded_hex(s: &mut String, n: u16)
    ensures
        final(s)@ == old(s)@ + padded_hex(n as nat),
{
    proof {
        reveal_strlit("0x");
        reveal_strlit("0x0");
    }
    if n < 16 {
        s.append("0x0");
    } else {
        s.append("0x");
    }
    push_upper_hex(s, n);
    assert(s@ =~= old(s)@ + padded_hex(n as nat));
}

} // verus!
