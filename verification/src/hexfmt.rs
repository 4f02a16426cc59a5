//! Fixed-width hexadecimal rendering of nibbles, bytes and addresses, used
//! by the disassembler and by error messages.

use vstd::prelude::*;
use vstd::string::StringExecFns;

verus! {

/// The lowercase hex digit character for a nibble value.
pub open spec fn hex_char(d: int) -> char {
    if d == 0 {
        '0'
    } else if d == 1 {
        '1'
    } else if d == 2 {
        '2'
    } else if d == 3 {
        '3'
    } else if d == 4 {
        '4'
    } else if d == 5 {
        '5'
    } else if d == 6 {
        '6'
    } else if d == 7 {
        '7'
    } else if d == 8 {
        '8'
    } else if d == 9 {
        '9'
    } else if d == 10 {
        'a'
    } else if d == 11 {
        'b'
    } else if d == 12 {
        'c'
    } else if d == 13 {
        'd'
    } else if d == 14 {
        'e'
    } else if d == 15 {
        'f'
    } else {
        '?'
    }
}

/// The uppercase hex digit character for a nibble value.
pub open spec fn hex_char_upper(d: int) -> char {
    if d < 10 {
        hex_char(d)
    } else if d == 10 {
        'A'
    } else if d == 11 {
        'B'
    } else if d == 12 {
        'C'
    } else if d == 13 {
        'D'
    } else if d == 14 {
        'E'
    } else if d == 15 {
        'F'
    } else {
        '?'
    }
}

/// The two lowercase hex digits of a byte.
pub open spec fn hex2_seq(b: u8) -> Seq<char> {
    seq![hex_char((b >> 4) as int), hex_char((b & 0x0F) as int)]
}

/// The two uppercase hex digits of a byte.
pub open spec fn hex2_upper_seq(b: u8) -> Seq<char> {
    seq![hex_char_upper((b >> 4) as int), hex_char_upper((b & 0x0F) as int)]
}

/// The three lowercase hex digits of a 12-bit value.
pub open spec fn hex3_seq(n: u16) -> Seq<char> {
    seq![
        hex_char((n >> 8) as int),
        hex_char(((n >> 4) & 0x0F) as int),
        hex_char((n & 0x0F) as int),
    ]
}

/// The uppercase hex digits of a 16-bit value, at least two digits wide,
/// with no leading zeros beyond that width.
pub open spec fn hex_u16_min2_upper_seq(n: u16) -> Seq<char> {
    let d3 = hex_char_upper((n >> 12) as int);
    let d2 = hex_char_upper(((n >> 8) & 0x0F) as int);
    let d1 = hex_char_upper(((n >> 4) & 0x0F) as int);
    let d0 = hex_char_upper((n & 0x0F) as int);
    if n < 0x100 {
        seq![d1, d0]
    } else if n < 0x1000 {
        seq![d2, d1, d0]
    } else {
        seq![d3, d2, d1, d0]
    }
}

/// One lowercase hex digit as a string slice.
pub fn hex_digit_str(d: u8) -> (r: &'static str)
    requires
        d < 16,
    ensures
        r@ == seq![hex_char(d as int)],
{
    match d {
        0 => {
            proof { reveal_strlit("0"); }
            let r = "0";
            proof { assert(r@ =~= seq![hex_char(d as int)]); }
            r
        },
        1 => {
            proof { reveal_strlit("1"); }
            let r = "1";
            proof { assert(r@ =~= seq![hex_char(d as int)]); }
            r
        },
        2 => {
            proof { reveal_strlit("2"); }
            let r = "2";
            proof { assert(r@ =~= seq![hex_char(d as int)]); }
            r
        },
        3 => {
            proof { reveal_strlit("3"); }
            let r = "3";
            proof { assert(r@ =~= seq![hex_char(d as int)]); }
            r
        },
        4 => {
            proof { reveal_strlit("4"); }
            let r = "4";
            proof { assert(r@ =~= seq![hex_char(d as int)]); }
            r
        },
        5 => {
            proof { reveal_strlit("5"); }
            let r = "5";
            proof { assert(r@ =~= seq![hex_char(d as int)]); }
            r
        },
        6 => {
            proof { reveal_strlit("6"); }
            let r = "6";
            proof { assert(r@ =~= seq![hex_char(d as int)]); }
            r
        },
        7 => {
            proof { reveal_strlit("7"); }
            let r = "7";
            proof { assert(r@ =~= seq![hex_char(d as int)]); }
            r
        },
        8 => {
            proof { reveal_strlit("8"); }
            let r = "8";
            proof { assert(r@ =~= seq![hex_char(d as int)]); }
            r
        },
        9 => {
            proof { reveal_strlit("9"); }
            let r = "9";
            proof { assert(r@ =~= seq![hex_char(d as int)]); }
            r
        },
        10 => {
            proof { reveal_strlit("a"); }
            let r = "a";
            proof { assert(r@ =~= seq![hex_char(d as int)]); }
            r
        },
        11 => {
            proof { reveal_strlit("b"); }
            let r = "b";
            proof { assert(r@ =~= seq![hex_char(d as int)]); }
            r
        },
        12 => {
            proof { reveal_strlit("c"); }
            let r = "c";
            proof { assert(r@ =~= seq![hex_char(d as int)]); }
            r
        },
        13 => {
            proof { reveal_strlit("d"); }
            let r = "d";
            proof { assert(r@ =~= seq![hex_char(d as int)]); }
            r
        },
        14 => {
            proof { reveal_strlit("e"); }
            let r = "e";
            proof { assert(r@ =~= seq![hex_char(d as int)]); }
            r
        },
        _ => {
            proof { reveal_strlit("f"); }
            let r = "f";
            proof { assert(r@ =~= seq![hex_char(d as int)]); }
            r
        },
    }
}

/// One uppercase hex digit as a string slice.
pub fn hex_digit_str_upper(d: u8) -> (r: &'static str)
    requires
        d < 16,
    ensures
        r@ == seq![hex_char_upper(d as int)],
{
    if d < 10 {
        let r = hex_digit_str(d);
        proof { assert(r@ =~= seq![hex_char_upper(d as int)]); }
        r
    } else {
        match d {
            10 => {
                proof { reveal_strlit("A"); }
                let r = "A";
                proof { assert(r@ =~= seq![hex_char_upper(d as int)]); }
                r
            },
            11 => {
                proof { reveal_strlit("B"); }
                let r = "B";
                proof { assert(r@ =~= seq![hex_char_upper(d as int)]); }
                r
            },
            12 => {
                proof { reveal_strlit("C"); }
                let r = "C";
                proof { assert(r@ =~= seq![hex_char_upper(d as int)]); }
                r
            },
            13 => {
                proof { reveal_strlit("D"); }
                let r = "D";
                proof { assert(r@ =~= seq![hex_char_upper(d as int)]); }
                r
            },
            14 => {
                proof { reveal_strlit("E"); }
                let r = "E";
                proof { assert(r@ =~= seq![hex_char_upper(d as int)]); }
                r
            },
            _ => {
                proof { reveal_strlit("F"); }
                let r = "F";
                proof { assert(r@ =~= seq![hex_char_upper(d as int)]); }
                r
            },
        }
    }
}

/// Appends the two lowercase hex digits of a byte.
pub fn push_hex2(s: &mut String, b: u8)
    ensures
        final(s)@ == old(s)@ + hex2_seq(b),
{
    let hi = b >> 4;
    let lo = b & 0x0F;
    proof {
        assert(b >> 4 < 16 && b & 0x0F < 16) by (bit_vector);
    }
    s.append(hex_digit_str(hi));
    s.append(hex_digit_str(lo));
    proof {
        assert(s@ =~= old(s)@ + hex2_seq(b));
    }
}

/// Appends the three lowercase hex digits of a 12-bit value.
pub fn push_hex3(s: &mut String, n: u16)
    requires
        n < 0x1000,
    ensures
        final(s)@ == old(s)@ + hex3_seq(n),
{
    let d2 = (n >> 8) as u8;
    let d1 = ((n >> 4) & 0x0F) as u8;
    let d0 = (n & 0x0F) as u8;
    proof {
        assert(n < 0x1000 ==> n >> 8 < 16) by (bit_vector);
        assert((n >> 4) & 0x0F < 16 && n & 0x0F < 16) by (bit_vector);
    }
    s.append(hex_digit_str(d2));
    s.append(hex_digit_str(d1));
    s.append(hex_digit_str(d0));
    proof {
        assert(s@ =~= old(s)@ + hex3_seq(n));
    }
}

/// Appends the two uppercase hex digits of a byte.
pub fn push_hex2_upper(s: &mut String, b: u8)
    ensures
        final(s)@ == old(s)@ + hex2_upper_seq(b),
{
    let hi = b >> 4;
    let lo = b & 0x0F;
    proof {
        assert(b >> 4 < 16 && b & 0x0F < 16) by (bit_vector);
    }
    s.append(hex_digit_str_upper(hi));
    s.append(hex_digit_str_upper(lo));
    proof {
        assert(s@ =~= old(s)@ + hex2_upper_seq(b));
    }
}

/// Appends the uppercase hex digits of a 16-bit value, at least two wide.
pub fn push_hex_u16_min2_upper(s: &mut String, n: u16)
    ensures
        final(s)@ == old(s)@ + hex_u16_min2_upper_seq(n),
{
    let d3 = (n >> 12) as u8;
    let d2 = ((n >> 8) & 0x0F) as u8;
    let d1 = ((n >> 4) & 0x0F) as u8;
    let d0 = (n & 0x0F) as u8;
    proof {
        assert(n >> 12 < 16 && (n >> 8) & 0x0F < 16 && (n >> 4) & 0x0F < 16 && n & 0x0F < 16)
            by (bit_vector);
    }
    if n >= 0x1000 {
        s.append(hex_digit_str_upper(d3));
    }
    if n >= 0x100 {
        s.append(hex_digit_str_upper(d2));
    }
    s.append(hex_digit_str_upper(d1));
    s.append(hex_digit_str_upper(d0));
    proof {
        assert(s@ =~= old(s)@ + hex_u16_min2_upper_seq(n));
    }
}

} // verus!
