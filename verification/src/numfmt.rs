//! Rendering of integer values as decimal and fixed-width hexadecimal text,
//! together with the spec-level digit model used by the document contracts.

use vstd::prelude::*;

verus! {

/// The character for one digit value, lowercase for the hex range.
pub open spec fn digit_char(d: int) -> char {
    if d == 0 {
        '0'
    } else if d == 1 {
        '1'
    } else if d == 2 {
        '2'
    } else if d == 3 {
        '3'
    } else if d == 4 {
        '4'
    } else if d == 5 {
        '5'
    } else if d == 6 {
        '6'
    } else if d == 7 {
        '7'
    } else if d == 8 {
        '8'
    } else if d == 9 {
        '9'
    } else if d == 10 {
        'a'
    } else if d == 11 {
        'b'
    } else if d == 12 {
        'c'
    } else if d == 13 {
        'd'
    } else if d == 14 {
        'e'
    } else {
        'f'
    }
}

/// The digit value of one character, the inverse of `digit_char` on `0..16`.
pub open spec fn digit_value(c: char) -> int {
    if c == '0' {
        0
    } else if c == '1' {
        1
    } else if c == '2' {
        2
    } else if c == '3' {
        3
    } else if c == '4' {
        4
    } else if c == '5' {
        5
    } else if c == '6' {
        6
    } else if c == '7' {
        7
    } else if c == '8' {
        8
    } else if c == '9' {
        9
    } else if c == 'a' {
        10
    } else if c == 'b' {
        11
    } else if c == 'c' {
        12
    } else if c == 'd' {
        13
    } else if c == 'e' {
        14
    } else {
        15
    }
}

/// The decimal digits of a non-negative value, most significant first.
pub open spec fn dec_digits(v: nat) -> Seq<char>
    decreases v,
{
    if v < 10 {
        seq![digit_char(v as int)]
    } else {
        dec_digits(v / 10) + seq![digit_char((v % 10) as int)]
    }
}

/// The decimal text of a signed value: a minus sign before the digits of its
/// magnitude when negative.
pub open spec fn dec_int(v: int) -> Seq<char> {
    if v < 0 {
        seq!['-'] + dec_digits((-v) as nat)
    } else {
        dec_digits(v as nat)
    }
}

/// Exactly `width` hexadecimal digits of `v`, zero padded, most significant
/// first; only the low `width` digits of `v` appear.
pub open spec fn hex_fixed(v: nat, width: nat) -> Seq<char>
    decreases width,
{
    if width == 0 {
        Seq::empty()
    } else {
        hex_fixed(v / 16, (width - 1) as nat) + seq![digit_char((v % 16) as int)]
    }
}

/// The value read back from a sequence of hexadecimal digit characters.
pub open spec fn hex_value(s: Seq<char>) -> int
    decreases s.len(),
{
    if s.len() == 0 {
        0
    } else {
        16 * hex_value(s.drop_last()) + digit_value(s.last())
    }
}

/// Sixteen to the power `w`.
pub open spec fn pow16(w: nat) -> int
    decreases w,
{
    if w == 0 {
        1
    } else {
        16 * pow16((w - 1) as nat)
    }
}

pub proof fn lemma_pow16_pos(w: nat)
    ensures
        pow16(w) >= 1,
    decreases w,
{
    if w > 0 {
        lemma_pow16_pos((w - 1) as nat);
    }
}

/// The decimal digit count grows with the familiar powers of ten: one digit
/// below ten, at least two below a hundred, at least three from a hundred on.
pub proof fn lemma_dec_digits_len(v: nat)
    ensures
        dec_digits(v).len() >= 1,
        v >= 10 ==> dec_digits(v).len() >= 2,
        v >= 100 ==> dec_digits(v).len() >= 3,
    decreases v,
{
    if v >= 10 {
        lemma_dec_digits_len(v / 10);
    }
}

pub proof fn lemma_hex_fixed_len(v: nat, width: nat)
    ensures
        hex_fixed(v, width).len() == width,
    decreases width,
{
    if width > 0 {
        lemma_hex_fixed_len(v / 16, (width - 1) as nat);
    }
}

/// Reading the fixed-width hexadecimal digits of `v` back as a number yields
/// `v` again, whenever `v` fits in that many digits.
pub proof fn lemma_hex_fixed_round_trip(v: nat, width: nat)
    requires
        v < pow16(width),
    ensures
        hex_value(hex_fixed(v, width)) == v,
    decreases width,
{
    if width == 0 {
        assert(hex_fixed(v, 0).len() == 0);
    } else {
        let rest = hex_fixed(v / 16, (width - 1) as nat);
        let s = hex_fixed(v, width);
        assert(s == rest + seq![digit_char((v % 16) as int)]);
        lemma_hex_fixed_len(v / 16, (width - 1) as nat);
        assert(s.drop_last() =~= rest);
        assert(s.last() == digit_char((v % 16) as int));
        assert(digit_value(digit_char((v % 16) as int)) == v % 16);
        assert(v / 16 < pow16((width - 1) as nat)) by {
            lemma_pow16_pos((width - 1) as nat);
            assert(v < 16 * pow16((width - 1) as nat));
        };
        lemma_hex_fixed_round_trip(v / 16, (width - 1) as nat);
        assert(hex_value(s) == 16 * (v / 16) + (v % 16));
    }
}

/// The single-character string for one digit value.
fn digit_str(d: u64) -> (r: &'static str)
    requires
        d < 16,
    ensures
        r@ == seq![digit_char(d as int)],
{
    let r: &'static str = match d {
        0 => "0",
        1 => "1",
        2 => "2",
        3 => "3",
        4 => "4",
        5 => "5",
        6 => "6",
        7 => "7",
        8 => "8",
        9 => "9",
        10 => "a",
        11 => "b",
        12 => "c",
        13 => "d",
        14 => "e",
        _ => "f",
    };
    proof {
        reveal_strlit("0");
        reveal_strlit("1");
        reveal_strlit("2");
        reveal_strlit("3");
        reveal_strlit("4");
        reveal_strlit("5");
        reveal_strlit("6");
        reveal_strlit("7");
        reveal_strlit("8");
        reveal_strlit("9");
        reveal_strlit("a");
        reveal_strlit("b");
        reveal_strlit("c");
        reveal_strlit("d");
        reveal_strlit("e");
        reveal_strlit("f");
        assert(r@ =~= seq![digit_char(d as int)]);
    }
    r
}

/// Appends the decimal digits of `v` to `s`.
pub fn push_dec_u64(s: &mut String, v: u64)
    ensures
        final(s)@ == old(s)@ + dec_digits(v as nat),
    decreases v,
{
    if v < 10 {
        s.append(digit_str(v));
    } else {
        push_dec_u64(s, v / 10);
        s.append(digit_str(v % 10));
        proof {
            assert(old(s)@ + dec_digits((v / 10) as nat) + seq![digit_char((v % 10) as int)]
                =~= old(s)@ + dec_digits(v as nat));
        }
    }
}

/// Appends the decimal text of a signed value to `s`.
pub fn push_dec_i64(s: &mut String, v: i64)
    ensures
        final(s)@ == old(s)@ + dec_int(v as int),
{
    if v < 0 {
        s.append("-");
        let wide: i128 = v as i128;
        let magnitude: u64 = (-wide) as u64;
        push_dec_u64(s, magnitude);
        proof {
            reveal_strlit("-");
            assert("-"@ =~= seq!['-']);
            assert(old(s)@ + "-"@ + dec_digits(magnitude as nat) =~= old(s)@ + dec_int(v as int));
        }
    } else {
        push_dec_u64(s, v as u64);
    }
}

/// Appends exactly `width` zero-padded lowercase hexadecimal digits of `v`.
pub fn push_hex_fixed(s: &mut String, v: u64, width: u32)
    ensures
        final(s)@ == old(s)@ + hex_fixed(v as nat, width as nat),
    decreases width,
{
    if width == 0 {
        proof {
            assert(old(s)@ + hex_fixed(v as nat, 0) =~= old(s)@);
        }
    } else {
        push_hex_fixed(s, v / 16, width - 1);
        s.append(digit_str(v % 16));
        proof {
            assert(old(s)@ + hex_fixed((v / 16) as nat, (width - 1) as nat)
                + seq![digit_char((v % 16) as int)] =~= old(s)@ + hex_fixed(
                v as nat,
                width as nat,
            ));
        }
    }
}

} // verus!
