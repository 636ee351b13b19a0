//! Verified text-formatting primitives shared by the table renderers:
//! decimal rendering, fixed-width padding and centering.
use vstd::prelude::*;

verus! {

/// Bit `p` of a byte, with position 0 the most significant bit and
/// position 7 the least; positions past 7 read as clear.
pub open spec fn spec_bit(byte: u8, p: int) -> bool {
    if p == 0 {
        byte & 0x80 != 0
    } else if p == 1 {
        byte & 0x40 != 0
    } else if p == 2 {
        byte & 0x20 != 0
    } else if p == 3 {
        byte & 0x10 != 0
    } else if p == 4 {
        byte & 0x08 != 0
    } else if p == 5 {
        byte & 0x04 != 0
    } else if p == 6 {
        byte & 0x02 != 0
    } else if p == 7 {
        byte & 0x01 != 0
    } else {
        false
    }
}

/// One bit rendered as the character '1' or '0'.
pub open spec fn bit_char(bit: bool) -> char {
    if bit {
        '1'
    } else {
        '0'
    }
}

/// A byte rendered as its eight binary digits, most significant first.
pub open spec fn bin_text(byte: u8) -> Seq<char> {
    Seq::new(8, |i: int| bit_char(spec_bit(byte, i)))
}

/// The low `nbits` bits of a byte, most significant first, separated by
/// single spaces, as the field diagram spreads bits under a bit ruler.
pub open spec fn bits_spaced(byte: u8, nbits: nat) -> Seq<char> {
    if nbits == 0 {
        Seq::empty()
    } else {
        Seq::new(
            (2 * nbits - 1) as nat,
            |i: int|
                if i % 2 == 0 {
                    bit_char(spec_bit(byte, 8 - nbits + i / 2))
                } else {
                    ' '
                },
        )
    }
}

/// One decimal digit rendered as a character.
pub open spec fn dec_digit(d: int) -> char {
    if d == 0 {
        '0'
    } else if d == 1 {
        '1'
    } else if d == 2 {
        '2'
    } else if d == 3 {
        '3'
    } else if d == 4 {
        '4'
    } else if d == 5 {
        '5'
    } else if d == 6 {
        '6'
    } else if d == 7 {
        '7'
    } else if d == 8 {
        '8'
    } else {
        '9'
    }
}

/// The decimal rendering of a non-negative integer, most significant digit first.
pub open spec fn dec_text(n: nat) -> Seq<char>
    decreases n,
{
    if n < 10 {
        seq![dec_digit(n as int)]
    } else {
        dec_text(n / 10).push(dec_digit((n % 10) as int))
    }
}

/// The decimal rendering of `n` wrapped in parentheses, as the tables
/// annotate every byte value.
pub open spec fn paren_text(n: nat) -> Seq<char> {
    seq!['('] + dec_text(n) + seq![')']
}

/// A run of `n` spaces.
pub open spec fn spaces(n: nat) -> Seq<char> {
    Seq::new(n, |i: int| ' ')
}

/// `s` right-justified in a field of `w` characters; text wider than the
/// field is kept whole.
pub open spec fn pad_left(s: Seq<char>, w: nat) -> Seq<char> {
    if s.len() >= w {
        s
    } else {
        spaces((w - s.len()) as nat) + s
    }
}

/// `s` centered in a field of `w` characters, the leftover space split with
/// the smaller half on the left; text wider than the field is kept whole.
pub open spec fn centered(s: Seq<char>, w: nat) -> Seq<char> {
    if s.len() >= w {
        s
    } else {
        let total = (w - s.len()) as nat;
        let left = total / 2;
        spaces(left) + s + spaces((total - left) as nat)
    }
}

/// Reads bit `bit_position` of a byte, most significant bit first; positions
/// past 7 read as clear.
pub fn get_bit(byte: u8, bit_position: u8) -> (r: bool)
    ensures
        r == spec_bit(byte, bit_position as int),
{
    match bit_position {
        0 => byte & 0b10000000 != 0,
        1 => byte & 0b01000000 != 0,
        2 => byte & 0b00100000 != 0,
        3 => byte & 0b00010000 != 0,
        4 => byte & 0b00001000 != 0,
        5 => byte & 0b00000100 != 0,
        6 => byte & 0b00000010 != 0,
        7 => byte & 0b00000001 != 0,
        _ => false,
    }
}

/// Relies on String::push: appends exactly the one character to the string.
#[verifier::external_body]
pub fn push_char(s: &mut String, c: char)
    ensures
        final(s)@ == old(s)@.push(c),
{
    s.push(c);
}

/// Renders a byte as its eight binary digits, most significant first.
pub fn bin_string(byte: u8) -> (r: String)
    ensures
        r@ == bin_text(byte),
{
    let mut s = String::new();
    let mut p: usize = 0;
    while p < 8
        invariant
            p <= 8,
            s@ =~= bin_text(byte).take(p as int),
        decreases 8 - p,
    {
        let b = get_bit(byte, p as u8);
        let c: char = if b {
            '1'
        } else {
            '0'
        };
        push_char(&mut s, c);
        proof {
            assert(s@ =~= bin_text(byte).take(p + 1));
        }
        p = p + 1;
    }
    proof {
        assert(bin_text(byte).take(8) =~= bin_text(byte));
    }
    s
}

/// The character for one decimal digit.
pub fn digit_char(d: u64) -> (r: char)
    requires
        d < 10,
    ensures
        r == dec_digit(d as int),
{
    if d == 0 {
        '0'
    } else if d == 1 {
        '1'
    } else if d == 2 {
        '2'
    } else if d == 3 {
        '3'
    } else if d == 4 {
        '4'
    } else if d == 5 {
        '5'
    } else if d == 6 {
        '6'
    } else if d == 7 {
        '7'
    } else if d == 8 {
        '8'
    } else {
        '9'
    }
}

/// Renders `n` in decimal.
pub fn dec_string(n: u64) -> (r: String)
    ensures
        r@ == dec_text(n as nat),
    decreases n,
{
    if n < 10 {
        let mut s = String::new();
        push_char(&mut s, digit_char(n));
        proof {
            assert(s@ =~= dec_text(n as nat));
        }
        s
    } else {
        let mut s = dec_string(n / 10);
        push_char(&mut s, digit_char(n % 10));
        s
    }
}

/// A run of `n` spaces.
pub fn spaces_string(n: usize) -> (r: String)
    ensures
        r@ == spaces(n as nat),
{
    let mut s = String::new();
    let mut i: usize = 0;
    while i < n
        invariant
            i <= n,
            s@ =~= spaces(i as nat),
        decreases n - i,
    {
        push_char(&mut s, ' ');
        proof {
            assert(s@ =~= spaces((i + 1) as nat));
        }
        i = i + 1;
    }
    s
}

/// Right-justifies `s` in a field of `w` characters.
pub fn pad_left_string(s: String, w: usize) -> (r: String)
    ensures
        r@ == pad_left(s@, w as nat),
{
    let n = s.as_str().unicode_len();
    if n >= w {
        s
    } else {
        let mut r = spaces_string(w - n);
        r.append(s.as_str());
        r
    }
}

/// Centers `s` in a field of `w` characters.
pub fn center_string(s: String, w: usize) -> (r: String)
    ensures
        r@ == centered(s@, w as nat),
{
    let n = s.as_str().unicode_len();
    if n >= w {
        s
    } else {
        let total = w - n;
        let left = total / 2;
        let mut r = spaces_string(left);
        r.append(s.as_str());
        let right = spaces_string(total - left);
        r.append(right.as_str());
        r
    }
}

/// Renders `n` as "(n)" right-justified in a field of `w` characters.
pub fn paren_dec_padded(n: u64, w: usize) -> (r: String)
    ensures
        r@ == pad_left(paren_text(n as nat), w as nat),
{
    let mut s = String::new();
    push_char(&mut s, '(');
    let d = dec_string(n);
    s.append(d.as_str());
    push_char(&mut s, ')');
    proof {
        assert(s@ =~= paren_text(n as nat));
    }
    pad_left_string(s, w)
}

/// Renders `n` in decimal, centered in a field of `w` characters.
pub fn centered_dec(n: u64, w: usize) -> (r: String)
    ensures
        r@ == centered(dec_text(n as nat), w as nat),
{
    center_string(dec_string(n), w)
}

} // verus!
