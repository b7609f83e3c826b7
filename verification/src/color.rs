use vstd::prelude::*;

verus! {

/// One color value, held at 8-bit precision per channel, the precision at
/// which palette text is written and read.  Every value of this type lies in
/// the RGB gamut by construction.
#[derive(Clone, Copy, PartialEq, Eq, Structural, Debug)]
pub struct Rgb8 {
    pub r: u8,
    pub g: u8,
    pub b: u8,
}

/// A hexadecimal digit of either case.
pub open spec fn is_hex_digit(c: char) -> bool {
    ('0' as u32) <= (c as u32) <= ('9' as u32) || ('a' as u32) <= (c as u32) <= ('f' as u32) || (
    'A' as u32) <= (c as u32) <= ('F' as u32)
}

/// The numeric value of a hexadecimal digit of either case.
pub open spec fn hex_digit_value(c: char) -> int {
    if ('0' as u32) <= (c as u32) <= ('9' as u32) {
        c as u32 - '0' as u32
    } else if ('a' as u32) <= (c as u32) <= ('f' as u32) {
        c as u32 - 'a' as u32 + 10
    } else {
        c as u32 - 'A' as u32 + 10
    }
}

/// A color literal of the form `#rrggbb`: a `#` followed by exactly six
/// hexadecimal digits of either case.
pub open spec fn is_hex6(s: Seq<char>) -> bool {
    &&& s.len() == 7
    &&& s[0] == '#'
    &&& forall|i: int| 1 <= i < 7 ==> is_hex_digit(#[trigger] s[i])
}

/// The color that a `#rrggbb` literal denotes, each channel read from its
/// two digits.
pub open spec fn hex_value(s: Seq<char>) -> Rgb8
    recommends
        is_hex6(s),
{
    Rgb8 {
        r: (hex_digit_value(s[1]) * 16 + hex_digit_value(s[2])) as u8,
        g: (hex_digit_value(s[3]) * 16 + hex_digit_value(s[4])) as u8,
        b: (hex_digit_value(s[5]) * 16 + hex_digit_value(s[6])) as u8,
    }
}

/// The upper-case hexadecimal digit for a value below sixteen.
pub open spec fn upper_hex_digit(n: int) -> char {
    if n == 0 {
        '0'
    } else if n == 1 {
        '1'
    } else if n == 2 {
        '2'
    } else if n == 3 {
        '3'
    } else if n == 4 {
        '4'
    } else if n == 5 {
        '5'
    } else if n == 6 {
        '6'
    } else if n == 7 {
        '7'
    } else if n == 8 {
        '8'
    } else if n == 9 {
        '9'
    } else if n == 10 {
        'A'
    } else if n == 11 {
        'B'
    } else if n == 12 {
        'C'
    } else if n == 13 {
        'D'
    } else if n == 14 {
        'E'
    } else {
        'F'
    }
}

/// The two upper-case hexadecimal digits of one byte.
pub open spec fn byte_hex(b: u8) -> Seq<char> {
    seq![upper_hex_digit(b as int / 16), upper_hex_digit(b as int % 16)]
}

/// The `#RRGGBB` text of a color, upper-case digits.
pub open spec fn hex_literal(c: Rgb8) -> Seq<char> {
    seq!['#'] + byte_hex(c.r) + byte_hex(c.g) + byte_hex(c.b)
}

/// Digits written by `upper_hex_digit` are hexadecimal digits and read back
/// as the value they were written from.
pub proof fn lemma_upper_hex_digit_reads_back(n: int)
    requires
        0 <= n < 16,
    ensures
        is_hex_digit(upper_hex_digit(n)),
        hex_digit_value(upper_hex_digit(n)) == n,
        upper_hex_digit(n) != '#',
{
}

/// The `#RRGGBB` text of a color is a well-formed hex literal and denotes
/// that color again: the codec on single colors loses nothing.
pub proof fn lemma_hex_literal_reads_back(c: Rgb8)
    ensures
        is_hex6(hex_literal(c)),
        hex_value(hex_literal(c)) == c,
{
    let s = hex_literal(c);
    assert forall|i: int| 1 <= i < 7 implies is_hex_digit(#[trigger] s[i]) by {
        lemma_upper_hex_digit_reads_back(hex_digit_of_literal(c, i));
    }
    lemma_upper_hex_digit_reads_back(c.r as int / 16);
    lemma_upper_hex_digit_reads_back(c.r as int % 16);
    lemma_upper_hex_digit_reads_back(c.g as int / 16);
    lemma_upper_hex_digit_reads_back(c.g as int % 16);
    lemma_upper_hex_digit_reads_back(c.b as int / 16);
    lemma_upper_hex_digit_reads_back(c.b as int % 16);
    assert(hex_value(s).r == c.r);
    assert(hex_value(s).g == c.g);
    assert(hex_value(s).b == c.b);
}

/// The digit value standing at position `i` of a color's hex literal.
pub open spec fn hex_digit_of_literal(c: Rgb8, i: int) -> int {
    if i == 1 {
        c.r as int / 16
    } else if i == 2 {
        c.r as int % 16
    } else if i == 3 {
        c.g as int / 16
    } else if i == 4 {
        c.g as int % 16
    } else if i == 5 {
        c.b as int / 16
    } else {
        c.b as int % 16
    }
}

/// The one-character text of an upper-case hexadecimal digit.
pub fn upper_hex_digit_str(n: u8) -> (s: &'static str)
    requires
        n < 16,
    ensures
        s@ == seq![upper_hex_digit(n as int)],
{
    proof {
        reveal_strlit("0");
        reveal_strlit("1");
        reveal_strlit("2");
        reveal_strlit("3");
        reveal_strlit("4");
        reveal_strlit("5");
        reveal_strlit("6");
        reveal_strlit("7");
        reveal_strlit("8");
        reveal_strlit("9");
        reveal_strlit("A");
        reveal_strlit("B");
        reveal_strlit("C");
        reveal_strlit("D");
        reveal_strlit("E");
        reveal_strlit("F");
    }
    match n {
        0 => "0",
        1 => "1",
        2 => "2",
        3 => "3",
        4 => "4",
        5 => "5",
        6 => "6",
        7 => "7",
        8 => "8",
        9 => "9",
        10 => "A",
        11 => "B",
        12 => "C",
        13 => "D",
        14 => "E",
        _ => "F",
    }
}

/// Appends the two upper-case hexadecimal digits of one byte.
pub fn push_byte_hex(out: &mut String, b: u8)
    ensures
        final(out)@ == old(out)@ + byte_hex(b),
{
    out.append(upper_hex_digit_str(b / 16));
    out.append(upper_hex_digit_str(b % 16));
    proof {
        assert(out@ =~= old(out)@ + byte_hex(b));
    }
}

/// The `#RRGGBB` text of a color.
pub fn hex_string(c: Rgb8) -> (s: String)
    ensures
        s@ == hex_literal(c),
{
    let mut out = String::from_str("#");
    proof {
        reveal_strlit("#");
    }
    push_byte_hex(&mut out, c.r);
    push_byte_hex(&mut out, c.g);
    push_byte_hex(&mut out, c.b);
    proof {
        assert(out@ =~= hex_literal(c));
    }
    out
}

} // verus!
