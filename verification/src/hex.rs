//! Canonical hexadecimal encoding of a colour's channels.

use vstd::prelude::*;
use vstd::string::*;

verus! {

/// The hexadecimal digit for a value below sixteen, in the requested letter case.
pub open spec fn hex_char(n: u8, upper: bool) -> char {
    if n == 0 {
        '0'
    } else if n == 1 {
        '1'
    } else if n == 2 {
        '2'
    } else if n == 3 {
        '3'
    } else if n == 4 {
        '4'
    } else if n == 5 {
        '5'
    } else if n == 6 {
        '6'
    } else if n == 7 {
        '7'
    } else if n == 8 {
        '8'
    } else if n == 9 {
        '9'
    } else if n == 10 {
        if upper { 'A' } else { 'a' }
    } else if n == 11 {
        if upper { 'B' } else { 'b' }
    } else if n == 12 {
        if upper { 'C' } else { 'c' }
    } else if n == 13 {
        if upper { 'D' } else { 'd' }
    } else if n == 14 {
        if upper { 'E' } else { 'e' }
    } else {
        if upper { 'F' } else { 'f' }
    }
}

/// The two hexadecimal digits of a byte, high nibble first.
pub open spec fn byte_hex(b: u8, upper: bool) -> Seq<char> {
    seq![hex_char(b / 16, upper), hex_char(b % 16, upper)]
}

/// The canonical digits of a colour: red, green and blue, followed by the
/// alpha byte only when the colour is not fully opaque.
pub open spec fn hex_digits(r: u8, g: u8, b: u8, opacity: u8, upper: bool) -> Seq<char> {
    let opaque = byte_hex(r, upper) + byte_hex(g, upper) + byte_hex(b, upper);
    if opacity < 255 {
        opaque + byte_hex(opacity, upper)
    } else {
        opaque
    }
}

/// Whether a character is a hexadecimal digit of the given letter case.
pub open spec fn is_hex_char(c: char, upper: bool) -> bool {
    exists|n: u8| n < 16 && c == #[trigger] hex_char(n, upper)
}

fn hex_digit_str(n: u8, upper: bool) -> (r: &'static str)
    requires
        n < 16,
    ensures
        r@ =~= seq![hex_char(n, upper)],
{
    proof {
        reveal_strlit("0");
        reveal_strlit("1");
        reveal_strlit("2");
        reveal_strlit("3");
        reveal_strlit("4");
        reveal_strlit("5");
        reveal_strlit("6");
        reveal_strlit("7");
        reveal_strlit("8");
        reveal_strlit("9");
        reveal_strlit("a");
        reveal_strlit("b");
        reveal_strlit("c");
        reveal_strlit("d");
        reveal_strlit("e");
        reveal_strlit("f");
        reveal_strlit("A");
        reveal_strlit("B");
        reveal_strlit("C");
        reveal_strlit("D");
        reveal_strlit("E");
        reveal_strlit("F");
    }
    match n {
        0 => "0",
        1 => "1",
        2 => "2",
        3 => "3",
        4 => "4",
        5 => "5",
        6 => "6",
        7 => "7",
        8 => "8",
        9 => "9",
        10 => if upper { "A" } else { "a" },
        11 => if upper { "B" } else { "b" },
        12 => if upper { "C" } else { "c" },
        13 => if upper { "D" } else { "d" },
        14 => if upper { "E" } else { "e" },
        _ => if upper { "F" } else { "f" },
    }
}

fn push_byte_hex(s: &mut String, b: u8, upper: bool)
    ensures
        final(s)@ =~= old(s)@ + byte_hex(b, upper),
{
    s.append(hex_digit_str(b / 16, upper));
    s.append(hex_digit_str(b % 16, upper));
}

/// Encodes the channels as hexadecimal digits behind `prefix`: six digits for
/// a fully opaque colour, eight otherwise.
pub fn format_hex(r: u8, g: u8, b: u8, opacity: u8, upper: bool, prefix: &str) -> (s: String)
    ensures
        s@ == prefix@ + hex_digits(r, g, b, opacity, upper),
{
    let mut s = String::from_str(prefix);
    push_byte_hex(&mut s, r, upper);
    push_byte_hex(&mut s, g, upper);
    push_byte_hex(&mut s, b, upper);
    if opacity < 255 {
        push_byte_hex(&mut s, opacity, upper);
    }
    assert(s@ =~= prefix@ + hex_digits(r, g, b, opacity, upper));
    s
}

/// The canonical encoding has six digits exactly when the colour is fully
/// opaque and eight otherwise, and every digit has the requested letter case.
pub proof fn lemma_hex_digits_shape(r: u8, g: u8, b: u8, opacity: u8, upper: bool)
    ensures
        opacity == 255 ==> hex_digits(r, g, b, opacity, upper).len() == 6,
        opacity < 255 ==> hex_digits(r, g, b, opacity, upper).len() == 8,
        forall|i: int|
            0 <= i < hex_digits(r, g, b, opacity, upper).len() ==> is_hex_char(
                #[trigger] hex_digits(r, g, b, opacity, upper)[i],
                upper,
            ),
{
    let d = hex_digits(r, g, b, opacity, upper);
    assert forall|i: int| 0 <= i < d.len() implies is_hex_char(#[trigger] d[i], upper) by {
        let src: u8 = if i < 2 { r } else if i < 4 { g } else if i < 6 { b } else { opacity };
        let n: u8 = if i % 2 == 0 { src / 16 } else { src % 16 };
        assert(n < 16);
        assert(d[i] == hex_char(n, upper));
    }
}

/// The value of a hexadecimal digit of either letter case.
pub open spec fn hex_value(c: char) -> Option<u8> {
    if c == '0' {
        Some(0u8)
    } else if c == '1' {
        Some(1u8)
    } else if c == '2' {
        Some(2u8)
    } else if c == '3' {
        Some(3u8)
    } else if c == '4' {
        Some(4u8)
    } else if c == '5' {
        Some(5u8)
    } else if c == '6' {
        Some(6u8)
    } else if c == '7' {
        Some(7u8)
    } else if c == '8' {
        Some(8u8)
    } else if c == '9' {
        Some(9u8)
    } else if c == 'a' || c == 'A' {
        Some(10u8)
    } else if c == 'b' || c == 'B' {
        Some(11u8)
    } else if c == 'c' || c == 'C' {
        Some(12u8)
    } else if c == 'd' || c == 'D' {
        Some(13u8)
    } else if c == 'e' || c == 'E' {
        Some(14u8)
    } else if c == 'f' || c == 'F' {
        Some(15u8)
    } else {
        None
    }
}

/// The byte that the two digits at `i` and `i + 1` encode.
pub open spec fn byte_at(s: Seq<char>, i: int) -> u8 {
    (hex_value(s[i])->Some_0 * 16 + hex_value(s[i + 1])->Some_0) as u8
}

/// What a hex string encodes: red, green, blue and opacity for six or eight
/// hexadecimal digits, the opacity being 255 where only six are given; nothing
/// for any other string.
pub open spec fn parsed_hex(s: Seq<char>) -> Option<(u8, u8, u8, u8)> {
    if (s.len() == 6 || s.len() == 8) && (forall|i: int|
        0 <= i < s.len() ==> (#[trigger] hex_value(s[i])) is Some) {
        Some(
            (
                byte_at(s, 0),
                byte_at(s, 2),
                byte_at(s, 4),
                if s.len() == 8 {
                    byte_at(s, 6)
                } else {
                    255u8
                },
            ),
        )
    } else {
        None
    }
}

/// The value of a hexadecimal digit, or `None` for any other character.
pub fn hex_digit_value(c: char) -> (r: Option<u8>)
    ensures
        r == hex_value(c),
        r is Some ==> r->Some_0 < 16,
{
    if c == '0' {
        Some(0)
    } else if c == '1' {
        Some(1)
    } else if c == '2' {
        Some(2)
    } else if c == '3' {
        Some(3)
    } else if c == '4' {
        Some(4)
    } else if c == '5' {
        Some(5)
    } else if c == '6' {
        Some(6)
    } else if c == '7' {
        Some(7)
    } else if c == '8' {
        Some(8)
    } else if c == '9' {
        Some(9)
    } else if c == 'a' || c == 'A' {
        Some(10)
    } else if c == 'b' || c == 'B' {
        Some(11)
    } else if c == 'c' || c == 'C' {
        Some(12)
    } else if c == 'd' || c == 'D' {
        Some(13)
    } else if c == 'e' || c == 'E' {
        Some(14)
    } else if c == 'f' || c == 'F' {
        Some(15)
    } else {
        None
    }
}

/// Decodes six or eight hexadecimal digits into red, green, blue and
/// opacity; any other string is refused.
pub fn parse_hex(s: &str) -> (r: Option<(u8, u8, u8, u8)>)
    ensures
        r == parsed_hex(s@),
{
    let n = s.unicode_len();
    if n != 6 && n != 8 {
        return None;
    }
    let mut values: Vec<u8> = Vec::new();
    let mut i: usize = 0;
    while i < n
        invariant
            n == s@.len(),
            i <= n,
            values@.len() == i,
            forall|j: int| 0 <= j < i ==> hex_value(s@[j]) == Some(#[trigger] values@[j]),
            forall|j: int| 0 <= j < i ==> (#[trigger] values@[j]) < 16,
        decreases n - i,
    {
        match hex_digit_value(s.get_char(i)) {
            Some(v) => values.push(v),
            None => {
                assert(hex_value(s@[i as int]) is None);
                return None;
            },
        }
        i += 1;
    }
    assert forall|j: int| 0 <= j < s@.len() implies (#[trigger] hex_value(s@[j])) is Some by {
        assert(hex_value(s@[j]) == Some(values@[j]));
    }
    let r = values[0] * 16 + values[1];
    let g = values[2] * 16 + values[3];
    let b = values[4] * 16 + values[5];
    let a = if n == 8 { values[6] * 16 + values[7] } else { 255 };
    Some((r, g, b, a))
}

/// Decoding the canonical digits of a colour gives the colour back, in
/// either letter case.
pub proof fn lemma_parse_inverts_format(r: u8, g: u8, b: u8, opacity: u8, upper: bool)
    ensures
        parsed_hex(hex_digits(r, g, b, opacity, upper)) == Some((r, g, b, opacity)),
{
    let d = hex_digits(r, g, b, opacity, upper);
    assert forall|n: u8| n < 16 implies hex_value(#[trigger] hex_char(n, upper)) == Some(n) by {}
    assert forall|i: int| 0 <= i < d.len() implies (#[trigger] hex_value(d[i])) is Some by {
        let src: u8 = if i < 2 { r } else if i < 4 { g } else if i < 6 { b } else { opacity };
        let n: u8 = if i % 2 == 0 { src / 16 } else { src % 16 };
        assert(d[i] == hex_char(n, upper));
    }
    assert(d[0] == hex_char(r / 16, upper) && d[1] == hex_char(r % 16, upper));
    assert(d[2] == hex_char(g / 16, upper) && d[3] == hex_char(g % 16, upper));
    assert(d[4] == hex_char(b / 16, upper) && d[5] == hex_char(b % 16, upper));
    assert(byte_at(d, 0) == r);
    assert(byte_at(d, 2) == g);
    assert(byte_at(d, 4) == b);
    if opacity < 255 {
        assert(d[6] == hex_char(opacity / 16, upper) && d[7] == hex_char(opacity % 16, upper));
        assert(byte_at(d, 6) == opacity);
    }
}

} // verus!
