use vstd::prelude::*;

verus! {

/// A hexadecimal digit: `0-9`, `a-f` or `A-F`.
pub open spec fn is_hex_digit(c: char) -> bool {
    ('0' <= c && c <= '9') || ('a' <= c && c <= 'f') || ('A' <= c && c <= 'F')
}

/// The value of a hexadecimal digit.
pub open spec fn hex_digit_value(c: char) -> nat {
    if '0' <= c && c <= '9' {
        (c as u32 - '0' as u32) as nat
    } else if 'a' <= c && c <= 'f' {
        (c as u32 - 'a' as u32 + 10) as nat
    } else {
        (c as u32 - 'A' as u32 + 10) as nat
    }
}

/// Text of the form `#RRGGBB`: a hash sign and six hexadecimal digits.
pub open spec fn is_hex_color_text(s: Seq<char>) -> bool {
    &&& s.len() == 7
    &&& s[0] == '#'
    &&& forall|i: int| 1 <= i < 7 ==> is_hex_digit(#[trigger] s[i])
}

/// The byte written by the two hexadecimal digits at `i` and `i + 1`.
pub open spec fn hex_pair_value(s: Seq<char>, i: int) -> nat {
    16 * hex_digit_value(s[i]) + hex_digit_value(s[i + 1])
}

/// A color with one byte per channel, as a scene file writes it.
#[derive(Clone, Copy, Debug, PartialEq, Eq, Structural)]
pub struct Rgb8 {
    pub r: u8,
    pub g: u8,
    pub b: u8,
}

fn hex_digit(c: char) -> (r: Option<u8>)
    ensures
        r.is_some() == is_hex_digit(c),
        r.is_some() ==> r.unwrap() as nat == hex_digit_value(c) && r.unwrap() < 16,
{
    if '0' <= c && c <= '9' {
        Some((c as u32 - '0' as u32) as u8)
    } else if 'a' <= c && c <= 'f' {
        Some((c as u32 - 'a' as u32 + 10) as u8)
    } else if 'A' <= c && c <= 'F' {
        Some((c as u32 - 'A' as u32 + 10) as u8)
    } else {
        None
    }
}

/// Whether `hex` has the form `#RRGGBB`.
pub fn is_hex_format(hex: &str) -> (r: bool)
    ensures
        r == is_hex_color_text(hex@),
{
    if hex.unicode_len() != 7 {
        return false;
    }
    if hex.get_char(0) != '#' {
        return false;
    }
    let mut i: usize = 1;
    while i < 7
        invariant
            hex@.len() == 7,
            hex@[0] == '#',
            1 <= i <= 7,
            forall|k: int| 1 <= k < i ==> is_hex_digit(#[trigger] hex@[k]),
        decreases 7 - i,
    {
        if hex_digit(hex.get_char(i)).is_none() {
            return false;
        }
        i = i + 1;
    }
    true
}

fn hex_pair(hex: &str, i: usize) -> (r: u8)
    requires
        is_hex_color_text(hex@),
        1 <= i <= 5,
    ensures
        r as nat == hex_pair_value(hex@, i as int),
{
    let hi = hex_digit(hex.get_char(i)).unwrap();
    let lo = hex_digit(hex.get_char(i + 1)).unwrap();
    16 * hi + lo
}

impl Rgb8 {
    /// Reads a color written `#RRGGBB`; `None` when the text has another form.
    pub fn from_hex(hex: &str) -> (r: Option<Rgb8>)
        ensures
            r.is_some() == is_hex_color_text(hex@),
            r.is_some() ==> {
                &&& r.unwrap().r as nat == hex_pair_value(hex@, 1)
                &&& r.unwrap().g as nat == hex_pair_value(hex@, 3)
                &&& r.unwrap().b as nat == hex_pair_value(hex@, 5)
            },
    {
        if !is_hex_format(hex) {
            return None;
        }
        Some(Rgb8 { r: hex_pair(hex, 1), g: hex_pair(hex, 3), b: hex_pair(hex, 5) })
    }
}

} // verus!
