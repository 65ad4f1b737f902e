//! Overlay configuration values: the defaults and the `#RRGGBB` colour format.

use vstd::prelude::*;
use vstd::string::StringSliceAdditionalSpecFns;

verus! {

/// Why a colour string is not of the form `#RRGGBB`.
#[derive(Debug, Clone, Copy, PartialEq, Eq, Structural)]
pub enum HexColorError {
    /// After the leading `#` characters there are not exactly six bytes.
    InvalidLength,
    /// The first two digits are not a hexadecimal byte.
    InvalidRed,
    /// The middle two digits are not a hexadecimal byte.
    InvalidGreen,
    /// The last two digits are not a hexadecimal byte.
    InvalidBlue,
}

/// `b` without its leading `#` bytes.
pub open spec fn strip_hashes(b: Seq<u8>) -> Seq<u8>
    decreases b.len(),
{
    if b.len() > 0 && b[0] == 0x23u8 {
        strip_hashes(b.drop_first())
    } else {
        b
    }
}

/// The value of an ASCII hexadecimal digit, either case.
pub open spec fn hex_digit_value(b: u8) -> Option<int> {
    if 0x30 <= b <= 0x39 {
        Some(b - 0x30)
    } else if 0x61 <= b <= 0x66 {
        Some(b - 0x61 + 10)
    } else if 0x41 <= b <= 0x46 {
        Some(b - 0x41 + 10)
    } else {
        None
    }
}

/// The byte that two ASCII hexadecimal digits give in base 16.
pub open spec fn hex_byte(a: u8, b: u8) -> Option<u8> {
    match (hex_digit_value(a), hex_digit_value(b)) {
        (Some(x), Some(y)) => Some((x * 16 + y) as u8),
        _ => None,
    }
}

/// The colour that the UTF-8 bytes `bytes` spell as `#RRGGBB`.
pub open spec fn hex_color_of(bytes: Seq<u8>) -> Result<(u8, u8, u8), HexColorError> {
    let t = strip_hashes(bytes);
    if t.len() != 6 {
        Err(HexColorError::InvalidLength)
    } else {
        match hex_byte(t[0], t[1]) {
            None => Err(HexColorError::InvalidRed),
            Some(r) => match hex_byte(t[2], t[3]) {
                None => Err(HexColorError::InvalidGreen),
                Some(g) => match hex_byte(t[4], t[5]) {
                    None => Err(HexColorError::InvalidBlue),
                    Some(b) => Ok((r, g, b)),
                },
            },
        }
    }
}

fn hex_digit(b: u8) -> (r: Option<u8>)
    ensures
        match hex_digit_value(b) {
            Some(v) => r == Some(v as u8),
            None => r is None,
        },
{
    if 0x30 <= b && b <= 0x39 {
        Some(b - 0x30)
    } else if 0x61 <= b && b <= 0x66 {
        Some(b - 0x61 + 10)
    } else if 0x41 <= b && b <= 0x46 {
        Some(b - 0x41 + 10)
    } else {
        None
    }
}

fn parse_hex_byte(a: u8, b: u8) -> (r: Option<u8>)
    ensures
        r == hex_byte(a, b),
{
    match (hex_digit(a), hex_digit(b)) {
        (Some(x), Some(y)) => Some(x * 16 + y),
        _ => None,
    }
}

/// Parses a colour of the form `#RRGGBB` into its red, green and blue bytes.
///
/// Any number of leading `#` characters is ignored (also none); then exactly
/// six bytes must remain, three pairs of ASCII hexadecimal digits (either
/// case).  Any other byte, a sign or a non-ASCII character among them, makes
/// the pair that holds it an error.
pub fn parse_hex_color(hex: &str) -> (res: Result<(u8, u8, u8), HexColorError>)
    ensures
        res == hex_color_of(hex.spec_bytes()),
{
    let bytes = hex.as_bytes();
    let mut start: usize = 0;
    assert(bytes@.skip(0) =~= bytes@);
    while start < bytes.len() && bytes[start] == 0x23
        invariant
            start <= bytes@.len(),
            bytes@ == hex.spec_bytes(),
            strip_hashes(bytes@) == strip_hashes(bytes@.skip(start as int)),
        decreases bytes.len() - start,
    {
        assert(bytes@.skip(start as int).drop_first() =~= bytes@.skip(start + 1));
        start = start + 1;
    }
    let ghost t = bytes@.skip(start as int);
    assert(strip_hashes(t) == t);
    if bytes.len() - start != 6 {
        return Err(HexColorError::InvalidLength);
    }
    let r = match parse_hex_byte(bytes[start], bytes[start + 1]) {
        Some(v) => v,
        None => return Err(HexColorError::InvalidRed),
    };
    let g = match parse_hex_byte(bytes[start + 2], bytes[start + 3]) {
        Some(v) => v,
        None => return Err(HexColorError::InvalidGreen),
    };
    let b = match parse_hex_byte(bytes[start + 4], bytes[start + 5]) {
        Some(v) => v,
        None => return Err(HexColorError::InvalidBlue),
    };
    Ok((r, g, b))
}

/// The default background colour, black.
pub fn default_background_color() -> (s: String)
    ensures
        s@ == "#000000"@,
{
    "#000000".to_owned()
}

/// The default text colour, white.
pub fn default_text_color() -> (s: String)
    ensures
        s@ == "#ffffff"@,
{
    "#ffffff".to_owned()
}

/// By default the background behind the overlay is blurred.
pub fn default_apply_blur() -> (b: bool)
    ensures
        b,
{
    true
}

/// By default the overlay is centred.
pub fn default_anchor() -> (s: String)
    ensures
        s@ == "center"@,
{
    "center".to_owned()
}

/// The default overlay width in pixels.
pub fn default_width() -> (w: u32)
    ensures
        w == 1200,
{
    1200
}

/// The default overlay height in pixels.
pub fn default_height() -> (h: u32)
    ensures
        h == 800,
{
    800
}

/// A colour reads the same with or without a leading `#`.
pub proof fn lemma_leading_hash_is_optional(bytes: Seq<u8>)
    ensures
        hex_color_of(seq![0x23u8] + bytes) == hex_color_of(bytes),
{
    let b = seq![0x23u8] + bytes;
    assert(b.drop_first() =~= bytes);
}

/// The ASCII hexadecimal digits and their values: `0`..`9` are 0 to 9, and
/// `a`..`f` and `A`..`F` are 10 to 15; no other byte is a digit.
pub proof fn lemma_hex_digit_values()
    ensures
        forall|c: char| '0' <= c <= '9' ==> #[trigger] hex_digit_value(c as u8) == Some(
            (c as int) - ('0' as int),
        ),
        forall|c: char| 'a' <= c <= 'f' ==> #[trigger] hex_digit_value(c as u8) == Some(
            (c as int) - ('a' as int) + 10,
        ),
        forall|c: char| 'A' <= c <= 'F' ==> #[trigger] hex_digit_value(c as u8) == Some(
            (c as int) - ('A' as int) + 10,
        ),
        forall|b: u8| #[trigger]
            hex_digit_value(b) is Some ==> ('0' as int <= b <= '9' as int || 'a' as int <= b
                <= 'f' as int || 'A' as int <= b <= 'F' as int) && 0 <= hex_digit_value(b)->0 < 16,
{
}

/// Six hexadecimal digits, after any leading `#`, give the colour whose red,
/// green and blue bytes are the base-16 values of the three pairs.
pub proof fn lemma_six_hex_digits_give_their_values(t: Seq<u8>)
    requires
        t.len() == 6,
        t[0] != 0x23u8,
        forall|k: int| 0 <= k < 6 ==> #[trigger] hex_digit_value(t[k]) is Some,
    ensures
        ({
            let v = |k: int| hex_digit_value(t[k])->0;
            let (r, g, b) = (16 * v(0) + v(1), 16 * v(2) + v(3), 16 * v(4) + v(5));
            &&& 0 <= r < 256 && 0 <= g < 256 && 0 <= b < 256
            &&& hex_color_of(t) == Ok::<(u8, u8, u8), HexColorError>((r as u8, g as u8, b as u8))
        }),
        hex_color_of(seq![0x23u8] + t) == hex_color_of(t),
{
    lemma_hex_digit_values();
    assert(hex_digit_value(t[0]) is Some && hex_digit_value(t[1]) is Some);
    assert(hex_digit_value(t[2]) is Some && hex_digit_value(t[3]) is Some);
    assert(hex_digit_value(t[4]) is Some && hex_digit_value(t[5]) is Some);
    assert(strip_hashes(t) == t);
    lemma_leading_hash_is_optional(t);
}

} // verus!
