//! PETSCII (Commodore character encoding) to Unicode conversion for display.
use vstd::prelude::*;
use crate::text::{string_from_chars, trim_end, trim_end_chars};
use vstd::string::StringSliceAdditionalSpecFns;

verus! {

/// The display character for one PETSCII byte.
pub open spec fn petscii_char(b: u8) -> char {
    if b <= 0x20 {
        ' '
    } else if b <= 0x3F {
        b as char
    } else if b == 0x40 {
        '@'
    } else if b <= 0x5A {
        b as char
    } else if b == 0x5B {
        '['
    } else if b == 0x5C {
        '£'
    } else if b == 0x5D {
        ']'
    } else if b == 0x5E {
        '^'
    } else if b == 0x5F {
        '_'
    } else if b == 0x60 {
        '-'
    } else if b <= 0x7A {
        b as char
    } else if b <= 0x9F {
        '#'
    } else if b == 0xA0 {
        ' '
    } else if b <= 0xBF {
        '#'
    } else if b == 0xC0 {
        '-'
    } else if b <= 0xDA {
        ((b - 0xC1 + 0x41) as u8) as char
    } else {
        '#'
    }
}

/// The characters of a directory-style PETSCII name: every byte but the
/// `$A0` padding byte, converted with `petscii_char`.
pub open spec fn petscii_display(bytes: Seq<u8>) -> Seq<char>
    decreases bytes.len(),
{
    if bytes.len() == 0 {
        Seq::empty()
    } else {
        let rest = petscii_display(bytes.drop_last());
        if bytes.last() == 0xA0 {
            rest
        } else {
            rest.push(petscii_char(bytes.last()))
        }
    }
}

/// How a byte of a PETSCII text file is shown: line endings become `'\n'`,
/// control codes are dropped (`None`), everything else goes through
/// `petscii_char`.
pub open spec fn text_char(b: u8) -> Option<char> {
    if b == 0x0d || b == 0x0a {
        Some('\n')
    } else if b == 0x00 || (0x01 <= b && b <= 0x09) || b == 0x0e || (0x11 <= b && b <= 0x14) || (
    0x1c <= b && b <= 0x1f) || (0x81 <= b && b <= 0x9f) {
        None
    } else {
        Some(petscii_char(b))
    }
}

/// The characters of a PETSCII text file.
pub open spec fn petscii_text(bytes: Seq<u8>) -> Seq<char>
    decreases bytes.len(),
{
    if bytes.len() == 0 {
        Seq::empty()
    } else {
        let rest = petscii_text(bytes.drop_last());
        match text_char(bytes.last()) {
            Some(c) => rest.push(c),
            None => rest,
        }
    }
}

/// Law: digits and ASCII letters keep their character: bytes `0`..`9`,
/// `A`..`Z` and `a`..`z` show as themselves, and the shifted capitals
/// `$C1`..`$DA` show as `A`..`Z`.
pub proof fn law_letters_and_digits_are_kept(b: u8)
    ensures
        (0x30 <= b <= 0x39 || 0x41 <= b <= 0x5A || 0x61 <= b <= 0x7A) ==> petscii_char(b) == b
            as char,
        0xC1 <= b <= 0xDA ==> petscii_char(b) == (b - 0x80) as char,
{
}

/// Law: a text file made only of digits and ASCII letters converts to
/// those same characters.
pub proof fn law_plain_text_is_kept(bytes: Seq<u8>)
    requires
        forall|i: int|
            0 <= i < bytes.len() ==> (0x30 <= #[trigger] bytes[i] <= 0x39 || 0x41 <= bytes[i]
                <= 0x5A || 0x61 <= bytes[i] <= 0x7A),
    ensures
        petscii_text(bytes) == bytes.map_values(|b: u8| b as char),
    decreases bytes.len(),
{
    if bytes.len() > 0 {
        law_plain_text_is_kept(bytes.drop_last());
        law_letters_and_digits_are_kept(bytes.last());
        assert(bytes.map_values(|b: u8| b as char) =~= bytes.drop_last().map_values(|b: u8| b as char).push(
            bytes.last() as char,
        ));
    }
}

/// Convert a single PETSCII byte to a displayable character.
pub fn byte_to_char(petscii_code: u8) -> (c: char)
    ensures
        c == petscii_char(petscii_code),
{
    let b = petscii_code;
    if b <= 0x20 {
        ' '
    } else if b <= 0x3F {
        b as char
    } else if b == 0x40 {
        '@'
    } else if b <= 0x5A {
        b as char
    } else if b == 0x5B {
        '['
    } else if b == 0x5C {
        '£'
    } else if b == 0x5D {
        ']'
    } else if b == 0x5E {
        '^'
    } else if b == 0x5F {
        '_'
    } else if b == 0x60 {
        '-'
    } else if b <= 0x7A {
        b as char
    } else if b <= 0x9F {
        '#'
    } else if b == 0xA0 {
        ' '
    } else if b <= 0xBF {
        '#'
    } else if b == 0xC0 {
        '-'
    } else if b <= 0xDA {
        (b - 0xC1 + 0x41) as char
    } else {
        '#'
    }
}

/// Convert PETSCII bytes to a displayable string: `$A0` padding bytes are
/// skipped and trailing whitespace is trimmed.
pub fn to_string(bytes: &[u8]) -> (s: String)
    ensures
        s@ == trim_end(petscii_display(bytes@)),
{
    let mut out: Vec<char> = Vec::new();
    let mut i: usize = 0;
    while i < bytes.len()
        invariant
            i <= bytes@.len(),
            out@ == petscii_display(bytes@.take(i as int)),
        decreases bytes@.len() - i,
    {
        let b = bytes[i];
        proof {
            assert(bytes@.take(i + 1).drop_last() =~= bytes@.take(i as int));
        }
        if b != 0xA0 {
            out.push(byte_to_char(b));
        }
        i = i + 1;
    }
    assert(bytes@.take(i as int) =~= bytes@);
    let trimmed = trim_end_chars(&out);
    string_from_chars(&trimmed)
}

/// Convert the content of a PETSCII/Commodore text file to Unicode: CR and
/// LF become line breaks, colour/cursor control codes are dropped.
pub fn convert_text_file(input: &[u8]) -> (s: String)
    ensures
        s@ == petscii_text(input@),
{
    let mut out: Vec<char> = Vec::new();
    let mut i: usize = 0;
    while i < input.len()
        invariant
            i <= input@.len(),
            out@ == petscii_text(input@.take(i as int)),
        decreases input@.len() - i,
    {
        let b = input[i];
        proof {
            assert(input@.take(i + 1).drop_last() =~= input@.take(i as int));
        }
        if b == 0x0d || b == 0x0a {
            out.push('\n');
        } else if b == 0x00 || (0x01 <= b && b <= 0x09) || b == 0x0e || (0x11 <= b && b <= 0x14)
            || (0x1c <= b && b <= 0x1f) || (0x81 <= b && b <= 0x9f) {
        } else {
            out.push(byte_to_char(b));
        }
        i = i + 1;
    }
    assert(input@.take(i as int) =~= input@);
    string_from_chars(&out)
}

/// Convert a string whose bytes may be raw PETSCII: its UTF-8 bytes are
/// converted as a PETSCII text file.
pub fn convert_mixed_text(input: &str) -> (s: String)
    ensures
        s@ == petscii_text(input.spec_bytes()),
{
    convert_text_file(input.as_bytes())
}

} // verus!
