use vstd::prelude::*;

verus! {

/// A class of characters, told by code point.
#[derive(Debug, Clone, Copy, PartialEq, Eq, Structural)]
pub enum CharacterRange {
    Decimal,
    Binary,
    Hexadecimal,
    Ponctuation,
    BannedFirstVariableCharacter,
    VariableCharacter,
    FileLocationStart,
}

// Numbers
pub const DECIMAL_RANGES: CharacterRange = CharacterRange::Decimal;

pub const BINARY_RANGES: CharacterRange = CharacterRange::Binary;

pub const HEXADECIMAL_RANGES: CharacterRange = CharacterRange::Hexadecimal;

// Ponctuations
pub const PONCTUATION_RANGES: CharacterRange = CharacterRange::Ponctuation;

// Variables
pub const BANNED_FIRST_VARIABLE_CHARACTER_RANGES: CharacterRange =
    CharacterRange::BannedFirstVariableCharacter;

pub const VARIABLE_CHARACTER_RANGES: CharacterRange = CharacterRange::VariableCharacter;

// Importations
pub const IS_FILE_LOCATION_IF_STARTS_WITH: CharacterRange = CharacterRange::FileLocationStart;

impl CharacterRange {
    /// Whether the class holds the character.
    pub open spec fn holds(self, c: char) -> bool {
        let p = c as u32;
        match self {
            CharacterRange::Decimal => 0x30 <= p <= 0x39,
            CharacterRange::Binary => 0x30 <= p <= 0x31,
            CharacterRange::Hexadecimal => 0x30 <= p <= 0x39 || 0x41 <= p <= 0x5a || 0x61 <= p
                <= 0x7a,
            CharacterRange::Ponctuation => p == 0x21 || p == 0x23 || 0x25 <= p <= 0x26 || 0x28
                <= p <= 0x2e || 0x3a <= p <= 0x40 || 0x7b <= p <= 0x7e,
            CharacterRange::BannedFirstVariableCharacter => 0x30 <= p <= 0x39,
            CharacterRange::VariableCharacter => 0x30 <= p <= 0x39 || 0x41 <= p <= 0x5a || p
                == 0x5f || 0x61 <= p <= 0x7a || 0xa1 <= p,
            CharacterRange::FileLocationStart => p == 0x2e || p == 0x2f,
        }
    }
}

/// Whether the class `range` holds the character `c`.
pub fn in_ranges(range: CharacterRange, c: char) -> (r: bool)
    ensures
        r == range.holds(c),
{
    let p = c as u32;
    match range {
        CharacterRange::Decimal => 0x30 <= p && p <= 0x39,
        CharacterRange::Binary => 0x30 <= p && p <= 0x31,
        CharacterRange::Hexadecimal => (0x30 <= p && p <= 0x39) || (0x41 <= p && p <= 0x5a) || (
        0x61 <= p && p <= 0x7a),
        CharacterRange::Ponctuation => p == 0x21 || p == 0x23 || (0x25 <= p && p <= 0x26) || (0x28
            <= p && p <= 0x2e) || (0x3a <= p && p <= 0x40) || (0x7b <= p && p <= 0x7e),
        CharacterRange::BannedFirstVariableCharacter => 0x30 <= p && p <= 0x39,
        CharacterRange::VariableCharacter => (0x30 <= p && p <= 0x39) || (0x41 <= p && p <= 0x5a)
            || p == 0x5f || (0x61 <= p && p <= 0x7a) || 0xa1 <= p,
        CharacterRange::FileLocationStart => p == 0x2e || p == 0x2f,
    }
}

/// The characters that separate tokens and mean nothing else: those with the Unicode
/// property `White_Space`.
pub open spec fn whitespace(c: char) -> bool {
    let p = c as u32;
    0x09 <= p <= 0x0d || p == 0x20 || p == 0x85 || p == 0xa0 || p == 0x1680 || 0x2000 <= p
        <= 0x200a || p == 0x2028 || p == 0x2029 || p == 0x202f || p == 0x205f || p == 0x3000
}

pub fn is_whitespace(c: char) -> (r: bool)
    ensures
        r == whitespace(c),
{
    let p = c as u32;
    (0x09 <= p && p <= 0x0d) || p == 0x20 || p == 0x85 || p == 0xa0 || p == 0x1680 || (0x2000 <= p
        && p <= 0x200a) || p == 0x2028 || p == 0x2029 || p == 0x202f || p == 0x205f || p == 0x3000
}

} // verus!
