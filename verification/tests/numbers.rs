use flylang::flylang::lexer::ranges::{
    in_ranges, is_whitespace, BANNED_FIRST_VARIABLE_CHARACTER_RANGES, BINARY_RANGES,
    DECIMAL_RANGES, HEXADECIMAL_RANGES, IS_FILE_LOCATION_IF_STARTS_WITH, PONCTUATION_RANGES,
    VARIABLE_CHARACTER_RANGES,
};
use flylang::flylang::lexer::tokens::representations::number::{
    NumberRepresentation, NumberRepresentationBases,
};
use flylang::flylang::module::slice::LangModuleSlice;
use flylang::flylang::FlyLang;

fn read(lexeme: &str) -> Option<NumberRepresentation> {
    let module = FlyLang::anonymous_module(lexeme, None).into_rc();
    let slice = LangModuleSlice::new_with(&module, 0..module.len());
    NumberRepresentation::from(&slice)
}

#[test]
fn character_classes() {
    for c in '0'..='9' {
        assert!(in_ranges(DECIMAL_RANGES, c));
        assert!(in_ranges(HEXADECIMAL_RANGES, c));
        assert!(in_ranges(VARIABLE_CHARACTER_RANGES, c));
        assert!(in_ranges(BANNED_FIRST_VARIABLE_CHARACTER_RANGES, c));
        assert_eq!(in_ranges(BINARY_RANGES, c), c == '0' || c == '1');
    }
    for c in ['/', ':', 'a', ' ', '_'] {
        assert!(!in_ranges(DECIMAL_RANGES, c));
    }
    for c in ['a', 'f', 'z', 'A', 'F', 'Z'] {
        assert!(in_ranges(HEXADECIMAL_RANGES, c));
        assert!(in_ranges(VARIABLE_CHARACTER_RANGES, c));
        assert!(!in_ranges(BANNED_FIRST_VARIABLE_CHARACTER_RANGES, c));
    }
    for c in ['@', '[', '`', '{', '_'] {
        assert!(!in_ranges(HEXADECIMAL_RANGES, c));
    }
    for c in ['!', '#', '%', '&', '(', ')', '*', '+', ',', '-', '.', ':', ';', '<', '=', '>', '?', '@', '{', '|', '}', '~'] {
        assert!(in_ranges(PONCTUATION_RANGES, c), "{}", c);
    }
    for c in ['"', '$', '\'', '/', '9', 'A', '[', '_', 'a', ' '] {
        assert!(!in_ranges(PONCTUATION_RANGES, c), "{}", c);
    }
    for c in ['_', '\u{a1}', 'é', '→', '\u{10ffff}'] {
        assert!(in_ranges(VARIABLE_CHARACTER_RANGES, c));
    }
    for c in [' ', '-', '\u{a0}', '`', '^', '\u{7f}'] {
        assert!(!in_ranges(VARIABLE_CHARACTER_RANGES, c));
    }
    assert!(in_ranges(IS_FILE_LOCATION_IF_STARTS_WITH, '.'));
    assert!(in_ranges(IS_FILE_LOCATION_IF_STARTS_WITH, '/'));
    assert!(!in_ranges(IS_FILE_LOCATION_IF_STARTS_WITH, 'a'));
}

#[test]
fn whitespace_is_that_of_unicode() {
    for code in 0..=0x10ffffu32 {
        if let Some(c) = char::from_u32(code) {
            assert_eq!(is_whitespace(c), c.is_whitespace(), "{:x}", code);
        }
    }
}

#[test]
fn bases_and_their_digits() {
    assert_eq!(NumberRepresentationBases::Binary.range(), BINARY_RANGES);
    assert_eq!(NumberRepresentationBases::Decimal.range(), DECIMAL_RANGES);
    assert_eq!(NumberRepresentationBases::Hexadecimal.range(), HEXADECIMAL_RANGES);

    assert_eq!(NumberRepresentationBases::Binary.convert_digit('0'), Some(0));
    assert_eq!(NumberRepresentationBases::Binary.convert_digit('1'), Some(1));
    assert_eq!(NumberRepresentationBases::Binary.convert_digit('2'), None);
    assert_eq!(NumberRepresentationBases::Decimal.convert_digit('9'), Some(9));
    assert_eq!(NumberRepresentationBases::Decimal.convert_digit('a'), None);
    assert_eq!(NumberRepresentationBases::Hexadecimal.convert_digit('9'), Some(9));
    assert_eq!(NumberRepresentationBases::Hexadecimal.convert_digit('a'), Some(10));
    assert_eq!(NumberRepresentationBases::Hexadecimal.convert_digit('f'), Some(15));
    assert_eq!(NumberRepresentationBases::Hexadecimal.convert_digit('A'), Some(10));
    assert_eq!(NumberRepresentationBases::Hexadecimal.convert_digit('F'), Some(15));
    assert_eq!(NumberRepresentationBases::Hexadecimal.convert_digit('g'), None);
    assert_eq!(NumberRepresentationBases::Hexadecimal.convert_digit('G'), None);
    assert_eq!(NumberRepresentationBases::Hexadecimal.convert_digit('_'), None);
}

#[test]
fn multipliers() {
    assert_eq!(NumberRepresentationBases::Binary.multiplier(0), Some(1));
    assert_eq!(NumberRepresentationBases::Binary.multiplier(10), Some(1024));
    assert_eq!(NumberRepresentationBases::Binary.multiplier(63), Some(1 << 63));
    assert_eq!(NumberRepresentationBases::Binary.multiplier(64), None);
    assert_eq!(NumberRepresentationBases::Decimal.multiplier(0), Some(1));
    assert_eq!(NumberRepresentationBases::Decimal.multiplier(3), Some(1000));
    assert_eq!(NumberRepresentationBases::Decimal.multiplier(19), Some(10_000_000_000_000_000_000));
    assert_eq!(NumberRepresentationBases::Decimal.multiplier(20), None);
    assert_eq!(NumberRepresentationBases::Hexadecimal.multiplier(2), Some(256));
    assert_eq!(NumberRepresentationBases::Hexadecimal.multiplier(15), Some(1 << 60));
    assert_eq!(NumberRepresentationBases::Hexadecimal.multiplier(16), None);
    assert_eq!(NumberRepresentationBases::Hexadecimal.multiplier(usize::MAX), None);
}

#[test]
fn numbers_are_read_from_their_lexeme() {
    let number = read("12_345").unwrap();
    assert!(!number.negative);
    assert_eq!(number.integer, 12345);
    assert_eq!(number.decimal, None);
    assert_eq!(number.decimal_length, 0);
    assert_eq!(number.represented_as, NumberRepresentationBases::Decimal);

    let number = read("1.05").unwrap();
    assert_eq!(number.integer, 1);
    assert_eq!(number.decimal, Some(5));
    assert_eq!(number.decimal_length, 2);

    let number = read("-0x_fF").unwrap();
    assert!(number.negative);
    assert_eq!(number.integer, 255);
    assert_eq!(number.represented_as, NumberRepresentationBases::Hexadecimal);

    let number = read("0b0").unwrap();
    assert_eq!(number.integer, 0);
    assert_eq!(number.represented_as, NumberRepresentationBases::Binary);

    // A sign may stand apart from the number; two signs undo each other.
    assert!(read("- 2").unwrap().negative);
    assert!(!read("- -2").unwrap().negative);
    assert_eq!(read("- -2").unwrap().integer, 2);

    assert_eq!(read("18446744073709551615").unwrap().integer, u64::MAX);
}

#[test]
fn what_is_no_number_is_not_read() {
    assert!(read("12a").is_none());
    assert!(read("0b12").is_none());
    assert!(read("0xfg").is_none());
    assert!(read("1.2.3").is_none());
    assert!(read("0b1.1").is_none());
    assert!(read("0x1.1").is_none());
    assert!(read("1-").is_none());
    assert!(read("1 ").is_none());
    // More than 64 bits hold.
    assert!(read("18446744073709551616").is_none());
    assert!(read("0.18446744073709551616").is_none());
    assert!(read("0x1_0000_0000_0000_0000").is_none());
}
