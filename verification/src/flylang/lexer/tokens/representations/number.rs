use crate::flylang::lexer::ranges::{
    BINARY_RANGES, CharacterRange, DECIMAL_RANGES, HEXADECIMAL_RANGES, in_ranges, is_whitespace,
    whitespace,
};
use crate::flylang::module::slice::LangModuleSlice;
use vstd::prelude::*;

verus! {

#[derive(Debug, Clone, Copy, PartialEq, Eq, Structural)]
pub enum NumberRepresentationBases {
    Binary,
    Decimal,
    Hexadecimal,
}

/// `radix` multiplied by itself `exponent` times.
pub open spec fn radix_power(radix: nat, exponent: nat) -> nat
    decreases exponent,
{
    if exponent == 0 {
        1
    } else {
        radix * radix_power(radix, (exponent - 1) as nat)
    }
}

/// What a digit is worth, whatever the base: `0` to `9`, then `a` to `f` in either case.
pub open spec fn digit_of(c: char) -> Option<nat> {
    let p = c as u32;
    if 0x30 <= p <= 0x39 {
        Some((p - 0x30) as nat)
    } else if 0x61 <= p <= 0x66 {
        Some((p - 0x61 + 10) as nat)
    } else if 0x41 <= p <= 0x46 {
        Some((p - 0x41 + 10) as nat)
    } else {
        None
    }
}

impl NumberRepresentationBases {
    pub open spec fn radix(self) -> nat {
        match self {
            NumberRepresentationBases::Binary => 2,
            NumberRepresentationBases::Decimal => 10,
            NumberRepresentationBases::Hexadecimal => 16,
        }
    }

    /// The class of the characters that may stand for a digit in the base.
    pub open spec fn class(self) -> CharacterRange {
        match self {
            NumberRepresentationBases::Binary => CharacterRange::Binary,
            NumberRepresentationBases::Decimal => CharacterRange::Decimal,
            NumberRepresentationBases::Hexadecimal => CharacterRange::Hexadecimal,
        }
    }

    /// What the character is worth as a digit of the base, if it is one.
    pub open spec fn digit(self, c: char) -> Option<nat> {
        if self.class().holds(c) && digit_of(c) is Some && digit_of(c).unwrap() < self.radix() {
            digit_of(c)
        } else {
            None
        }
    }

    /// The weight of the digit at `digit_index`, counted from the right and from 0, unless it
    /// exceeds what 64 bits hold.
    pub fn multiplier(&self, digit_index: usize) -> (r: Option<u64>)
        ensures
            r == if radix_power(self.radix(), digit_index as nat) <= u64::MAX {
                Some(radix_power(self.radix(), digit_index as nat) as u64)
            } else {
                None::<u64>
            },
    {
        let radix: u64 = match self {
            NumberRepresentationBases::Binary => 2,
            NumberRepresentationBases::Decimal => 10,
            NumberRepresentationBases::Hexadecimal => 16,
        };
        let mut weight: u64 = 1;
        let mut done: usize = 0;
        while done < digit_index
            invariant
                done <= digit_index,
                radix == self.radix(),
                weight == radix_power(self.radix(), done as nat),
            decreases digit_index - done,
        {
            match weight.checked_mul(radix) {
                Some(next) => {
                    assert(radix_power(self.radix(), (done + 1) as nat) == radix * radix_power(
                        self.radix(),
                        done as nat,
                    ));
                    weight = next;
                    done = done + 1;
                },
                None => {
                    proof {
                        assert(radix_power(self.radix(), (done + 1) as nat) == radix
                            * radix_power(self.radix(), done as nat));
                        lemma_power_grows(
                            self.radix(),
                            (done + 1) as nat,
                            digit_index as nat,
                        );
                    }
                    return None;
                },
            }
        }
        Some(weight)
    }

    pub fn range(&self) -> (r: CharacterRange)
        ensures
            r == self.class(),
    {
        match self {
            Self::Binary => BINARY_RANGES,
            Self::Decimal => DECIMAL_RANGES,
            Self::Hexadecimal => HEXADECIMAL_RANGES,
        }
    }

    pub fn convert_digit(&self, digit: char) -> (r: Option<u64>)
        ensures
            r is Some == self.digit(digit) is Some,
            r matches Some(v) ==> self.digit(digit) == Some(v as nat),
    {
        if !in_ranges(self.range(), digit) {
            return None;
        }
        let p = digit as u32;
        if 0x30 <= p && p <= 0x39 {
            Some((p - 0x30) as u64)
        } else if matches!(self, NumberRepresentationBases::Hexadecimal) && 0x61 <= p && p
            <= 0x66 {
            Some((p - 0x61 + 10) as u64)
        } else if matches!(self, NumberRepresentationBases::Hexadecimal) && 0x41 <= p && p
            <= 0x46 {
            Some((p - 0x41 + 10) as u64)
        } else {
            None
        }
    }
}

/// A power of a radix of 2 or more never shrinks as the exponent grows.
pub proof fn lemma_power_grows(radix: nat, low: nat, high: nat)
    requires
        radix >= 1,
        low <= high,
    ensures
        radix_power(radix, low) <= radix_power(radix, high),
        radix_power(radix, low) >= 1,
    decreases high,
{
    if low == 0 {
        if high > 0 {
            lemma_power_grows(radix, 0, (high - 1) as nat);
            assert(radix_power(radix, high) >= radix_power(radix, (high - 1) as nat))
                by (nonlinear_arith)
                requires
                    radix >= 1,
                    radix_power(radix, (high - 1) as nat) >= 1,
                    radix_power(radix, high) == radix * radix_power(radix, (high - 1) as nat),
            ;
        }
    } else {
        lemma_power_grows(radix, (low - 1) as nat, (high - 1) as nat);
        assert(radix_power(radix, low) <= radix_power(radix, high)) by (nonlinear_arith)
            requires
                radix >= 1,
                radix_power(radix, (low - 1) as nat) <= radix_power(radix, (high - 1) as nat),
                radix_power(radix, low) == radix * radix_power(radix, (low - 1) as nat),
                radix_power(radix, high) == radix * radix_power(radix, (high - 1) as nat),
        ;
        assert(radix_power(radix, low) >= 1) by (nonlinear_arith)
            requires
                radix >= 1,
                radix_power(radix, (low - 1) as nat) >= 1,
                radix_power(radix, low) == radix * radix_power(radix, (low - 1) as nat),
        ;
    }
}

/// What a number's lexeme says, mathematically.
pub struct NumberView {
    pub negative: bool,
    pub integer: nat,
    pub decimal: Option<nat>,
    pub decimal_length: nat,
    pub represented_as: NumberRepresentationBases,
}

/// What the signs in front of a number say. From `at`, passes over every `-` and every
/// blank: gives where the number itself begins, and whether the `-` signs passed, together
/// with `negative`, leave it negative.
pub open spec fn sign_scan(code: Seq<char>, at: int, end: int, negative: bool) -> (int, bool)
    decreases end - at,
{
    if at < end && code[at] == '-' {
        sign_scan(code, at + 1, end, !negative)
    } else if at < end && whitespace(code[at]) {
        sign_scan(code, at + 1, end, negative)
    } else {
        (at, negative)
    }
}

/// The base that the number beginning at `at` declares: `0b`, `0x`, or none.
pub open spec fn base_at(code: Seq<char>, at: int, end: int) -> NumberRepresentationBases {
    if at + 1 < end && code[at] == '0' && code[at + 1] == 'b' {
        NumberRepresentationBases::Binary
    } else if at + 1 < end && code[at] == '0' && code[at + 1] == 'x' {
        NumberRepresentationBases::Hexadecimal
    } else {
        NumberRepresentationBases::Decimal
    }
}

/// Reads digits of `base` from `at` up to a `.` or to `end`, on top of the `value` and the
/// `count` of digits read so far. An underscore is passed over. Gives where the reading
/// stopped, the value and the number of digits, or nothing if another character stands there.
pub open spec fn digits_scan(
    base: NumberRepresentationBases,
    code: Seq<char>,
    at: int,
    end: int,
    value: nat,
    count: nat,
) -> Option<(int, nat, nat)>
    decreases end - at,
{
    if at >= end || code[at] == '.' {
        Some((at, value, count))
    } else if code[at] == '_' {
        digits_scan(base, code, at + 1, end, value, count)
    } else {
        match base.digit(code[at]) {
            Some(d) => digits_scan(base, code, at + 1, end, value * base.radix() + d, count + 1),
            None => None,
        }
    }
}

/// What the lexeme between `start` and `end` says: signs, then a base, then the digits of
/// the integer part and, in base ten only, a `.` and those of the decimal part.
pub open spec fn number_of(code: Seq<char>, start: int, end: int) -> Option<NumberView> {
    let (body, negative) = sign_scan(code, start, end, false);
    let base = base_at(code, body, end);
    let first = if base == NumberRepresentationBases::Decimal {
        body
    } else {
        body + 2
    };
    match digits_scan(base, code, first, end, 0, 0) {
        None => None,
        Some((stop, integer, _)) => if stop >= end {
            Some(
                NumberView {
                    negative,
                    integer,
                    decimal: None,
                    decimal_length: 0,
                    represented_as: base,
                },
            )
        } else if base != NumberRepresentationBases::Decimal {
            None
        } else {
            match digits_scan(base, code, stop + 1, end, 0, 0) {
                None => None,
                Some((last, decimal, length)) => if last < end {
                    None
                } else {
                    Some(
                        NumberView {
                            negative,
                            integer,
                            decimal: Some(decimal),
                            decimal_length: length,
                            represented_as: base,
                        },
                    )
                },
            }
        },
    }
}

/// The value that reading digits ends on is at least the value it began with, and it stops
/// between where it began and the end.
pub proof fn lemma_digits_scan_grows(
    base: NumberRepresentationBases,
    code: Seq<char>,
    at: int,
    end: int,
    value: nat,
    count: nat,
)
    requires
        at <= end,
    ensures
        digits_scan(base, code, at, end, value, count) matches Some(found) ==> found.1 >= value
            && at <= found.0 <= end && count <= found.2 <= count + (found.0 - at),
    decreases end - at,
{
    if at >= end || code[at] == '.' {
    } else if code[at] == '_' {
        lemma_digits_scan_grows(base, code, at + 1, end, value, count);
    } else {
        match base.digit(code[at]) {
            Some(d) => {
                lemma_digits_scan_grows(
                    base,
                    code,
                    at + 1,
                    end,
                    value * base.radix() + d,
                    count + 1,
                );
                assert(value * base.radix() + d >= value) by (nonlinear_arith)
                    requires
                        base.radix() >= 1,
                ;
            },
            None => {},
        }
    }
}

/// The parts of a number, read from its lexeme.
#[derive(Debug, Clone, Copy)]
pub struct NumberRepresentation {
    pub negative: bool,
    pub integer: u64,
    pub decimal: Option<u64>,
    /// How many digits the decimal part is written with.
    pub decimal_length: usize,
    pub represented_as: NumberRepresentationBases,
}

/// Reads digits as `digits_scan` does, in 64 bits. Nothing comes back where `digits_scan`
/// gives nothing or the value exceeds 64 bits.
fn read_digits(
    value: &LangModuleSlice,
    base: NumberRepresentationBases,
    from: usize,
    end: usize,
) -> (r: Option<(usize, u64, usize)>)
    requires
        from <= end <= value@.module.code.len(),
    ensures
        match digits_scan(base, value@.module.code, from as int, end as int, 0, 0) {
            Some(found) => if found.1 <= u64::MAX {
                r == Some((found.0 as usize, found.1 as u64, found.2 as usize))
            } else {
                r is None
            },
            None => r is None,
        },
{
    let module = value.module();
    let ghost code = value@.module.code;
    let radix: u64 = match base {
        NumberRepresentationBases::Binary => 2,
        NumberRepresentationBases::Decimal => 10,
        NumberRepresentationBases::Hexadecimal => 16,
    };
    let mut at: usize = from;
    let mut total: u64 = 0;
    let mut count: usize = 0;
    loop
        invariant
            from <= at <= end <= code.len(),
            code == value@.module.code,
            module@ == value@.module,
            radix == base.radix(),
            count <= at - from,
            digits_scan(base, code, from as int, end as int, 0, 0) == digits_scan(
                base,
                code,
                at as int,
                end as int,
                total as nat,
                count as nat,
            ),
        decreases end - at,
    {
        if at >= end {
            return Some((at, total, count));
        }
        let c = module.char_at(at);
        if c == '.' {
            return Some((at, total, count));
        }
        if c == '_' {
            at = at + 1;
            continue ;
        }
        match base.convert_digit(c) {
            None => {
                return None;
            },
            Some(d) => {
                let grown = match total.checked_mul(radix) {
                    Some(scaled) => scaled.checked_add(d),
                    None => None,
                };
                match grown {
                    Some(next) => {
                        total = next;
                        count = count + 1;
                        at = at + 1;
                    },
                    None => {
                        proof {
                            lemma_digits_scan_grows(
                                base,
                                code,
                                at + 1,
                                end as int,
                                total as nat * base.radix() + d as nat,
                                (count + 1) as nat,
                            );
                        }
                        return None;
                    },
                }
            },
        }
    }
}

impl NumberRepresentation {
    pub open spec fn view(self) -> NumberView {
        NumberView {
            negative: self.negative,
            integer: self.integer as nat,
            decimal: match self.decimal {
                Some(d) => Some(d as nat),
                None => None,
            },
            decimal_length: self.decimal_length as nat,
            represented_as: self.represented_as,
        }
    }

    /// Whether 64 bits hold both parts of the number.
    pub open spec fn fits(number: NumberView) -> bool {
        number.integer <= u64::MAX && (number.decimal matches Some(d) ==> d <= u64::MAX)
    }

    /// Reads the lexeme that the slice covers. Nothing comes back where the lexeme is not a
    /// number, or where 64 bits do not hold one of its parts.
    pub fn from(value: &LangModuleSlice) -> (r: Option<Self>)
        ensures
            match number_of(value@.module.code, value@.start, value@.end) {
                Some(number) => if Self::fits(number) {
                    r is Some && r->0@ == number
                } else {
                    r is None
                },
                None => r is None,
            },
    {
        let range = value.range();
        let module = value.module();
        let ghost code = value@.module.code;
        let end = range.end;
        let mut body: usize = range.start;
        let mut negative = false;
        while body < end && (module.char_at(body) == '-' || is_whitespace(module.char_at(body)))
            invariant
                range.start <= body <= end <= code.len(),
                code == value@.module.code,
                module@ == value@.module,
                sign_scan(code, range.start as int, end as int, false) == sign_scan(
                    code,
                    body as int,
                    end as int,
                    negative,
                ),
            decreases end - body,
        {
            if module.char_at(body) == '-' {
                negative = !negative;
            }
            body = body + 1;
        }
        let base = if end - body >= 2 && module.char_at(body) == '0' && module.char_at(body + 1)
            == 'b' {
            NumberRepresentationBases::Binary
        } else if end - body >= 2 && module.char_at(body) == '0' && module.char_at(body + 1)
            == 'x' {
            NumberRepresentationBases::Hexadecimal
        } else {
            NumberRepresentationBases::Decimal
        };
        let first = if matches!(base, NumberRepresentationBases::Decimal) {
            body
        } else {
            body + 2
        };
        proof {
            lemma_digits_scan_grows(base, code, first as int, end as int, 0, 0);
        }
        match read_digits(value, base, first, end) {
            None => None,
            Some((stop, integer, _)) => {
                if stop >= end {
                    Some(
                        Self {
                            negative,
                            integer,
                            decimal: None,
                            decimal_length: 0,
                            represented_as: base,
                        },
                    )
                } else if !matches!(base, NumberRepresentationBases::Decimal) {
                    None
                } else {
                    proof {
                        lemma_digits_scan_grows(base, code, stop + 1, end as int, 0, 0);
                    }
                    match read_digits(value, base, stop + 1, end) {
                        None => None,
                        Some((last, decimal, length)) => {
                            if last < end {
                                None
                            } else {
                                Some(
                                    Self {
                                        negative,
                                        integer,
                                        decimal: Some(decimal),
                                        decimal_length: length,
                                        represented_as: base,
                                    },
                                )
                            }
                        },
                    }
                }
            },
        }
    }
}

} // verus!
