//! Integer literals: decimal, hexadecimal (`0x`), octal (`0o`, or a
//! leading zero) and binary (`0b`), with underscores between the digits.

use vstd::prelude::*;

verus! {

/// The value of a digit; sixteen for a character that is no digit in any base up to sixteen.
pub open spec fn digit_of(c: char) -> int {
    if '0' <= c <= '9' {
        c as int - '0' as int
    } else if 'a' <= c <= 'f' {
        c as int - 'a' as int + 10
    } else if 'A' <= c <= 'F' {
        c as int - 'A' as int + 10
    } else {
        16
    }
}

/// Whether the text is made of digits of the base and underscores alone.
pub open spec fn spelled_in(text: Seq<char>, radix: int) -> bool {
    forall|i: int| 0 <= i < text.len() ==> digit_of(#[trigger] text[i]) < radix || text[i] == '_'
}

/// The number that the digits of the text spell in the base, underscores left out.
pub open spec fn numeral_value(text: Seq<char>, radix: int) -> int
    decreases text.len(),
{
    if text.len() == 0 {
        0
    } else if text.last() == '_' {
        numeral_value(text.drop_last(), radix)
    } else {
        numeral_value(text.drop_last(), radix) * radix + digit_of(text.last())
    }
}

/// Whether the text is a numeral of the base: digits and underscores, with a digit among them.
pub open spec fn is_numeral(text: Seq<char>, radix: int) -> bool {
    &&& spelled_in(text, radix)
    &&& exists|i: int| 0 <= i < text.len() && digit_of(#[trigger] text[i]) < radix
}

/// The integer that a numeral spells, if the text is one and the integer
/// fits the integer type.
pub open spec fn parsed_numeral(text: Seq<char>, radix: int) -> Option<i64> {
    if is_numeral(text, radix) && numeral_value(text, radix) <= i64::MAX {
        Some(numeral_value(text, radix) as i64)
    } else {
        None
    }
}

/// The integer that a literal without a sign spells: the prefix says in
/// which base the digits after it are read, and a literal without a
/// prefix is decimal.
pub open spec fn unsigned_literal(text: Seq<char>) -> Option<i64> {
    if text.len() >= 2 && text[0] == '0' && text[1] == 'x' {
        parsed_numeral(text.skip(2), 16)
    } else if text.len() >= 2 && text[0] == '0' && text[1] == 'o' {
        parsed_numeral(text.skip(2), 8)
    } else if text.len() >= 2 && text[0] == '0' && text[1] == 'b' {
        parsed_numeral(text.skip(2), 2)
    } else if text.len() >= 2 && text[0] == '0' {
        parsed_numeral(text.skip(1), 8)
    } else {
        parsed_numeral(text, 10)
    }
}

/// The integer that a literal spells: a literal without a sign, or the
/// negative of one.
pub open spec fn int_literal(text: Seq<char>) -> Option<i64> {
    if text.len() >= 1 && text[0] == '-' {
        match unsigned_literal(text.skip(1)) {
            Some(value) => Some((-value) as i64),
            None => None,
        }
    } else {
        unsigned_literal(text)
    }
}

/// The number spelled by digits and underscores is not negative.
proof fn lemma_numeral_value_nonnegative(text: Seq<char>, radix: int)
    requires
        radix >= 0,
    ensures
        0 <= numeral_value(text, radix),
    decreases text.len(),
{
    if text.len() > 0 {
        lemma_numeral_value_nonnegative(text.drop_last(), radix);
        assert(numeral_value(text.drop_last(), radix) * radix >= 0) by (nonlinear_arith)
            requires
                numeral_value(text.drop_last(), radix) >= 0,
                radix >= 0,
        ;
    }
}

/// The number spelled does not shrink as the text gets longer.
proof fn lemma_numeral_value_grows(text: Seq<char>, radix: int, shorter: int)
    requires
        radix >= 1,
        0 <= shorter <= text.len(),
    ensures
        0 <= numeral_value(text.subrange(0, shorter), radix) <= numeral_value(text, radix),
    decreases text.len() - shorter,
{
    let part = text.subrange(0, shorter);
    lemma_numeral_value_nonnegative(part, radix);
    if shorter < text.len() {
        let next = text.subrange(0, shorter + 1);
        assert(next.drop_last() =~= part);
        assert(numeral_value(part, radix) * radix >= numeral_value(part, radix))
            by (nonlinear_arith)
            requires
                numeral_value(part, radix) >= 0,
                radix >= 1,
        ;
        lemma_numeral_value_grows(text, radix, shorter + 1);
    } else {
        assert(part =~= text);
    }
}

/// Where the number spelled by the first characters is already too big,
/// the text spells no integer that fits.
proof fn lemma_too_big(text: Seq<char>, radix: int, at: int)
    requires
        radix >= 1,
        0 <= at < text.len(),
        numeral_value(text.subrange(0, at + 1), radix) > i64::MAX,
    ensures
        parsed_numeral(text, radix).is_none(),
{
    lemma_numeral_value_grows(text, radix, at + 1);
}

/// The value of a digit.
fn digit(c: char) -> (r: u8)
    ensures
        r == digit_of(c),
{
    if '0' <= c && c <= '9' {
        c as u8 - '0' as u8
    } else if 'a' <= c && c <= 'f' {
        c as u8 - 'a' as u8 + 10
    } else if 'A' <= c && c <= 'F' {
        c as u8 - 'A' as u8 + 10
    } else {
        16
    }
}

/// Reads the numeral of the base `radix` that follows the first `skip`
/// characters of the text. Nothing is read where the text is shorter.
pub fn parse_radix_int(input: &str, skip: usize, radix: u8) -> (r: Option<i64>)
    requires
        2 <= radix <= 16,
    ensures
        r == if skip <= input@.len() {
            parsed_numeral(input@.skip(skip as int), radix as int)
        } else {
            None
        },
        r is Some ==> r.unwrap() >= 0,
{
    let len: usize = input.unicode_len();
    if skip > len {
        return None;
    }
    let ghost text = input@.skip(skip as int);
    let mut value: i64 = 0;
    let mut digits: bool = false;
    let mut i: usize = skip;
    while i < len
        invariant
            len == input@.len(),
            skip <= i <= len,
            2 <= radix <= 16,
            text == input@.skip(skip as int),
            spelled_in(text.subrange(0, i - skip), radix as int),
            digits == exists|k: int| 0 <= k < i - skip && digit_of(#[trigger] text[k]) < radix,
            value == numeral_value(text.subrange(0, i - skip), radix as int),
            0 <= value,
        decreases len - i,
    {
        let c: char = input.get_char(i);
        let ghost next = text.subrange(0, i - skip + 1);
        assert(next.drop_last() =~= text.subrange(0, i - skip));
        assert(next.last() == c);
        if c == '_' {
        } else {
            let found = digit(c);
            if found >= radix {
                assert(!(digit_of(text[i - skip]) < radix || text[i - skip] == '_'));
                return None;
            }
            let scaled = match value.checked_mul(radix as i64) {
                Some(scaled) => scaled,
                None => {
                    proof {
                        lemma_too_big(text, radix as int, i - skip);
                    }
                    return None;
                },
            };
            let added = match scaled.checked_add(found as i64) {
                Some(added) => added,
                None => {
                    proof {
                        lemma_too_big(text, radix as int, i - skip);
                    }
                    return None;
                },
            };
            value = added;
            digits = true;
        }
        assert forall|k: int| 0 <= k < next.len() implies digit_of(#[trigger] next[k]) < radix
            || next[k] == '_' by {
            if k < i - skip {
                assert(next[k] == text.subrange(0, i - skip)[k]);
            }
        }
        i += 1;
    }
    assert(text.subrange(0, len - skip) =~= text);
    if digits {
        Some(value)
    } else {
        None
    }
}

/// Reads an integer literal without a sign that follows the first `skip` characters of the text.
fn parse_unsigned(input: &str, skip: usize) -> (r: Option<i64>)
    requires
        skip <= input@.len(),
        skip <= 1,
    ensures
        r == unsigned_literal(input@.skip(skip as int)),
        r is Some ==> r.unwrap() >= 0,
{
    let len: usize = input.unicode_len();
    let ghost text = input@.skip(skip as int);
    if len - skip >= 2 && input.get_char(skip) == '0' {
        let second = input.get_char(skip + 1);
        assert(text[0] == '0' && text[1] == second);
        if second == 'x' {
            assert(text.skip(2) =~= input@.skip(skip + 2));
            parse_radix_int(input, skip + 2, 16)
        } else if second == 'o' {
            assert(text.skip(2) =~= input@.skip(skip + 2));
            parse_radix_int(input, skip + 2, 8)
        } else if second == 'b' {
            assert(text.skip(2) =~= input@.skip(skip + 2));
            parse_radix_int(input, skip + 2, 2)
        } else {
            assert(text.skip(1) =~= input@.skip(skip + 1));
            parse_radix_int(input, skip + 1, 8)
        }
    } else {
        if len - skip >= 2 {
            assert(text[0] == input@[skip as int]);
        }
        parse_radix_int(input, skip, 10)
    }
}

/// Reads an integer literal, with or without a sign.
pub fn parse_int_literal(input: &str) -> (r: Option<i64>)
    ensures
        r == int_literal(input@),
{
    let len: usize = input.unicode_len();
    if len >= 1 && input.get_char(0) == '-' {
        match parse_unsigned(input, 1) {
            Some(value) => Some(-value),
            None => None,
        }
    } else {
        assert(input@.skip(0) =~= input@);
        parse_unsigned(input, 0)
    }
}

} // verus!
