//! Reading the values of options from text.

use datafusion_common::config::ConfigField;
use vstd::prelude::*;
use vstd::utf8::is_ascii_chars;

use crate::text::decimal;
use crate::text::digit;

verus! {

/// Whether a character is a decimal digit.
pub open spec fn is_digit(c: char) -> bool {
    '0' <= c <= '9'
}

/// The number that decimal digits stand for, if there are only digits.
pub open spec fn digits_value(text: Seq<char>) -> Option<nat>
    decreases text.len(),
{
    if text.len() == 0 {
        Some(0)
    } else {
        match digits_value(text.drop_last()) {
            Some(value) => if is_digit(text.last()) {
                Some((value * 10 + (text.last() as int - '0' as int)) as nat)
            } else {
                None
            },
            None => None,
        }
    }
}

/// The number in a text that holds digits only, after an optional plus sign.
pub open spec fn number_in(text: Seq<char>) -> Option<nat> {
    let digits = if text.len() > 0 && text[0] == '+' {
        text.skip(1)
    } else {
        text
    };
    if digits.len() == 0 {
        None
    } else {
        digits_value(digits)
    }
}

/// How `datafusion_common` describes that a text is not a number.
pub uninterp spec fn number_error(text: Seq<char>) -> Seq<char>;

/// The outcome of reading a text as a number.
pub open spec fn number_read(text: Seq<char>) -> Result<u64, Seq<char>> {
    match number_in(text) {
        Some(n) => if n <= u64::MAX {
            Ok(n as u64)
        } else {
            Err(number_error(text))
        },
        None => Err(number_error(text)),
    }
}

/// `datafusion_common::config::ConfigField::set` for `u64`, which reads the number as the standard
/// library does: digits only, after an optional plus sign, and not too large. The description of
/// the error depends on the text alone.
#[verifier::external_body]
pub(crate) fn read_number(text: &str) -> (r: Result<u64, String>)
    ensures
        match r {
            Ok(n) => number_read(text@) == Ok::<u64, Seq<char>>(n),
            Err(e) => number_read(text@) is Err && e@ == number_error(text@),
        },
{
    let mut number = 0u64;
    ConfigField::set(&mut number, "", text).map_err(|e| e.to_string())?;
    Ok(number)
}

/// An ASCII letter in lower case; other characters stay.
pub open spec fn lower(c: char) -> char {
    if 'A' <= c <= 'Z' {
        (c as int + 32) as char
    } else {
        c
    }
}

/// The text with ASCII letters in lower case.
pub open spec fn all_lower(text: Seq<char>) -> Seq<char> {
    text.map_values(|c: char| lower(c))
}

/// What `datafusion_common` makes of a text that should be a flag: the flag, or the description of
/// the error.
pub uninterp spec fn flag_otherwise(text: Seq<char>) -> Result<bool, Seq<char>>;

/// The outcome of reading a text as a flag, whatever the case of its letters.
pub open spec fn flag_read(text: Seq<char>) -> Result<bool, Seq<char>> {
    if is_ascii_chars(text) && all_lower(text) == "true"@ {
        Ok(true)
    } else if is_ascii_chars(text) && all_lower(text) == "false"@ {
        Ok(false)
    } else {
        flag_otherwise(text)
    }
}

/// What reading a flag came to.
pub open spec fn flag_outcome(r: Result<bool, String>) -> Result<bool, Seq<char>> {
    match r {
        Ok(flag) => Ok(flag),
        Err(e) => Err(e@),
    }
}

/// `datafusion_common::config::ConfigField::set` for `bool`, which converts the text to lower case
/// and accepts "true" and "false". Any other ASCII text is an error. The flag, or the description
/// of the error, depends on the text alone. What lower case means outside of ASCII is left open.
#[verifier::external_body]
pub(crate) fn read_flag(text: &str) -> (r: Result<bool, String>)
    ensures
        flag_outcome(r) == flag_read(text@),
        flag_outcome(r) == flag_otherwise(text@),
        is_ascii_chars(text@) && all_lower(text@) != "true"@ && all_lower(text@) != "false"@
            ==> r is Err,
{
    let mut flag = false;
    ConfigField::set(&mut flag, "", text).map_err(|e| e.to_string())?;
    Ok(flag)
}

/// The text of a flag.
pub open spec fn flag_text(flag: bool) -> Seq<char> {
    if flag {
        "true"@
    } else {
        "false"@
    }
}

/// Writes a flag.
pub(crate) fn write_flag(flag: bool) -> (r: String)
    ensures
        r@ == flag_text(flag),
{
    if flag {
        "true".to_owned()
    } else {
        "false".to_owned()
    }
}

proof fn lemma_decimal_value(n: nat)
    ensures
        digits_value(decimal(n)) == Some(n),
        decimal(n).len() > 0,
        is_digit(decimal(n)[0]),
    decreases n,
{
    if n < 10 {
        assert(decimal(n).drop_last() =~= Seq::<char>::empty());
        assert(decimal(n).last() == digit(n));
        assert(digits_value(decimal(n).drop_last()) == Some(0nat));
    } else {
        lemma_decimal_value(n / 10);
        assert(decimal(n).drop_last() =~= decimal(n / 10));
        assert(decimal(n).last() == digit(n % 10));
        assert(decimal(n)[0] == decimal(n / 10)[0]);
    }
}

/// A flag that was written reads as the same flag.
pub proof fn law_written_flag_reads_back(flag: bool)
    ensures
        flag_read(flag_text(flag)) == Ok::<bool, Seq<char>>(flag),
{
    reveal_strlit("true");
    reveal_strlit("false");
    assert(all_lower("true"@) =~= "true"@);
    assert(all_lower("false"@) =~= "false"@);
}

/// A number that was written in decimal reads as the same number.
pub proof fn law_written_number_reads_back(n: u64)
    ensures
        number_read(decimal(n as nat)) == Ok::<u64, Seq<char>>(n),
{
    lemma_decimal_value(n as nat);
}

} // verus!
