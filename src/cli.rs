use vstd::prelude::*;

use crate::category::{non_symbols, unknown_flags, Category};
use crate::error::Error;
use crate::generator::{Generator, MAX_LENGTH, MIN_LENGTH};
use crate::number::{decimal, decimal_text, parse_i128, signed_value};

verus! {

/// The options given on the command line.
pub struct CommandLine {
    pub length: usize,
    pub flags: String,
    pub is_easy: bool,
    pub symbols: String,
}

/// Checks a length option: it must be an integer within the length bounds.
pub fn validate_length(value: String) -> (r: Result<(), String>)
    ensures
        match signed_value(value@) {
            Some(v) if i128::MIN <= v <= i128::MAX => {
                &&& (v < MIN_LENGTH ==> (r matches Err(m) && m@ == "Needs "@ + decimal_text(
                    MIN_LENGTH as int,
                ) + " or more: "@ + decimal_text(v)))
                &&& (v > MAX_LENGTH ==> (r matches Err(m) && m@ == "Needs "@ + decimal_text(
                    MAX_LENGTH as int,
                ) + " or less: "@ + decimal_text(v)))
                &&& (MIN_LENGTH <= v <= MAX_LENGTH ==> r is Ok)
            },
            _ => r matches Err(m) && m@ == "Not number value: "@ + value@,
        },
{
    let val = match parse_i128(value.as_str()) {
        Some(x) => x,
        None => {
            return Err(String::from_str("Not number value: ").concat(value.as_str()));
        },
    };
    match Generator::validate_length(val) {
        Ok(()) => Ok(()),
        Err(Error::LengthExcessErr(_)) => Err(
            String::from_str("Needs ").concat(decimal(MAX_LENGTH).as_str()).concat(
                " or less: ",
            ).concat(decimal(val).as_str()),
        ),
        Err(Error::LengthInsufficientErr(_)) => Err(
            String::from_str("Needs ").concat(decimal(MIN_LENGTH).as_str()).concat(
                " or more: ",
            ).concat(decimal(val).as_str()),
        ),
        Err(_) => Ok(()),
    }
}

/// Checks a category option: every character must be a category flag.
pub fn validate_usable(value: String) -> (r: Result<(), String>)
    ensures
        unknown_flags(value@).len() == 0 <==> r is Ok,
        r matches Err(m) ==> m@ == "unknown usable flags: "@ + unknown_flags(value@),
{
    match Category::validate_flag(&value) {
        Ok(()) => Ok(()),
        Err(cs) => Err(String::from_str("unknown usable flags: ").concat(cs.message().as_str())),
    }
}

/// Checks a symbols option: every character must be in the full symbol alphabet.
pub fn validate_symbols(value: String) -> (r: Result<(), String>)
    ensures
        non_symbols(value@).len() == 0 <==> r is Ok,
        r matches Err(m) ==> m@ == "unknown symbol character: "@ + non_symbols(value@),
{
    match Category::validate_symbols(&value) {
        Ok(()) => Ok(()),
        Err(cs) => Err(
            String::from_str("unknown symbol character: ").concat(cs.message().as_str()),
        ),
    }
}

} // verus!
