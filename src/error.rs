use vstd::prelude::*;

use crate::number::{decimal, decimal_text};

verus! {

/// Configuration errors reported when a generator is built.
#[derive(Debug, PartialEq, Eq)]
pub enum Error {
    /// The requested length is below the minimum.
    LengthInsufficientErr(i128),
    /// The requested length is above the maximum.
    LengthExcessErr(i128),
    /// The flag string held characters that name no category; they are listed in order.
    CategoryFlagErr(String),
    /// The custom symbols held characters that are not symbols; they are listed in order.
    NotSymbolErr(String),
    /// No category was selected.
    CharactersErr(()),
    /// The category bit mask lies outside `1..=15`.
    InvalidMaskErr(usize),
}

impl Error {
    /// A short description: the offending value or characters, or a sentence when
    /// no category was selected.
    pub fn message(&self) -> (r: String)
        ensures
            match self {
                Error::LengthInsufficientErr(i) => r@ == decimal_text(*i as int),
                Error::LengthExcessErr(i) => r@ == decimal_text(*i as int),
                Error::CategoryFlagErr(e) => r@ == e@,
                Error::NotSymbolErr(e) => r@ == e@,
                Error::CharactersErr(_) => r@ == "Usable character category is not found"@,
                Error::InvalidMaskErr(m) => r@ == decimal_text(*m as int),
            },
    {
        match self {
            Error::LengthInsufficientErr(i) => decimal(*i),
            Error::LengthExcessErr(i) => decimal(*i),
            Error::CategoryFlagErr(e) => e.clone(),
            Error::NotSymbolErr(e) => e.clone(),
            Error::CharactersErr(_) => String::from_str("Usable character category is not found"),
            Error::InvalidMaskErr(m) => decimal(*m as i128),
        }
    }
}

} // verus!
