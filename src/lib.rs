pub mod category;
pub mod character;
pub mod cli;
pub mod error;
pub mod generator;
mod random;
pub mod number;
mod text;

pub use generator::Generator;

use vstd::prelude::*;

use category::selected_by_mask;
use character::resolved_sets;
use error::Error;
use generator::{is_password_for, MAX_LENGTH, MIN_LENGTH};

verus! {

/// One password for a bit mask of categories, with easy mode taken from the low
/// bit of `is_easy_code`. Building the generator is the only step that can fail.
pub fn generate(length: usize, usable_code: usize, is_easy_code: usize) -> (r: Result<
    String,
    Error,
>)
    ensures
        usable_code < 1 || usable_code > 15 <==> (r matches Err(Error::InvalidMaskErr(m)) && m
            == usable_code),
        1 <= usable_code <= 15 ==> {
            &&& (length < MIN_LENGTH <==> (r matches Err(Error::LengthInsufficientErr(l)) && l
                == length))
            &&& (length > MAX_LENGTH <==> (r matches Err(Error::LengthExcessErr(l)) && l
                == length))
            &&& (MIN_LENGTH <= length <= MAX_LENGTH <==> r is Ok)
        },
        r matches Ok(s) ==> is_password_for(
            resolved_sets(selected_by_mask(usable_code), is_easy_code & 1 == 1, Seq::empty()),
            length as nat,
            s@,
        ),
{
    let is_easy = is_easy_code & 1 == 1;
    let symbols = String::new();
    proof {
        assert(category::non_symbols(symbols@) =~= Seq::<char>::empty()) by {
            reveal(Seq::filter);
        }
    }
    match Generator::from_code(length, usable_code, is_easy, symbols) {
        Ok(generator) => Ok(generator.generate()),
        Err(e) => Err(e),
    }
}

} // verus!
