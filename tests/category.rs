use std::collections::HashSet;

use pswdgn::category::{Category, LOWER, NUMBER, SYMBOL, UPPER};
use pswdgn::error::Error;

fn set_of(chars: Vec<char>) -> HashSet<char> {
    chars.into_iter().collect()
}

#[test]
fn category_test_from_cli() {
    assert_eq!(
        Category::from_cli(String::from("luns")).ok().unwrap(),
        vec![LOWER, UPPER, NUMBER, SYMBOL]
    );

    assert_eq!(
        Category::from_cli(String::from("")).err().unwrap(),
        Error::CharactersErr(())
    );
}

#[test]
fn category_test_from_code() {
    assert_eq!(
        Category::from_code(15).ok().unwrap(),
        vec![LOWER, UPPER, NUMBER, SYMBOL]
    );

    assert_eq!(
        Category::from_code(0).err().unwrap(),
        Error::InvalidMaskErr(0)
    );
}

#[test]
fn category_test_new() {
    assert_eq!(
        Category::new(|_| true).ok().unwrap(),
        vec![LOWER, UPPER, NUMBER, SYMBOL]
    );

    assert_eq!(
        Category::new(|_| false).err().unwrap(),
        Error::CharactersErr(())
    );
}

#[test]
fn test_flags() {
    assert_eq!(Category::flags(), "luns");
}

#[test]
fn test_code() {
    assert_eq!(LOWER.code(), 1);
    assert_eq!(UPPER.code(), 2);
    assert_eq!(NUMBER.code(), 4);
    assert_eq!(SYMBOL.code(), 8);
}

#[test]
fn test_char_set() {
    assert_eq!(
        set_of(LOWER.char_set(true, &String::default())),
        LOWER.chars_easy().chars().collect::<HashSet<char>>()
    );
    assert_eq!(
        set_of(LOWER.char_set(false, &String::from("!@#$%"))),
        LOWER.chars_all().chars().collect::<HashSet<char>>()
    );
    assert_eq!(
        set_of(SYMBOL.char_set(true, &String::default())),
        SYMBOL.chars_easy().chars().collect::<HashSet<char>>()
    );
    assert_eq!(
        set_of(SYMBOL.char_set(false, &String::from("!@#$%"))),
        "!@#$%".chars().collect::<HashSet<char>>()
    );
}

#[test]
fn test_validate_flag() {
    assert_eq!(Category::validate_flag(&Category::flags()), Ok(()));
    assert_eq!(
        Category::validate_flag(&String::from("abcs")),
        Err(Error::CategoryFlagErr(String::from("abc")))
    );
}

#[test]
fn test_validate_symbols() {
    assert_eq!(
        Category::validate_symbols(&String::from(SYMBOL.chars_all())),
        Ok(())
    );
    assert_eq!(
        Category::validate_symbols(&String::from("a!@b#$%cs")),
        Err(Error::NotSymbolErr(String::from("abcs")))
    );
}

#[test]
fn flags_and_mask_select_the_same_categories() {
    assert_eq!(
        Category::from_cli(String::from("luns")),
        Category::from_code(15)
    );
    assert_eq!(
        Category::from_cli(String::from("snul")),
        Category::from_code(15)
    );
    assert_eq!(Category::from_cli(String::from("ns")), Category::from_code(12));
    assert_eq!(Category::from_cli(String::from("u")), Category::from_code(2));
}

#[test]
fn flags_keep_canonical_order_and_ignore_repeats() {
    assert_eq!(
        Category::from_cli(String::from("snns")).ok().unwrap(),
        vec![NUMBER, SYMBOL]
    );
}

#[test]
fn unknown_flags_fail_even_beside_known_ones() {
    assert_eq!(
        Category::from_cli(String::from("lxuy")),
        Err(Error::CategoryFlagErr(String::from("xy")))
    );
    assert_eq!(
        Category::from_cli(String::from("L")),
        Err(Error::CategoryFlagErr(String::from("L")))
    );
}

#[test]
fn masks_outside_range_are_rejected() {
    assert_eq!(Category::from_code(0), Err(Error::InvalidMaskErr(0)));
    assert_eq!(Category::from_code(16), Err(Error::InvalidMaskErr(16)));
    assert_eq!(Category::from_code(17), Err(Error::InvalidMaskErr(17)));
    assert_eq!(Category::from_code(1).ok().unwrap(), vec![LOWER]);
    assert_eq!(Category::from_code(10).ok().unwrap(), vec![UPPER, SYMBOL]);
}

#[test]
fn custom_symbols_are_kept_once_each() {
    let set = SYMBOL.char_set(true, &String::from("!!@!"));
    assert_eq!(set, vec!['!', '@']);
}

#[test]
fn easy_alphabets_leave_out_ambiguous_characters() {
    let lower = LOWER.char_set(true, &String::default());
    assert!(!lower.contains(&'l'));
    assert!(!lower.contains(&'o'));
    assert_eq!(lower.len(), 24);
    let upper = UPPER.char_set(true, &String::default());
    assert!(!upper.contains(&'I'));
    assert!(!upper.contains(&'O'));
    let number = NUMBER.char_set(true, &String::default());
    assert_eq!(number, vec!['2', '3', '4', '5', '6', '7', '8', '9']);
    assert_eq!(SYMBOL.char_set(false, &String::default()).len(), 32);
    assert_eq!(SYMBOL.char_set(true, &String::default()).len(), 15);
}
