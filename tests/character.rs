use std::collections::HashSet;

use pswdgn::category::{LOWER, NUMBER, SYMBOL, UPPER};
use pswdgn::character::CharSets;
use pswdgn::error::Error;

fn set_of(chars: Vec<char>) -> HashSet<char> {
    chars.into_iter().collect()
}

#[test]
fn character_test_from_cli() {
    let cs = CharSets::from_cli(String::from("luns"), true, String::from("!@#$%"))
        .ok()
        .unwrap();
    assert_eq!(
        cs.char_sets(),
        &vec![
            LOWER.char_set(true, &String::default()),
            UPPER.char_set(true, &String::default()),
            NUMBER.char_set(true, &String::default()),
            SYMBOL.char_set(true, &String::from("!@#$%")),
        ]
    );
}

#[test]
fn character_test_from_code() {
    let cs = CharSets::from_code(15, true, String::from("!@#$%"))
        .ok()
        .unwrap();
    assert_eq!(
        cs.char_sets(),
        &vec![
            LOWER.char_set(true, &String::default()),
            UPPER.char_set(true, &String::default()),
            NUMBER.char_set(true, &String::default()),
            SYMBOL.char_set(true, &String::from("!@#$%")),
        ]
    );
}

#[test]
fn character_test_new() {
    let cs = CharSets::new(vec![LOWER], false, String::default());
    assert_eq!(
        cs.char_sets(),
        &vec![LOWER.char_set(false, &String::default())]
    );
}

#[test]
fn test_characters() {
    let cs = CharSets::new(vec![LOWER, UPPER], false, String::default());
    assert_eq!(
        set_of(cs.characters()),
        &set_of(LOWER.char_set(false, &String::default()))
            | &set_of(UPPER.char_set(false, &String::default()))
    );
}

#[test]
fn test_exists_intersection() {
    let cs = CharSets::new(vec![LOWER, UPPER], false, String::default());
    assert_eq!(cs.exists_intersection(&String::from("aA1!")), true);
    assert_eq!(cs.exists_intersection(&String::from("a1!")), false);
    assert_eq!(cs.exists_intersection(&String::from("A1!")), false);
    assert_eq!(cs.exists_intersection(&String::from("1!")), false);
}

#[test]
fn characters_are_distinct() {
    let cs = CharSets::new(vec![LOWER, SYMBOL], true, String::from("!!@"));
    let chars = cs.characters();
    assert_eq!(chars.len(), 24 + 2);
    assert_eq!(set_of(chars).len(), 26);
}

#[test]
fn empty_string_covers_nothing() {
    let cs = CharSets::new(vec![NUMBER], false, String::default());
    assert!(!cs.exists_intersection(&String::new()));
    assert!(cs.exists_intersection(&String::from("x0")));
}

#[test]
fn cover_puts_one_character_of_each_set_in_front() {
    let cs = CharSets::new(vec![LOWER, UPPER, NUMBER], false, String::default());
    let patched = cs.cover(&String::from("zzzzzzzz"));
    assert_eq!(patched, "aA0zzzzz");
    assert!(cs.exists_intersection(&patched));
}

#[test]
fn charsets_check_flags_then_symbols() {
    assert_eq!(
        CharSets::from_cli(String::from("lq"), false, String::from("a")),
        Err(Error::CategoryFlagErr(String::from("q")))
    );
    assert_eq!(
        CharSets::from_cli(String::from(""), false, String::from("a")),
        Err(Error::CharactersErr(()))
    );
    assert_eq!(
        CharSets::from_cli(String::from("s"), false, String::from("a!b")),
        Err(Error::NotSymbolErr(String::from("ab")))
    );
    assert_eq!(
        CharSets::from_code(16, false, String::from("a")),
        Err(Error::InvalidMaskErr(16))
    );
    assert_eq!(
        CharSets::from_code(8, false, String::from("!x")),
        Err(Error::NotSymbolErr(String::from("x")))
    );
}
