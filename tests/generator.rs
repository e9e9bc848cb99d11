use pswdgn::category::{Category, LOWER, SYMBOL};
use pswdgn::character::CharSets;
use pswdgn::error::Error;
use pswdgn::Generator;

#[test]
fn generator_test_from_cli() {
    let gen = Generator::from_cli(8, String::from("luns"), true, String::from("!@#$%"))
        .ok()
        .unwrap();
    assert_eq!(gen.length(), 8);
    assert_eq!(
        gen.usable(),
        &CharSets::from_cli(String::from("luns"), true, String::from("!@#$%"))
            .ok()
            .unwrap()
    );
}

#[test]
fn generator_test_new() {
    let gen = Generator::new(
        8,
        CharSets::from_cli(String::from("l"), false, String::default())
            .ok()
            .unwrap(),
    )
    .ok()
    .unwrap();
    assert_eq!(gen.length(), 8);
    assert_eq!(
        gen.usable(),
        &CharSets::from_cli(String::from("l"), false, String::default())
            .ok()
            .unwrap(),
    );
}

#[test]
fn test_generate() {
    let gen = Generator::new(
        8,
        CharSets::from_cli(String::from("l"), false, String::default())
            .ok()
            .unwrap(),
    )
    .ok()
    .unwrap();
    let result = gen.generate();
    assert_eq!(result.len(), 8);
    assert_eq!(gen.usable().exists_intersection(&result), true);
}

#[test]
fn test_generate_str() {
    let gen = Generator::new(
        10,
        CharSets::from_cli(String::from("l"), false, String::default())
            .ok()
            .unwrap(),
    )
    .ok()
    .unwrap();
    let result = gen.generate();
    assert_eq!(result.len(), 10);
    assert_ne!(result, gen.generate());
    assert_ne!(result, gen.generate());
}

#[test]
fn test_validate_length() {
    assert_eq!(
        Generator::validate_length(7),
        Err(Error::LengthInsufficientErr(7))
    );
    assert_eq!(Generator::validate_length(8), Ok(()));
    assert_eq!(Generator::validate_length(255), Ok(()));
    assert_eq!(
        Generator::validate_length(256),
        Err(Error::LengthExcessErr(256))
    );
}

#[test]
fn length_bounds_at_construction() {
    assert!(matches!(
        Generator::from_cli(7, String::from("l"), false, String::new()),
        Err(Error::LengthInsufficientErr(7))
    ));
    assert!(Generator::from_cli(8, String::from("l"), false, String::new()).is_ok());
    assert!(Generator::from_cli(255, String::from("l"), false, String::new()).is_ok());
    assert!(matches!(
        Generator::from_cli(256, String::from("l"), false, String::new()),
        Err(Error::LengthExcessErr(256))
    ));
    assert!(matches!(
        Generator::from_code(0, 15, false, String::new()),
        Err(Error::LengthInsufficientErr(0))
    ));
}

#[test]
fn construction_reports_selection_errors_first() {
    assert!(matches!(
        Generator::from_cli(3, String::new(), false, String::new()),
        Err(Error::CharactersErr(()))
    ));
    assert!(matches!(
        Generator::from_code(3, 0, false, String::new()),
        Err(Error::InvalidMaskErr(0))
    ));
    assert!(matches!(
        Generator::from_code(300, 16, false, String::new()),
        Err(Error::InvalidMaskErr(16))
    ));
    match Generator::from_cli(8, String::from("s"), false, String::from("#a")) {
        Err(Error::NotSymbolErr(e)) => assert_eq!(e, "a"),
        _ => panic!("expected a symbol error"),
    }
}

#[test]
fn every_password_has_the_length_and_all_categories() {
    for length in [8usize, 9, 16, 64, 255] {
        let gen = Generator::from_code(length, 15, false, String::new())
            .ok()
            .unwrap();
        for _ in 0..20 {
            let s = gen.generate();
            assert_eq!(s.chars().count(), length);
            assert!(s.chars().any(|c| c.is_ascii_lowercase()));
            assert!(s.chars().any(|c| c.is_ascii_uppercase()));
            assert!(s.chars().any(|c| c.is_ascii_digit()));
            assert!(s.chars().any(|c| SYMBOL.chars_all().contains(c)));
            assert!(gen.usable().exists_intersection(&s));
        }
    }
}

#[test]
fn passwords_draw_only_from_selected_categories() {
    let gen = Generator::from_cli(12, String::from("un"), false, String::new())
        .ok()
        .unwrap();
    for _ in 0..50 {
        let s = gen.generate();
        assert!(s.chars().all(|c| c.is_ascii_uppercase() || c.is_ascii_digit()));
    }
}

#[test]
fn successive_passwords_differ() {
    let gen = Generator::from_code(16, 15, false, String::new()).ok().unwrap();
    let first = gen.generate();
    for _ in 0..5 {
        assert_ne!(first, gen.generate());
    }
}

#[test]
fn custom_symbols_replace_the_symbol_alphabet() {
    let gen = Generator::from_cli(16, String::from("luns"), false, String::from("!@#$%"))
        .ok()
        .unwrap();
    for _ in 0..100 {
        let s = gen.generate();
        for c in s.chars() {
            if SYMBOL.chars_all().contains(c) {
                assert!("!@#$%".contains(c));
            }
        }
        assert!(s.chars().any(|c| "!@#$%".contains(c)));
    }
}

#[test]
fn easy_mode_leaves_out_ambiguous_lower_case_letters() {
    let gen = Generator::from_cli(64, String::from("l"), true, String::new())
        .ok()
        .unwrap();
    let excluded: Vec<char> = LOWER
        .chars_all()
        .chars()
        .filter(|c| !LOWER.chars_easy().contains(*c))
        .collect();
    assert_eq!(excluded, vec!['l', 'o']);
    for _ in 0..100 {
        let s = gen.generate();
        assert!(s.chars().all(|c| !excluded.contains(&c)));
    }
}

#[test]
fn single_symbol_still_appears() {
    let gen = Generator::from_cli(8, String::from("ls"), false, String::from("~"))
        .ok()
        .unwrap();
    for _ in 0..50 {
        let s = gen.generate();
        assert!(s.contains('~'));
        assert!(s.chars().all(|c| c == '~' || c.is_ascii_lowercase()));
    }
}

#[test]
fn category_values_are_plain() {
    assert_eq!(Category::Lower, LOWER);
    assert_eq!(LOWER.flag(), 'l');
    assert_eq!(SYMBOL.code_point(), 3);
}
