use pgen::separator::{fixed_separator, SeparatorSession};
use pgen::{ConfigError, Rules, Separator, Transformation};

fn base() -> Rules {
    Rules {
        words: 2,
        min_length: 3,
        max_length: 4,
        transform: Transformation::NONE,
        separator_char: Separator::Disabled,
        separator_alphabet: String::new(),
        match_random_char: false,
        digits_before: 0,
        digits_after: 0,
        amount: 1,
    }
}

#[test]
fn default_rules() {
    let r = Rules::default();
    assert_eq!(r.words, 2);
    assert_eq!(r.min_length, 5);
    assert_eq!(r.max_length, 7);
    assert_eq!(r.transform, Transformation::CAPITALISE);
    assert!(matches!(r.separator_char, Separator::Random));
    assert_eq!(r.separator_alphabet, "!@$%.&*-+=?:;");
    assert!(r.match_random_char);
    assert_eq!(r.digits_before, 0);
    assert_eq!(r.digits_after, 3);
    assert_eq!(r.amount, 3);
    assert_eq!(r.sanity_checks(), Ok(()));
}

#[test]
fn sanity_checks_report_each_bound() {
    let mut r = base();
    assert_eq!(r.sanity_checks(), Ok(()));
    r.words = 0;
    assert_eq!(r.sanity_checks(), Err(ConfigError::WordsOutOfRange(0)));
    r.words = 11;
    assert_eq!(r.sanity_checks(), Err(ConfigError::WordsOutOfRange(11)));
    r.words = 10;
    r.min_length = 2;
    assert_eq!(r.sanity_checks(), Err(ConfigError::MinLengthOutOfRange(2)));
    r.min_length = 10;
    assert_eq!(r.sanity_checks(), Err(ConfigError::MinLengthOutOfRange(10)));
    r.min_length = 9;
    r.max_length = 10;
    assert_eq!(r.sanity_checks(), Err(ConfigError::MaxLengthOutOfRange(10)));
    r.max_length = 8;
    assert_eq!(r.sanity_checks(), Err(ConfigError::MinAboveMax(8)));
    r.max_length = 9;
    assert_eq!(r.sanity_checks(), Ok(()));
}

#[test]
fn sanity_checks_report_the_first_broken_bound() {
    let mut r = base();
    r.words = 0;
    r.min_length = 1;
    r.max_length = 20;
    assert_eq!(r.sanity_checks(), Err(ConfigError::WordsOutOfRange(0)));
}

#[test]
fn separator_settings() {
    assert!(matches!(Separator::from_setting("NONE"), Separator::Disabled));
    assert!(matches!(Separator::from_setting("RANDOM"), Separator::Random));
    match Separator::from_setting("-_") {
        Separator::Fixed(s) => assert_eq!(s, "-_"),
        _ => panic!("expected a fixed separator"),
    }
    assert_eq!(Separator::Disabled.setting(), "NONE");
    assert_eq!(Separator::Random.setting(), "RANDOM");
    assert_eq!(Separator::Fixed("ab".to_string()).setting(), "ab");
}

#[test]
fn fixed_separator_is_the_smallest_character() {
    assert_eq!(fixed_separator("ba"), Some('a'));
    assert_eq!(fixed_separator("-"), Some('-'));
    assert_eq!(fixed_separator("zy!x"), Some('!'));
    assert_eq!(fixed_separator(""), None);
}

#[test]
fn session_locks_the_first_random_character() {
    let mut r = base();
    r.separator_char = Separator::Random;
    r.separator_alphabet = "xyz".to_string();
    r.match_random_char = true;
    let mut s = SeparatorSession::new();
    assert!(s.needs_draw(&r));
    assert_eq!(s.next_separator(&r, 1), Some('y'));
    assert_eq!(s.locked, Some('y'));
    assert!(!s.needs_draw(&r));
    assert_eq!(s.next_separator(&r, 2), Some('y'));
    assert_eq!(s.next_separator(&r, 0), Some('y'));
}

#[test]
fn session_without_matching_draws_each_time() {
    let mut r = base();
    r.separator_char = Separator::Random;
    r.separator_alphabet = "xyz".to_string();
    r.match_random_char = false;
    let mut s = SeparatorSession::new();
    assert!(s.needs_draw(&r));
    assert_eq!(s.next_separator(&r, 1), Some('y'));
    assert_eq!(s.next_separator(&r, 2), Some('z'));
    assert_eq!(s.locked, None);
}

#[test]
fn session_with_empty_alphabet_or_disabled_emits_nothing() {
    let mut r = base();
    r.separator_char = Separator::Random;
    r.match_random_char = true;
    let mut s = SeparatorSession::new();
    assert!(!s.needs_draw(&r));
    assert_eq!(s.next_separator(&r, 0), None);
    r.separator_char = Separator::Disabled;
    r.separator_alphabet = "xyz".to_string();
    assert!(!s.needs_draw(&r));
    assert_eq!(s.next_separator(&r, 0), None);
    r.separator_char = Separator::Fixed("ba".to_string());
    assert_eq!(s.next_separator(&r, 0), Some('a'));
}
