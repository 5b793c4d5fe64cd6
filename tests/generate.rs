use pgen::{
    ConfigError, Dictionary, DictionaryError, GenerateError, Generator, Rules, Separator,
    Transformation,
};

fn rules(words: usize, min_length: usize, max_length: usize) -> Rules {
    Rules {
        words,
        min_length,
        max_length,
        transform: Transformation::NONE,
        separator_char: Separator::Disabled,
        separator_alphabet: String::new(),
        match_random_char: false,
        digits_before: 0,
        digits_after: 0,
        amount: 1,
    }
}

fn small_dictionary() -> Dictionary {
    let mut d = Dictionary::new();
    d.insert(3, vec!["cat".to_string(), "dog".to_string(), "owl".to_string()]);
    d.insert(4, vec!["frog".to_string(), "hare".to_string()]);
    d.insert(5, vec!["tiger".to_string()]);
    d
}

fn is_drawn_digit(c: char) -> bool {
    ('0'..='8').contains(&c)
}

#[test]
fn scenario_uppercase_words_and_trailing_digits() {
    let mut r = rules(2, 3, 4);
    r.transform = Transformation::UPPERCASE;
    r.separator_char = Separator::Fixed("-".to_string());
    r.digits_after = 2;
    let d = Dictionary::from_json(r#"{"3": ["cat"], "4": ["frog"]}"#).unwrap();
    let mut g = Generator::new(r, d);
    for _ in 0..20 {
        let ps = g.generate().unwrap();
        assert_eq!(ps.len(), 1);
        let p: Vec<char> = ps[0].chars().collect();
        assert_eq!(p.len(), 10, "{}", ps[0]);
        assert_eq!(&ps[0][..8], "CAT-CAT-");
        assert!(p[8..].iter().all(|c| is_drawn_digit(*c)), "{}", ps[0]);
    }
}

#[test]
fn batch_has_amount_passwords() {
    for amount in [0usize, 1, 3, 17] {
        let mut r = rules(2, 3, 5);
        r.amount = amount;
        let mut g = Generator::new(r, small_dictionary());
        assert_eq!(g.generate().unwrap().len(), amount);
    }
}

#[test]
fn word_lengths_stay_below_the_maximum() {
    let mut r = rules(1, 3, 5);
    r.amount = 300;
    let mut g = Generator::new(r, small_dictionary());
    let ps = g.generate().unwrap();
    assert!(ps.iter().all(|p| p.len() == 3 || p.len() == 4));
    assert!(ps.iter().all(|p| p != "tiger"));
}

#[test]
fn equal_bounds_draw_that_length() {
    let mut r = rules(3, 4, 4);
    r.amount = 30;
    let mut g = Generator::new(r, small_dictionary());
    for p in g.generate().unwrap() {
        assert_eq!(p.len(), 12);
        let words = [&p[0..4], &p[4..8], &p[8..12]];
        assert!(words.iter().all(|w| *w == "frog" || *w == "hare"), "{}", p);
    }
}

#[test]
fn two_plain_words_are_concatenated() {
    let mut r = rules(2, 3, 5);
    r.amount = 50;
    let mut g = Generator::new(r, small_dictionary());
    let words = ["cat", "dog", "owl", "frog", "hare"];
    for p in g.generate().unwrap() {
        let split = words
            .iter()
            .any(|a| p.starts_with(a) && words.contains(&&p[a.len()..]));
        assert!(split, "{}", p);
    }
}

#[test]
fn fixed_separator_uses_the_minimum() {
    let mut r = rules(4, 3, 3);
    r.separator_char = Separator::Fixed("ba".to_string());
    r.digits_before = 1;
    r.digits_after = 1;
    r.amount = 10;
    let mut g = Generator::new(r, small_dictionary());
    for p in g.generate().unwrap() {
        let c: Vec<char> = p.chars().collect();
        assert_eq!(c.len(), 1 + 1 + 4 * 3 + 3 + 1 + 1);
        assert_eq!(c[1], 'a');
        for k in 0..3 {
            assert_eq!(c[2 + 3 + k * 4], 'a', "{}", p);
        }
        assert_eq!(c[c.len() - 2], 'a');
        assert!(!p.contains('b'));
    }
}

#[test]
fn matched_random_separator_is_shared_within_a_password() {
    let mut r = rules(5, 3, 3);
    r.separator_char = Separator::Random;
    r.separator_alphabet = "!@#$%".to_string();
    r.match_random_char = true;
    r.digits_before = 2;
    r.digits_after = 2;
    r.amount = 40;
    let mut g = Generator::new(r, small_dictionary());
    let mut firsts = Vec::new();
    for p in g.generate().unwrap() {
        let seps: Vec<char> = p.chars().filter(|c| "!@#$%".contains(*c)).collect();
        assert_eq!(seps.len(), 6, "{}", p);
        assert!(seps.iter().all(|c| *c == seps[0]), "{}", p);
        firsts.push(seps[0]);
    }
    assert!(firsts.iter().any(|c| *c != firsts[0]));
}

#[test]
fn unmatched_random_separators_come_from_the_alphabet() {
    let mut r = rules(6, 3, 3);
    r.separator_char = Separator::Random;
    r.separator_alphabet = "+=".to_string();
    r.match_random_char = false;
    r.amount = 40;
    let mut g = Generator::new(r, small_dictionary());
    let mut mixed = false;
    for p in g.generate().unwrap() {
        let c: Vec<char> = p.chars().collect();
        assert_eq!(c.len(), 6 * 3 + 5);
        let seps: Vec<char> = (0..5).map(|k| c[3 + k * 4]).collect();
        assert!(seps.iter().all(|s| *s == '+' || *s == '='), "{}", p);
        mixed |= seps.iter().any(|s| *s != seps[0]);
    }
    assert!(mixed);
}

#[test]
fn random_separator_with_empty_alphabet_emits_nothing() {
    let mut r = rules(2, 3, 3);
    r.separator_char = Separator::Random;
    r.match_random_char = true;
    r.digits_before = 1;
    let mut g = Generator::new(r, small_dictionary());
    let p = g.generate().unwrap().remove(0);
    assert_eq!(p.chars().count(), 7);
}

#[test]
fn leading_digits_are_zero_to_eight() {
    let mut r = rules(1, 3, 3);
    r.digits_before = 3;
    r.amount = 200;
    let mut g = Generator::new(r, small_dictionary());
    let mut seen = Vec::new();
    for p in g.generate().unwrap() {
        let c: Vec<char> = p.chars().collect();
        assert_eq!(c.len(), 6);
        assert!(c[..3].iter().all(|d| is_drawn_digit(*d)), "{}", p);
        assert!(["cat", "dog", "owl"].contains(&&p[3..]));
        seen.extend_from_slice(&c[..3]);
    }
    assert!(!seen.contains(&'9'));
}

#[test]
fn capitalised_words_with_default_like_rules() {
    let mut r = rules(2, 4, 4);
    r.transform = Transformation::CAPITALISE;
    r.amount = 10;
    let mut g = Generator::new(r, small_dictionary());
    for p in g.generate().unwrap() {
        let words = [&p[0..4], &p[4..8]];
        assert!(words.iter().all(|w| *w == "Frog" || *w == "Hare"), "{}", p);
    }
}

#[test]
fn random_transformation_keeps_the_letters() {
    let mut r = rules(3, 3, 3);
    r.transform = Transformation::RANDOM;
    r.amount = 20;
    let mut g = Generator::new(r, small_dictionary());
    for p in g.generate().unwrap() {
        let lower = p.to_lowercase();
        for k in 0..3 {
            assert!(["cat", "dog", "owl"].contains(&&lower[k * 3..k * 3 + 3]), "{}", p);
        }
    }
}

#[test]
fn empty_bucket_aborts_the_batch() {
    let mut d = Dictionary::new();
    d.insert(3, Vec::new());
    let mut r = rules(2, 3, 3);
    r.amount = 5;
    let mut g = Generator::new(r, d);
    assert_eq!(g.generate(), Err(GenerateError::Dictionary(DictionaryError::NoWords(3))));
}

#[test]
fn missing_bucket_aborts_the_batch() {
    let d = Dictionary::from_json(r#"{"3": ["cat"]}"#).unwrap();
    let mut r = rules(1, 4, 4);
    r.amount = 3;
    let mut g = Generator::new(r, d);
    assert_eq!(g.generate(), Err(GenerateError::Dictionary(DictionaryError::NoWords(4))));
}

#[test]
fn invalid_rules_are_refused_before_generation() {
    let mut g = Generator::new(rules(0, 3, 4), small_dictionary());
    assert_eq!(
        g.generate(),
        Err(GenerateError::Configuration(ConfigError::WordsOutOfRange(0)))
    );
    let mut g = Generator::new(rules(2, 6, 5), Dictionary::new());
    assert_eq!(
        g.generate(),
        Err(GenerateError::Configuration(ConfigError::MinAboveMax(5)))
    );
}

#[test]
fn get_words_draws_below_the_maximum_length() {
    let mut g = Generator::new(rules(4, 3, 5), small_dictionary());
    for _ in 0..50 {
        let ws = g.get_words().unwrap();
        assert_eq!(ws.len(), 4);
        assert!(ws.iter().all(|w| w.len() == 3 || w.len() == 4), "{:?}", ws);
    }
}

#[test]
fn get_words_with_equal_bounds_uses_that_length() {
    let mut g = Generator::new(rules(3, 5, 5), small_dictionary());
    assert_eq!(g.get_words().unwrap(), vec!["tiger".to_string(); 3]);
}

#[test]
fn get_words_reports_a_missing_length() {
    let mut g = Generator::new(rules(2, 6, 7), small_dictionary());
    assert_eq!(g.get_words(), Err(DictionaryError::NoWords(6)));
}

#[test]
fn get_digits_draws_zero_to_eight() {
    let mut g = Generator::new(rules(1, 3, 3), small_dictionary());
    assert_eq!(g.get_digits(0), "");
    for _ in 0..100 {
        let d = g.get_digits(3);
        assert_eq!(d.chars().count(), 3);
        assert!(d.chars().all(is_drawn_digit), "{}", d);
    }
}
