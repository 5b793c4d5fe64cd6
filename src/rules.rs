//! The rules that a batch of passwords is generated under, and their validation.
use vstd::prelude::*;

use crate::transformation::Transformation;

verus! {

/// Where separator characters come from.
#[derive(Debug, Clone)]
pub enum Separator {
    /// No separator is ever emitted.
    Disabled,
    /// Separators are drawn from the rules' separator alphabet.
    Random,
    /// The smallest character (by code point) of this string is used for every separator.
    Fixed(String),
}

/// Why a set of rules was refused; each carries the value that was received.
#[derive(Debug, Clone, Copy, PartialEq, Eq, Structural)]
pub enum ConfigError {
    /// The number of words is outside 1 to 10.
    WordsOutOfRange(usize),
    /// The minimum word length is outside 3 to 9.
    MinLengthOutOfRange(usize),
    /// The maximum word length is outside 3 to 9.
    MaxLengthOutOfRange(usize),
    /// The minimum word length exceeds the maximum one.
    MinAboveMax(usize),
}

/// The fewest words a password may have.
pub const MIN_WORDS: usize = 1;
/// The most words a password may have.
pub const MAX_WORDS: usize = 10;
/// The shortest word length that may be asked for.
pub const MIN_WORD_LENGTH: usize = 3;
/// The longest word length that may be asked for.
pub const MAX_WORD_LENGTH: usize = 9;

/// What a batch of passwords looks like.
#[derive(Debug, Clone)]
pub struct Rules {
    /// Words per password.
    pub words: usize,
    /// Shortest word length to draw.
    pub min_length: usize,
    /// Bound on the word length to draw (exclusive when above `min_length`).
    pub max_length: usize,
    /// Case transformation applied to each word.
    pub transform: Transformation,
    /// Where separators come from.
    pub separator_char: Separator,
    /// Candidate separators for [`Separator::Random`].
    pub separator_alphabet: String,
    /// With random separators: one drawn character serves every gap of a password.
    pub match_random_char: bool,
    /// Random digits put before the words.
    pub digits_before: usize,
    /// Random digits put after the words.
    pub digits_after: usize,
    /// Passwords per batch.
    pub amount: usize,
}

impl Rules {
    /// The outcome of validating these rules: the first bound that is broken, if any.
    pub open spec fn check(&self) -> Result<(), ConfigError> {
        if self.words < MIN_WORDS || self.words > MAX_WORDS {
            Err(ConfigError::WordsOutOfRange(self.words))
        } else if self.min_length < MIN_WORD_LENGTH || self.min_length > MAX_WORD_LENGTH {
            Err(ConfigError::MinLengthOutOfRange(self.min_length))
        } else if self.max_length < MIN_WORD_LENGTH || self.max_length > MAX_WORD_LENGTH {
            Err(ConfigError::MaxLengthOutOfRange(self.max_length))
        } else if self.min_length > self.max_length {
            Err(ConfigError::MinAboveMax(self.max_length))
        } else {
            Ok(())
        }
    }

    /// Whether the word count and the length bounds are all within their domains.
    pub open spec fn valid(&self) -> bool {
        &&& MIN_WORDS <= self.words <= MAX_WORDS
        &&& MIN_WORD_LENGTH <= self.min_length <= MAX_WORD_LENGTH
        &&& MIN_WORD_LENGTH <= self.max_length <= MAX_WORD_LENGTH
        &&& self.min_length <= self.max_length
    }

    /// Checks the word count and the length bounds, in that order, and
    /// reports the first one that is out of its domain.
    pub fn sanity_checks(&self) -> (r: Result<(), ConfigError>)
        ensures
            r == self.check(),
            r is Ok <==> self.valid(),
    {
        if self.words < MIN_WORDS || self.words > MAX_WORDS {
            Err(ConfigError::WordsOutOfRange(self.words))
        } else if self.min_length < MIN_WORD_LENGTH || self.min_length > MAX_WORD_LENGTH {
            Err(ConfigError::MinLengthOutOfRange(self.min_length))
        } else if self.max_length < MIN_WORD_LENGTH || self.max_length > MAX_WORD_LENGTH {
            Err(ConfigError::MaxLengthOutOfRange(self.max_length))
        } else if self.min_length > self.max_length {
            Err(ConfigError::MinAboveMax(self.max_length))
        } else {
            Ok(())
        }
    }
}

impl Default for Rules {
    /// Two capitalised words of length 5 or 6, joined by one random separator
    /// character, followed by three digits; three passwords per batch.
    fn default() -> (r: Self)
        ensures
            r.words == 2,
            r.min_length == 5,
            r.max_length == 7,
            r.transform == Transformation::CAPITALISE,
            r.separator_char is Random,
            r.separator_alphabet@ == "!@$%.&*-+=?:;"@,
            r.match_random_char,
            r.digits_before == 0,
            r.digits_after == 3,
            r.amount == 3,
    {
        Rules {
            words: 2,
            min_length: 5,
            max_length: 7,
            transform: Transformation::CAPITALISE,
            separator_char: Separator::Random,
            separator_alphabet: "!@$%.&*-+=?:;".to_owned(),
            match_random_char: true,
            digits_before: 0,
            digits_after: 3,
            amount: 3,
        }
    }
}

impl Separator {
    /// Reads a separator setting: `"NONE"` disables separators, `"RANDOM"`
    /// draws them from the alphabet, and any other string is a fixed set of
    /// characters whose smallest one is used.
    pub fn from_setting(s: &str) -> (r: Separator)
        ensures
            s@ == "NONE"@ ==> r is Disabled,
            s@ == "RANDOM"@ ==> r is Random,
            s@ != "NONE"@ && s@ != "RANDOM"@ ==> (r matches Separator::Fixed(f) && f@ == s@),
    {
        proof {
            reveal_strlit("NONE");
            reveal_strlit("RANDOM");
            assert("NONE"@.len() != "RANDOM"@.len());
        }
        let owned = s.to_owned();
        if owned == "NONE".to_owned() {
            Separator::Disabled
        } else if owned == "RANDOM".to_owned() {
            Separator::Random
        } else {
            Separator::Fixed(owned)
        }
    }

    /// The setting string that [`Separator::from_setting`] reads back as this separator.
    pub fn setting(&self) -> (r: String)
        ensures
            self is Disabled ==> r@ == "NONE"@,
            self is Random ==> r@ == "RANDOM"@,
            self matches Separator::Fixed(f) ==> r@ == f@,
    {
        match self {
            Separator::Disabled => "NONE".to_owned(),
            Separator::Random => "RANDOM".to_owned(),
            Separator::Fixed(f) => f.clone(),
        }
    }
}

} // verus!
