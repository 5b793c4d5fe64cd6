//! The generation engine: turns rules and a dictionary into a batch of passwords.
use vstd::prelude::*;

use rand::rngs::StdRng;

use crate::dictionary::{Dictionary, DictionaryError};
use crate::random::{draw_below, draw_bool, entropy_rng};
use crate::rules::{ConfigError, Rules};
use crate::separator::{
    draws_separator, lemma_step_agrees, separator_step, separators_allowed, SeparatorSession,
};
use crate::text::{digit_to_char, is_drawn_digit};
use crate::transformation::{transform_word, transformed, Transformation};

verus! {

/// Why a batch could not be generated. No password is handed out when one occurs.
#[derive(Debug, Clone, Copy, PartialEq, Eq, Structural)]
pub enum GenerateError {
    /// The rules are out of their domain.
    Configuration(ConfigError),
    /// The dictionary has no words of a length that was drawn.
    Dictionary(DictionaryError),
}

/// Whether `len` is a word length that may be drawn under `rules`: from
/// `min_length` up to but excluding `max_length`, or `min_length` itself when
/// the two bounds are equal.
pub open spec fn length_allowed(rules: Rules, len: nat) -> bool {
    if rules.min_length < rules.max_length {
        rules.min_length <= len < rules.max_length
    } else {
        len == rules.min_length
    }
}

/// Whether `w` is a word of the dictionary under a length that `rules` may draw.
pub open spec fn word_allowed(rules: Rules, dict: Dictionary, w: Seq<char>) -> bool {
    exists|len: nat| length_allowed(rules, len) && #[trigger] dict.bucket(len).contains(w)
}

/// Whether the dictionary has words of every length that `rules` may draw.
pub open spec fn covers(dict: Dictionary, rules: Rules) -> bool {
    forall|len: nat| length_allowed(rules, len) ==> #[trigger] dict.bucket(len).len() > 0
}

/// The characters an optional separator contributes.
pub open spec fn sep_chars(s: Option<char>) -> Seq<char> {
    match s {
        Some(c) => seq![c],
        None => Seq::empty(),
    }
}

/// `words` in order, with `gaps[k]` between word `k` and word `k + 1`.
pub open spec fn joined(words: Seq<Seq<char>>, gaps: Seq<Option<char>>) -> Seq<char>
    decreases words.len(),
{
    if words.len() == 0 {
        Seq::empty()
    } else if words.len() == 1 {
        words[0]
    } else {
        joined(words.drop_last(), gaps) + sep_chars(gaps[words.len() - 2]) + words.last()
    }
}

/// How many separators a password under `rules` asks for: one after leading
/// digits, one between each two words, one before trailing digits.
pub open spec fn separator_count(rules: Rules) -> nat {
    (if rules.digits_before > 0 { 1nat } else { 0nat }) + (rules.words - 1) as nat + (if rules.digits_after > 0 { 1nat } else { 0nat })
}

/// What one password is made of.
pub struct PasswordParts {
    /// The drawn target length of each word.
    pub lengths: Seq<nat>,
    /// The dictionary word chosen for each target length.
    pub picks: Seq<Seq<char>>,
    /// The coin flips of the random transformation, for each word.
    pub flips: Seq<Seq<bool>>,
    /// The leading digits.
    pub before: Seq<char>,
    /// The trailing digits.
    pub after: Seq<char>,
    /// Every separator asked for, in order: after the leading digits, between
    /// the words, before the trailing digits.
    pub seps: Seq<Option<char>>,
}

impl PasswordParts {
    /// The chosen words after the rules' transformation.
    pub open spec fn words(&self, rules: Rules) -> Seq<Seq<char>> {
        Seq::new(self.picks.len(), |i: int| transformed(rules.transform, self.picks[i], self.flips[i]))
    }

    /// Whether these parts are ones that generation under `rules` from `dict` can draw.
    pub open spec fn fits(&self, rules: Rules, dict: Dictionary) -> bool {
        &&& self.lengths.len() == rules.words
        &&& self.picks.len() == rules.words
        &&& self.flips.len() == rules.words
        &&& forall|i: int| 0 <= i < rules.words ==> length_allowed(rules, #[trigger] self.lengths[i])
        &&& forall|i: int| 0 <= i < rules.words ==> dict.bucket(#[trigger] self.lengths[i]).contains(self.picks[i])
        &&& rules.transform == Transformation::RANDOM ==> forall|i: int|
            0 <= i < rules.words ==> (#[trigger] self.flips[i]).len() == self.picks[i].len()
        &&& self.before.len() == rules.digits_before
        &&& self.after.len() == rules.digits_after
        &&& forall|i: int| 0 <= i < self.before.len() ==> is_drawn_digit(#[trigger] self.before[i])
        &&& forall|i: int| 0 <= i < self.after.len() ==> is_drawn_digit(#[trigger] self.after[i])
        &&& self.seps.len() == separator_count(rules)
        &&& separators_allowed(rules, self.seps)
    }

    /// The password these parts spell: leading digits and their separator,
    /// the words joined by the separators between them, then the separator
    /// before the trailing digits and those digits.
    pub open spec fn render(&self, rules: Rules) -> Seq<char> {
        let lead: int = if rules.digits_before > 0 { 1 } else { 0 };
        let head = if rules.digits_before > 0 {
            self.before + sep_chars(self.seps[0])
        } else {
            Seq::empty()
        };
        let tail = if rules.digits_after > 0 {
            sep_chars(self.seps.last()) + self.after
        } else {
            Seq::empty()
        };
        head + joined(self.words(rules), self.seps.subrange(lead, lead + rules.words - 1)) + tail
    }
}

/// Whether `p` is a password that generation under `rules` from `dict` can produce.
pub open spec fn is_password(rules: Rules, dict: Dictionary, p: Seq<char>) -> bool {
    exists|parts: PasswordParts| #[trigger] parts.fits(rules, dict) && parts.render(rules) == p
}

/// The engine: rules, the dictionary they draw from, and a random source.
pub struct Generator {
    pub rules: Rules,
    pub dictionary: Dictionary,
    rng: StdRng,
}

/// Draws the target length of one word (see [`length_allowed`]).
fn get_word_length(rng: &mut StdRng, rules: &Rules) -> (r: usize)
    requires
        rules.min_length <= rules.max_length,
    ensures
        length_allowed(*rules, r as nat),
{
    if rules.min_length < rules.max_length {
        draw_below(rng, rules.min_length, rules.max_length)
    } else {
        rules.min_length
    }
}

/// Draws the words of one password: for each, a target length, then a word
/// of that length from the dictionary. Fails on a drawn length without words.
fn draw_words(rng: &mut StdRng, rules: &Rules, dict: &Dictionary) -> (r: Result<(Vec<String>, Ghost<Seq<nat>>), DictionaryError>)
    requires
        rules.min_length <= rules.max_length,
    ensures
        covers(*dict, *rules) ==> r is Ok,
        r matches Ok((words, lengths)) ==> {
            &&& words.len() == rules.words
            &&& lengths@.len() == rules.words
            &&& forall|i: int| 0 <= i < rules.words ==> length_allowed(*rules, #[trigger] lengths@[i])
            &&& forall|i: int| 0 <= i < rules.words ==> dict.bucket(#[trigger] lengths@[i]).contains(words[i]@)
        },
        r matches Err(e) ==> (e matches DictionaryError::NoWords(len) && length_allowed(*rules, len as nat)
            && dict.bucket(len as nat).len() == 0),
{
    let mut words: Vec<String> = Vec::new();
    let ghost mut lengths: Seq<nat> = Seq::empty();
    let mut i: usize = 0;
    while i < rules.words
        invariant
            rules.min_length <= rules.max_length,
            i <= rules.words,
            words.len() == i,
            lengths.len() == i,
            forall|k: int| 0 <= k < i ==> length_allowed(*rules, #[trigger] lengths[k]),
            forall|k: int| 0 <= k < i ==> dict.bucket(#[trigger] lengths[k]).contains(words[k]@),
        decreases rules.words - i,
    {
        let length = get_word_length(rng, rules);
        let bucket = match dict.lookup(length) {
            Ok(b) => b,
            Err(e) => return Err(e),
        };
        let index = draw_below(rng, 0, bucket.len());
        let word = bucket[index].clone();
        assert(dict.bucket(length as nat)[index as int] == word@);
        words.push(word);
        proof {
            lengths = lengths.push(length as nat);
        }
        i = i + 1;
    }
    Ok((words, Ghost(lengths)))
}

/// Draws `count` digits, each from `'0'` to `'8'`.
fn draw_digits(rng: &mut StdRng, count: usize) -> (r: String)
    ensures
        r@.len() == count,
        forall|i: int| 0 <= i < count ==> is_drawn_digit(#[trigger] r@[i]),
{
    let mut digits = String::new();
    let mut i: usize = 0;
    while i < count
        invariant
            i <= count,
            digits@.len() == i,
            forall|k: int| 0 <= k < i ==> is_drawn_digit(#[trigger] digits@[k]),
        decreases count - i,
    {
        let d = draw_below(rng, 0, 9);
        let c = digit_to_char(d as u8);
        digits.push(c);
        i = i + 1;
    }
    digits
}

/// Draws one coin flip for each character of `word`.
fn get_flips(rng: &mut StdRng, word: &str) -> (r: Vec<bool>)
    ensures
        r@.len() == word@.len(),
{
    let n = word.unicode_len();
    let mut flips: Vec<bool> = Vec::new();
    let mut i: usize = 0;
    while i < n
        invariant
            i <= n,
            flips@.len() == i,
        decreases n - i,
    {
        flips.push(draw_bool(rng));
        i = i + 1;
    }
    flips
}

/// Applies the rules' transformation to each word, drawing coin flips where
/// the transformation is random.
fn transform_words(rng: &mut StdRng, rules: &Rules, words: &Vec<String>) -> (r: (Vec<String>, Ghost<Seq<Seq<bool>>>))
    ensures
        r.0.len() == words.len(),
        r.1@.len() == words.len(),
        forall|i: int| 0 <= i < words.len() ==> (#[trigger] r.0[i])@ == transformed(rules.transform, words[i]@, r.1@[i]),
        rules.transform == Transformation::RANDOM ==> forall|i: int|
            0 <= i < words.len() ==> (#[trigger] r.1@[i]).len() == words[i]@.len(),
{
    let mut out: Vec<String> = Vec::new();
    let ghost mut all_flips: Seq<Seq<bool>> = Seq::empty();
    let mut i: usize = 0;
    while i < words.len()
        invariant
            i <= words.len(),
            out.len() == i,
            all_flips.len() == i,
            forall|k: int| 0 <= k < i ==> (#[trigger] out[k])@ == transformed(rules.transform, words[k]@, all_flips[k]),
            rules.transform == Transformation::RANDOM ==> forall|k: int|
                0 <= k < i ==> (#[trigger] all_flips[k]).len() == words[k]@.len(),
        decreases words.len() - i,
    {
        let word = words[i].as_str();
        let flips = if rules.transform == Transformation::RANDOM {
            get_flips(rng, word)
        } else {
            Vec::new()
        };
        out.push(transform_word(rules.transform, word, &flips));
        proof {
            all_flips = all_flips.push(flips@);
        }
        i = i + 1;
    }
    (out, Ghost(all_flips))
}

/// Answers one separator request of the password that `session` belongs to,
/// drawing an index into the alphabet where the request needs one.
fn get_separator(
    rng: &mut StdRng,
    rules: &Rules,
    session: &mut SeparatorSession,
    Ghost(seps): Ghost<Seq<Option<char>>>,
) -> (r: Option<char>)
    requires
        old(session).agrees(*rules, seps),
    ensures
        final(session).agrees(*rules, seps.push(r)),
        !draws_separator(*rules, old(session).locked) ==> (r, final(session).locked) == separator_step(
            *rules,
            old(session).locked,
            0,
        ),
        draws_separator(*rules, old(session).locked) ==> exists|pick: int|
            0 <= pick < rules.separator_alphabet@.len() && (r, final(session).locked)
                == #[trigger] separator_step(*rules, old(session).locked, pick),
{
    let pick = if session.needs_draw(rules) {
        draw_below(rng, 0, rules.separator_alphabet.as_str().unicode_len())
    } else {
        0
    };
    proof {
        lemma_step_agrees(*rules, *session, seps, pick as int);
    }
    let ghost locked_before = session.locked;
    let r = session.next_separator(rules, pick);
    assert((r, session.locked) == separator_step(*rules, locked_before, pick as int));
    r
}

/// Whether no separator request under `rules` can change the lock `locked`:
/// only a matched random separator with nothing locked yet sets it.
pub open spec fn keeps_lock(rules: Rules, locked: Option<char>) -> bool {
    !(rules.separator_char is Random && rules.match_random_char && locked is None)
}

/// Appends an optional separator to `s`.
fn push_separator(s: &mut String, sep: Option<char>)
    ensures
        final(s)@ == old(s)@ + sep_chars(sep),
{
    match sep {
        Some(c) => s.push(c),
        None => {},
    }
}

/// Joins `words` with one separator request between each two of them.
fn add_separators(
    rng: &mut StdRng,
    rules: &Rules,
    session: &mut SeparatorSession,
    words: &Vec<String>,
    Ghost(seps): Ghost<Seq<Option<char>>>,
) -> (r: (String, Ghost<Seq<Option<char>>>))
    requires
        words.len() >= 1,
        old(session).agrees(*rules, seps),
    ensures
        r.1@.len() == words.len() - 1,
        r.0@ == joined(words.deep_view(), r.1@),
        final(session).agrees(*rules, seps + r.1@),
        words.len() == 1 ==> final(session).locked == old(session).locked,
        keeps_lock(*rules, old(session).locked) ==> final(session).locked == old(session).locked,
        rules.separator_char is Random && rules.separator_alphabet@.len() > 0 && rules.match_random_char
            && old(session).locked is Some ==> forall|k: int|
            0 <= k < r.1@.len() ==> #[trigger] r.1@[k] == old(session).locked,
{
    let ghost locked0 = session.locked;
    let ghost wv = words.deep_view();
    let mut out = words[0].clone();
    let ghost mut gaps: Seq<Option<char>> = Seq::empty();
    let mut i: usize = 1;
    assert(seps + gaps =~= seps);
    while i < words.len()
        invariant
            1 <= i <= words.len(),
            wv == words.deep_view(),
            gaps.len() == i - 1,
            out@ == joined(wv.take(i as int), gaps),
            session.agrees(*rules, seps + gaps),
            i == 1 ==> session.locked == locked0,
            keeps_lock(*rules, locked0) ==> session.locked == locked0,
            rules.separator_char is Random && rules.separator_alphabet@.len() > 0 && rules.match_random_char
                && locked0 is Some ==> forall|k: int| 0 <= k < gaps.len() ==> #[trigger] gaps[k] == locked0,
        decreases words.len() - i,
    {
        let sep = get_separator(rng, rules, session, Ghost(seps + gaps));
        push_separator(&mut out, sep);
        out.append(words[i].as_str());
        proof {
            let g2 = gaps.push(sep);
            assert(seps + g2 =~= (seps + gaps).push(sep));
            assert(wv.take(i + 1).drop_last() =~= wv.take(i as int));
            lemma_joined_gaps(wv.take(i as int), gaps, g2);
            gaps = g2;
        }
        i = i + 1;
    }
    assert(wv.take(words.len() as int) =~= wv);
    (out, Ghost(gaps))
}

/// Joining depends only on the gaps between the words.
proof fn lemma_joined_gaps(words: Seq<Seq<char>>, g1: Seq<Option<char>>, g2: Seq<Option<char>>)
    requires
        forall|k: int| 0 <= k < words.len() - 1 ==> g1[k] == g2[k],
    ensures
        joined(words, g1) == joined(words, g2),
    decreases words.len(),
{
    if words.len() > 1 {
        lemma_joined_gaps(words.drop_last(), g1, g2);
    }
}

/// Builds one password: words, their transformation, digit groups and
/// separators, with a fresh separator session.
fn make_password(rng: &mut StdRng, rules: &Rules, dict: &Dictionary) -> (r: Result<String, DictionaryError>)
    requires
        rules.valid(),
    ensures
        covers(*dict, *rules) ==> r is Ok,
        r matches Ok(p) ==> is_password(*rules, *dict, p@),
        r matches Err(e) ==> (e matches DictionaryError::NoWords(len) && length_allowed(*rules, len as nat)
            && dict.bucket(len as nat).len() == 0),
{
    let mut session = SeparatorSession::new();
    let ghost mut seps: Seq<Option<char>> = Seq::empty();
    let (words, Ghost(lengths)) = match draw_words(rng, rules, dict) {
        Ok(w) => w,
        Err(e) => return Err(e),
    };
    let (transformed_words, Ghost(flips)) = transform_words(rng, rules, &words);
    let mut password = String::new();
    let ghost mut before: Seq<char> = Seq::empty();
    if rules.digits_before > 0 {
        let digits = draw_digits(rng, rules.digits_before);
        password.append(digits.as_str());
        let sep = get_separator(rng, rules, &mut session, Ghost(seps));
        push_separator(&mut password, sep);
        proof {
            before = digits@;
            seps = seps.push(sep);
        }
    }
    let ghost head = password@;
    let (body, Ghost(gaps)) = add_separators(rng, rules, &mut session, &transformed_words, Ghost(seps));
    password.append(body.as_str());
    let ghost mid_seps = seps + gaps;
    let ghost mut after: Seq<char> = Seq::empty();
    let ghost mut all_seps = mid_seps;
    if rules.digits_after > 0 {
        let sep = get_separator(rng, rules, &mut session, Ghost(mid_seps));
        push_separator(&mut password, sep);
        let digits = draw_digits(rng, rules.digits_after);
        password.append(digits.as_str());
        proof {
            after = digits@;
            all_seps = mid_seps.push(sep);
        }
    }
    proof {
        let picks = words.deep_view();
        let parts = PasswordParts { lengths, picks, flips, before, after, seps: all_seps };
        let lead: int = if rules.digits_before > 0 { 1 } else { 0 };
        assert(parts.words(*rules) =~= transformed_words.deep_view());
        assert(all_seps.subrange(lead, lead + rules.words - 1) =~= gaps);
        assert(parts.fits(*rules, *dict));
        assert(password@ =~= parts.render(*rules));
    }
    Ok(password)
}

impl Generator {
    /// The rules this engine generates under.
    pub closed spec fn spec_rules(&self) -> Rules {
        self.rules
    }

    /// The dictionary this engine draws words from.
    pub closed spec fn spec_dictionary(&self) -> Dictionary {
        self.dictionary
    }

    /// An engine for `rules` over `dictionary`, with a random source seeded
    /// by the operating system.
    pub fn new(rules: Rules, dictionary: Dictionary) -> (r: Generator)
        ensures
            r.spec_rules() == rules,
            r.spec_dictionary() == dictionary,
    {
        Generator { rules, dictionary, rng: entropy_rng() }
    }

    /// Draws the words of one password: for each, a target length (see
    /// [`length_allowed`]), then a word of that length from the dictionary.
    /// Fails on a drawn length without words.
    pub fn get_words(&mut self) -> (r: Result<Vec<String>, DictionaryError>)
        requires
            old(self).spec_rules().min_length <= old(self).spec_rules().max_length,
        ensures
            final(self).spec_rules() == old(self).spec_rules(),
            final(self).spec_dictionary() == old(self).spec_dictionary(),
            covers(old(self).spec_dictionary(), old(self).spec_rules()) ==> r is Ok,
            r matches Ok(words) ==> {
                &&& words.len() == old(self).spec_rules().words
                &&& forall|i: int| 0 <= i < words.len() ==> word_allowed(
                    old(self).spec_rules(),
                    old(self).spec_dictionary(),
                    #[trigger] words[i]@,
                )
            },
            r matches Err(e) ==> (e matches DictionaryError::NoWords(len) && length_allowed(
                old(self).spec_rules(),
                len as nat,
            ) && old(self).spec_dictionary().bucket(len as nat).len() == 0),
    {
        let (words, Ghost(lengths)) = match draw_words(&mut self.rng, &self.rules, &self.dictionary) {
            Ok(w) => w,
            Err(e) => return Err(e),
        };
        assert forall|i: int| 0 <= i < words.len() implies word_allowed(
            self.rules,
            self.dictionary,
            #[trigger] words[i]@,
        ) by {
            assert(length_allowed(self.rules, lengths[i]) && self.dictionary.bucket(lengths[i]).contains(words[i]@));
        }
        Ok(words)
    }

    /// Draws `count` digits, each from `'0'` to `'8'`.
    pub fn get_digits(&mut self, count: usize) -> (r: String)
        ensures
            final(self).spec_rules() == old(self).spec_rules(),
            final(self).spec_dictionary() == old(self).spec_dictionary(),
            r@.len() == count,
            forall|i: int| 0 <= i < count ==> is_drawn_digit(#[trigger] r@[i]),
    {
        draw_digits(&mut self.rng, count)
    }

    /// Generates a batch of `amount` passwords, each built on its own.
    /// Rules out of their domain are refused before anything is drawn; a drawn
    /// word length without words aborts the batch.
    pub fn generate(&mut self) -> (r: Result<Vec<String>, GenerateError>)
        ensures
            final(self).spec_rules() == old(self).spec_rules(),
            final(self).spec_dictionary() == old(self).spec_dictionary(),
            !old(self).spec_rules().valid() ==> r == Err::<Vec<String>, GenerateError>(
                GenerateError::Configuration(old(self).spec_rules().check()->Err_0),
            ),
            old(self).spec_rules().valid() && covers(old(self).spec_dictionary(), old(self).spec_rules()) ==> r is Ok,
            r matches Err(GenerateError::Configuration(_)) ==> !old(self).spec_rules().valid(),
            r matches Ok(passwords) ==> {
                &&& passwords.len() == old(self).spec_rules().amount
                &&& forall|i: int| 0 <= i < passwords.len()
                    ==> is_password(old(self).spec_rules(), old(self).spec_dictionary(), #[trigger] passwords[i]@)
            },
            r matches Err(GenerateError::Dictionary(e)) ==> {
                &&& old(self).spec_rules().valid()
                &&& e matches DictionaryError::NoWords(len)
                &&& length_allowed(old(self).spec_rules(), len as nat)
                &&& old(self).spec_dictionary().bucket(len as nat).len() == 0
            },
    {
        match self.rules.sanity_checks() {
            Ok(()) => {},
            Err(e) => return Err(GenerateError::Configuration(e)),
        }
        let mut passwords: Vec<String> = Vec::new();
        let mut i: usize = 0;
        while i < self.rules.amount
            invariant
                self.rules == old(self).rules,
                self.dictionary == old(self).dictionary,
                self.rules.valid(),
                i <= self.rules.amount,
                passwords.len() == i,
                forall|k: int| 0 <= k < i ==> is_password(self.rules, self.dictionary, #[trigger] passwords[k]@),
            decreases self.rules.amount - i,
        {
            match make_password(&mut self.rng, &self.rules, &self.dictionary) {
                Ok(p) => passwords.push(p),
                Err(e) => return Err(GenerateError::Dictionary(e)),
            }
            i = i + 1;
        }
        Ok(passwords)
    }
}

} // verus!
