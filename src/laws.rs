//! Properties of generated passwords that hold for every draw of the random source.
use vstd::prelude::*;

use crate::dictionary::Dictionary;
use crate::generator::{is_password, joined, length_allowed, sep_chars, PasswordParts};
use crate::rules::{Rules, Separator};
use crate::text::is_drawn_digit;
use crate::transformation::Transformation;

verus! {

/// Every drawn target length lies between the length bounds, stays below
/// `max_length` whenever `max_length` exceeds `min_length`, and is
/// `min_length` when the two are equal; each chosen word comes from the
/// bucket of its drawn length.
pub proof fn word_lengths_within_bounds(rules: Rules, dict: Dictionary, parts: PasswordParts)
    requires
        rules.valid(),
        parts.fits(rules, dict),
    ensures
        forall|i: int| 0 <= i < rules.words ==> {
            &&& rules.min_length <= #[trigger] parts.lengths[i] <= rules.max_length
            &&& rules.min_length < rules.max_length ==> parts.lengths[i] < rules.max_length
            &&& rules.min_length == rules.max_length ==> parts.lengths[i] == rules.min_length
            &&& dict.bucket(parts.lengths[i]).contains(parts.picks[i])
        },
{
    assert forall|i: int| 0 <= i < rules.words implies rules.min_length <= #[trigger] parts.lengths[i]
        <= rules.max_length by {
        assert(length_allowed(rules, parts.lengths[i]));
    }
}

/// With no transformation, no digits, no separators and two words, a
/// password is exactly two dictionary words, one after the other.
pub proof fn plain_two_word_password(rules: Rules, dict: Dictionary, p: Seq<char>)
    requires
        rules.valid(),
        rules.words == 2,
        rules.transform == Transformation::NONE,
        rules.separator_char is Disabled,
        rules.digits_before == 0,
        rules.digits_after == 0,
        is_password(rules, dict, p),
    ensures
        exists|w1: Seq<char>, w2: Seq<char>, l1: nat, l2: nat| {
            &&& p == w1 + w2
            &&& length_allowed(rules, l1) && dict.bucket(l1).contains(w1)
            &&& length_allowed(rules, l2) && dict.bucket(l2).contains(w2)
        },
{
    let parts = choose|parts: PasswordParts| #[trigger] parts.fits(rules, dict) && parts.render(rules) == p;
    let words = parts.words(rules);
    let gaps = parts.seps.subrange(0, 1);
    assert(words[0] == parts.picks[0]);
    assert(words[1] == parts.picks[1]);
    assert(gaps[0] == parts.seps[0]);
    assert(words.drop_last().len() == 1);
    assert(joined(words.drop_last(), gaps) == words[0]);
    assert(sep_chars(gaps[0]) =~= Seq::<char>::empty());
    assert(p =~= parts.picks[0] + parts.picks[1]);
    let w1 = parts.picks[0];
    let w2 = parts.picks[1];
    let l1 = parts.lengths[0];
    let l2 = parts.lengths[1];
    assert(p == w1 + w2 && length_allowed(rules, l1) && dict.bucket(l1).contains(w1) && length_allowed(rules, l2)
        && dict.bucket(l2).contains(w2));
}

/// With a matched random separator and a non-empty alphabet, every separator
/// of a password is one and the same character of the alphabet.
pub proof fn matched_separator_is_shared(rules: Rules, dict: Dictionary, parts: PasswordParts)
    requires
        parts.fits(rules, dict),
        rules.separator_char is Random,
        rules.match_random_char,
        rules.separator_alphabet@.len() > 0,
        parts.seps.len() > 0,
    ensures
        exists|c: char| rules.separator_alphabet@.contains(c) && forall|i: int|
            0 <= i < parts.seps.len() ==> #[trigger] parts.seps[i] == Some(c),
{
    let c = parts.seps[0]->0;
    assert(rules.separator_alphabet@.contains(c));
    assert forall|i: int| 0 <= i < parts.seps.len() implies #[trigger] parts.seps[i] == Some(c) by {
        assert(parts.seps[i] == parts.seps[0]);
    }
}

/// A fixed separator setting puts its smallest character into every gap.
pub proof fn fixed_separator_is_minimum(rules: Rules, dict: Dictionary, parts: PasswordParts, setting: String)
    requires
        parts.fits(rules, dict),
        rules.separator_char == Separator::Fixed(setting),
        setting@.len() > 0,
    ensures
        exists|c: char| {
            &&& setting@.contains(c)
            &&& forall|k: int| 0 <= k < setting@.len() ==> c <= #[trigger] setting@[k]
            &&& forall|i: int| 0 <= i < parts.seps.len() ==> #[trigger] parts.seps[i] == Some(c)
        },
{
    crate::separator::lemma_min_char(setting@);
    let c = crate::separator::min_char(setting@)->0;
    assert forall|i: int| 0 <= i < parts.seps.len() implies #[trigger] parts.seps[i] == Some(c) by {}
}

/// A password starts with its leading digits and ends with its trailing
/// ones, `digits_before` and `digits_after` of them, each from `'0'` to `'8'`.
pub proof fn digit_groups_drawn(rules: Rules, dict: Dictionary, parts: PasswordParts)
    requires
        parts.fits(rules, dict),
    ensures
        parts.before.len() == rules.digits_before,
        parts.after.len() == rules.digits_after,
        forall|i: int| 0 <= i < rules.digits_before ==> is_drawn_digit(#[trigger] parts.before[i]),
        forall|i: int| 0 <= i < rules.digits_after ==> is_drawn_digit(#[trigger] parts.after[i]),
        parts.render(rules).take(rules.digits_before as int) == parts.before,
        parts.render(rules).skip(parts.render(rules).len() - rules.digits_after) == parts.after,
{
    let r = parts.render(rules);
    let lead: int = if rules.digits_before > 0 { 1 } else { 0 };
    let body = joined(parts.words(rules), parts.seps.subrange(lead, lead + rules.words - 1));
    if rules.digits_before > 0 {
        assert(r.take(rules.digits_before as int) =~= parts.before);
    } else {
        assert(r.take(0) =~= parts.before);
    }
    if rules.digits_after > 0 {
        assert(r.skip(r.len() - rules.digits_after) =~= parts.after);
    } else {
        assert(r.skip(r.len() as int) =~= parts.after);
    }
}

} // verus!
