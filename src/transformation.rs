//! The case transformations that can be applied to each word of a password.
use vstd::prelude::*;

use crate::text::{
    char_to_lower, char_to_upper, lower_of_char, str_to_upper, upper_of_char, upper_of_str,
};

verus! {

/// How the letters of each chosen word are cased.
#[allow(non_camel_case_types)]
#[derive(Debug, Clone, Copy, PartialEq, Eq, Structural)]
pub enum Transformation {
    /// The word is left as it is.
    NONE,
    /// The first character is upper-cased, the rest is left as it is.
    CAPITALISE,
    /// The whole word is upper-cased, then its first character lower-cased.
    ALL_EXCEPT_FIRST,
    /// The whole word is upper-cased.
    UPPERCASE,
    /// Each character is upper- or lower-cased by its own coin flip.
    RANDOM,
    /// Characters at even positions are upper-cased, those at odd positions lower-cased.
    ALTERNATING,
}

/// For each position `i`, `ups[i]` where `upper[i]` holds, else `lows[i]`;
/// the pieces concatenated.
pub open spec fn pick_pieces(ups: Seq<Seq<char>>, lows: Seq<Seq<char>>, upper: Seq<bool>) -> Seq<char>
    decreases ups.len(),
{
    if ups.len() == 0 {
        Seq::empty()
    } else {
        let i = ups.len() - 1;
        pick_pieces(ups.take(i), lows, upper) + if upper[i] {
            ups[i]
        } else {
            lows[i]
        }
    }
}

/// Each character of `w` mapped to its upper-case form where `upper` holds
/// at its position, else to its lower-case form; the pieces concatenated.
pub open spec fn cased(w: Seq<char>, upper: Seq<bool>) -> Seq<char> {
    pick_pieces(w.map_values(|c: char| upper_of_char(c)), w.map_values(|c: char| lower_of_char(c)), upper)
}

/// The alternating pattern for `n` characters: true at even positions.
pub open spec fn alternating(n: nat) -> Seq<bool> {
    Seq::new(n, |i: int| i % 2 == 0)
}

/// The word `w` after transformation `t`; `flips` are the coin flips that
/// the random transformation uses, one per character.
pub open spec fn transformed(t: Transformation, w: Seq<char>, flips: Seq<bool>) -> Seq<char> {
    match t {
        Transformation::NONE => w,
        Transformation::CAPITALISE => if w.len() == 0 {
            w
        } else {
            upper_of_char(w[0]) + w.drop_first()
        },
        Transformation::ALL_EXCEPT_FIRST => {
            let u = upper_of_str(w);
            if u.len() == 0 {
                u
            } else {
                lower_of_char(u[0]) + u.drop_first()
            }
        },
        Transformation::UPPERCASE => upper_of_str(w),
        Transformation::RANDOM => cased(w, flips),
        Transformation::ALTERNATING => cased(w, alternating(w.len())),
    }
}

/// Concatenates, position by position, the upper-case piece `ups[i]` where
/// `upper[i]` holds and the lower-case piece `lows[i]` otherwise.
pub fn join_cased(ups: &Vec<String>, lows: &Vec<String>, upper: &Vec<bool>) -> (r: String)
    requires
        lows.len() == ups.len(),
        upper.len() >= ups.len(),
    ensures
        r@ == pick_pieces(ups.deep_view(), lows.deep_view(), upper@),
{
    let ghost uv = ups.deep_view();
    let ghost lv = lows.deep_view();
    let n = ups.len();
    let mut out = String::new();
    let mut i: usize = 0;
    while i < n
        invariant
            n == ups.len(),
            lows.len() == n,
            upper.len() >= n,
            uv == ups.deep_view(),
            lv == lows.deep_view(),
            i <= n,
            out@ == pick_pieces(uv.take(i as int), lv, upper@),
        decreases n - i,
    {
        if upper[i] {
            out.append(ups[i].as_str());
        } else {
            out.append(lows[i].as_str());
        }
        assert(uv.take(i + 1).take(i as int) =~= uv.take(i as int));
        i = i + 1;
    }
    assert(uv.take(n as int) =~= uv);
    out
}

/// Upper- or lower-cases each character of `word` as `upper` says at its position.
fn case_each(word: &str, upper: &Vec<bool>) -> (r: String)
    requires
        upper@.len() >= word@.len(),
    ensures
        r@ == cased(word@, upper@),
{
    let n = word.unicode_len();
    let mut ups: Vec<String> = Vec::new();
    let mut lows: Vec<String> = Vec::new();
    let mut i: usize = 0;
    while i < n
        invariant
            n == word@.len(),
            i <= n,
            ups.len() == i,
            lows.len() == i,
            forall|k: int| 0 <= k < i ==> (#[trigger] ups[k])@ == upper_of_char(word@[k]),
            forall|k: int| 0 <= k < i ==> (#[trigger] lows[k])@ == lower_of_char(word@[k]),
        decreases n - i,
    {
        let c = word.get_char(i);
        ups.push(char_to_upper(c));
        lows.push(char_to_lower(c));
        i = i + 1;
    }
    assert(ups.deep_view() =~= word@.map_values(|c: char| upper_of_char(c)));
    assert(lows.deep_view() =~= word@.map_values(|c: char| lower_of_char(c)));
    join_cased(&ups, &lows, upper)
}

/// `first` followed by all of `word` but its first character; `first` alone
/// when `word` is empty.
pub fn replace_first(first: &str, word: &str) -> (r: String)
    ensures
        word@.len() > 0 ==> r@ == first@ + word@.drop_first(),
        word@.len() == 0 ==> r@ == first@,
{
    let mut r = first.to_owned();
    let n = word.unicode_len();
    if n > 0 {
        r.append(word.substring_char(1, n));
    }
    r
}

/// Applies transformation `t` to `word`. `flips` are the coin flips of the
/// random transformation, one per character; the other transformations
/// ignore them.
pub fn transform_word(t: Transformation, word: &str, flips: &Vec<bool>) -> (r: String)
    requires
        t == Transformation::RANDOM ==> flips@.len() == word@.len(),
    ensures
        r@ == transformed(t, word@, flips@),
{
    match t {
        Transformation::NONE => word.to_owned(),
        Transformation::CAPITALISE => {
            if word.unicode_len() == 0 {
                String::new()
            } else {
                let first = char_to_upper(word.get_char(0));
                replace_first(first.as_str(), word)
            }
        },
        Transformation::ALL_EXCEPT_FIRST => {
            let u = str_to_upper(word);
            let us = u.as_str();
            if us.unicode_len() == 0 {
                String::new()
            } else {
                let first = char_to_lower(us.get_char(0));
                replace_first(first.as_str(), us)
            }
        },
        Transformation::UPPERCASE => str_to_upper(word),
        Transformation::RANDOM => case_each(word, flips),
        Transformation::ALTERNATING => {
            let n = word.unicode_len();
            let mut pattern: Vec<bool> = Vec::new();
            let mut i: usize = 0;
            while i < n
                invariant
                    i <= n,
                    pattern@ =~= alternating(i as nat),
                decreases n - i,
            {
                pattern.push(i % 2 == 0);
                i = i + 1;
            }
            case_each(word, &pattern)
        },
    }
}

} // verus!
