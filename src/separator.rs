//! The separator policy: which character, if any, goes into each gap of a
//! password, and the per-password lock of a matched random character.
use vstd::prelude::*;

use crate::rules::{Rules, Separator};

verus! {

/// The smallest character of `s` by code point; none if `s` is empty.
pub open spec fn min_char(s: Seq<char>) -> Option<char>
    decreases s.len(),
{
    if s.len() == 0 {
        None
    } else {
        let last = s[s.len() - 1];
        match min_char(s.drop_last()) {
            None => Some(last),
            Some(m) => Some(if last < m { last } else { m }),
        }
    }
}

/// The smallest character of a non-empty sequence occurs in it and is at
/// most each of its characters.
pub proof fn lemma_min_char(s: Seq<char>)
    ensures
        min_char(s) is None <==> s.len() == 0,
        min_char(s) matches Some(c) ==> s.contains(c) && forall|i: int| 0 <= i < s.len() ==> c <= #[trigger] s[i],
    decreases s.len(),
{
    if s.len() > 0 {
        let rest = s.drop_last();
        lemma_min_char(rest);
        let c = min_char(s)->0;
        assert forall|i: int| 0 <= i < s.len() implies c <= #[trigger] s[i] by {
            if i < s.len() - 1 {
                assert(rest[i] == s[i]);
            }
        }
        if let Some(m) = min_char(rest) {
            if !(s[s.len() - 1] < m) {
                let k = choose|k: int| 0 <= k < rest.len() && rest[k] == m;
                assert(s[k] == m);
            }
        }
        assert(s[s.len() - 1] == s.last());
    }
}

/// The smallest character of `s` by code point, which a fixed separator
/// setting emits in every gap; `None` for an empty setting.
pub fn fixed_separator(s: &str) -> (r: Option<char>)
    ensures
        r == min_char(s@),
        r is None <==> s@.len() == 0,
        r matches Some(c) ==> s@.contains(c) && forall|i: int| 0 <= i < s@.len() ==> c <= #[trigger] s@[i],
{
    let n = s.unicode_len();
    let mut best: Option<char> = None;
    let mut i: usize = 0;
    while i < n
        invariant
            n == s@.len(),
            i <= n,
            best == min_char(s@.take(i as int)),
            best is None <==> i == 0,
            best matches Some(c) ==> s@.take(i as int).contains(c) && forall|j: int| 0 <= j < i ==> c <= #[trigger] s@[j],
        decreases n - i,
    {
        let c = s.get_char(i);
        assert(s@.take(i + 1).drop_last() =~= s@.take(i as int));
        best = match best {
            None => Some(c),
            Some(m) => Some(if c < m { c } else { m }),
        };
        assert(s@.take(i + 1)[i as int] == c);
        i = i + 1;
    }
    assert(s@.take(n as int) =~= s@);
    best
}

/// What one separator request yields, and the lock afterwards, given the lock
/// before and the index `pick` into the separator alphabet that a random
/// separator uses if it has to draw.
pub open spec fn separator_step(rules: Rules, locked: Option<char>, pick: int) -> (Option<char>, Option<char>) {
    let alphabet = rules.separator_alphabet@;
    match rules.separator_char {
        Separator::Disabled => (None, locked),
        Separator::Fixed(s) => (min_char(s@), locked),
        Separator::Random => if alphabet.len() == 0 {
            (None, locked)
        } else if rules.match_random_char {
            match locked {
                Some(c) => (Some(c), locked),
                None => (Some(alphabet[pick]), Some(alphabet[pick])),
            }
        } else {
            (Some(alphabet[pick]), locked)
        },
    }
}

/// Whether a separator request under `rules` with lock `locked` draws a random character.
pub open spec fn draws_separator(rules: Rules, locked: Option<char>) -> bool {
    &&& rules.separator_char is Random
    &&& rules.separator_alphabet@.len() > 0
    &&& (!rules.match_random_char || locked is None)
}

/// Whether `seps`, the separators of one password in the order they were
/// asked for, are what `rules` allows: none when separators are disabled or
/// the alphabet is empty; the smallest character of a fixed setting; drawn
/// from the alphabet, and one and the same character throughout when the
/// random character is matched.
pub open spec fn separators_allowed(rules: Rules, seps: Seq<Option<char>>) -> bool {
    let alphabet = rules.separator_alphabet@;
    match rules.separator_char {
        Separator::Disabled => forall|i: int| 0 <= i < seps.len() ==> #[trigger] seps[i] is None,
        Separator::Fixed(s) => forall|i: int| 0 <= i < seps.len() ==> #[trigger] seps[i] == min_char(s@),
        Separator::Random => if alphabet.len() == 0 {
            forall|i: int| 0 <= i < seps.len() ==> #[trigger] seps[i] is None
        } else {
            &&& forall|i: int| 0 <= i < seps.len() ==> (#[trigger] seps[i] matches Some(c) && alphabet.contains(c))
            &&& rules.match_random_char ==> forall|i: int, j: int|
                0 <= i < seps.len() && 0 <= j < seps.len() ==> #[trigger] seps[i] == #[trigger] seps[j]
        },
    }
}

/// The state of one password's construction: the random separator character
/// locked in for the rest of the password, if one was drawn while matching.
pub struct SeparatorSession {
    pub locked: Option<char>,
}

impl SeparatorSession {
    /// Whether the lock agrees with the separators `seps` emitted so far:
    /// when random characters are matched, a lock is set exactly once one was
    /// emitted, and it is the character every gap got.
    pub open spec fn agrees(&self, rules: Rules, seps: Seq<Option<char>>) -> bool {
        &&& separators_allowed(rules, seps)
        &&& rules.separator_char is Random && rules.separator_alphabet@.len() > 0 && rules.match_random_char ==> {
            &&& self.locked is None ==> seps.len() == 0
            &&& self.locked matches Some(c) ==> rules.separator_alphabet@.contains(c) && forall|i: int|
                0 <= i < seps.len() ==> #[trigger] seps[i] == Some(c)
        }
    }

    /// A fresh session for the next password: nothing locked.
    pub fn new() -> (r: SeparatorSession)
        ensures
            r.locked is None,
    {
        SeparatorSession { locked: None }
    }

    /// Whether the next separator request needs a random index into the alphabet.
    pub fn needs_draw(&self, rules: &Rules) -> (r: bool)
        ensures
            r == draws_separator(*rules, self.locked),
    {
        match rules.separator_char {
            Separator::Random => rules.separator_alphabet.as_str().unicode_len() > 0
                && (!rules.match_random_char || self.locked.is_none()),
            _ => false,
        }
    }

    /// Answers one separator request. `pick` is the index into the separator
    /// alphabet to use if the request draws; it is ignored otherwise.
    pub fn next_separator(&mut self, rules: &Rules, pick: usize) -> (r: Option<char>)
        requires
            draws_separator(*rules, old(self).locked) ==> pick < rules.separator_alphabet@.len(),
        ensures
            (r, final(self).locked) == separator_step(*rules, old(self).locked, pick as int),
    {
        match &rules.separator_char {
            Separator::Disabled => None,
            Separator::Fixed(s) => fixed_separator(s.as_str()),
            Separator::Random => {
                let alphabet = rules.separator_alphabet.as_str();
                if alphabet.unicode_len() == 0 {
                    None
                } else if rules.match_random_char {
                    match self.locked {
                        Some(c) => Some(c),
                        None => {
                            let c = alphabet.get_char(pick);
                            self.locked = Some(c);
                            Some(c)
                        },
                    }
                } else {
                    Some(alphabet.get_char(pick))
                }
            },
        }
    }
}

/// One more separator request keeps a session in agreement with what it emitted.
pub proof fn lemma_step_agrees(
    rules: Rules,
    session: SeparatorSession,
    seps: Seq<Option<char>>,
    pick: int,
)
    requires
        session.agrees(rules, seps),
        draws_separator(rules, session.locked) ==> 0 <= pick < rules.separator_alphabet@.len(),
    ensures
        ({
            let (r, locked) = separator_step(rules, session.locked, pick);
            SeparatorSession { locked }.agrees(rules, seps.push(r))
        }),
{
    let (r, locked) = separator_step(rules, session.locked, pick);
    let s2 = seps.push(r);
    assert(s2.last() == r);
    assert forall|i: int| 0 <= i < seps.len() implies s2[i] == seps[i] by {}
    if rules.separator_char is Random && rules.separator_alphabet@.len() > 0 {
        if !rules.match_random_char || session.locked is None {
            assert(rules.separator_alphabet@.contains(rules.separator_alphabet@[pick]));
        }
    }
}

} // verus!
