//! The word dictionary: for each word length, the ordered list of candidate words.
use vstd::prelude::*;

use crate::text::{decimal, decimal_string};

verus! {

/// What a JSON object mapping keys to arrays of strings decodes to: its
/// entries, keys in ascending order; `None` where the text is no such object.
pub uninterp spec fn json_word_table(text: Seq<char>) -> Option<Seq<(Seq<char>, Seq<Seq<char>>)>>;

#[verifier::external_type_specification]
#[verifier::external_body]
pub struct ExJsonError(serde_json::Error);

/// Relies on `serde_json::from_str`, decoding into a `BTreeMap<String, Vec<String>>`:
/// an object whose values are arrays of strings, entries in key order; an
/// error for any other text.
#[verifier::external_body]
fn decode_word_table(text: &str) -> (r: Result<Vec<(String, Vec<String>)>, serde_json::Error>)
    ensures
        r is Ok <==> json_word_table(text@) is Some,
        r matches Ok(v) ==> v.deep_view() == json_word_table(text@)->0,
{
    match serde_json::from_str::<std::collections::BTreeMap<String, Vec<String>>>(text) {
        Ok(m) => Ok(m.into_iter().collect()),
        Err(e) => Err(e),
    }
}

/// Why a dictionary could not serve a batch.
#[derive(Debug, Clone, Copy, PartialEq, Eq, Structural)]
pub enum DictionaryError {
    /// The dictionary text is not an object of word lists.
    Malformed,
    /// No words of this length are configured.
    NoWords(usize),
}

/// The words under `key` in `entries`: those of the first entry with that key,
/// none if no entry has it.
pub open spec fn bucket_in(entries: Seq<(Seq<char>, Seq<Seq<char>>)>, key: Seq<char>) -> Seq<Seq<char>>
    decreases entries.len(),
{
    if entries.len() == 0 {
        Seq::empty()
    } else if entries[0].0 == key {
        entries[0].1
    } else {
        bucket_in(entries.drop_first(), key)
    }
}

/// Word lists keyed by the decimal numeral of their word length, as the
/// bundled word table stores them. Read-only once built.
#[derive(Debug, Clone)]
pub struct Dictionary {
    entries: Vec<(String, Vec<String>)>,
}

impl View for Dictionary {
    type V = Seq<(Seq<char>, Seq<Seq<char>>)>;

    closed spec fn view(&self) -> Self::V {
        self.entries.deep_view()
    }
}

impl Dictionary {
    /// The words of length `len`: the list stored under the numeral of `len`.
    pub open spec fn bucket(&self, len: nat) -> Seq<Seq<char>> {
        bucket_in(self@, decimal(len))
    }

    /// A dictionary without words.
    pub fn new() -> (r: Dictionary)
        ensures
            r@ == Seq::<(Seq<char>, Seq<Seq<char>>)>::empty(),
            forall|len: nat| r.bucket(len).len() == 0,
    {
        let r = Dictionary { entries: Vec::new() };
        assert(r@ =~= Seq::<(Seq<char>, Seq<Seq<char>>)>::empty());
        r
    }

    /// Builds a dictionary from a JSON object that maps numerals of word
    /// lengths to arrays of words, such as `{"3": ["cat"], "4": ["frog"]}`.
    pub fn from_json(text: &str) -> (r: Result<Dictionary, DictionaryError>)
        ensures
            json_word_table(text@) is None ==> r == Err::<Dictionary, DictionaryError>(DictionaryError::Malformed),
            json_word_table(text@) matches Some(t) ==> (r matches Ok(d) && d@ == t),
    {
        match decode_word_table(text) {
            Ok(entries) => Ok(Dictionary { entries }),
            Err(_) => Err(DictionaryError::Malformed),
        }
    }

    /// Sets the words of length `length`, replacing any list stored for it.
    pub fn insert(&mut self, length: usize, words: Vec<String>)
        ensures
            final(self)@ == seq![(decimal(length as nat), words.deep_view())] + old(self)@,
            final(self).bucket(length as nat) == words.deep_view(),
            forall|len: nat| len != length ==> final(self).bucket(len) == old(self).bucket(len),
    {
        let key = decimal_string(length);
        let ghost old_view = self@;
        self.entries.insert(0, (key, words));
        assert(self@ =~= seq![(decimal(length as nat), words.deep_view())] + old_view);
        assert forall|len: nat| len != length implies self.bucket(len) == bucket_in(old_view, decimal(len)) by {
            lemma_decimal_injective(len, length as nat);
            assert(self@.drop_first() =~= old_view);
        }
    }

    /// The words of length `length`; an error where there are none.
    pub fn lookup(&self, length: usize) -> (r: Result<&Vec<String>, DictionaryError>)
        ensures
            r is Ok <==> self.bucket(length as nat).len() > 0,
            r matches Ok(v) ==> v.deep_view() == self.bucket(length as nat),
            r is Err ==> r == Err::<&Vec<String>, DictionaryError>(DictionaryError::NoWords(length)),
    {
        let key = decimal_string(length);
        let n = self.entries.len();
        let mut i: usize = 0;
        assert(self@.skip(0) =~= self@);
        while i < n
            invariant
                n == self.entries.len(),
                i <= n,
                key@ == decimal(length as nat),
                self.bucket(length as nat) == bucket_in(self@.skip(i as int), key@),
            decreases n - i,
        {
            let ghost rest = self@.skip(i as int);
            assert(rest[0] == self@[i as int]);
            assert(rest.drop_first() =~= self@.skip(i + 1));
            if self.entries[i].0 == key {
                if self.entries[i].1.len() == 0 {
                    return Err(DictionaryError::NoWords(length));
                }
                return Ok(&self.entries[i].1);
            }
            i = i + 1;
        }
        Err(DictionaryError::NoWords(length))
    }
}

/// Distinct numbers have distinct numerals.
proof fn lemma_decimal_injective(a: nat, b: nat)
    ensures
        decimal(a) == decimal(b) ==> a == b,
    decreases a + b,
{
    lemma_decimal_len(a);
    lemma_decimal_len(b);
    if decimal(a) == decimal(b) {
        if a >= 10 && b >= 10 {
            assert(decimal(a).drop_last() =~= decimal(a / 10));
            assert(decimal(b).drop_last() =~= decimal(b / 10));
            lemma_decimal_injective(a / 10, b / 10);
            assert(decimal(a).last() == decimal(b).last());
        } else if a < 10 && b < 10 {
            assert(decimal(a)[0] == decimal(b)[0]);
        } else {
            assert(decimal(a).len() != decimal(b).len());
        }
    }
}

/// A numeral has one digit exactly for numbers below ten.
proof fn lemma_decimal_len(n: nat)
    ensures
        decimal(n).len() >= 1,
        n < 10 <==> decimal(n).len() == 1,
    decreases n,
{
    if n >= 10 {
        lemma_decimal_len(n / 10);
    }
}

} // verus!
