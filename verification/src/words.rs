//! The vocabulary that passphrases are made of.

use crate::alphabet::is_lowercase;
use vstd::prelude::*;

verus! {

/// Whether `w` is a word: at least one character, lowercase ASCII letters only.
pub open spec fn is_word(w: Seq<char>) -> bool {
    &&& w.len() > 0
    &&& forall|i: int| 0 <= i < w.len() ==> is_lowercase(#[trigger] w[i])
}

/// Whether `list` is fit to draw from: at least one entry, words only.
pub open spec fn is_word_list(list: Seq<Seq<char>>) -> bool {
    &&& list.len() > 0
    &&& forall|i: int| 0 <= i < list.len() ==> is_word(#[trigger] list[i])
}

/// The vocabulary that ships with the library: sixty-four common English
/// nouns and adjectives, in alphabetical order.
///
/// It is small and public. A passphrase drawn from it is easy to remember,
/// and far easier to guess than one drawn from a large word list.
pub open spec fn builtin_words() -> Seq<Seq<char>> {
    seq![
        "able"@, "acid"@, "amber"@, "apple"@, "arrow"@, "autumn"@,
        "badge"@, "bamboo"@, "beach"@, "berry"@, "birch"@, "bloom"@,
        "brave"@, "breeze"@, "brick"@, "bridge"@, "cabin"@, "candle"@,
        "canyon"@, "cedar"@, "chalk"@, "cherry"@, "cliff"@, "cloud"@,
        "clover"@, "coast"@, "coral"@, "cotton"@, "crane"@, "creek"@,
        "daisy"@, "dawn"@, "delta"@, "desert"@, "dune"@, "eagle"@,
        "ember"@, "falcon"@, "fern"@, "field"@, "flame"@, "forest"@,
        "frost"@, "garden"@, "glacier"@, "harbor"@, "hazel"@, "heron"@,
        "island"@, "ivory"@, "jungle"@, "lagoon"@, "lantern"@, "maple"@,
        "meadow"@, "mirror"@, "orchid"@, "pebble"@, "planet"@, "river"@,
        "saddle"@, "timber"@, "valley"@, "willow"@,
    ]
}

/// The built-in vocabulary has sixty-four entries, and each is a word.
pub proof fn lemma_builtin_words()
    ensures
        builtin_words().len() == 64,
        is_word_list(builtin_words()),
{
    reveal_builtin_literals();
}

/// Makes the length and the characters of each built-in word known.
proof fn reveal_builtin_literals()
    ensures
        builtin_words().len() == 64,
        forall|i: int| 0 <= i < 64 ==> is_word(#[trigger] builtin_words()[i]),
{
    reveal_strlit("able");
    reveal_strlit("acid");
    reveal_strlit("amber");
    reveal_strlit("apple");
    reveal_strlit("arrow");
    reveal_strlit("autumn");
    reveal_strlit("badge");
    reveal_strlit("bamboo");
    reveal_strlit("beach");
    reveal_strlit("berry");
    reveal_strlit("birch");
    reveal_strlit("bloom");
    reveal_strlit("brave");
    reveal_strlit("breeze");
    reveal_strlit("brick");
    reveal_strlit("bridge");
    reveal_strlit("cabin");
    reveal_strlit("candle");
    reveal_strlit("canyon");
    reveal_strlit("cedar");
    reveal_strlit("chalk");
    reveal_strlit("cherry");
    reveal_strlit("cliff");
    reveal_strlit("cloud");
    reveal_strlit("clover");
    reveal_strlit("coast");
    reveal_strlit("coral");
    reveal_strlit("cotton");
    reveal_strlit("crane");
    reveal_strlit("creek");
    reveal_strlit("daisy");
    reveal_strlit("dawn");
    reveal_strlit("delta");
    reveal_strlit("desert");
    reveal_strlit("dune");
    reveal_strlit("eagle");
    reveal_strlit("ember");
    reveal_strlit("falcon");
    reveal_strlit("fern");
    reveal_strlit("field");
    reveal_strlit("flame");
    reveal_strlit("forest");
    reveal_strlit("frost");
    reveal_strlit("garden");
    reveal_strlit("glacier");
    reveal_strlit("harbor");
    reveal_strlit("hazel");
    reveal_strlit("heron");
    reveal_strlit("island");
    reveal_strlit("ivory");
    reveal_strlit("jungle");
    reveal_strlit("lagoon");
    reveal_strlit("lantern");
    reveal_strlit("maple");
    reveal_strlit("meadow");
    reveal_strlit("mirror");
    reveal_strlit("orchid");
    reveal_strlit("pebble");
    reveal_strlit("planet");
    reveal_strlit("river");
    reveal_strlit("saddle");
    reveal_strlit("timber");
    reveal_strlit("valley");
    reveal_strlit("willow");
}

/// An ordered, non-empty list of words. It never changes once it is made.
pub struct WordList {
    words: Vec<String>,
}

impl View for WordList {
    type V = Seq<Seq<char>>;

    closed spec fn view(&self) -> Seq<Seq<char>> {
        self.words.deep_view()
    }
}

/// Appends `word` to `words`.
fn push_word(words: &mut Vec<String>, word: &str)
    ensures
        final(words).deep_view() == old(words).deep_view().push(word@),
{
    words.push(String::from_str(word));
    assert(words.deep_view() =~= old(words).deep_view().push(word@));
}

/// Whether `candidate` is a word.
fn check_word(candidate: &str) -> (ok: bool)
    ensures
        ok == is_word(candidate@),
{
    let n: usize = candidate.unicode_len();
    if n == 0 {
        return false;
    }
    let mut i: usize = 0;
    while i < n
        invariant
            n == candidate@.len(),
            i <= n,
            forall|k: int| 0 <= k < i ==> is_lowercase(#[trigger] candidate@[k]),
        decreases n - i,
    {
        let c: char = candidate.get_char(i);
        if !('a' <= c && c <= 'z') {
            return false;
        }
        i += 1;
    }
    true
}

impl WordList {
    #[verifier::type_invariant]
    spec fn well_formed(&self) -> bool {
        is_word_list(self.words.deep_view())
    }

    /// The built-in vocabulary.
    pub fn builtin() -> (list: WordList)
        ensures
            list@ == builtin_words(),
    {
        let mut words: Vec<String> = Vec::new();
        push_word(&mut words, "able");
        push_word(&mut words, "acid");
        push_word(&mut words, "amber");
        push_word(&mut words, "apple");
        push_word(&mut words, "arrow");
        push_word(&mut words, "autumn");
        push_word(&mut words, "badge");
        push_word(&mut words, "bamboo");
        push_word(&mut words, "beach");
        push_word(&mut words, "berry");
        push_word(&mut words, "birch");
        push_word(&mut words, "bloom");
        push_word(&mut words, "brave");
        push_word(&mut words, "breeze");
        push_word(&mut words, "brick");
        push_word(&mut words, "bridge");
        push_word(&mut words, "cabin");
        push_word(&mut words, "candle");
        push_word(&mut words, "canyon");
        push_word(&mut words, "cedar");
        push_word(&mut words, "chalk");
        push_word(&mut words, "cherry");
        push_word(&mut words, "cliff");
        push_word(&mut words, "cloud");
        push_word(&mut words, "clover");
        push_word(&mut words, "coast");
        push_word(&mut words, "coral");
        push_word(&mut words, "cotton");
        push_word(&mut words, "crane");
        push_word(&mut words, "creek");
        push_word(&mut words, "daisy");
        push_word(&mut words, "dawn");
        push_word(&mut words, "delta");
        push_word(&mut words, "desert");
        push_word(&mut words, "dune");
        push_word(&mut words, "eagle");
        push_word(&mut words, "ember");
        push_word(&mut words, "falcon");
        push_word(&mut words, "fern");
        push_word(&mut words, "field");
        push_word(&mut words, "flame");
        push_word(&mut words, "forest");
        push_word(&mut words, "frost");
        push_word(&mut words, "garden");
        push_word(&mut words, "glacier");
        push_word(&mut words, "harbor");
        push_word(&mut words, "hazel");
        push_word(&mut words, "heron");
        push_word(&mut words, "island");
        push_word(&mut words, "ivory");
        push_word(&mut words, "jungle");
        push_word(&mut words, "lagoon");
        push_word(&mut words, "lantern");
        push_word(&mut words, "maple");
        push_word(&mut words, "meadow");
        push_word(&mut words, "mirror");
        push_word(&mut words, "orchid");
        push_word(&mut words, "pebble");
        push_word(&mut words, "planet");
        push_word(&mut words, "river");
        push_word(&mut words, "saddle");
        push_word(&mut words, "timber");
        push_word(&mut words, "valley");
        push_word(&mut words, "willow");
        proof {
            lemma_builtin_words();
            assert(words.deep_view() =~= builtin_words());
        }
        WordList { words }
    }

    /// Makes a list of the caller's own words, in the order given. An empty
    /// list, or an entry that is not a word, gives `None`.
    pub fn from_words(words: Vec<String>) -> (r: Option<WordList>)
        ensures
            is_word_list(words.deep_view()) ==> r is Some,
            r matches Some(list) ==> is_word_list(words.deep_view()) && list@ == words.deep_view(),
    {
        if words.len() == 0 {
            return None;
        }
        let mut i: usize = 0;
        while i < words.len()
            invariant
                i <= words@.len(),
                forall|k: int| 0 <= k < i ==> is_word(#[trigger] words.deep_view()[k]),
            decreases words@.len() - i,
        {
            if !check_word(words[i].as_str()) {
                assert(!is_word(words.deep_view()[i as int]));
                return None;
            }
            i += 1;
        }
        Some(WordList { words })
    }

    /// The number of words, which is never zero.
    pub fn len(&self) -> (n: usize)
        ensures
            n == self@.len(),
            n > 0,
    {
        proof {
            use_type_invariant(self);
        }
        self.words.len()
    }

    /// The word at `index`.
    pub fn word(&self, index: usize) -> (w: &str)
        requires
            index < self@.len(),
        ensures
            w@ == self@[index as int],
            is_word(w@),
    {
        proof {
            use_type_invariant(self);
        }
        self.words[index].as_str()
    }

    /// Whether `candidate` is one of the words.
    pub fn contains(&self, candidate: &str) -> (found: bool)
        ensures
            found == self@.contains(candidate@),
    {
        let wanted = String::from_str(candidate);
        let mut i: usize = 0;
        while i < self.words.len()
            invariant
                i <= self@.len(),
                wanted@ == candidate@,
                forall|k: int| 0 <= k < i ==> self@[k] != candidate@,
            decreases self@.len() - i,
        {
            if self.words[i] == wanted {
                assert(self@[i as int] == candidate@);
                return true;
            }
            i += 1;
        }
        false
    }
}

} // verus!
