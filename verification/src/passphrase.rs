//! Passphrases: words drawn from a word list, with repeats allowed, and
//! joined by a separator.

use crate::error::ConfigurationError;
use crate::random::{draw_picks, picks_in_range};
use crate::alphabet::is_lowercase;
use crate::words::{builtin_words, is_word, is_word_list, WordList};
use rand::rngs::StdRng;
use vstd::prelude::*;

verus! {

/// The words of `list` that `picks` selects, in the order of the picks.
pub open spec fn chosen_words(list: Seq<Seq<char>>, picks: Seq<usize>) -> Seq<Seq<char>> {
    Seq::new(picks.len(), |i: int| list[picks[i] as int])
}

/// `words` written one after the other with `separator` between each two.
pub open spec fn join_words(words: Seq<Seq<char>>, separator: Seq<char>) -> Seq<char>
    decreases words.len(),
{
    if words.len() == 0 {
        Seq::empty()
    } else if words.len() == 1 {
        words[0]
    } else {
        join_words(words.drop_last(), separator) + separator + words.last()
    }
}

/// The passphrase that `picks` selects from `list`.
pub open spec fn passphrase_of(list: Seq<Seq<char>>, picks: Seq<usize>, separator: Seq<char>) -> Seq<
    char,
> {
    join_words(chosen_words(list, picks), separator)
}

/// Whether `secret` is `word_count` words of `list` joined by `separator`.
pub open spec fn is_passphrase_over(
    secret: Seq<char>,
    list: Seq<Seq<char>>,
    word_count: nat,
    separator: Seq<char>,
) -> bool {
    exists|picks: Seq<usize>|
        {
            &&& picks.len() == word_count
            &&& picks_in_range(picks, list.len())
            &&& secret == #[trigger] passphrase_of(list, picks, separator)
        }
}

/// How often `c` occurs in `s`.
pub open spec fn occurrences(s: Seq<char>, c: char) -> nat
    decreases s.len(),
{
    if s.len() == 0 {
        0
    } else {
        occurrences(s.drop_last(), c) + if s.last() == c {
            1nat
        } else {
            0nat
        }
    }
}

/// Occurrences add up over concatenation.
proof fn lemma_occurrences_concat(a: Seq<char>, b: Seq<char>, c: char)
    ensures
        occurrences(a + b, c) == occurrences(a, c) + occurrences(b, c),
    decreases b.len(),
{
    if b.len() == 0 {
        assert(a + b == a);
    } else {
        assert((a + b).drop_last() == a + b.drop_last());
        assert((a + b).last() == b.last());
        lemma_occurrences_concat(a, b.drop_last(), c);
    }
}

/// A word holds no space.
proof fn lemma_word_has_no_space(w: Seq<char>)
    requires
        forall|i: int| 0 <= i < w.len() ==> is_lowercase(#[trigger] w[i]),
    ensures
        occurrences(w, ' ') == 0,
    decreases w.len(),
{
    if w.len() > 0 {
        assert(is_lowercase(w[w.len() - 1]));
        assert forall|i: int| 0 <= i < w.drop_last().len() implies is_lowercase(
            #[trigger] w.drop_last()[i],
        ) by {
            assert(w.drop_last()[i] == w[i]);
        }
        lemma_word_has_no_space(w.drop_last());
    }
}

/// The shape of words joined by single spaces: one space fewer than there
/// are words, and lowercase letters everywhere else.
proof fn lemma_join_shape(words: Seq<Seq<char>>)
    requires
        words.len() > 0,
        forall|i: int| 0 <= i < words.len() ==> is_word(#[trigger] words[i]),
    ensures
        occurrences(join_words(words, seq![' ']), ' ') == words.len() - 1,
        forall|i: int|
            0 <= i < join_words(words, seq![' ']).len() ==> {
                let c = #[trigger] join_words(words, seq![' '])[i];
                c == ' ' || is_lowercase(c)
            },
        join_words(words, seq![' ']).len() > 0,
    decreases words.len(),
{
    let space = seq![' '];
    assert(is_word(words[words.len() - 1]));
    lemma_word_has_no_space(words.last());
    if words.len() > 1 {
        let front = words.drop_last();
        assert forall|i: int| 0 <= i < front.len() implies is_word(#[trigger] front[i]) by {
            assert(front[i] == words[i]);
        }
        lemma_join_shape(front);
        let head = join_words(front, space);
        lemma_occurrences_concat(head, space, ' ');
        lemma_occurrences_concat(head + space, words.last(), ' ');
        assert(occurrences(space, ' ') == 1) by {
            assert(space.drop_last() =~= Seq::<char>::empty());
            assert(occurrences(space.drop_last(), ' ') == 0);
        }
        let whole = join_words(words, space);
        assert(whole == head + space + words.last());
        assert forall|i: int| 0 <= i < whole.len() implies {
            let c = #[trigger] whole[i];
            c == ' ' || is_lowercase(c)
        } by {
            if i < head.len() {
                assert(whole[i] == head[i]);
            } else if i == head.len() {
                assert(whole[i] == ' ');
            } else {
                assert(whole[i] == words.last()[i - head.len() - 1]);
            }
        }
    }
}

/// A passphrase of `n` words of a word list, joined by single spaces, holds
/// exactly `n - 1` spaces and nothing else but lowercase letters. Cut at its
/// spaces it therefore falls into exactly `n` pieces.
pub proof fn lemma_passphrase_shape(list: Seq<Seq<char>>, picks: Seq<usize>)
    requires
        is_word_list(list),
        picks_in_range(picks, list.len()),
        picks.len() > 0,
    ensures
        occurrences(passphrase_of(list, picks, " "@), ' ') == picks.len() - 1,
        forall|i: int|
            0 <= i < passphrase_of(list, picks, " "@).len() ==> {
                let c = #[trigger] passphrase_of(list, picks, " "@)[i];
                c == ' ' || is_lowercase(c)
            },
{
    reveal_strlit(" ");
    assert(" "@ =~= seq![' ']);
    let words = chosen_words(list, picks);
    assert forall|i: int| 0 <= i < words.len() implies is_word(#[trigger] words[i]) by {
        assert(words[i] == list[picks[i] as int]);
    }
    lemma_join_shape(words);
}

/// Writes out the passphrase that `picks` selects from `list`.
///
/// This is the whole of generation but for the drawing: the same list, the
/// same picks and the same separator always give the same passphrase.
pub fn passphrase_from_picks(list: &WordList, picks: &Vec<usize>, separator: &str) -> (secret:
    String)
    requires
        picks_in_range(picks@, list@.len()),
    ensures
        secret@ == passphrase_of(list@, picks@, separator@),
{
    let mut secret = String::new();
    let mut i: usize = 0;
    while i < picks.len()
        invariant
            i <= picks@.len(),
            picks_in_range(picks@, list@.len()),
            secret@ == passphrase_of(list@, picks@.take(i as int), separator@),
        decreases picks@.len() - i,
    {
        let ghost before = chosen_words(list@, picks@.take(i as int));
        let ghost after = chosen_words(list@, picks@.take(i + 1));
        proof {
            assert(after.drop_last() == before);
            assert(after.last() == list@[picks@[i as int] as int]);
        }
        if i > 0 {
            secret.append(separator);
        }
        secret.append(list.word(picks[i]));
        i += 1;
    }
    assert(picks@.take(i as int) == picks@);
    secret
}

/// Generates a passphrase of `word_count` words, each drawn independently
/// from `list` with `rng`, joined by `separator`.
///
/// A zero word count is refused before anything is drawn.
pub fn generate_passphrase(
    list: &WordList,
    word_count: usize,
    separator: &str,
    rng: &mut StdRng,
) -> (r: Result<String, ConfigurationError>)
    ensures
        word_count == 0 ==> r == Err::<String, ConfigurationError>(
            ConfigurationError::InvalidWordCount,
        ),
        word_count > 0 ==> r is Ok,
        r matches Ok(secret) ==> is_passphrase_over(
            secret@,
            list@,
            word_count as nat,
            separator@,
        ),
        r is Err ==> *final(rng) == *old(rng),
{
    if word_count == 0 {
        return Err(ConfigurationError::InvalidWordCount);
    }
    let picks = draw_picks(rng, list.len(), word_count);
    Ok(passphrase_from_picks(list, &picks, separator))
}

/// Generates a passphrase of `num_words` words of the built-in vocabulary,
/// with a single space between each two.
pub fn create_passphrase(num_words: usize, rng: &mut StdRng) -> (r: Result<
    String,
    ConfigurationError,
>)
    ensures
        num_words == 0 ==> r == Err::<String, ConfigurationError>(
            ConfigurationError::InvalidWordCount,
        ),
        num_words > 0 ==> r is Ok,
        r matches Ok(secret) ==> is_passphrase_over(
            secret@,
            builtin_words(),
            num_words as nat,
            " "@,
        ),
        r is Err ==> *final(rng) == *old(rng),
{
    let list = WordList::builtin();
    generate_passphrase(&list, num_words, " ", rng)
}

} // verus!
