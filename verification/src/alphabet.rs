//! The characters a password is drawn from.
//!
//! An alphabet is the concatenation of up to four character classes, always in
//! the order digits, lowercase letters, uppercase letters, symbols. Each class
//! is pinned as a literal; the lemmas below tie every literal to the code-point
//! ranges it is meant to cover.

use crate::error::ConfigurationError;
use vstd::prelude::*;
use vstd::seq_lib::lemma_no_dup_in_concat;

verus! {

/// Which character classes a password may use.
#[derive(Clone, Copy, Debug, PartialEq, Eq, Structural)]
pub struct CharClasses {
    pub digits: bool,
    pub lowercase: bool,
    pub uppercase: bool,
    pub symbols: bool,
}

/// The ten decimal digits, in ascending order.
pub open spec fn digit_chars() -> Seq<char> {
    "0123456789"@
}

/// The twenty-six lowercase letters, in ascending order.
pub open spec fn lowercase_chars() -> Seq<char> {
    "abcdefghijklmnopqrstuvwxyz"@
}

/// The twenty-six uppercase letters, in ascending order.
pub open spec fn uppercase_chars() -> Seq<char> {
    "ABCDEFGHIJKLMNOPQRSTUVWXYZ"@
}

/// The thirty-two printable ASCII characters that are neither letters, digits
/// nor the space, in ascending order.
pub open spec fn symbol_chars() -> Seq<char> {
    "!\"#$%&'()*+,-./:;<=>?@[\\]^_`{|}~"@
}

pub open spec fn is_digit(c: char) -> bool {
    '0' <= c <= '9'
}

pub open spec fn is_lowercase(c: char) -> bool {
    'a' <= c <= 'z'
}

pub open spec fn is_uppercase(c: char) -> bool {
    'A' <= c <= 'Z'
}

pub open spec fn is_symbol(c: char) -> bool {
    ||| '!' <= c <= '/'
    ||| ':' <= c <= '@'
    ||| '[' <= c <= '`'
    ||| '{' <= c <= '~'
}

/// The code point of the symbol at position `i` of `symbol_chars()`: the four
/// punctuation blocks of ASCII, one after the other.
pub open spec fn symbol_code(i: int) -> int {
    if i < 15 {
        0x21 + i
    } else if i < 22 {
        0x3a + (i - 15)
    } else if i < 28 {
        0x5b + (i - 22)
    } else {
        0x7b + (i - 28)
    }
}

/// `class` if it is enabled, nothing otherwise.
pub open spec fn enabled(on: bool, class: Seq<char>) -> Seq<char> {
    if on {
        class
    } else {
        Seq::empty()
    }
}

impl CharClasses {
    /// Whether at least one class is enabled.
    pub open spec fn any(self) -> bool {
        self.digits || self.lowercase || self.uppercase || self.symbols
    }

    /// Whether `c` belongs to one of the enabled classes.
    pub open spec fn admits(self, c: char) -> bool {
        ||| self.digits && is_digit(c)
        ||| self.lowercase && is_lowercase(c)
        ||| self.uppercase && is_uppercase(c)
        ||| self.symbols && is_symbol(c)
    }

    /// How many characters the enabled classes hold together.
    pub open spec fn size(self) -> nat {
        ((if self.digits { 10int } else { 0 })
            + (if self.lowercase { 26int } else { 0 })
            + (if self.uppercase { 26int } else { 0 })
            + (if self.symbols { 32int } else { 0 })) as nat
    }
}

/// The alphabet that `flags` selects.
pub open spec fn alphabet_of(flags: CharClasses) -> Seq<char> {
    enabled(flags.digits, digit_chars()) + enabled(flags.lowercase, lowercase_chars())
        + enabled(flags.uppercase, uppercase_chars()) + enabled(flags.symbols, symbol_chars())
}

/// The digit literal is `'0'..='9'`, position by position.
pub proof fn lemma_digit_chars()
    ensures
        digit_chars().len() == 10,
        forall|i: int| 0 <= i < 10 ==> (#[trigger] digit_chars()[i]) as int == 0x30 + i,
        forall|c: char| digit_chars().contains(c) <==> is_digit(c),
{
    reveal_strlit("0123456789");
    assert forall|c: char| is_digit(c) implies digit_chars().contains(c) by {
        assert(digit_chars()[c as int - 0x30] == c);
    }
}

/// The lowercase literal is `'a'..='z'`, position by position.
pub proof fn lemma_lowercase_chars()
    ensures
        lowercase_chars().len() == 26,
        forall|i: int| 0 <= i < 26 ==> (#[trigger] lowercase_chars()[i]) as int == 0x61 + i,
        forall|c: char| lowercase_chars().contains(c) <==> is_lowercase(c),
{
    reveal_strlit("abcdefghijklmnopqrstuvwxyz");
    assert forall|c: char| is_lowercase(c) implies lowercase_chars().contains(c) by {
        assert(lowercase_chars()[c as int - 0x61] == c);
    }
}

/// The uppercase literal is `'A'..='Z'`, position by position.
pub proof fn lemma_uppercase_chars()
    ensures
        uppercase_chars().len() == 26,
        forall|i: int| 0 <= i < 26 ==> (#[trigger] uppercase_chars()[i]) as int == 0x41 + i,
        forall|c: char| uppercase_chars().contains(c) <==> is_uppercase(c),
{
    reveal_strlit("ABCDEFGHIJKLMNOPQRSTUVWXYZ");
    assert forall|c: char| is_uppercase(c) implies uppercase_chars().contains(c) by {
        assert(uppercase_chars()[c as int - 0x41] == c);
    }
}

/// The symbol literal is the four punctuation blocks of ASCII, position by
/// position, with nothing left out and nothing added.
pub proof fn lemma_symbol_chars()
    ensures
        symbol_chars().len() == 32,
        forall|i: int| 0 <= i < 32 ==> (#[trigger] symbol_chars()[i]) as int == symbol_code(i),
        forall|c: char| symbol_chars().contains(c) <==> is_symbol(c),
{
    reveal_strlit("!\"#$%&'()*+,-./:;<=>?@[\\]^_`{|}~");
    assert forall|c: char| is_symbol(c) implies symbol_chars().contains(c) by {
        let code = c as int;
        let k = if code <= 0x2f {
            code - 0x21
        } else if code <= 0x40 {
            code - 0x3a + 15
        } else if code <= 0x60 {
            code - 0x5b + 22
        } else {
            code - 0x7b + 28
        };
        assert(symbol_chars()[k] == c);
    }
}

/// A sequence whose code points rise from each position to the next holds no
/// character twice.
proof fn lemma_rising_has_no_duplicates(class: Seq<char>, code: spec_fn(int) -> int)
    requires
        forall|i: int| 0 <= i < class.len() ==> (#[trigger] class[i]) as int == code(i),
        forall|i: int, j: int| 0 <= i < j < class.len() ==> #[trigger] code(i) < #[trigger] code(j),
    ensures
        class.no_duplicates(),
{
    assert forall|i: int, j: int|
        0 <= i < class.len() && 0 <= j < class.len() && i != j implies class[i] != class[j] by {
        if i < j {
            assert(code(i) < code(j));
        } else {
            assert(code(j) < code(i));
        }
    }
}

/// Two sequences without duplicates and without a common character, put
/// together: no duplicates, and the characters of both.
proof fn lemma_join_classes(a: Seq<char>, b: Seq<char>)
    requires
        a.no_duplicates(),
        b.no_duplicates(),
        forall|c: char| !(a.contains(c) && b.contains(c)),
    ensures
        (a + b).no_duplicates(),
        (a + b).len() == a.len() + b.len(),
        forall|c: char| (a + b).contains(c) <==> a.contains(c) || b.contains(c),
{
    assert forall|i: int, j: int| 0 <= i < a.len() && 0 <= j < b.len() implies a[i] != b[j] by {
        assert(a.contains(a[i]) && b.contains(b[j]));
    }
    lemma_no_dup_in_concat(a, b);
    assert forall|c: char| (a + b).contains(c) <==> a.contains(c) || b.contains(c) by {
        if (a + b).contains(c) {
            let i = choose|i: int| 0 <= i < (a + b).len() && (a + b)[i] == c;
            if i < a.len() {
                assert(a[i] == c);
            } else {
                assert(b[i - a.len()] == c);
            }
        }
        if a.contains(c) {
            let i = choose|i: int| 0 <= i < a.len() && a[i] == c;
            assert((a + b)[i] == c);
        }
        if b.contains(c) {
            let i = choose|i: int| 0 <= i < b.len() && b[i] == c;
            assert((a + b)[a.len() + i] == c);
        }
    }
}

/// What every selection of classes gives: as many characters as the enabled
/// classes hold together, none of them twice, and exactly the characters of
/// the enabled classes.
pub proof fn lemma_alphabet_of(flags: CharClasses)
    ensures
        alphabet_of(flags).len() == flags.size(),
        flags.any() <==> alphabet_of(flags).len() > 0,
        alphabet_of(flags).no_duplicates(),
        forall|c: char| alphabet_of(flags).contains(c) <==> flags.admits(c),
{
    lemma_digit_chars();
    lemma_lowercase_chars();
    lemma_uppercase_chars();
    lemma_symbol_chars();
    lemma_rising_has_no_duplicates(digit_chars(), |i: int| 0x30 + i);
    lemma_rising_has_no_duplicates(lowercase_chars(), |i: int| 0x61 + i);
    lemma_rising_has_no_duplicates(uppercase_chars(), |i: int| 0x41 + i);
    lemma_rising_has_no_duplicates(symbol_chars(), |i: int| symbol_code(i));
    let d = enabled(flags.digits, digit_chars());
    let l = enabled(flags.lowercase, lowercase_chars());
    let u = enabled(flags.uppercase, uppercase_chars());
    let s = enabled(flags.symbols, symbol_chars());
    lemma_join_classes(d, l);
    lemma_join_classes(d + l, u);
    lemma_join_classes(d + l + u, s);
}

/// An ordered sequence of characters to draw a password from.
///
/// `build_alphabet` is the way to make one from character classes. A sequence
/// put together by hand is accepted as well, and is refused by the generator
/// if it is empty.
#[derive(Debug)]
pub struct Alphabet {
    pub chars: Vec<char>,
}

impl View for Alphabet {
    type V = Seq<char>;

    open spec fn view(&self) -> Seq<char> {
        self.chars@
    }
}

impl Alphabet {
    /// The number of characters.
    pub fn len(&self) -> (n: usize)
        ensures
            n == self@.len(),
    {
        self.chars.len()
    }

    /// The character at `index`, if there is one.
    pub fn char_at(&self, index: usize) -> (c: Option<char>)
        ensures
            index < self@.len() ==> c == Some(self@[index as int]),
            index >= self@.len() ==> c is None,
    {
        if index < self.chars.len() {
            Some(self.chars[index])
        } else {
            None
        }
    }
}

/// Appends the characters of `class`, in order, to `chars`.
fn append_chars(chars: &mut Vec<char>, class: &str)
    ensures
        final(chars)@ == old(chars)@ + class@,
{
    let n: usize = class.unicode_len();
    let mut i: usize = 0;
    while i < n
        invariant
            n == class@.len(),
            i <= n,
            chars@ == old(chars)@ + class@.take(i as int),
        decreases n - i,
    {
        chars.push(class.get_char(i));
        i += 1;
    }
}

/// Builds the alphabet for `flags`: the enabled classes one after the other,
/// in the order digits, lowercase, uppercase, symbols.
///
/// With no class enabled there is nothing to build, and the request is refused.
pub fn build_alphabet(flags: CharClasses) -> (r: Result<Alphabet, ConfigurationError>)
    ensures
        !flags.any() ==> r == Err::<Alphabet, ConfigurationError>(
            ConfigurationError::EmptyAlphabet,
        ),
        flags.any() ==> r is Ok,
        r matches Ok(alphabet) ==> {
            &&& alphabet@ == alphabet_of(flags)
            &&& alphabet@.len() == flags.size()
            &&& alphabet@.len() > 0
            &&& alphabet@.no_duplicates()
            &&& forall|c: char| alphabet@.contains(c) <==> flags.admits(c)
        },
{
    if !(flags.digits || flags.lowercase || flags.uppercase || flags.symbols) {
        return Err(ConfigurationError::EmptyAlphabet);
    }
    let mut chars: Vec<char> = Vec::new();
    if flags.digits {
        append_chars(&mut chars, "0123456789");
    }
    if flags.lowercase {
        append_chars(&mut chars, "abcdefghijklmnopqrstuvwxyz");
    }
    if flags.uppercase {
        append_chars(&mut chars, "ABCDEFGHIJKLMNOPQRSTUVWXYZ");
    }
    if flags.symbols {
        append_chars(&mut chars, "!\"#$%&'()*+,-./:;<=>?@[\\]^_`{|}~");
    }
    proof {
        lemma_alphabet_of(flags);
    }
    Ok(Alphabet { chars })
}

} // verus!
