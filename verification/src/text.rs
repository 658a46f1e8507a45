//! Text as a sequence of characters.

use vstd::prelude::*;
use vstd::string::*;
use vstd::std_specs::iter::IteratorSpec;

verus! {

/// The characters of a text, in order.
pub fn characters(text: &str) -> (chars: Vec<char>)
    ensures
        chars@ == text@,
{
    let mut chars: Vec<char> = Vec::new();
    for c in it: text.chars()
        invariant
            it.seq() == text@,
            chars@ == it.seq().take(it.index() as int),
    {
        chars.push(c);
    }
    chars
}

/// Whether `word` is the text `literal`, character by character.
pub fn is_text(word: &Vec<char>, literal: &str) -> (same: bool)
    ensures
        same == (word@ == literal@),
{
    let n = literal.unicode_len();
    if word.len() != n {
        return false;
    }
    let mut i: usize = 0;
    while i < n
        invariant
            i <= n,
            n == word@.len(),
            n == literal@.len(),
            forall|j: int| 0 <= j < i ==> word@[j] == literal@[j],
        decreases n - i,
    {
        if word[i] != literal.get_char(i) {
            return false;
        }
        i = i + 1;
    }
    assert(word@ =~= literal@);
    true
}

} // verus!
