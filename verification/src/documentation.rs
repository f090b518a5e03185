//! The table from a token to the text that documents it.

use vstd::prelude::*;

verus! {

/// One entry of the table: a token and its documentation.
#[derive(Debug, Clone, PartialEq, Eq)]
pub struct DocEntry {
    pub token: String,
    pub text: String,
}

/// The documentation table. Where a token has several entries, the first
/// one counts.
#[derive(Debug, Clone, PartialEq, Eq)]
pub struct Documentation {
    pub entries: Vec<DocEntry>,
}

/// The text that the entries from index `from` on hold for `word`: that of
/// the first entry for it, and the empty text where there is none.
pub open spec fn lookup_from(entries: Seq<DocEntry>, word: Seq<char>, from: int) -> Seq<char>
    decreases entries.len() - from,
{
    if from < 0 || from >= entries.len() {
        Seq::empty()
    } else if entries[from].token@ == word {
        entries[from].text@
    } else {
        lookup_from(entries, word, from + 1)
    }
}

/// The documentation of `word`: empty for the empty word and for a word
/// that the table does not hold.
pub open spec fn documentation_of(entries: Seq<DocEntry>, word: Seq<char>) -> Seq<char> {
    if word.len() == 0 {
        Seq::empty()
    } else {
        lookup_from(entries, word, 0)
    }
}

proof fn lemma_absent_from(entries: Seq<DocEntry>, word: Seq<char>, from: int)
    requires
        0 <= from,
        forall|i: int| from <= i < entries.len() ==> (#[trigger] entries[i]).token@ != word,
    ensures
        lookup_from(entries, word, from) == Seq::<char>::empty(),
    decreases entries.len() - from,
{
    if from < entries.len() {
        lemma_absent_from(entries, word, from + 1);
    }
}

/// A word that no entry holds has no documentation.
pub proof fn lemma_absent_word(entries: Seq<DocEntry>, word: Seq<char>)
    requires
        forall|i: int| 0 <= i < entries.len() ==> (#[trigger] entries[i]).token@ != word,
    ensures
        documentation_of(entries, word) == Seq::<char>::empty(),
{
    lemma_absent_from(entries, word, 0);
}

impl Documentation {
    /// Looks `word` up. An absent word, and the empty word, have the empty
    /// text.
    pub fn lookup(&self, word: &str) -> (text: String)
        ensures
            text@ == documentation_of(self.entries@, word@),
    {
        if word.unicode_len() == 0 {
            return String::new();
        }
        let wanted = word.to_owned();
        let mut i: usize = 0;
        while i < self.entries.len()
            invariant
                i <= self.entries@.len(),
                wanted@ == word@,
                word@.len() > 0,
                lookup_from(self.entries@, word@, i as int) == lookup_from(self.entries@, word@, 0),
            decreases self.entries@.len() - i,
        {
            if self.entries[i].token == wanted {
                return self.entries[i].text.clone();
            }
            i = i + 1;
        }
        String::new()
    }
}

} // verus!
