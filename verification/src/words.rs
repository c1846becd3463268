//! Secret-word selection: lowercasing, word validity, and a pseudo-random
//! pick from a loaded word list.
//!
//! Reading the word-list files from disk is the frontend's job; the library
//! takes the lines as plain `Vec<char>` values, lowercases the chosen one and
//! accepts it only if it is a playable word.

use vstd::prelude::*;

use crate::difficulty::Difficulty;

verus! {

/// ASCII lowercasing of a single character; everything outside 'A'..='Z' is
/// left as it is.
pub open spec fn spec_lower_char(c: char) -> char {
    if 'A' <= c && c <= 'Z' {
        (((c as u8) + 32) as char)
    } else {
        c
    }
}

/// A word lowercased character by character.
pub open spec fn lower_word(s: Seq<char>) -> Seq<char> {
    s.map(|_i: int, c: char| spec_lower_char(c))
}

/// A lowercase ASCII letter, the only characters a secret word may hold.
pub open spec fn is_letter(c: char) -> bool {
    'a' <= c && c <= 'z'
}

/// A playable secret word: nonempty, lowercase ASCII letters only.
pub open spec fn wf_word(s: Seq<char>) -> bool {
    s.len() > 0 && forall|i: int| 0 <= i < s.len() ==> is_letter(#[trigger] s[i])
}

pub fn lower_char(c: char) -> (r: char)
    ensures
        r == spec_lower_char(c),
{
    if 'A' <= c && c <= 'Z' {
        ((c as u8) + 32) as char
    } else {
        c
    }
}

/// Lowercases a word character by character.
pub fn lower_vec(v: &Vec<char>) -> (r: Vec<char>)
    ensures
        r@ == lower_word(v@),
{
    let mut r: Vec<char> = Vec::new();
    let mut i: usize = 0;
    while i < v.len()
        invariant
            i <= v@.len(),
            r@.len() == i,
            forall|j: int| 0 <= j < i ==> r@[j] == spec_lower_char(v@[j]),
        decreases v@.len() - i,
    {
        r.push(lower_char(v[i]));
        i += 1;
    }
    proof {
        assert(r@ =~= lower_word(v@));
    }
    r
}

/// Whether a word contains a given character.
pub fn contains_char(v: &Vec<char>, c: char) -> (r: bool)
    ensures
        r == v@.contains(c),
{
    let mut i: usize = 0;
    while i < v.len()
        invariant
            i <= v@.len(),
            forall|j: int| 0 <= j < i ==> v@[j] != c,
        decreases v@.len() - i,
    {
        if v[i] == c {
            return true;
        }
        i += 1;
    }
    false
}

/// Whether a word is playable: nonempty and all lowercase ASCII letters.
pub fn check_word(v: &Vec<char>) -> (r: bool)
    ensures
        r == wf_word(v@),
{
    if v.len() == 0 {
        return false;
    }
    let mut i: usize = 0;
    while i < v.len()
        invariant
            i <= v@.len(),
            v@.len() > 0,
            forall|j: int| 0 <= j < i ==> is_letter(#[trigger] v@[j]),
        decreases v@.len() - i,
    {
        let c = v[i];
        if c < 'a' || c > 'z' {
            return false;
        }
        i += 1;
    }
    true
}

/// Relies on quad_rand::gen_range for pseudo-randomness. Its float scaling
/// promises no usable bound on the result, so nothing is assumed of the
/// value; the verified caller clamps it into range.
#[verifier::external_body]
fn random_raw(n: usize) -> usize {
    quad_rand::gen_range(0, n)
}

/// A pseudo-random index below `n`; any out-of-range draw falls back to 0.
fn random_index(n: usize) -> (r: usize)
    requires
        n > 0,
    ensures
        r < n,
{
    let raw = random_raw(n);
    if raw < n {
        raw
    } else {
        0
    }
}

/// `w` is some line of `list`, lowercased.
pub open spec fn word_drawn_from(list: Seq<Vec<char>>, w: Seq<char>) -> bool {
    exists|i: int| 0 <= i < list.len() && w == lower_word(#[trigger] list[i]@)
}

/// Every line of `list` lowercases to a playable word.
pub open spec fn clean_list(list: Seq<Vec<char>>) -> bool {
    forall|i: int| 0 <= i < list.len() ==> wf_word(lower_word(#[trigger] list[i]@))
}

/// The three word lists, one per difficulty, loaded by the frontend before
/// the game starts.
pub struct WordLists {
    pub easy: Vec<Vec<char>>,
    pub medium: Vec<Vec<char>>,
    pub hard: Vec<Vec<char>>,
}

/// The list a difficulty draws from.
pub open spec fn spec_list_for(lists: WordLists, d: Difficulty) -> Seq<Vec<char>> {
    match d {
        Difficulty::Easy => lists.easy@,
        Difficulty::Medium => lists.medium@,
        Difficulty::Hard => lists.hard@,
    }
}

impl WordLists {
    /// Each list holds at least one line; picking from an empty list has no
    /// meaning.
    pub open spec fn wf(&self) -> bool {
        self.easy@.len() > 0 && self.medium@.len() > 0 && self.hard@.len() > 0
    }

    /// The list a difficulty draws from.
    pub fn list_for(&self, d: Difficulty) -> (r: &Vec<Vec<char>>)
        ensures
            r@ == spec_list_for(*self, d),
    {
        match d {
            Difficulty::Easy => &self.easy,
            Difficulty::Medium => &self.medium,
            Difficulty::Hard => &self.hard,
        }
    }
}

/// Picks a pseudo-random line of `list` and lowercases it. The pick is kept
/// only if it is a playable word, which every line of a well-formed word
/// list lowercases to.
pub fn choose_word(list: &Vec<Vec<char>>) -> (r: Option<Vec<char>>)
    requires
        list@.len() > 0,
    ensures
        r matches Some(w) ==> wf_word(w@) && word_drawn_from(list@, w@),
        clean_list(list@) ==> r is Some,
{
    let idx = random_index(list.len());
    let w = lower_vec(&list[idx]);
    if check_word(&w) {
        Some(w)
    } else {
        None
    }
}

} // verus!
