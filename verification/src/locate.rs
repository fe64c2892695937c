//! Choosing the taskbar button that represents a target window.
//!
//! Taskbar buttons rarely expose a stable window-handle association, so
//! the button is found by fuzzy lexical matching: the button whose label
//! shares enough words with the window's title.  The accessibility-tree
//! walk that produces the candidate labels is native work done by the
//! surrounding program; the choice among the candidates is made here.

use vstd::prelude::*;
use crate::words::{
    lemma_full_score_needs_shared_word, lemma_word_seq_no_duplicates, match_score_halves,
    spec_match_score, split_string_into_words, views, word_seq, word_set,
};

verus! {

/// The screen-space rectangle where a taskbar button currently sits.
#[derive(Clone, Copy, Debug, PartialEq, Eq, Structural)]
pub struct IconRegion {
    pub left: i32,
    pub top: i32,
    pub right: i32,
    pub bottom: i32,
}

impl IconRegion {
    /// A usable region never has negative width or height.
    pub open spec fn valid(self) -> bool {
        self.left <= self.right && self.top <= self.bottom
    }

    pub open spec fn spec_width(self) -> int {
        self.right - self.left
    }

    pub open spec fn spec_height(self) -> int {
        self.bottom - self.top
    }

    /// Checks that the region is usable, so that a caller outside the
    /// library can test `valid()` before asking for width or height.
    pub fn is_valid(&self) -> (r: bool)
        ensures
            r == self.valid(),
    {
        self.left <= self.right && self.top <= self.bottom
    }

    /// Width of the region in pixels.
    pub fn width(&self) -> (w: i64)
        requires
            self.valid(),
        ensures
            w == self.spec_width(),
            w >= 0,
    {
        (self.right as i64) - (self.left as i64)
    }

    /// Height of the region in pixels.
    pub fn height(&self) -> (h: i64)
        requires
            self.valid(),
        ensures
            h == self.spec_height(),
            h >= 0,
    {
        (self.bottom as i64) - (self.top as i64)
    }
}

/// The match score of a button label against a window title, in
/// half-points: both are split into their word sets and the shared words
/// are weighed.
pub open spec fn spec_button_score(title: Seq<char>, label: Seq<char>) -> int {
    spec_match_score(word_seq(title), word_seq(label))
}

/// A button is accepted when its score reaches one full point, i.e. two
/// half-points.
pub open spec fn spec_button_matches(title: Seq<char>, label: Seq<char>) -> bool {
    spec_button_score(title, label) >= 2
}

/// A button is accepted only on a real shared word: either a word of two
/// or more characters shared by the title's and the label's word sets,
/// or two distinct shared single-character words.  The asymmetric
/// weighting tolerates a truncated title while refusing a purely
/// single-letter coincidence.
pub proof fn lemma_match_needs_shared_word(title: Seq<char>, label: Seq<char>)
    requires
        spec_button_matches(title, label),
    ensures
        (exists|w: Seq<char>|
            word_set(title).contains(w) && word_set(label).contains(w) && (#[trigger] w.len())
                >= 2) || (exists|w1: Seq<char>, w2: Seq<char>|
            w1 != w2 && word_set(title).contains(w1) && word_set(label).contains(w1) && (
            #[trigger] w1.len()) == 1 && word_set(title).contains(w2) && word_set(label).contains(
                w2,
            ) && (#[trigger] w2.len()) == 1),
{
    lemma_word_seq_no_duplicates(title);
    lemma_full_score_needs_shared_word(word_seq(title), word_seq(label));
}

/// Computes the match score of a button label against a window title, in
/// half-points.
pub fn button_score_halves(window_title: &str, button_label: &str) -> (score: u128)
    ensures
        score == spec_button_score(window_title@, button_label@),
{
    let title_words = split_string_into_words(window_title);
    let label_words = split_string_into_words(button_label);
    match_score_halves(&title_words, &label_words)
}

/// Picks the taskbar button whose label matches the window's title: the
/// first label, in enumeration order, whose score reaches a full point.
/// Returns its index among the candidates, or `None` when no candidate
/// reaches the threshold.
pub fn find_matching_button(window_title: &str, button_labels: &Vec<String>) -> (r: Option<usize>)
    ensures
        match r {
            Some(i) => {
                &&& i < button_labels@.len()
                &&& spec_button_matches(window_title@, button_labels@[i as int]@)
                &&& forall|j: int|
                    0 <= j < i ==> !spec_button_matches(window_title@, button_labels@[j]@)
            },
            None => forall|j: int|
                0 <= j < button_labels@.len() ==> !spec_button_matches(
                    window_title@,
                    button_labels@[j]@,
                ),
        },
{
    let title_words = split_string_into_words(window_title);
    let mut i: usize = 0;
    while i < button_labels.len()
        invariant
            views(title_words@) == word_seq(window_title@),
            i <= button_labels@.len(),
            forall|j: int| 0 <= j < i ==> !spec_button_matches(window_title@, button_labels@[j]@),
        decreases button_labels@.len() - i,
    {
        let label_words = split_string_into_words(button_labels[i].as_str());
        let score = match_score_halves(&title_words, &label_words);
        if score >= 2 {
            return Some(i);
        }
        i = i + 1;
    }
    None
}

} // verus!
