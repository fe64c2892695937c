//! Tokenizing window titles and taskbar button labels into word sets.
//!
//! A title is split on every non-alphanumeric character; the non-empty
//! fragments are lowercased and deduplicated.  Two word sets are then
//! matched by scoring their shared words: a shared word of two or more
//! characters counts 1.0, a shared single-character word 0.5.  Scores are
//! computed here in half-units, so they stay integers.

use vstd::prelude::*;
use vstd::string::StrSliceExecFns;

verus! {

/// Whether a character is alphanumeric, a fixed Unicode property.
pub uninterp spec fn alphanumeric(c: char) -> bool;

/// Relies on char::is_alphanumeric: a Unicode property of the character
/// alone.
#[verifier::external_body]
fn is_alphanumeric_char(c: char) -> (r: bool)
    ensures
        r == alphanumeric(c),
{
    c.is_alphanumeric()
}

/// The lowercase form of a character sequence.
pub uninterp spec fn lower_of(s: Seq<char>) -> Seq<char>;

/// Relies on str::to_lowercase: the result depends on the characters
/// alone.
#[verifier::external_body]
fn to_lowercase_str(s: &str) -> (r: String)
    ensures
        r@ == lower_of(s@),
{
    s.to_lowercase()
}

/// The views of a sequence of strings.
pub open spec fn views(v: Seq<String>) -> Seq<Seq<char>> {
    v.map_values(|s: String| s@)
}

/// One left-to-right scan step of the tokenizer.  `start` marks where the
/// current run of alphanumeric characters began; `start == i` means no run
/// is open.  Each maximal non-empty run becomes one token.
pub open spec fn scan_tokens(s: Seq<char>, i: int, start: int, acc: Seq<Seq<char>>) -> Seq<
    Seq<char>,
>
    recommends
        0 <= start <= i <= s.len(),
    decreases s.len() - i,
{
    if i < 0 || i >= s.len() {
        if start < i {
            acc.push(s.subrange(start, i))
        } else {
            acc
        }
    } else if alphanumeric(s[i]) {
        scan_tokens(s, i + 1, start, acc)
    } else if start < i {
        scan_tokens(s, i + 1, i + 1, acc.push(s.subrange(start, i)))
    } else {
        scan_tokens(s, i + 1, i + 1, acc)
    }
}

/// The maximal alphanumeric runs of a title, in order.
pub open spec fn raw_tokens(s: Seq<char>) -> Seq<Seq<char>> {
    scan_tokens(s, 0, 0, Seq::empty())
}

/// The word sequence of a title: its tokens, lowercased, first
/// occurrences kept in scan order.
pub open spec fn word_seq(s: Seq<char>) -> Seq<Seq<char>> {
    raw_tokens(s).map_values(|t: Seq<char>| lower_of(t)).remove_duplicates(Seq::empty())
}

/// The word set of a title.
pub open spec fn word_set(s: Seq<char>) -> Set<Seq<char>> {
    word_seq(s).to_set()
}

/// Splits a title on non-alphanumeric characters into its maximal runs,
/// in order, not yet lowercased or deduplicated.
fn tokenize(s: &str) -> (tokens: Vec<String>)
    ensures
        views(tokens@) == raw_tokens(s@),
{
    let n: usize = s.unicode_len();
    let mut tokens: Vec<String> = Vec::new();
    let mut start: usize = 0;
    let mut i: usize = 0;
    proof {
        assert(views(tokens@) =~= Seq::<Seq<char>>::empty());
    }
    while i < n
        invariant
            n == s@.len(),
            0 <= start <= i <= n,
            scan_tokens(s@, i as int, start as int, views(tokens@)) == raw_tokens(s@),
        decreases n - i,
    {
        let c = s.get_char(i);
        if is_alphanumeric_char(c) {
            i = i + 1;
        } else {
            if start < i {
                let tok = s.substring_char(start, i);
                let ghost old_views = views(tokens@);
                tokens.push(tok.to_owned());
                proof {
                    assert(views(tokens@) =~= old_views.push(s@.subrange(start as int, i as int)));
                }
            }
            i = i + 1;
            start = i;
        }
    }
    if start < n {
        let tok = s.substring_char(start, n);
        let ghost old_views = views(tokens@);
        tokens.push(tok.to_owned());
        proof {
            assert(views(tokens@) =~= old_views.push(s@.subrange(start as int, n as int)));
        }
    }
    tokens
}

/// Whether one of the strings of `v` has the same characters as `x`.
fn vec_contains_string(v: &Vec<String>, x: &String) -> (r: bool)
    ensures
        r == views(v@).contains(x@),
{
    let mut i: usize = 0;
    while i < v.len()
        invariant
            i <= v@.len(),
            forall|j: int| 0 <= j < i ==> views(v@)[j] != x@,
        decreases v@.len() - i,
    {
        if x.eq(&v[i]) {
            assert(views(v@)[i as int] == x@);
            return true;
        }
        i = i + 1;
    }
    false
}

/// Splits a title into its word set: lowercase alphanumeric words,
/// without duplicates, first occurrences in scan order.
pub fn split_string_into_words(s: &str) -> (words: Vec<String>)
    ensures
        views(words@) == word_seq(s@),
        views(words@).no_duplicates(),
{
    let tokens = tokenize(s);
    let ghost lowered: Seq<Seq<char>> = raw_tokens(s@).map_values(|t: Seq<char>| lower_of(t));
    let mut words: Vec<String> = Vec::new();
    let mut k: usize = 0;
    proof {
        assert(lowered.skip(0) =~= lowered);
        assert(views(words@) =~= Seq::<Seq<char>>::empty());
    }
    while k < tokens.len()
        invariant
            tokens@.len() == lowered.len(),
            views(tokens@) == raw_tokens(s@),
            lowered == raw_tokens(s@).map_values(|t: Seq<char>| lower_of(t)),
            k <= lowered.len(),
            lowered.skip(k as int).remove_duplicates(views(words@)) == word_seq(s@),
            views(words@).no_duplicates(),
        decreases lowered.len() - k,
    {
        let lw = to_lowercase_str(tokens[k].as_str());
        assert(views(tokens@)[k as int] == tokens@[k as int]@);
        assert(lw@ == lowered[k as int]);
        let ghost pre = lowered.skip(k as int);
        proof {
            assert(pre[0] == lowered[k as int]);
            assert(pre.skip(1) =~= lowered.skip(k as int + 1));
        }
        if !vec_contains_string(&words, &lw) {
            let ghost old_views = views(words@);
            words.push(lw);
            proof {
                assert(views(words@) =~= old_views + seq![lowered[k as int]]);
            }
        }
        k = k + 1;
    }
    proof {
        assert(lowered.skip(lowered.len() as int) =~= Seq::<Seq<char>>::empty());
        assert(Seq::<Seq<char>>::empty().remove_duplicates(views(words@)) == views(words@));
    }
    words
}

/// The weight of one shared word, in half-points: a word of two or more
/// characters is worth a full point, a single character half a point.
pub open spec fn word_weight(w: Seq<char>) -> int {
    if w.len() >= 2 {
        2
    } else if w.len() == 1 {
        1
    } else {
        0
    }
}

/// Sum of the word weights of a sequence of words, in half-points.
pub open spec fn score_halves(ws: Seq<Seq<char>>) -> int
    decreases ws.len(),
{
    if ws.len() == 0 {
        0
    } else {
        score_halves(ws.drop_last()) + word_weight(ws.last())
    }
}

/// The words of `a` that also occur in `b`, in `a`'s order.
pub open spec fn common_words(a: Seq<Seq<char>>, b: Seq<Seq<char>>) -> Seq<Seq<char>> {
    a.filter(|w: Seq<char>| b.contains(w))
}

/// The match score of two word lists, in half-points: the summed weight
/// of their shared words.
pub open spec fn spec_match_score(a: Seq<Seq<char>>, b: Seq<Seq<char>>) -> int {
    score_halves(common_words(a, b))
}

/// Computes the match score of two word lists, in half-points.
pub fn match_score_halves(a: &Vec<String>, b: &Vec<String>) -> (score: u128)
    ensures
        score == spec_match_score(views(a@), views(b@)),
{
    proof {
        broadcast use vstd::seq_lib::group_filter_ensures;

    }
    let ghost av = views(a@);
    let ghost bv = views(b@);
    let mut score: u128 = 0;
    let mut i: usize = 0;
    proof {
        reveal(Seq::filter);
        assert(av.take(0) =~= Seq::<Seq<char>>::empty());
    }
    while i < a.len()
        invariant
            av == views(a@),
            bv == views(b@),
            i <= av.len(),
            score == spec_match_score(av.take(i as int), bv),
            score <= 2 * i,
        decreases av.len() - i,
    {
        let shared = vec_contains_string(b, &a[i]);
        proof {
            reveal(Seq::filter);
            assert(av.take(i as int + 1).drop_last() =~= av.take(i as int));
            assert(av.take(i as int + 1).last() == av[i as int]);
            let cw = common_words(av.take(i as int), bv);
            if bv.contains(av[i as int]) {
                assert(common_words(av.take(i as int + 1), bv) == cw.push(av[i as int]));
                assert(cw.push(av[i as int]).drop_last() =~= cw);
            } else {
                assert(common_words(av.take(i as int + 1), bv) == cw);
            }
        }
        if shared {
            assert(a@[i as int]@ == av[i as int]);
            let wlen = a[i].as_str().unicode_len();
            let wt: u128 = if wlen >= 2 {
                2
            } else if wlen == 1 {
                1
            } else {
                0
            };
            score = score + wt;
        }
        i = i + 1;
    }
    proof {
        assert(av.take(av.len() as int) =~= av);
    }
    score
}

/// A word sequence whose score reaches one half-point holds a word of
/// positive weight.
proof fn lemma_score_pos_has_word(ws: Seq<Seq<char>>)
    requires
        score_halves(ws) >= 1,
    ensures
        exists|i: int| 0 <= i < ws.len() && word_weight(#[trigger] ws[i]) >= 1,
    decreases ws.len(),
{
    if ws.len() > 0 {
        if word_weight(ws.last()) >= 1 {
            assert(ws[ws.len() - 1] == ws.last());
        } else {
            lemma_score_pos_has_word(ws.drop_last());
            let i = choose|i: int|
                0 <= i < ws.drop_last().len() && word_weight(#[trigger] ws.drop_last()[i]) >= 1;
            assert(ws[i] == ws.drop_last()[i]);
        }
    }
}

/// A word sequence whose score reaches a full point holds a word of two
/// or more characters, or two single-character words at distinct
/// positions.
proof fn lemma_full_score_structure(ws: Seq<Seq<char>>)
    requires
        score_halves(ws) >= 2,
    ensures
        (exists|i: int| 0 <= i < ws.len() && (#[trigger] ws[i]).len() >= 2) || (exists|i: int, j: int|
            0 <= i < j < ws.len() && (#[trigger] ws[i]).len() == 1 && (#[trigger] ws[j]).len()
                == 1),
    decreases ws.len(),
{
    let last = ws.last();
    let rest = ws.drop_last();
    if last.len() >= 2 {
        assert(ws[ws.len() - 1] == last);
    } else if word_weight(last) == 1 {
        lemma_score_pos_has_word(rest);
        let i = choose|i: int| 0 <= i < rest.len() && word_weight(#[trigger] rest[i]) >= 1;
        assert(ws[i] == rest[i]);
        if ws[i].len() >= 2 {
        } else {
            assert(ws[i].len() == 1 && ws[ws.len() - 1].len() == 1);
        }
    } else {
        lemma_full_score_structure(rest);
        if exists|i: int| 0 <= i < rest.len() && (#[trigger] rest[i]).len() >= 2 {
            let i = choose|i: int| 0 <= i < rest.len() && (#[trigger] rest[i]).len() >= 2;
            assert(ws[i] == rest[i]);
        } else {
            let (i, j) = choose|i: int, j: int|
                0 <= i < j < rest.len() && (#[trigger] rest[i]).len() == 1 && (
                #[trigger] rest[j]).len() == 1;
            assert(ws[i] == rest[i] && ws[j] == rest[j]);
        }
    }
}

/// Filtering keeps a duplicate-free sequence duplicate-free.
proof fn lemma_filter_no_duplicates(ws: Seq<Seq<char>>, p: spec_fn(Seq<char>) -> bool)
    requires
        ws.no_duplicates(),
    ensures
        ws.filter(p).no_duplicates(),
    decreases ws.len(),
{
    reveal(Seq::filter);
    broadcast use vstd::seq_lib::group_filter_ensures;

    if ws.len() > 0 {
        let rest = ws.drop_last();
        assert(rest.no_duplicates());
        lemma_filter_no_duplicates(rest, p);
        if p(ws.last()) {
            assert(!rest.contains(ws.last()));
            assert(!rest.filter(p).contains(ws.last())) by {
                if rest.filter(p).contains(ws.last()) {
                    rest.lemma_filter_contains_rev(p, ws.last());
                }
            }
            assert(ws.filter(p) == rest.filter(p).push(ws.last()));
        }
    }
}

/// Deduplicating never leaves a duplicate, whatever was seen before.
proof fn lemma_remove_duplicates_no_dup(s: Seq<Seq<char>>, seen: Seq<Seq<char>>)
    requires
        seen.no_duplicates(),
    ensures
        s.remove_duplicates(seen).no_duplicates(),
    decreases s.len(),
{
    if s.len() == 0 {
    } else if seen.contains(s[0]) {
        lemma_remove_duplicates_no_dup(s.skip(1), seen);
    } else {
        let extended = seen + seq![s[0]];
        assert(extended.no_duplicates()) by {
            assert(forall|i: int| 0 <= i < seen.len() ==> extended[i] == seen[i]);
            assert(extended[seen.len() as int] == s[0]);
        }
        lemma_remove_duplicates_no_dup(s.skip(1), extended);
    }
}

/// A title's word sequence holds each word once.
pub proof fn lemma_word_seq_no_duplicates(s: Seq<char>)
    ensures
        word_seq(s).no_duplicates(),
{
    lemma_remove_duplicates_no_dup(
        raw_tokens(s).map_values(|t: Seq<char>| lower_of(t)),
        Seq::empty(),
    );
}

/// A match score of a full point takes a real shared word: either one
/// shared word of two or more characters, or two distinct shared
/// single-character words.  Holds for every pair of word lists without
/// duplicates, so in particular for every pair of word sets.
pub proof fn lemma_full_score_needs_shared_word(a: Seq<Seq<char>>, b: Seq<Seq<char>>)
    requires
        a.no_duplicates(),
        spec_match_score(a, b) >= 2,
    ensures
        (exists|w: Seq<char>|
            a.contains(w) && b.contains(w) && (#[trigger] w.len()) >= 2) || (exists|
            w1: Seq<char>,
            w2: Seq<char>,
        |
            w1 != w2 && a.contains(w1) && b.contains(w1) && (#[trigger] w1.len()) == 1
                && a.contains(w2) && b.contains(w2) && (#[trigger] w2.len()) == 1),
{
    broadcast use vstd::seq_lib::group_filter_ensures;

    let cw = common_words(a, b);
    lemma_full_score_structure(cw);
    lemma_filter_no_duplicates(a, |w: Seq<char>| b.contains(w));
    if exists|i: int| 0 <= i < cw.len() && (#[trigger] cw[i]).len() >= 2 {
        let i = choose|i: int| 0 <= i < cw.len() && (#[trigger] cw[i]).len() >= 2;
        assert(cw.contains(cw[i]));
        a.lemma_filter_contains_rev(|w: Seq<char>| b.contains(w), cw[i]);
        assert(a.contains(cw[i]) && b.contains(cw[i]) && cw[i].len() >= 2);
    } else {
        let (i, j) = choose|i: int, j: int|
            0 <= i < j < cw.len() && (#[trigger] cw[i]).len() == 1 && (#[trigger] cw[j]).len()
                == 1;
        assert(cw.contains(cw[i]) && cw.contains(cw[j]));
        a.lemma_filter_contains_rev(|w: Seq<char>| b.contains(w), cw[i]);
        a.lemma_filter_contains_rev(|w: Seq<char>| b.contains(w), cw[j]);
        assert(cw[i] != cw[j]);
        assert(a.contains(cw[i]) && b.contains(cw[i]) && cw[i].len() == 1);
        assert(a.contains(cw[j]) && b.contains(cw[j]) && cw[j].len() == 1);
    }
}

} // verus!
