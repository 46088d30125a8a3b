//! Hash maps keyed by text: scores by team, and the count of each word of a
//! text.

use vstd::prelude::*;
use vstd::hash_map::StringHashMap;
use crate::text::{chars_of, is_white, is_white_char};

verus! {

/// Reading `s` from the start: the words completed so far, and the run of
/// characters other than white space that is being read.
pub open spec fn scan_words(s: Seq<char>) -> (Seq<Seq<char>>, Seq<char>)
    decreases s.len(),
{
    if s.len() == 0 {
        (Seq::empty(), Seq::empty())
    } else {
        let (done, current) = scan_words(s.drop_last());
        if is_white(s.last()) {
            if current.len() > 0 {
                (done.push(current), Seq::empty())
            } else {
                (done, Seq::empty())
            }
        } else {
            (done, current.push(s.last()))
        }
    }
}

/// The words of `s`, in order, as `str::split_whitespace` gives them: the
/// longest runs of characters that are not white space.
pub open spec fn words_of(s: Seq<char>) -> Seq<Seq<char>> {
    let (done, current) = scan_words(s);
    if current.len() > 0 {
        done.push(current)
    } else {
        done
    }
}

/// The test that an entry of a list passes to be `word`.
pub open spec fn is_word(word: Seq<char>) -> spec_fn(Seq<char>) -> bool {
    |w: Seq<char>| w == word
}

/// How many times `word` stands in `words`.
pub open spec fn occurrences(words: Seq<Seq<char>>, word: Seq<char>) -> nat {
    words.filter(is_word(word)).len()
}

/// `counts` maps each word of `words`, and nothing else, to the number of
/// times it stands there.
pub open spec fn counts_words(counts: Map<Seq<char>, usize>, words: Seq<Seq<char>>) -> bool {
    &&& counts.dom() == words.to_set()
    &&& forall|w: Seq<char>| #[trigger] counts.contains_key(w) ==> counts[w] == occurrences(words, w)
}

proof fn lemma_occurrences_push(words: Seq<Seq<char>>, x: Seq<char>, w: Seq<char>)
    ensures
        occurrences(words.push(x), w) == occurrences(words, w) + (if x == w {
            1nat
        } else {
            0nat
        }),
        occurrences(words, w) <= words.len(),
{
    words.lemma_filter_push(x, is_word(w));
    words.lemma_filter_len(is_word(w));
}

proof fn lemma_occurrences_absent(words: Seq<Seq<char>>, w: Seq<char>)
    requires
        !words.contains(w),
    ensures
        occurrences(words, w) == 0,
{
    let kept = words.filter(is_word(w));
    if kept.len() > 0 {
        words.lemma_filter_pred(is_word(w), 0);
        assert(kept.contains(kept[0]));
        words.lemma_filter_contains_rev(is_word(w), kept[0]);
    }
}

/// Counts one more `word` in `counts`, as the entry pattern does: a new word
/// starts at one.
fn count_one(counts: &mut StringHashMap<usize>, word: &str, Ghost(words): Ghost<Seq<Seq<char>>>)
    requires
        counts_words(old(counts)@, words),
        words.len() < usize::MAX,
    ensures
        counts_words(final(counts)@, words.push(word@)),
{
    proof {
        lemma_occurrences_push(words, word@, word@);
        if !words.contains(word@) {
            lemma_occurrences_absent(words, word@);
        }
    }
    let seen = match counts.get(word) {
        Some(c) => *c,
        None => 0,
    };
    counts.insert(String::from_str(word), seen + 1);
    proof {
        let after = words.push(word@);
        after.lemma_push_to_set_commute(word@);
        words.lemma_push_to_set_commute(word@);
        assert(counts@.dom() =~= after.to_set());
        assert forall|w: Seq<char>| #[trigger] counts@.contains_key(w) implies counts@[w]
            == occurrences(after, w) by {
            lemma_occurrences_push(words, word@, w);
        }
    }
}

/// Each word of `text` and how many times it stands there, as
/// `split_whitespace` and a hash map's entry API count them.
pub fn word_counts(text: &str) -> (r: StringHashMap<usize>)
    ensures
        counts_words(r@, words_of(text@)),
{
    let chars = chars_of(text);
    let n = chars.len();
    let mut counts: StringHashMap<usize> = StringHashMap::new();
    let mut start: usize = 0;
    let mut i: usize = 0;
    proof {
        assert(counts@.dom() =~= Seq::<Seq<char>>::empty().to_set());
    }
    while i < n
        invariant
            chars@ == text@,
            n == chars@.len(),
            start <= i <= n,
            scan_words(text@.take(i as int)).1 == text@.subrange(start as int, i as int),
            scan_words(text@.take(i as int)).0.len() <= start,
            counts_words(counts@, scan_words(text@.take(i as int)).0),
        decreases n - i,
    {
        let ghost before = text@.take(i as int);
        proof {
            assert(text@.take(i + 1).drop_last() =~= before);
        }
        if is_white_char(chars[i]) {
            if start < i {
                let word = text.substring_char(start, i);
                count_one(&mut counts, word, Ghost(scan_words(before).0));
            }
            start = i + 1;
            proof {
                assert(text@.subrange(start as int, i + 1) =~= Seq::<char>::empty());
            }
        } else {
            proof {
                assert(text@.subrange(start as int, i + 1) =~= text@.subrange(
                    start as int,
                    i as int,
                ).push(chars@[i as int]));
            }
        }
        i = i + 1;
    }
    proof {
        assert(text@.take(n as int) =~= text@);
    }
    if start < n {
        let word = text.substring_char(start, n);
        count_one(&mut counts, word, Ghost(scan_words(text@).0));
    }
    counts
}

/// The texts of a list of strings.
pub open spec fn texts(strings: Seq<String>) -> Seq<Seq<char>> {
    strings.map_values(|s: String| s@)
}

/// The map that inserting `keys[i]` with `values[i]`, for `i` from zero up
/// to `n`, builds: a key that comes again keeps its last value.
pub open spec fn zipped_map(keys: Seq<Seq<char>>, values: Seq<i32>, n: nat) -> Map<Seq<char>, i32>
    decreases n,
{
    if n == 0 {
        Map::empty()
    } else {
        zipped_map(keys, values, (n - 1) as nat).insert(keys[n - 1], values[n - 1])
    }
}

/// Each team with its score, pairing the two lists in order as `zip` does:
/// entries past the end of the shorter list are left out, and a team named
/// twice keeps its later score.
pub fn scores_by_team(teams: &Vec<String>, scores: &Vec<i32>) -> (r: StringHashMap<i32>)
    ensures
        r@ == zipped_map(
            texts(teams@),
            scores@,
            if teams@.len() < scores@.len() {
                teams@.len()
            } else {
                scores@.len()
            },
        ),
{
    let n = if teams.len() < scores.len() {
        teams.len()
    } else {
        scores.len()
    };
    let mut map: StringHashMap<i32> = StringHashMap::new();
    let mut i: usize = 0;
    while i < n
        invariant
            n <= teams@.len(),
            n <= scores@.len(),
            i <= n,
            map@ == zipped_map(texts(teams@), scores@, i as nat),
        decreases n - i,
    {
        map.insert(teams[i].clone(), scores[i]);
        i = i + 1;
    }
    map
}

} // verus!
