//! A line-search tool: its configuration, read from the command-line
//! arguments, and the matcher that picks the lines of a text holding a query.

use vstd::prelude::*;
use crate::text::chars_of;

verus! {

/// The run parameters of one search: what to look for and where.
pub struct Config {
    pub query: String,
    pub filepath: String,
}

impl Config {
    /// Both the query and the path hold at least one character.
    pub open spec fn wf(&self) -> bool {
        self.query@.len() > 0 && self.filepath@.len() > 0
    }

    /// Reads a configuration from the command-line arguments: the program
    /// name, then the query, then the path of the file to search. Arguments
    /// past the third are ignored. It fails where the query or the path is
    /// missing or empty.
    pub fn new(args: &[String]) -> (r: Result<Config, &'static str>)
        ensures
            r is Err <==> args@.len() < 3 || args@[1]@.len() == 0 || args@[2]@.len() == 0,
            r matches Ok(c) ==> c.query@ == args@[1]@ && c.filepath@ == args@[2]@ && c.wf(),
            r matches Err(e) ==> e@ == "Not enough arguments!"@,
    {
        if args.len() < 3 || args[1].as_str().is_empty() || args[2].as_str().is_empty() {
            return Err("Not enough arguments!");
        }
        let query = args[1].clone();
        let filepath = args[2].clone();
        Ok(Config { query, filepath })
    }
}

/// The pieces of `s` that newline characters separate, in order: one more
/// piece than `s` holds newlines.
pub open spec fn pieces(s: Seq<char>) -> Seq<Seq<char>>
    decreases s.len(),
{
    if s.len() == 0 {
        seq![Seq::empty()]
    } else {
        let before = pieces(s.drop_last());
        if s.last() == '\n' {
            before.push(Seq::empty())
        } else {
            before.update(before.len() - 1, before.last().push(s.last()))
        }
    }
}

/// A line as it stood before its newline, without the carriage return that
/// may end it.
pub open spec fn strip_cr(piece: Seq<char>) -> Seq<char> {
    if piece.len() > 0 && piece.last() == '\r' {
        piece.drop_last()
    } else {
        piece
    }
}

/// The lines of `s` that a newline ends, each without its line ending.
pub open spec fn ended_lines(s: Seq<char>) -> Seq<Seq<char>> {
    pieces(s).drop_last().map_values(|piece: Seq<char>| strip_cr(piece))
}

/// The lines of `s`: split at each `\n`, with a `\r` right before a `\n`
/// taken as part of the line ending. Text after the last newline is a line
/// of its own when it is not empty; it keeps any `\r` it ends with.
pub open spec fn lines_of(s: Seq<char>) -> Seq<Seq<char>> {
    let tail = pieces(s).last();
    if tail.len() == 0 {
        ended_lines(s)
    } else {
        ended_lines(s).push(tail)
    }
}

/// `pattern` occurs in `text` as a run of consecutive characters.
pub open spec fn has_substring(text: Seq<char>, pattern: Seq<char>) -> bool {
    exists|i: int|
        0 <= i && i + pattern.len() <= text.len() && #[trigger] text.subrange(
            i,
            i + pattern.len(),
        ) == pattern
}

/// The test that a line passes to be reported for `query`.
pub open spec fn holds_query(query: Seq<char>) -> spec_fn(Seq<char>) -> bool {
    |line: Seq<char>| has_substring(line, query)
}

/// The lines of `text` that hold `query`, in the order of the text.
pub open spec fn matching_lines(query: Seq<char>, text: Seq<char>) -> Seq<Seq<char>> {
    lines_of(text).filter(holds_query(query))
}

/// What a sequence of string slices reads.
pub open spec fn texts_of(lines: Seq<&str>) -> Seq<Seq<char>> {
    lines.map_values(|line: &str| line@)
}

proof fn lemma_pieces_nonempty(s: Seq<char>)
    ensures
        pieces(s).len() >= 1,
    decreases s.len(),
{
    if s.len() > 0 {
        lemma_pieces_nonempty(s.drop_last());
    }
}

/// Whether `pattern` stands in `text` starting at `at`.
fn matches_at(text: &Vec<char>, at: usize, pattern: &Vec<char>) -> (r: bool)
    requires
        at + pattern@.len() <= text@.len(),
    ensures
        r == (text@.subrange(at as int, at + pattern@.len()) == pattern@),
{
    let n = text.len();
    let mut j: usize = 0;
    while j < pattern.len()
        invariant
            n == text@.len(),
            at + pattern@.len() <= text@.len(),
            j <= pattern@.len(),
            forall|k: int| 0 <= k < j ==> text@[at + k] == pattern@[k],
        decreases pattern@.len() - j,
    {
        if text[at + j] != pattern[j] {
            assert(text@.subrange(at as int, at + pattern@.len())[j as int] != pattern@[j as int]);
            return false;
        }
        j = j + 1;
    }
    assert(text@.subrange(at as int, at + pattern@.len()) =~= pattern@);
    true
}

/// Whether `pattern` occurs in the characters `from..to` of `text`.
fn occurs_in(text: &Vec<char>, from: usize, to: usize, pattern: &Vec<char>) -> (r: bool)
    requires
        from <= to <= text@.len(),
    ensures
        r == has_substring(text@.subrange(from as int, to as int), pattern@),
{
    let ghost part = text@.subrange(from as int, to as int);
    let m = pattern.len();
    if m > to - from {
        return false;
    }
    if m == 0 {
        assert(part.subrange(0, 0 + pattern@.len() as int) =~= pattern@);
        return true;
    }
    let n = text.len();
    let mut at: usize = from;
    while at <= to - m
        invariant
            n == text@.len(),
            from <= at <= to - m + 1,
            m == pattern@.len(),
            1 <= m <= to - from,
            to <= text@.len(),
            part == text@.subrange(from as int, to as int),
            forall|k: int|
                0 <= k < at - from ==> #[trigger] part.subrange(k, k + m) != pattern@,
        decreases to - m + 1 - at,
    {
        assert(part.subrange(at - from, at - from + m) =~= text@.subrange(at as int, at + m));
        if matches_at(text, at, pattern) {
            return true;
        }
        at = at + 1;
    }
    false
}

/// The lines of `contents` that hold `query`, in order, as slices of
/// `contents`.
pub fn search<'a>(query: &str, contents: &'a str) -> (r: Vec<&'a str>)
    ensures
        texts_of(r@) == matching_lines(query@, contents@),
{
    let text = chars_of(contents);
    let pattern = chars_of(query);
    let ghost keep = holds_query(query@);
    let mut found: Vec<&'a str> = Vec::new();
    let mut start: usize = 0;
    let mut i: usize = 0;
    while i < text.len()
        invariant
            text@ == contents@,
            pattern@ == query@,
            keep == holds_query(query@),
            start <= i <= text@.len(),
            texts_of(found@) == ended_lines(text@.take(i as int)).filter(keep),
            pieces(text@.take(i as int)).last() == text@.subrange(start as int, i as int),
        decreases text@.len() - i,
    {
        let ghost before = text@.take(i as int);
        let ghost after = text@.take(i + 1);
        proof {
            assert(after.drop_last() =~= before);
            lemma_pieces_nonempty(before);
        }
        if text[i] == '\n' {
            let end = if start < i && text[i - 1] == '\r' {
                i - 1
            } else {
                i
            };
            let ghost line = text@.subrange(start as int, end as int);
            proof {
                let p = pieces(before);
                assert(pieces(after).drop_last() =~= p);
                assert(p =~= p.drop_last().push(p.last()));
                p.drop_last().lemma_push_map_commute(|piece: Seq<char>| strip_cr(piece), p.last());
                assert(line =~= strip_cr(p.last()));
                ended_lines(before).lemma_filter_push(line, keep);
            }
            if occurs_in(&text, start, end, &pattern) {
                let l = contents.substring_char(start, end);
                proof {
                    found@.lemma_push_map_commute(|line: &str| line@, l);
                }
                found.push(l);
            }
            start = i + 1;
            proof {
                assert(pieces(after).last() =~= text@.subrange(start as int, i + 1));
            }
        } else {
            proof {
                let p = pieces(before);
                assert(pieces(after).drop_last() =~= p.drop_last());
                assert(pieces(after).last() =~= text@.subrange(start as int, i + 1));
            }
        }
        i = i + 1;
    }
    let ghost all = text@.take(i as int);
    proof {
        assert(all =~= contents@);
    }
    let n = text.len();
    if start < n {
        let ghost tail = text@.subrange(start as int, n as int);
        proof {
            ended_lines(all).lemma_filter_push(tail, keep);
        }
        if occurs_in(&text, start, n, &pattern) {
            let l = contents.substring_char(start, n);
            proof {
                found@.lemma_push_map_commute(|line: &str| line@, l);
            }
            found.push(l);
        }
    }
    found
}

/// Each line that a search reports holds the query and is a line of the
/// text; each line of the text that holds the query is reported.
pub proof fn search_sound_and_complete(query: Seq<char>, text: Seq<char>)
    ensures
        forall|i: int|
            0 <= i < matching_lines(query, text).len() ==> has_substring(
                #[trigger] matching_lines(query, text)[i],
                query,
            ) && lines_of(text).contains(matching_lines(query, text)[i]),
        forall|j: int|
            0 <= j < lines_of(text).len() && has_substring(lines_of(text)[j], query)
                ==> #[trigger] matching_lines(query, text).contains(lines_of(text)[j]),
{
    let lines = lines_of(text);
    let keep = holds_query(query);
    assert forall|i: int| 0 <= i < matching_lines(query, text).len() implies has_substring(
        #[trigger] matching_lines(query, text)[i],
        query,
    ) && lines.contains(matching_lines(query, text)[i]) by {
        lines.lemma_filter_pred(keep, i);
        assert(lines.filter(keep).contains(lines.filter(keep)[i]));
        lines.lemma_filter_contains_rev(keep, lines.filter(keep)[i]);
    }
    assert forall|j: int| 0 <= j < lines.len() && has_substring(lines[j], query) implies #[trigger] matching_lines(
        query,
        text,
    ).contains(lines[j]) by {
        lines.lemma_filter_contains(keep, j);
    }
}

proof fn lemma_filter_keeps_all(lines: Seq<Seq<char>>, keep: spec_fn(Seq<char>) -> bool)
    requires
        forall|line: Seq<char>| #[trigger] keep(line),
    ensures
        lines.filter(keep) == lines,
    decreases lines.len(),
{
    reveal(Seq::filter);
    if lines.len() > 0 {
        lemma_filter_keeps_all(lines.drop_last(), keep);
        assert(lines.drop_last().push(lines.last()) =~= lines);
    }
}

/// The empty query is in every line: a search for it reports every line of
/// the text, unchanged and in order.
pub proof fn search_empty_query_reports_all(text: Seq<char>)
    ensures
        matching_lines(Seq::empty(), text) == lines_of(text),
{
    let keep = holds_query(Seq::empty());
    assert forall|line: Seq<char>| #[trigger] keep(line) by {
        let empty = Seq::<char>::empty();
        assert(line.subrange(0, 0 + empty.len() as int) =~= empty);
        assert(has_substring(line, empty));
    }
    lemma_filter_keeps_all(lines_of(text), keep);
}

/// A search depends on the query and the text alone: two results that meet
/// the contract of `search` on the same inputs hold the same lines in the
/// same order.
pub proof fn search_repeatable(
    query: Seq<char>,
    text: Seq<char>,
    first: Seq<Seq<char>>,
    second: Seq<Seq<char>>,
)
    requires
        first == matching_lines(query, text),
        second == matching_lines(query, text),
    ensures
        first == second,
{
}

} // verus!
