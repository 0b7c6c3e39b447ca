//! Word lists as text: the name of the file they came from, their
//! line-ending convention, and their lines.

use vstd::prelude::*;
use vstd::std_specs::iter::IteratorSpec;
use crate::space::texts;
use crate::types::{Arguments, LineEndings};

verus! {

broadcast use vstd::string::group_string_axioms;

/// `String::push` appends one character to the end of the string.
pub assume_specification[ String::push ](s: &mut String, ch: char)
    ensures
        final(s)@ == old(s)@.push(ch),
;

/// The characters of `s`, in order.
pub fn chars_of(s: &str) -> (out: Vec<char>)
    ensures
        out@ == s@,
{
    let mut out: Vec<char> = Vec::new();
    let mut it = s.chars();
    loop
        invariant
            it.obeys_prophetic_iter_laws(),
            it.decrease() is Some,
            out@ + it.remaining() == s@,
        ensures
            out@ == s@,
        decreases it.decrease()->0,
    {
        match it.next() {
            Some(c) => {
                out.push(c);
            },
            None => {
                assert(out@ =~= out@ + it.remaining());
                break ;
            },
        }
    }
    out
}

/// The characters of `chars` from `from` up to `to`, as a string.
pub fn text_of(chars: &Vec<char>, from: usize, to: usize) -> (out: String)
    requires
        from <= to <= chars@.len(),
    ensures
        out@ == chars@.subrange(from as int, to as int),
{
    let mut out = String::new();
    let mut k: usize = from;
    while k < to
        invariant
            from <= k <= to <= chars@.len(),
            out@ == chars@.subrange(from as int, k as int),
        decreases to - k,
    {
        out.push(chars[k]);
        assert(out@ =~= chars@.subrange(from as int, k + 1));
        k += 1;
    }
    out
}

/// Index of the last occurrence of `c` in `s`, or -1 if there is none.
pub open spec fn last_index_of(s: Seq<char>, c: char) -> int
    decreases s.len(),
{
    if s.len() == 0 {
        -1
    } else if s.last() == c {
        s.len() - 1
    } else {
        last_index_of(s.drop_last(), c)
    }
}

/// The file name of `path`: what follows the last backslash if the path
/// holds one, else what follows the last slash if it holds one, else the
/// whole path.
pub open spec fn file_name_of(path: Seq<char>) -> Seq<char> {
    if last_index_of(path, '\\') >= 0 {
        path.skip(last_index_of(path, '\\') + 1)
    } else if last_index_of(path, '/') >= 0 {
        path.skip(last_index_of(path, '/') + 1)
    } else {
        path
    }
}

/// `last_index_of` is the greatest index that holds `c`, and -1 exactly
/// when no index does.
pub proof fn lemma_last_index_of(s: Seq<char>, c: char)
    ensures
        -1 <= last_index_of(s, c) < s.len(),
        last_index_of(s, c) >= 0 ==> s[last_index_of(s, c)] == c,
        forall|j: int| last_index_of(s, c) < j < s.len() ==> s[j] != c,
    decreases s.len(),
{
    if s.len() > 0 && s.last() != c {
        lemma_last_index_of(s.drop_last(), c);
        assert forall|j: int| last_index_of(s, c) < j < s.len() implies s[j] != c by {
            if j < s.len() - 1 {
                assert(s.drop_last()[j] == s[j]);
            }
        }
    }
}

/// Whether `s` holds a carriage return followed by a line feed at `i`.
pub open spec fn crlf_at(s: Seq<char>, i: int) -> bool {
    0 <= i && i + 1 < s.len() && s[i] == '\r' && s[i + 1] == '\n'
}

/// Whether `s` holds a line feed at `i`.
pub open spec fn lf_at(s: Seq<char>, i: int) -> bool {
    0 <= i < s.len() && s[i] == '\n'
}

/// The line-ending convention of `s`: bare line feeds only if it holds a
/// line feed and no carriage return directly before a line feed.
pub open spec fn line_ending_of(s: Seq<char>) -> LineEndings {
    if (exists|i: int| lf_at(s, i)) && !(exists|i: int| crlf_at(s, i)) {
        LineEndings::LR
    } else {
        LineEndings::CRLF
    }
}

/// The text that separates lines under a convention.
pub open spec fn separator(ending: LineEndings) -> Seq<char> {
    match ending {
        LineEndings::LR => seq!['\n'],
        LineEndings::CRLF => seq!['\r', '\n'],
    }
}

/// Whether `sep` occurs in `s` at `i`.
pub open spec fn sep_at(s: Seq<char>, sep: Seq<char>, i: int) -> bool {
    0 <= i && i + sep.len() <= s.len() && s.subrange(i, i + sep.len()) == sep
}

/// Index of the first occurrence of `sep` in `s` at or after `from`, or the
/// length of `s` if there is none.
pub open spec fn next_sep(s: Seq<char>, sep: Seq<char>, from: int) -> int
    decreases s.len() - from,
{
    if from >= s.len() {
        s.len() as int
    } else if sep_at(s, sep, from) {
        from
    } else {
        next_sep(s, sep, from + 1)
    }
}

/// The pieces of `s` from `from` on that lie between the occurrences of
/// `sep`, found from left to right. An occurrence at the very end leaves an
/// empty last piece, and an `s` without occurrence is one piece.
pub open spec fn split_from(s: Seq<char>, sep: Seq<char>, from: int) -> Seq<Seq<char>>
    decreases s.len() - from,
{
    let at = next_sep(s, sep, from);
    if sep.len() > 0 && 0 <= from <= at && at + sep.len() <= s.len() {
        seq![s.subrange(from, at)] + split_from(s, sep, at + sep.len())
    } else {
        seq![s.skip(from)]
    }
}

/// The lines of `s` under a line-ending convention.
pub open spec fn lines_of(s: Seq<char>, ending: LineEndings) -> Seq<Seq<char>> {
    split_from(s, separator(ending), 0)
}

/// `next_sep` finds the first occurrence at or after `from`.
pub proof fn lemma_next_sep(s: Seq<char>, sep: Seq<char>, from: int)
    requires
        0 <= from <= s.len(),
    ensures
        from <= next_sep(s, sep, from) <= s.len(),
        next_sep(s, sep, from) < s.len() ==> sep_at(s, sep, next_sep(s, sep, from)),
        forall|j: int| from <= j < next_sep(s, sep, from) ==> !sep_at(s, sep, j),
    decreases s.len() - from,
{
    if from < s.len() && !sep_at(s, sep, from) {
        lemma_next_sep(s, sep, from + 1);
    }
}

/// The pieces joined by `sep`.
pub open spec fn join_with(pieces: Seq<Seq<char>>, sep: Seq<char>) -> Seq<char>
    decreases pieces.len(),
{
    if pieces.len() == 0 {
        Seq::empty()
    } else if pieces.len() == 1 {
        pieces[0]
    } else {
        pieces[0] + sep + join_with(pieces.drop_first(), sep)
    }
}

/// Splitting loses nothing: the pieces, joined by the separator, are the
/// text again, and there is always at least one piece.
pub proof fn lemma_split_join(s: Seq<char>, sep: Seq<char>, from: int)
    requires
        0 <= from <= s.len(),
        sep.len() > 0,
    ensures
        split_from(s, sep, from).len() >= 1,
        join_with(split_from(s, sep, from), sep) == s.skip(from),
    decreases s.len() - from,
{
    lemma_next_sep(s, sep, from);
    let at = next_sep(s, sep, from);
    if at < s.len() {
        let rest = split_from(s, sep, at + sep.len());
        lemma_split_join(s, sep, at + sep.len());
        let all = split_from(s, sep, from);
        assert(all == seq![s.subrange(from, at)] + rest);
        assert(all.drop_first() =~= rest);
        assert(all[0] == s.subrange(from, at));
        assert(s.subrange(from, at) + sep + s.skip(at + sep.len()) =~= s.skip(from));
    }
}

/// Index of the last `c` in `chars`, if there is one.
fn find_last(chars: &Vec<char>, c: char) -> (found: Option<usize>)
    ensures
        match found {
            Some(i) => i == last_index_of(chars@, c),
            None => last_index_of(chars@, c) == -1,
        },
{
    let mut i: usize = chars.len();
    assert(chars@.take(i as int) =~= chars@);
    while i > 0
        invariant
            i <= chars@.len(),
            last_index_of(chars@, c) == last_index_of(chars@.take(i as int), c),
        decreases i,
    {
        let ghost prefix = chars@.take(i as int);
        assert(prefix.last() == chars@[i - 1]);
        assert(prefix.drop_last() =~= chars@.take(i - 1));
        if chars[i - 1] == c {
            return Some(i - 1);
        }
        i -= 1;
    }
    assert(chars@.take(0).len() == 0);
    None
}

/// Whether the separator of `ending` occurs in `chars` at `i`.
fn separator_at(chars: &Vec<char>, ending: LineEndings, i: usize) -> (hit: bool)
    requires
        i < chars@.len(),
    ensures
        hit == sep_at(chars@, separator(ending), i as int),
{
    let ghost sep = separator(ending);
    match ending {
        LineEndings::LR => {
            let hit = chars[i] == '\n';
            proof {
                let piece = chars@.subrange(i as int, i + 1);
                assert(piece[0] == chars@[i as int]);
                if hit {
                    assert(piece =~= sep);
                } else {
                    assert(sep[0] == '\n');
                }
            }
            hit
        },
        LineEndings::CRLF => {
            let len = chars.len();
            if i + 1 < len {
                let hit = chars[i] == '\r' && chars[i + 1] == '\n';
                proof {
                    let piece = chars@.subrange(i as int, i + 2);
                    assert(piece[0] == chars@[i as int]);
                    assert(piece[1] == chars@[i + 1]);
                    if hit {
                        assert(piece =~= sep);
                    } else {
                        assert(sep[0] == '\r' && sep[1] == '\n');
                    }
                }
                hit
            } else {
                false
            }
        },
    }
}

/// Splits the text of a word list into its lines. Nothing is trimmed and
/// nothing is dropped: an empty line is a line, and a text that ends with
/// the separator has an empty last line.
pub fn split_lines(content: &str, ending: LineEndings) -> (lines: Vec<String>)
    ensures
        texts(lines@) == lines_of(content@, ending),
        lines@.len() >= 1,
        join_with(texts(lines@), separator(ending)) == content@,
{
    let chars = chars_of(content);
    let width: usize = match ending {
        LineEndings::LR => 1,
        LineEndings::CRLF => 2,
    };
    let ghost s = chars@;
    let ghost sep = separator(ending);
    let mut lines: Vec<String> = Vec::new();
    let mut start: usize = 0;
    let mut i: usize = 0;
    while i < chars.len()
        invariant
            s == chars@,
            sep == separator(ending),
            width == sep.len(),
            1 <= width <= 2,
            0 <= start <= i <= s.len(),
            next_sep(s, sep, start as int) == next_sep(s, sep, i as int),
            texts(lines@) + split_from(s, sep, start as int) == split_from(s, sep, 0),
        decreases s.len() - i,
    {
        if separator_at(&chars, ending, i) {
            let line = text_of(&chars, start, i);
            proof {
                assert(next_sep(s, sep, start as int) == i);
                assert(split_from(s, sep, start as int) == seq![s.subrange(start as int, i as int)]
                    + split_from(s, sep, i + width));
                assert(texts(lines@.push(line)) =~= texts(lines@).push(line@));
                assert(texts(lines@).push(line@) + split_from(s, sep, i + width) =~= texts(lines@)
                    + (seq![line@] + split_from(s, sep, i + width)));
            }
            lines.push(line);
            i = i + width;
            start = i;
        } else {
            i = i + 1;
        }
    }
    let line = text_of(&chars, start, chars.len());
    proof {
        assert(next_sep(s, sep, start as int) == s.len());
        assert(split_from(s, sep, start as int) == seq![s.skip(start as int)]);
        assert(s.skip(start as int) =~= s.subrange(start as int, s.len() as int));
        assert(texts(lines@.push(line)) =~= texts(lines@).push(line@));
        assert(texts(lines@).push(line@) =~= texts(lines@) + seq![line@]);
        lemma_split_join(s, sep, 0);
        assert(s.skip(0) =~= s);
    }
    lines.push(line);
    lines
}

impl Arguments {
    /// The name of a file without the directories that lead to it.
    /// Backslashes take precedence: a path that holds one is cut after
    /// its last backslash, whatever slashes it holds.
    pub fn get_file_name(filename: String) -> (name: String)
        ensures
            name@ == file_name_of(filename@),
    {
        let chars = chars_of(filename.as_str());
        let len = chars.len();
        proof {
            lemma_last_index_of(chars@, '\\');
            lemma_last_index_of(chars@, '/');
        }
        match find_last(&chars, '\\') {
            Some(i) => {
                let name = text_of(&chars, i + 1, len);
                assert(chars@.skip(i + 1) =~= chars@.subrange(i + 1, chars@.len() as int));
                name
            },
            None => match find_last(&chars, '/') {
                Some(i) => {
                    let name = text_of(&chars, i + 1, len);
                    assert(chars@.skip(i + 1) =~= chars@.subrange(i + 1, chars@.len() as int));
                    name
                },
                None => filename,
            },
        }
    }

    /// Works out whether the lines of a word list end with `\r\n` or with
    /// a bare `\n`. A text without any line feed counts as `\r\n`.
    pub fn get_line_ending(file_contents: String) -> (ending: LineEndings)
        ensures
            ending == line_ending_of(file_contents@),
    {
        let chars = chars_of(file_contents.as_str());
        let ghost s = chars@;
        let mut seen_lf = false;
        let mut seen_crlf = false;
        let mut i: usize = 0;
        while i < chars.len()
            invariant
                s == chars@,
                0 <= i <= s.len(),
                seen_lf == (exists|j: int| 0 <= j < i && lf_at(s, j)),
                seen_crlf == (exists|j: int| j + 1 < i && crlf_at(s, j)),
            decreases s.len() - i,
        {
            if chars[i] == '\n' {
                seen_lf = true;
                assert(lf_at(s, i as int));
                if i > 0 && chars[i - 1] == '\r' {
                    seen_crlf = true;
                    assert(crlf_at(s, i - 1));
                }
            }
            i += 1;
        }
        proof {
            if exists|j: int| lf_at(s, j) {
                let j = choose|j: int| lf_at(s, j);
                assert(0 <= j < i && lf_at(s, j));
            }
            if exists|j: int| crlf_at(s, j) {
                let j = choose|j: int| crlf_at(s, j);
                assert(j + 1 < i && crlf_at(s, j));
            }
        }
        if seen_lf && !seen_crlf {
            LineEndings::LR
        } else {
            LineEndings::CRLF
        }
    }
}

} // verus!
