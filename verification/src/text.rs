//! Lines, words and white space of a text.

use vstd::prelude::*;

verus! {

/// Whether a character beyond ASCII is white space as `char::is_whitespace`
/// tells it.
pub uninterp spec fn wide_white_space(c: char) -> bool;

/// Whether a character is white space. In ASCII these are the space and the
/// characters from the tabulator to the carriage return.
pub open spec fn is_white_space(c: char) -> bool {
    if (c as u32) < 128 {
        c == ' ' || ('\t' as u32) <= (c as u32) <= ('\r' as u32)
    } else {
        wide_white_space(c)
    }
}

/// `char::is_whitespace`.
///
/// Trusted: the answer depends on the character alone, and in ASCII it is
/// yes for the space and for U+0009 to U+000D, and no for every other
/// character.
#[verifier::external_body]
pub(crate) fn char_is_whitespace(c: char) -> (r: bool)
    ensures
        (c as u32) < 128 ==> r == (c == ' ' || ('\t' as u32) <= (c as u32) <= ('\r' as u32)),
        (c as u32) >= 128 ==> r == wide_white_space(c),
{
    c.is_whitespace()
}

/// The views of a list of strings.
pub open spec fn views(strings: Seq<String>) -> Seq<Seq<char>> {
    strings.map_values(|s: String| s@)
}

/// A line without the carriage return at its end, if it has one.
pub open spec fn strip_cr(line: Seq<char>) -> Seq<char> {
    if line.len() > 0 && line.last() == '\r' {
        line.drop_last()
    } else {
        line
    }
}

/// Reading a text from left to right: the lines that a line feed has closed
/// so far, and the characters of the line that is still open.
pub open spec fn lines_scan(text: Seq<char>) -> (Seq<Seq<char>>, Seq<char>)
    decreases text.len(),
{
    if text.len() == 0 {
        (Seq::empty(), Seq::empty())
    } else {
        let (closed, open) = lines_scan(text.drop_last());
        if text.last() == '\n' {
            (closed.push(strip_cr(open)), Seq::empty())
        } else {
            (closed, open.push(text.last()))
        }
    }
}

/// The lines of a text. A line ends at a line feed, or at a carriage return
/// directly before one; neither belongs to the line. What follows the last
/// line feed is a line of its own if it is not empty.
pub open spec fn lines(text: Seq<char>) -> Seq<Seq<char>> {
    let (closed, open) = lines_scan(text);
    if open.len() > 0 {
        closed.push(open)
    } else {
        closed
    }
}

/// Reading a text from left to right: the words that white space has closed
/// so far, and the characters of the word that is still open.
pub open spec fn words_scan(text: Seq<char>) -> (Seq<Seq<char>>, Seq<char>)
    decreases text.len(),
{
    if text.len() == 0 {
        (Seq::empty(), Seq::empty())
    } else {
        let (closed, open) = words_scan(text.drop_last());
        if is_white_space(text.last()) {
            if open.len() > 0 {
                (closed.push(open), Seq::empty())
            } else {
                (closed, open)
            }
        } else {
            (closed, open.push(text.last()))
        }
    }
}

/// The words of a text: its longest runs of characters that are no white
/// space, from left to right.
pub open spec fn words(text: Seq<char>) -> Seq<Seq<char>> {
    let (closed, open) = words_scan(text);
    if open.len() > 0 {
        closed.push(open)
    } else {
        closed
    }
}

/// The text without the white space at its start.
pub open spec fn trim_start(text: Seq<char>) -> Seq<char>
    decreases text.len(),
{
    if text.len() > 0 && is_white_space(text[0]) {
        trim_start(text.drop_first())
    } else {
        text
    }
}

/// The text without the white space at its end.
pub open spec fn trim_end(text: Seq<char>) -> Seq<char>
    decreases text.len(),
{
    if text.len() > 0 && is_white_space(text.last()) {
        trim_end(text.drop_last())
    } else {
        text
    }
}

/// The text without the white space at its two ends.
pub open spec fn trimmed(text: Seq<char>) -> Seq<char> {
    trim_end(trim_start(text))
}

/// The place of the first line feed in a text, or its length where it has
/// none.
pub open spec fn line_end(text: Seq<char>) -> int
    decreases text.len(),
{
    if text.len() == 0 || text[0] == '\n' {
        0
    } else {
        1 + line_end(text.drop_first())
    }
}

/// The text up to its first line feed, or all of it where it has none.
pub open spec fn first_line(text: Seq<char>) -> Seq<char> {
    text.take(line_end(text))
}

/// Tells whether `text` begins with `prefix`.
pub fn starts_with(text: &str, prefix: &str) -> (r: bool)
    ensures
        r == prefix@.is_prefix_of(text@),
{
    let n = prefix.unicode_len();
    if text.unicode_len() < n {
        return false;
    }
    let mut i: usize = 0;
    while i < n
        invariant
            i <= n,
            n == prefix@.len(),
            n <= text@.len(),
            forall|j: int| 0 <= j < i ==> text@[j] == prefix@[j],
        decreases n - i,
    {
        if text.get_char(i) != prefix.get_char(i) {
            assert(text@.subrange(0, n as int)[i as int] != prefix@[i as int]);
            return false;
        }
        i += 1;
    }
    assert(prefix@ =~= text@.subrange(0, n as int));
    true
}

/// Splits a text into its lines.
pub fn split_lines(text: &str) -> (out: Vec<String>)
    ensures
        views(out@) == lines(text@),
{
    let total = text.unicode_len();
    let mut out: Vec<String> = Vec::new();
    let mut start: usize = 0;
    let mut idx: usize = 0;
    let mut after_cr = false;
    assert(views(out@) =~= Seq::<Seq<char>>::empty());
    assert(text@.subrange(0, 0) =~= Seq::<char>::empty());
    for c in it: text.chars()
        invariant
            it.seq() == text@,
            idx == it.index(),
            total == text@.len(),
            start <= idx <= total,
            lines_scan(text@.take(idx as int)) == (
                views(out@),
                text@.subrange(start as int, idx as int),
            ),
            after_cr == (start < idx && text@[idx - 1] == '\r'),
    {
        proof {
            assert(text@.take(idx as int + 1).drop_last() =~= text@.take(idx as int));
            assert(text@.take(idx as int + 1).last() == c);
        }
        if c == '\n' {
            let end = if after_cr { idx - 1 } else { idx };
            let line = text.substring_char(start, end);
            let ghost before = out@;
            out.push(String::from_str(line));
            proof {
                let open = text@.subrange(start as int, idx as int);
                assert(line@ =~= strip_cr(open));
                assert(views(out@) =~= views(before).push(line@));
                assert(text@.subrange(idx as int + 1, idx as int + 1) =~= Seq::<char>::empty());
            }
            start = idx + 1;
            after_cr = false;
        } else {
            proof {
                assert(text@.subrange(start as int, idx as int + 1) =~= text@.subrange(
                    start as int,
                    idx as int,
                ).push(c));
            }
            after_cr = c == '\r';
        }
        idx += 1;
    }
    proof {
        assert(text@.take(idx as int) =~= text@);
    }
    if start < idx {
        let line = text.substring_char(start, idx);
        let ghost before = out@;
        out.push(String::from_str(line));
        assert(views(out@) =~= views(before).push(line@));
    }
    out
}

/// Splits a text into its words.
pub fn split_words(text: &str) -> (out: Vec<String>)
    ensures
        views(out@) == words(text@),
{
    let total = text.unicode_len();
    let mut out: Vec<String> = Vec::new();
    let mut start: usize = 0;
    let mut idx: usize = 0;
    assert(views(out@) =~= Seq::<Seq<char>>::empty());
    assert(text@.subrange(0, 0) =~= Seq::<char>::empty());
    for c in it: text.chars()
        invariant
            it.seq() == text@,
            idx == it.index(),
            total == text@.len(),
            start <= idx <= total,
            words_scan(text@.take(idx as int)) == (
                views(out@),
                text@.subrange(start as int, idx as int),
            ),
    {
        proof {
            assert(text@.take(idx as int + 1).drop_last() =~= text@.take(idx as int));
            assert(text@.take(idx as int + 1).last() == c);
        }
        if char_is_whitespace(c) {
            if start < idx {
                let word = text.substring_char(start, idx);
                let ghost before = out@;
                out.push(String::from_str(word));
                assert(views(out@) =~= views(before).push(word@));
            }
            proof {
                assert(text@.subrange(start as int, idx as int).len() == idx - start);
                assert(text@.subrange(idx as int + 1, idx as int + 1) =~= Seq::<char>::empty());
                assert(text@.subrange(start as int, start as int) =~= Seq::<char>::empty());
            }
            start = idx + 1;
        } else {
            proof {
                assert(text@.subrange(start as int, idx as int + 1) =~= text@.subrange(
                    start as int,
                    idx as int,
                ).push(c));
            }
        }
        idx += 1;
    }
    proof {
        assert(text@.take(idx as int) =~= text@);
    }
    if start < idx {
        let word = text.substring_char(start, idx);
        let ghost before = out@;
        out.push(String::from_str(word));
        assert(views(out@) =~= views(before).push(word@));
    }
    out
}

/// White space up to a place, and none at it, is what `trim_start` drops.
pub proof fn lemma_trim_start(text: Seq<char>, n: int)
    requires
        0 <= n <= text.len(),
        forall|j: int| 0 <= j < n ==> is_white_space(#[trigger] text[j]),
        n == text.len() || !is_white_space(text[n]),
    ensures
        trim_start(text) == text.subrange(n, text.len() as int),
    decreases n,
{
    if n == 0 {
        assert(text.subrange(0, text.len() as int) =~= text);
    } else {
        let rest = text.drop_first();
        assert forall|j: int| 0 <= j < n - 1 implies is_white_space(#[trigger] rest[j]) by {
            assert(rest[j] == text[j + 1]);
        }
        lemma_trim_start(rest, n - 1);
        assert(rest.subrange(n - 1, rest.len() as int) =~= text.subrange(n, text.len() as int));
    }
}

/// White space from a place on, and none before it, is what `trim_end` drops.
pub proof fn lemma_trim_end(text: Seq<char>, n: int)
    requires
        0 <= n <= text.len(),
        forall|j: int| n <= j < text.len() ==> is_white_space(#[trigger] text[j]),
        n == 0 || !is_white_space(text[n - 1]),
    ensures
        trim_end(text) == text.subrange(0, n),
    decreases text.len() - n,
{
    if n == text.len() {
        assert(text.subrange(0, n) =~= text);
    } else {
        let rest = text.drop_last();
        assert forall|j: int| n <= j < rest.len() implies is_white_space(#[trigger] rest[j]) by {
            assert(rest[j] == text[j]);
        }
        lemma_trim_end(rest, n);
        assert(rest.subrange(0, n) =~= text.subrange(0, n));
    }
}

/// The text without the white space at its two ends.
pub fn trim(text: &str) -> (out: String)
    ensures
        out@ == trimmed(text@),
{
    let total = text.unicode_len();
    let mut found = false;
    let mut first: usize = 0;
    let mut end: usize = 0;
    let mut idx: usize = 0;
    for c in it: text.chars()
        invariant
            it.seq() == text@,
            idx == it.index(),
            total == text@.len(),
            idx <= total,
            !found ==> forall|j: int| 0 <= j < idx ==> is_white_space(#[trigger] text@[j]),
            found ==> {
                &&& first < end <= idx
                &&& forall|j: int| 0 <= j < first ==> is_white_space(#[trigger] text@[j])
                &&& !is_white_space(text@[first as int])
                &&& !is_white_space(text@[end - 1])
                &&& forall|j: int| end <= j < idx ==> is_white_space(#[trigger] text@[j])
            },
    {
        if !char_is_whitespace(c) {
            if !found {
                found = true;
                first = idx;
            }
            end = idx + 1;
        }
        idx += 1;
    }
    if found {
        let middle = text.substring_char(first, end);
        proof {
            lemma_trim_start(text@, first as int);
            let tail = text@.subrange(first as int, text@.len() as int);
            assert forall|j: int| end - first <= j < tail.len() implies is_white_space(
                #[trigger] tail[j],
            ) by {
                assert(tail[j] == text@[first + j]);
            }
            assert(tail[end - first - 1] == text@[end - 1]);
            lemma_trim_end(tail, end - first);
            assert(tail.subrange(0, end - first) =~= middle@);
        }
        String::from_str(middle)
    } else {
        proof {
            lemma_trim_start(text@, text@.len() as int);
            let tail = text@.subrange(text@.len() as int, text@.len() as int);
            assert(tail =~= Seq::<char>::empty());
        }
        String::new()
    }
}

/// What `trim_start` gives is the end of the text, and does not begin with
/// white space.
pub proof fn lemma_trim_start_shape(text: Seq<char>)
    ensures
        trim_start(text).len() <= text.len(),
        trim_start(text) == text.skip(text.len() - trim_start(text).len()),
        trim_start(text).len() > 0 ==> !is_white_space(trim_start(text)[0]),
    decreases text.len(),
{
    if text.len() > 0 && is_white_space(text[0]) {
        let rest = text.drop_first();
        lemma_trim_start_shape(rest);
        let kept = trim_start(rest);
        assert(rest.skip(rest.len() - kept.len()) =~= text.skip(text.len() - kept.len()));
    } else {
        assert(text.skip(0) =~= text);
    }
}

/// What `trim_end` gives is the start of the text, and does not end with
/// white space.
pub proof fn lemma_trim_end_shape(text: Seq<char>)
    ensures
        trim_end(text).len() <= text.len(),
        trim_end(text) == text.take(trim_end(text).len() as int),
        trim_end(text).len() > 0 ==> !is_white_space(trim_end(text).last()),
        text.len() > 0 && !is_white_space(text[0]) ==> trim_end(text).len() > 0,
    decreases text.len(),
{
    if text.len() > 0 && is_white_space(text.last()) {
        let rest = text.drop_last();
        lemma_trim_end_shape(rest);
        let kept = trim_end(rest);
        assert(rest.take(kept.len() as int) =~= text.take(kept.len() as int));
        if text.len() > 0 && !is_white_space(text[0]) {
            assert(rest.len() > 0);
            assert(rest[0] == text[0]);
        }
    } else {
        assert(text.take(text.len() as int) =~= text);
    }
}

/// A text that neither begins nor ends with white space is its own trimmed
/// form.
pub proof fn lemma_trimmed_fixed(text: Seq<char>)
    requires
        text.len() > 0 ==> !is_white_space(text[0]) && !is_white_space(text.last()),
    ensures
        trimmed(text) == text,
{
}

/// Trimming twice gives what trimming once gives.
pub proof fn lemma_trimmed_twice(text: Seq<char>)
    ensures
        trimmed(trimmed(text)) == trimmed(text),
{
    let inner = trim_start(text);
    lemma_trim_start_shape(text);
    lemma_trim_end_shape(inner);
    let kept = trim_end(inner);
    if kept.len() > 0 {
        assert(kept[0] == inner[0]);
    }
    lemma_trimmed_fixed(kept);
}

/// The first line ends where the first line feed stands.
pub proof fn lemma_line_end(text: Seq<char>)
    ensures
        0 <= line_end(text) <= text.len(),
        forall|j: int| 0 <= j < line_end(text) ==> #[trigger] text[j] != '\n',
        line_end(text) == text.len() || text[line_end(text)] == '\n',
    decreases text.len(),
{
    if !(text.len() == 0 || text[0] == '\n') {
        let rest = text.drop_first();
        lemma_line_end(rest);
        assert forall|j: int| 0 <= j < line_end(text) implies #[trigger] text[j] != '\n' by {
            if j > 0 {
                assert(rest[j - 1] == text[j]);
            }
        }
    }
}

/// The text up to its first line feed, or all of it where it has none.
pub fn first_line_of(text: &str) -> (line: &str)
    ensures
        line@ == first_line(text@),
{
    let total = text.unicode_len();
    let mut found = false;
    let mut end: usize = 0;
    let mut idx: usize = 0;
    for c in it: text.chars()
        invariant
            it.seq() == text@,
            idx == it.index(),
            total == text@.len(),
            idx <= total,
            !found ==> end == idx && forall|j: int| 0 <= j < idx ==> #[trigger] text@[j] != '\n',
            found ==> {
                &&& end < idx
                &&& text@[end as int] == '\n'
                &&& forall|j: int| 0 <= j < end ==> #[trigger] text@[j] != '\n'
            },
    {
        if !found {
            if c == '\n' {
                found = true;
            } else {
                end = idx + 1;
            }
        }
        idx += 1;
    }
    proof {
        lemma_line_end(text@);
        let at = line_end(text@);
        if at < end {
            assert(text@[at] != '\n');
        }
        if end < at {
            assert(text@[end as int] != '\n');
        }
    }
    text.substring_char(0, end)
}

} // verus!
