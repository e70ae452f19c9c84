//! Searching in text: where a character or a pattern first stands, the
//! lines of a text, and the replacement of a pattern.

use vstd::prelude::*;

verus! {

/// The index of the first `mark` in `text`, or the length of `text` where
/// it holds none.
pub open spec fn position(text: Seq<char>, mark: char) -> nat
    decreases text.len(),
{
    if text.len() == 0 {
        0
    } else if text[0] == mark {
        0
    } else {
        1 + position(text.drop_first(), mark)
    }
}

/// Whether `pattern` stands in `text` at the index `at`.
pub open spec fn occurs_at(text: Seq<char>, pattern: Seq<char>, at: int) -> bool {
    0 <= at && at + pattern.len() <= text.len() && text.subrange(at, at + pattern.len())
        == pattern
}

/// The first index at or after `from` at which `pattern` stands in `text`.
pub open spec fn find_from(text: Seq<char>, pattern: Seq<char>, from: int) -> Option<int>
    decreases text.len() - from + 1,
{
    if from < 0 || from + pattern.len() > text.len() {
        None
    } else if occurs_at(text, pattern, from) {
        Some(from)
    } else {
        find_from(text, pattern, from + 1)
    }
}

/// The index at which `pattern` first stands in `text`.
pub open spec fn find(text: Seq<char>, pattern: Seq<char>) -> Option<int> {
    find_from(text, pattern, 0)
}

/// Whether `pattern` stands somewhere in `text`.
pub open spec fn contains(text: Seq<char>, pattern: Seq<char>) -> bool {
    find(text, pattern) is Some
}

/// The first line of a text that is not empty: what stands before the first
/// line feed, without the carriage return that may precede the line feed. A
/// last line that no line feed ends is taken whole.
pub open spec fn first_line(text: Seq<char>) -> Seq<char> {
    let end = position(text, '\n') as int;
    if end < text.len() && end > 0 && text[end - 1] == '\r' {
        text.take(end - 1)
    } else {
        text.take(end)
    }
}

/// The lines of a text. A line feed ends a line; the empty text has no
/// line, and a line feed at the very end starts none.
pub open spec fn lines(text: Seq<char>) -> Seq<Seq<char>>
    decreases text.len(),
{
    let end = position(text, '\n') as int;
    if text.len() == 0 {
        Seq::<Seq<char>>::empty()
    } else if end >= text.len() {
        seq![first_line(text)]
    } else {
        seq![first_line(text)] + lines(text.skip(end + 1))
    }
}

/// Whether `text` ends with `pattern`.
pub open spec fn ends_with(text: Seq<char>, pattern: Seq<char>) -> bool {
    pattern.len() <= text.len() && text.skip(text.len() - pattern.len()) == pattern
}

/// The text in which every `from` is replaced by `to`. The text is read
/// from its beginning, and what follows a replaced `from` is read next, so
/// that the replaced places do not overlap. An empty `from` replaces
/// nothing.
pub open spec fn replaced(text: Seq<char>, from: Seq<char>, to: Seq<char>) -> Seq<char>
    decreases text.len(),
{
    if from.len() == 0 || text.len() < from.len() {
        text
    } else if text.take(from.len() as int) == from {
        to + replaced(text.skip(from.len() as int), from, to)
    } else {
        seq![text[0]] + replaced(text.skip(1), from, to)
    }
}

/// The rows put together, with `separator` between each two of them.
pub open spec fn joined(rows: Seq<Seq<char>>, separator: Seq<char>) -> Seq<char>
    decreases rows.len(),
{
    if rows.len() == 0 {
        Seq::<char>::empty()
    } else if rows.len() == 1 {
        rows[0]
    } else {
        joined(rows.drop_last(), separator) + separator + rows.last()
    }
}

/// The index of the first row that holds `pattern`.
pub open spec fn first_row_with(rows: Seq<Seq<char>>, pattern: Seq<char>) -> Option<int>
    decreases rows.len(),
{
    if rows.len() == 0 {
        None
    } else if contains(rows[0], pattern) {
        Some(0int)
    } else {
        match first_row_with(rows.drop_first(), pattern) {
            Some(at) => Some(at + 1),
            None => None,
        }
    }
}

/// The index of the first row that ends with `pattern`.
pub open spec fn first_row_ending(rows: Seq<Seq<char>>, pattern: Seq<char>) -> Option<int>
    decreases rows.len(),
{
    if rows.len() == 0 {
        None
    } else if ends_with(rows[0], pattern) {
        Some(0int)
    } else {
        match first_row_ending(rows.drop_first(), pattern) {
            Some(at) => Some(at + 1),
            None => None,
        }
    }
}

/// The first `mark` lies within the text, or at its end where there is
/// none; nothing before it is a `mark`.
pub proof fn lemma_position(text: Seq<char>, mark: char)
    ensures
        position(text, mark) <= text.len(),
        position(text, mark) < text.len() ==> text[position(text, mark) as int] == mark,
        forall|i: int| 0 <= i < position(text, mark) ==> text[i] != mark,
    decreases text.len(),
{
    if text.len() > 0 && text[0] != mark {
        let rest = text.drop_first();
        lemma_position(rest, mark);
        assert forall|i: int| 0 <= i < position(text, mark) implies text[i] != mark by {
            if i > 0 {
                assert(text[i] == rest[i - 1]);
            }
        }
    }
}

/// An index at which `mark` stands, with no `mark` before it, is the
/// position of `mark`; so is the length, where the text holds no `mark`.
pub proof fn lemma_position_is(text: Seq<char>, mark: char, at: int)
    requires
        0 <= at <= text.len(),
        at < text.len() ==> text[at] == mark,
        forall|i: int| 0 <= i < at ==> text[i] != mark,
    ensures
        position(text, mark) == at,
    decreases text.len(),
{
    if text.len() > 0 && at > 0 {
        let rest = text.drop_first();
        assert forall|i: int| 0 <= i < at - 1 implies rest[i] != mark by {
            assert(rest[i] == text[i + 1]);
        }
        lemma_position_is(rest, mark, at - 1);
    }
}

/// What `find_from` gives is the least index, from `from` on, at which the
/// pattern stands.
pub proof fn lemma_find_from(text: Seq<char>, pattern: Seq<char>, from: int)
    requires
        0 <= from,
    ensures
        match find_from(text, pattern, from) {
            Some(at) => {
                &&& from <= at
                &&& occurs_at(text, pattern, at)
                &&& forall|i: int| from <= i < at ==> !#[trigger] occurs_at(text, pattern, i)
            },
            None => forall|i: int| from <= i ==> !#[trigger] occurs_at(text, pattern, i),
        },
    decreases text.len() - from + 1,
{
    if from + pattern.len() <= text.len() && !occurs_at(text, pattern, from) {
        lemma_find_from(text, pattern, from + 1);
    }
}

/// Copies the characters of a string.
pub fn to_chars(text: &str) -> (chars: Vec<char>)
    ensures
        chars@ == text@,
{
    let mut chars: Vec<char> = Vec::new();
    for c in it: text.chars()
        invariant
            it.seq() == text@,
            chars@ == it.seq().take(it.index()),
    {
        chars.push(c);
        assert(chars@ =~= it.seq().take(it.index() + 1));
    }
    assert(chars@ =~= text@);
    chars
}

/// The index of the first `mark` in `text[lo..hi]`, counted from `lo`.
pub(crate) fn seek(text: &Vec<char>, lo: usize, hi: usize, mark: char) -> (offset: usize)
    requires
        lo <= hi <= text.len(),
    ensures
        offset == position(text@.subrange(lo as int, hi as int), mark),
        lo + offset <= hi,
{
    let ghost part = text@.subrange(lo as int, hi as int);
    let mut i: usize = lo;
    while i < hi && text[i] != mark
        invariant
            lo <= i <= hi <= text.len(),
            part == text@.subrange(lo as int, hi as int),
            forall|k: int| 0 <= k < i - lo ==> part[k] != mark,
        decreases hi - i,
    {
        i += 1;
    }
    proof {
        lemma_position_is(part, mark, i - lo);
    }
    i - lo
}

/// Whether `pattern` stands in `text` at `at`, with `at + pattern.len()`
/// not beyond `hi`.
pub(crate) fn matches_at(text: &Vec<char>, at: usize, pattern: &Vec<char>) -> (same: bool)
    requires
        at + pattern.len() <= text.len(),
    ensures
        same == (text@.subrange(at as int, at + pattern.len()) == pattern@),
{
    let ghost part = text@.subrange(at as int, at + pattern.len());
    let mut j: usize = 0;
    while j < pattern.len()
        invariant
            at + pattern.len() <= text.len(),
            j <= pattern.len(),
            part == text@.subrange(at as int, at + pattern.len()),
            forall|k: int| 0 <= k < j ==> part[k] == pattern@[k],
        decreases pattern.len() - j,
    {
        if text[at + j] != pattern[j] {
            assert(part[j as int] != pattern@[j as int]);
            return false;
        }
        j += 1;
    }
    assert(part =~= pattern@);
    true
}

/// The index at which `pattern` first stands in `text[lo..hi]`, counted
/// from `lo`.
pub(crate) fn find_in(text: &Vec<char>, lo: usize, hi: usize, pattern: &Vec<char>) -> (found: Option<usize>)
    requires
        lo <= hi <= text.len(),
    ensures
        match found {
            Some(offset) => find(text@.subrange(lo as int, hi as int), pattern@) == Some(
                offset as int,
            ) && lo + offset + pattern.len() <= hi,
            None => find(text@.subrange(lo as int, hi as int), pattern@) is None,
        },
{
    let ghost part = text@.subrange(lo as int, hi as int);
    if pattern.len() > hi - lo {
        return None;
    }
    let last: usize = hi - pattern.len();
    let mut i: usize = lo;
    loop
        invariant
            lo <= i <= last,
            last + pattern.len() == hi,
            hi <= text.len(),
            part == text@.subrange(lo as int, hi as int),
            find(part, pattern@) == find_from(part, pattern@, i - lo),
        decreases last - i,
    {
        let same = matches_at(text, i, pattern);
        assert(part.subrange(i - lo, i - lo + pattern.len()) =~= text@.subrange(
            i as int,
            i + pattern.len(),
        ));
        if same {
            return Some(i - lo);
        }
        if i == last {
            assert(find_from(part, pattern@, i - lo + 1) is None);
            return None;
        }
        i += 1;
    }
}

/// A part of a text: the characters from `start` up to, not including,
/// `stop`.
#[derive(Clone, Copy, Debug, PartialEq, Eq, Structural)]
pub struct Span {
    pub start: usize,
    pub stop: usize,
}

/// The parts of `text` that the spans stand for.
pub open spec fn span_texts(text: Seq<char>, spans: Seq<Span>) -> Seq<Seq<char>> {
    spans.map_values(|span: Span| text.subrange(span.start as int, span.stop as int))
}

/// Whether each span lies within a text of length `len`.
pub open spec fn spans_within(spans: Seq<Span>, len: nat) -> bool {
    forall|k: int| 0 <= k < spans.len() ==> (#[trigger] spans[k]).start <= spans[k].stop <= len
}

/// Where the lines of a text stand in it.
pub(crate) fn line_spans(text: &Vec<char>) -> (spans: Vec<Span>)
    ensures
        spans_within(spans@, text@.len()),
        span_texts(text@, spans@) == lines(text@),
{
    let mut spans: Vec<Span> = Vec::new();
    let mut start: usize = 0;
    assert(text@.skip(0) =~= text@);
    assert(span_texts(text@, spans@) + lines(text@) =~= lines(text@));
    while start < text.len()
        invariant
            start <= text.len(),
            spans_within(spans@, text@.len()),
            span_texts(text@, spans@) + lines(text@.skip(start as int)) == lines(text@),
        decreases text.len() - start,
    {
        let ghost tail = text@.skip(start as int);
        let ghost before = spans@;
        assert(tail =~= text@.subrange(start as int, text.len() as int));
        let end: usize = start + seek(text, start, text.len(), '\n');
        let stop: usize = if end < text.len() && end > start && text[end - 1] == '\r' {
            end - 1
        } else {
            end
        };
        assert(first_line(tail) =~= text@.subrange(start as int, stop as int));
        spans.push(Span { start, stop });
        assert(span_texts(text@, spans@) =~= span_texts(text@, before).push(first_line(tail)));
        if end < text.len() {
            assert(tail.skip(end - start + 1) =~= text@.skip(end + 1));
            assert(span_texts(text@, spans@) + lines(text@.skip(end + 1)) =~= span_texts(
                text@,
                before,
            ) + lines(tail));
            start = end + 1;
        } else {
            assert(text@.skip(end as int) =~= Seq::<char>::empty());
            assert(span_texts(text@, spans@) + lines(text@.skip(end as int)) =~= span_texts(
                text@,
                before,
            ) + lines(tail));
            start = end;
        }
    }
    assert(text@.skip(start as int) =~= Seq::<char>::empty());
    assert(span_texts(text@, spans@) + lines(text@.skip(start as int)) =~= span_texts(
        text@,
        spans@,
    ));
    spans
}

/// The text of an edit, where there is one.
pub open spec fn text_of(edited: Option<String>) -> Option<Seq<char>> {
    match edited {
        Some(text) => Some(text@),
        None => None,
    }
}

/// The index of the first row from `from` on that holds `pattern`.
pub(crate) fn row_with(text: &Vec<char>, spans: &Vec<Span>, from: usize, pattern: &Vec<char>) -> (found:
    Option<usize>)
    requires
        spans_within(spans@, text@.len()),
        from <= spans.len(),
    ensures
        match found {
            Some(row) => from <= row < spans.len() && first_row_with(
                span_texts(text@, spans@).skip(from as int),
                pattern@,
            ) == Some(row - from),
            None => first_row_with(span_texts(text@, spans@).skip(from as int), pattern@) is None,
        },
{
    let ghost rows = span_texts(text@, spans@);
    let mut k: usize = from;
    while k < spans.len()
        invariant
            from <= k <= spans.len(),
            spans_within(spans@, text@.len()),
            rows == span_texts(text@, spans@),
            match first_row_with(rows.skip(k as int), pattern@) {
                Some(at) => first_row_with(rows.skip(from as int), pattern@) == Some(
                    at + k - from,
                ),
                None => first_row_with(rows.skip(from as int), pattern@) is None,
            },
        decreases spans.len() - k,
    {
        let span = spans[k];
        assert(rows.skip(k as int)[0] == text@.subrange(span.start as int, span.stop as int));
        assert(rows.skip(k as int).drop_first() =~= rows.skip(k + 1));
        if find_in(text, span.start, span.stop, pattern).is_some() {
            return Some(k);
        }
        k += 1;
    }
    None
}

/// The index of the first row from `from` on that ends with `pattern`.
pub(crate) fn row_ending(text: &Vec<char>, spans: &Vec<Span>, from: usize, pattern: &Vec<char>) -> (found:
    Option<usize>)
    requires
        spans_within(spans@, text@.len()),
        from <= spans.len(),
    ensures
        match found {
            Some(row) => from <= row < spans.len() && first_row_ending(
                span_texts(text@, spans@).skip(from as int),
                pattern@,
            ) == Some(row - from),
            None => first_row_ending(span_texts(text@, spans@).skip(from as int), pattern@)
                is None,
        },
{
    let ghost rows = span_texts(text@, spans@);
    let mut k: usize = from;
    while k < spans.len()
        invariant
            from <= k <= spans.len(),
            spans_within(spans@, text@.len()),
            rows == span_texts(text@, spans@),
            match first_row_ending(rows.skip(k as int), pattern@) {
                Some(at) => first_row_ending(rows.skip(from as int), pattern@) == Some(
                    at + k - from,
                ),
                None => first_row_ending(rows.skip(from as int), pattern@) is None,
            },
        decreases spans.len() - k,
    {
        let span = spans[k];
        let ghost row = text@.subrange(span.start as int, span.stop as int);
        assert(rows.skip(k as int)[0] == row);
        assert(rows.skip(k as int).drop_first() =~= rows.skip(k + 1));
        if pattern.len() <= span.stop - span.start {
            assert(row.skip(row.len() - pattern@.len()) =~= text@.subrange(
                span.stop - pattern@.len(),
                span.stop as int,
            ));
            if matches_at(text, span.stop - pattern.len(), pattern) {
                return Some(k);
            }
        }
        k += 1;
    }
    None
}

/// Tells whether `pattern` stands somewhere in `text`.
pub fn has(text: &str, pattern: &str) -> (found: bool)
    ensures
        found == contains(text@, pattern@),
{
    let chars = to_chars(text);
    let wanted = to_chars(pattern);
    assert(chars@.subrange(0, chars@.len() as int) =~= chars@);
    find_in(&chars, 0, chars.len(), &wanted).is_some()
}

/// Replaces every `from` in `text` by `to`.
pub fn replace_all(text: &str, from: &str, to: &str) -> (result: String)
    ensures
        result@ == replaced(text@, from@, to@),
{
    let chars = to_chars(text);
    let wanted = to_chars(from);
    let n: usize = chars.len();
    let m: usize = wanted.len();
    if m == 0 {
        return String::from_str(text);
    }
    let mut result = String::new();
    let mut kept: usize = 0;
    let mut i: usize = 0;
    assert(chars@.skip(0) =~= chars@);
    assert(result@ + chars@.subrange(0, 0) + replaced(chars@, from@, to@) =~= replaced(
        chars@,
        from@,
        to@,
    ));
    while i < n && m <= n - i
        invariant
            kept <= i <= n,
            n == chars@.len(),
            m == wanted@.len(),
            m > 0,
            chars@ == text@,
            wanted@ == from@,
            result@ + chars@.subrange(kept as int, i as int) + replaced(
                chars@.skip(i as int),
                from@,
                to@,
            ) == replaced(text@, from@, to@),
        decreases n - i,
    {
        let ghost tail = chars@.skip(i as int);
        let ghost done = result@;
        assert(tail.take(m as int) =~= chars@.subrange(i as int, i + m));
        if matches_at(&chars, i, &wanted) {
            result.append(text.substring_char(kept, i));
            result.append(to);
            assert(tail.skip(m as int) =~= chars@.skip(i + m));
            assert(result@ + chars@.subrange(i + m, i + m) + replaced(
                chars@.skip(i + m),
                from@,
                to@,
            ) =~= done + chars@.subrange(kept as int, i as int) + replaced(tail, from@, to@));
            i += m;
            kept = i;
        } else {
            assert(tail.skip(1) =~= chars@.skip(i + 1));
            assert(result@ + chars@.subrange(kept as int, i + 1) + replaced(
                chars@.skip(i + 1),
                from@,
                to@,
            ) =~= done + chars@.subrange(kept as int, i as int) + replaced(tail, from@, to@));
            i += 1;
        }
    }
    result.append(text.substring_char(kept, n));
    proof {
        let tail = chars@.skip(i as int);
        assert(replaced(tail, from@, to@) == tail);
        assert(chars@.subrange(kept as int, n as int) =~= chars@.subrange(kept as int, i as int)
            + tail);
    }
    result
}

} // verus!
