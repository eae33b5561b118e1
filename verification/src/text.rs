//! Character-level text primitives: conversion between strings and
//! character vectors, whitespace, trimming, prefixes and line splitting.

use vstd::prelude::*;

verus! {

/// `String::push` appends exactly one character to the end of the string.
pub assume_specification[ String::push ](s: &mut String, ch: char)
    ensures
        final(s)@ == old(s)@.push(ch),
;

/// The characters of `s`, in order.
pub fn chars_of(s: &str) -> (chars: Vec<char>)
    ensures
        chars@ == s@,
{
    let mut chars: Vec<char> = Vec::new();
    for c in it: s.chars()
        invariant
            it.seq() == s@,
            chars@ == it.seq().take(it.index() as int),
    {
        chars.push(c);
    }
    chars
}

/// The string made of `chars`, in order.
pub fn string_of(chars: &Vec<char>) -> (s: String)
    ensures
        s@ == chars@,
{
    let mut s = String::new();
    let mut i: usize = 0;
    while i < chars.len()
        invariant
            i <= chars.len(),
            s@ == chars@.take(i as int),
        decreases chars.len() - i,
    {
        s.push(chars[i]);
        i += 1;
    }
    s
}

/// Whether `c` has the Unicode `White_Space` property.
pub open spec fn is_whitespace(c: char) -> bool {
    let u = c as u32;
    ||| 0x09 <= u <= 0x0D
    ||| u == 0x20
    ||| u == 0x85
    ||| u == 0xA0
    ||| u == 0x1680
    ||| 0x2000 <= u <= 0x200A
    ||| u == 0x2028
    ||| u == 0x2029
    ||| u == 0x202F
    ||| u == 0x205F
    ||| u == 0x3000
}

/// Decides [`is_whitespace`].
pub fn char_is_whitespace(c: char) -> (b: bool)
    ensures
        b == is_whitespace(c),
{
    let u: u32 = c as u32;
    (0x09 <= u && u <= 0x0D) || u == 0x20 || u == 0x85 || u == 0xA0 || u == 0x1680 || (0x2000
        <= u && u <= 0x200A) || u == 0x2028 || u == 0x2029 || u == 0x202F || u == 0x205F || u
        == 0x3000
}

/// `s` without its leading whitespace.
pub open spec fn trim_start(s: Seq<char>) -> Seq<char>
    decreases s.len(),
{
    if s.len() > 0 && is_whitespace(s[0]) {
        trim_start(s.skip(1))
    } else {
        s
    }
}

/// `s` without its trailing whitespace.
pub open spec fn trim_end(s: Seq<char>) -> Seq<char>
    decreases s.len(),
{
    if s.len() > 0 && is_whitespace(s.last()) {
        trim_end(s.drop_last())
    } else {
        s
    }
}

/// `s` without its leading and trailing whitespace.
pub open spec fn trim(s: Seq<char>) -> Seq<char> {
    trim_end(trim_start(s))
}

/// The characters of `chars` at positions `from..to`.
pub fn slice_of(chars: &Vec<char>, from: usize, to: usize) -> (out: Vec<char>)
    requires
        from <= to <= chars.len(),
    ensures
        out@ == chars@.subrange(from as int, to as int),
{
    let mut out: Vec<char> = Vec::new();
    let mut i: usize = from;
    while i < to
        invariant
            from <= i <= to <= chars.len(),
            out@ == chars@.subrange(from as int, i as int),
        decreases to - i,
    {
        out.push(chars[i]);
        i += 1;
    }
    out
}

/// The part of `chars` from position `from` on, trimmed at both ends.
pub fn trimmed_from(chars: &Vec<char>, from: usize) -> (out: Vec<char>)
    requires
        from <= chars.len(),
    ensures
        out@ == trim(chars@.skip(from as int)),
{
    let len = chars.len();
    let mut i: usize = from;
    while i < len && char_is_whitespace(chars[i])
        invariant
            from <= i <= len == chars.len(),
            trim_start(chars@.skip(from as int)) == trim_start(chars@.skip(i as int)),
        decreases len - i,
    {
        assert(chars@.skip(i as int).skip(1) == chars@.skip(i + 1));
        i += 1;
    }
    assert(trim_start(chars@.skip(i as int)) == chars@.skip(i as int));
    assert(chars@.skip(i as int) == chars@.subrange(i as int, len as int));
    let mut j: usize = len;
    while j > i && char_is_whitespace(chars[j - 1])
        invariant
            i <= j <= len == chars.len(),
            trim_end(chars@.subrange(i as int, len as int)) == trim_end(
                chars@.subrange(i as int, j as int),
            ),
        decreases j,
    {
        assert(chars@.subrange(i as int, j as int).drop_last() == chars@.subrange(
            i as int,
            j - 1,
        ));
        j -= 1;
    }
    assert(trim_end(chars@.subrange(i as int, j as int)) == chars@.subrange(i as int, j as int));
    slice_of(chars, i, j)
}

/// Whether `line` begins with `prefix`.
pub fn has_prefix(line: &Vec<char>, prefix: &Vec<char>) -> (b: bool)
    ensures
        b == prefix@.is_prefix_of(line@),
{
    if prefix.len() > line.len() {
        return false;
    }
    let mut i: usize = 0;
    while i < prefix.len()
        invariant
            i <= prefix.len() <= line.len(),
            forall|k: int| 0 <= k < i ==> prefix@[k] == line@[k],
        decreases prefix.len() - i,
    {
        if prefix[i] != line[i] {
            assert(line@.subrange(0, prefix.len() as int)[i as int] != prefix@[i as int]);
            return false;
        }
        i += 1;
    }
    assert(prefix@ =~= line@.subrange(0, prefix.len() as int));
    true
}

/// Whether two character vectors hold the same text.
pub fn same_chars(a: &Vec<char>, b: &Vec<char>) -> (eq: bool)
    ensures
        eq == (a@ == b@),
{
    if a.len() != b.len() {
        return false;
    }
    let mut i: usize = 0;
    while i < a.len()
        invariant
            i <= a.len() == b.len(),
            forall|k: int| 0 <= k < i ==> a@[k] == b@[k],
        decreases a.len() - i,
    {
        if a[i] != b[i] {
            return false;
        }
        i += 1;
    }
    assert(a@ =~= b@);
    true
}

/// Whether two strings hold the same text.
pub fn same_text(a: &str, b: &str) -> (eq: bool)
    ensures
        eq == (a@ == b@),
{
    let left = chars_of(a);
    let right = chars_of(b);
    same_chars(&left, &right)
}

/// The position of the first line feed in `s`, or `s.len()` where it has none.
pub open spec fn first_newline(s: Seq<char>) -> int
    decreases s.len(),
{
    if s.len() == 0 || s[0] == '\n' {
        0
    } else {
        1 + first_newline(s.skip(1))
    }
}

/// `line` without one trailing carriage return.
pub open spec fn strip_cr(line: Seq<char>) -> Seq<char> {
    if line.len() > 0 && line.last() == '\r' {
        line.drop_last()
    } else {
        line
    }
}

/// The lines of `s`. A line ends at a line feed, or at a carriage return
/// directly followed by one; the terminator is not part of the line. The
/// last line needs no terminator, and an empty text has no lines.
pub open spec fn lines(s: Seq<char>) -> Seq<Seq<char>>
    decreases s.len(),
{
    let k = first_newline(s);
    if s.len() == 0 {
        Seq::empty()
    } else if k < 0 || k >= s.len() {
        seq![s]
    } else {
        seq![strip_cr(s.take(k))] + lines(s.skip(k + 1))
    }
}

/// Every line followed by a line feed, one after the other.
pub open spec fn join_lines(ls: Seq<Seq<char>>) -> Seq<char>
    decreases ls.len(),
{
    if ls.len() == 0 {
        Seq::empty()
    } else {
        join_lines(ls.drop_last()) + ls.last().push('\n')
    }
}

/// The texts held by a vector of character vectors.
pub open spec fn line_views(v: Seq<Vec<char>>) -> Seq<Seq<char>> {
    Seq::new(v.len(), |i: int| v[i]@)
}

/// `first_newline` lies within the text, nothing before it is a line feed,
/// and where it lies inside the text it is one.
pub proof fn lemma_first_newline_bounds(s: Seq<char>)
    ensures
        0 <= first_newline(s) <= s.len(),
        forall|j: int| 0 <= j < first_newline(s) ==> s[j] != '\n',
        first_newline(s) < s.len() ==> s[first_newline(s)] == '\n',
    decreases s.len(),
{
    if s.len() == 0 || s[0] == '\n' {
    } else {
        let t = s.skip(1);
        lemma_first_newline_bounds(t);
        assert forall|j: int| 0 <= j < first_newline(s) implies s[j] != '\n' by {
            if j > 0 {
                assert(s[j] == t[j - 1]);
            }
        }
        if first_newline(s) < s.len() {
            assert(s[first_newline(s)] == t[first_newline(t)]);
        }
    }
}

/// A position with no line feed before it that is the end of the text or a
/// line feed is `first_newline`.
pub proof fn lemma_first_newline_is(s: Seq<char>, k: int)
    requires
        0 <= k <= s.len(),
        forall|j: int| 0 <= j < k ==> s[j] != '\n',
        k < s.len() ==> s[k] == '\n',
    ensures
        first_newline(s) == k,
    decreases s.len(),
{
    if s.len() == 0 || s[0] == '\n' {
    } else {
        let t = s.skip(1);
        assert forall|j: int| 0 <= j < k - 1 implies t[j] != '\n' by {
            assert(t[j] == s[j + 1]);
        }
        lemma_first_newline_is(t, k - 1);
    }
}

/// Splits `chars` into its lines.
pub fn split_lines(chars: &Vec<char>) -> (out: Vec<Vec<char>>)
    ensures
        line_views(out@) == lines(chars@),
{
    let len = chars.len();
    let mut out: Vec<Vec<char>> = Vec::new();
    let mut start: usize = 0;
    let mut i: usize = 0;
    assert(chars@.skip(0) == chars@);
    assert(line_views(out@) + lines(chars@) == lines(chars@));
    while i < len
        invariant
            start <= i <= len == chars.len(),
            forall|j: int| start <= j < i ==> chars@[j] != '\n',
            lines(chars@) == line_views(out@) + lines(chars@.skip(start as int)),
        decreases len - i,
    {
        if chars[i] == '\n' {
            let end: usize = if i > start && chars[i - 1] == '\r' {
                i - 1
            } else {
                i
            };
            let line = slice_of(chars, start, end);
            proof {
                let rest = chars@.skip(start as int);
                lemma_first_newline_is(rest, i - start);
                assert(rest.take(i - start) == chars@.subrange(start as int, i as int));
                assert(rest.skip(i - start + 1) == chars@.skip(i + 1));
                assert(strip_cr(chars@.subrange(start as int, i as int)) == line@);
                assert(lines(rest) == seq![line@] + lines(chars@.skip(i + 1)));
                assert(line_views(out@.push(line)) == line_views(out@) + seq![line@]);
            }
            out.push(line);
            start = i + 1;
        }
        i += 1;
    }
    if start < len {
        let line = slice_of(chars, start, len);
        proof {
            let rest = chars@.skip(start as int);
            lemma_first_newline_is(rest, len - start);
            assert(line@ == rest);
            assert(line_views(out@.push(line)) == line_views(out@) + seq![line@]);
        }
        out.push(line);
    } else {
        assert(line_views(out@) + lines(chars@.skip(start as int)) == line_views(out@));
    }
    out
}

/// Appends every line of `ls[from..to]`, each followed by a line feed.
pub fn joined(ls: &Vec<Vec<char>>, from: usize, to: usize) -> (out: Vec<char>)
    requires
        from <= to <= ls.len(),
    ensures
        out@ == join_lines(line_views(ls@).subrange(from as int, to as int)),
{
    let mut out: Vec<char> = Vec::new();
    let mut i: usize = from;
    while i < to
        invariant
            from <= i <= to <= ls.len(),
            out@ == join_lines(line_views(ls@).subrange(from as int, i as int)),
        decreases to - i,
    {
        let line = &ls[i];
        let mut k: usize = 0;
        while k < line.len()
            invariant
                k <= line.len(),
                from <= i < to <= ls.len(),
                line@ == ls@[i as int]@,
                out@ == join_lines(line_views(ls@).subrange(from as int, i as int)) + line@.take(
                    k as int,
                ),
            decreases line.len() - k,
        {
            out.push(line[k]);
            assert(line@.take(k + 1) == line@.take(k as int).push(line@[k as int]));
            k += 1;
        }
        out.push('\n');
        proof {
            let next = line_views(ls@).subrange(from as int, i + 1);
            assert(next.drop_last() == line_views(ls@).subrange(from as int, i as int));
            assert(next.last() == line@);
            assert(line@.take(line.len() as int) == line@);
        }
        i += 1;
    }
    out
}

/// Whether `line` holds no line feed.
pub open spec fn is_single_line(line: Seq<char>) -> bool {
    forall|j: int| 0 <= j < line.len() ==> line[j] != '\n'
}

/// Trimming does not see a whitespace character added at the end.
pub proof fn lemma_trim_ignores_trailing_whitespace(s: Seq<char>, w: char)
    requires
        is_whitespace(w),
    ensures
        trim(s.push(w)) == trim(s),
    decreases s.len(),
{
    let t = s.push(w);
    if s.len() == 0 {
        assert(t.skip(1) == Seq::<char>::empty());
        assert(trim_start(t.skip(1)) == Seq::<char>::empty());
        assert(trim_start(t) == Seq::<char>::empty());
    } else if is_whitespace(s[0]) {
        assert(t.skip(1) == s.skip(1).push(w));
        lemma_trim_ignores_trailing_whitespace(s.skip(1), w);
    } else {
        assert(t.drop_last() == s);
    }
}

/// No line of a text holds a line feed.
pub proof fn lemma_lines_are_single(s: Seq<char>)
    ensures
        forall|i: int| 0 <= i < lines(s).len() ==> is_single_line(#[trigger] lines(s)[i]),
    decreases s.len(),
{
    lemma_first_newline_bounds(s);
    let k = first_newline(s);
    if s.len() == 0 {
    } else if k >= s.len() {
    } else {
        let rest = s.skip(k + 1);
        lemma_lines_are_single(rest);
        assert forall|i: int| 0 <= i < lines(s).len() implies is_single_line(
            #[trigger] lines(s)[i],
        ) by {
            if i == 0 {
                let head = strip_cr(s.take(k));
                assert forall|j: int| 0 <= j < head.len() implies head[j] != '\n' by {
                    assert(head[j] == s[j]);
                }
            } else {
                assert(lines(s)[i] == lines(rest)[i - 1]);
            }
        }
    }
}

/// Joining puts the first line, with its line feed, before the others.
pub proof fn lemma_join_lines_front(line: Seq<char>, rest: Seq<Seq<char>>)
    ensures
        join_lines(seq![line] + rest) == line.push('\n') + join_lines(rest),
    decreases rest.len(),
{
    let all = seq![line] + rest;
    if rest.len() == 0 {
        assert(all.drop_last() == Seq::<Seq<char>>::empty());
        assert(join_lines(all.drop_last()) == Seq::<char>::empty());
        assert(all.last() == line);
        assert(join_lines(all) =~= line.push('\n') + join_lines(rest));
    } else {
        assert(all.drop_last() == seq![line] + rest.drop_last());
        assert(all.last() == rest.last());
        lemma_join_lines_front(line, rest.drop_last());
        assert(join_lines(all) =~= line.push('\n') + join_lines(rest));
    }
}

/// A text that begins with a line and its line feed has that line, less a
/// trailing carriage return, as its first, and then the lines of what follows.
pub proof fn lemma_lines_front(line: Seq<char>, rest: Seq<char>)
    requires
        is_single_line(line),
    ensures
        lines(line.push('\n') + rest) == seq![strip_cr(line)] + lines(rest),
{
    let s = line.push('\n') + rest;
    let k = line.len() as int;
    assert forall|j: int| 0 <= j < k implies s[j] != '\n' by {
        assert(s[j] == line[j]);
    }
    assert(s[k] == '\n');
    lemma_first_newline_is(s, k);
    assert(s.take(k) == line);
    assert(s.skip(k + 1) == rest);
}

/// Splitting joined lines gives the same lines back, each less a trailing
/// carriage return.
pub proof fn lemma_lines_of_joined(ls: Seq<Seq<char>>)
    requires
        forall|i: int| 0 <= i < ls.len() ==> is_single_line(#[trigger] ls[i]),
    ensures
        lines(join_lines(ls)).len() == ls.len(),
        forall|i: int| 0 <= i < ls.len() ==> #[trigger] lines(join_lines(ls))[i] == strip_cr(ls[i]),
    decreases ls.len(),
{
    if ls.len() == 0 {
    } else {
        let rest = ls.skip(1);
        assert(ls == seq![ls[0]] + rest);
        lemma_join_lines_front(ls[0], rest);
        lemma_lines_front(ls[0], join_lines(rest));
        assert forall|i: int| 0 <= i < rest.len() implies is_single_line(#[trigger] rest[i]) by {
            assert(rest[i] == ls[i + 1]);
        }
        lemma_lines_of_joined(rest);
        assert forall|i: int| 0 <= i < ls.len() implies #[trigger] lines(join_lines(ls))[i]
            == strip_cr(ls[i]) by {
            if i > 0 {
                assert(lines(join_lines(ls))[i] == lines(join_lines(rest))[i - 1]);
                assert(rest[i - 1] == ls[i]);
            }
        }
    }
}

} // verus!
