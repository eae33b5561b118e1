//! The optional metadata header of a content file: a block of `key: value`
//! lines between two lines that hold exactly `---`.

use crate::text::{
    chars_of, has_prefix, is_single_line, is_whitespace, join_lines, joined,
    lemma_lines_are_single, lemma_lines_of_joined, lemma_trim_ignores_trailing_whitespace,
    line_views, lines, split_lines, string_of, strip_cr, trim, trimmed_from,
};
use vstd::prelude::*;

verus! {

/// The line that opens and closes a frontmatter block.
pub open spec fn delimiter() -> Seq<char> {
    seq!['-', '-', '-']
}

/// The first position at or after `from` of a line equal to the delimiter,
/// or `ls.len()` where there is none.
pub open spec fn next_delimiter(ls: Seq<Seq<char>>, from: int) -> int
    decreases ls.len() - from,
{
    if from < 0 || from >= ls.len() {
        ls.len() as int
    } else if ls[from] == delimiter() {
        from
    } else {
        next_delimiter(ls, from + 1)
    }
}

/// Whether the first line of `content` is the delimiter.
pub open spec fn has_frontmatter(content: Seq<char>) -> bool {
    let ls = lines(content);
    ls.len() > 0 && ls[0] == delimiter()
}

/// The lines of the frontmatter block: those between the opening delimiter
/// and the next one, or up to the end of the text where the block is never
/// closed. Empty where the text opens with no delimiter.
pub open spec fn frontmatter_lines(content: Seq<char>) -> Seq<Seq<char>> {
    let ls = lines(content);
    if has_frontmatter(content) {
        ls.subrange(1, next_delimiter(ls, 1))
    } else {
        Seq::empty()
    }
}

/// The frontmatter block of `content` as text, each line ended by a line feed.
pub open spec fn frontmatter_of(content: Seq<char>) -> Seq<char> {
    join_lines(frontmatter_lines(content))
}

/// The body of `content`: the text itself where it has no frontmatter, else
/// the lines after the closing delimiter, each ended by a line feed.
pub open spec fn body_of(content: Seq<char>) -> Seq<char> {
    let ls = lines(content);
    if !has_frontmatter(content) {
        content
    } else if next_delimiter(ls, 1) < ls.len() {
        join_lines(ls.skip(next_delimiter(ls, 1) + 1))
    } else {
        Seq::empty()
    }
}

/// What a metadata line for `key` begins with: the key and a colon.
pub open spec fn key_prefix(key: Seq<char>) -> Seq<char> {
    key.push(':')
}

/// The first position at or after `from` of a line that begins with
/// `prefix`, or `ls.len()` where there is none.
pub open spec fn next_with_prefix(ls: Seq<Seq<char>>, prefix: Seq<char>, from: int) -> int
    decreases ls.len() - from,
{
    if from < 0 || from >= ls.len() {
        ls.len() as int
    } else if prefix.is_prefix_of(ls[from]) {
        from
    } else {
        next_with_prefix(ls, prefix, from + 1)
    }
}

/// The value that `block` gives to `key`: what follows the key and the colon
/// on the first line that begins with them, trimmed.
pub open spec fn metadata_value(block: Seq<char>, key: Seq<char>) -> Option<Seq<char>> {
    let ls = lines(block);
    let prefix = key_prefix(key);
    let at = next_with_prefix(ls, prefix, 0);
    if at < ls.len() {
        Some(trim(ls[at].skip(prefix.len() as int)))
    } else {
        None
    }
}

/// `next_delimiter` lies between `from` and the end, no line from `from` up
/// to it is the delimiter, and where it lies before the end the line there is.
pub proof fn lemma_next_delimiter(ls: Seq<Seq<char>>, from: int)
    requires
        0 <= from <= ls.len(),
    ensures
        from <= next_delimiter(ls, from) <= ls.len(),
        forall|j: int| from <= j < next_delimiter(ls, from) ==> ls[j] != delimiter(),
        next_delimiter(ls, from) < ls.len() ==> ls[next_delimiter(ls, from)] == delimiter(),
    decreases ls.len() - from,
{
    if from < ls.len() && ls[from] != delimiter() {
        lemma_next_delimiter(ls, from + 1);
    }
}

/// `next_with_prefix` lies between `from` and the end, no line from `from` up
/// to it begins with `prefix`, and where it lies before the end the line
/// there does.
pub proof fn lemma_next_with_prefix(ls: Seq<Seq<char>>, prefix: Seq<char>, from: int)
    requires
        0 <= from <= ls.len(),
    ensures
        from <= next_with_prefix(ls, prefix, from) <= ls.len(),
        forall|j: int|
            from <= j < next_with_prefix(ls, prefix, from) ==> !prefix.is_prefix_of(ls[j]),
        next_with_prefix(ls, prefix, from) < ls.len() ==> prefix.is_prefix_of(
            ls[next_with_prefix(ls, prefix, from)],
        ),
    decreases ls.len() - from,
{
    if from < ls.len() && !prefix.is_prefix_of(ls[from]) {
        lemma_next_with_prefix(ls, prefix, from + 1);
    }
}

/// Whether `line` is the delimiter.
pub fn is_delimiter(line: &Vec<char>) -> (b: bool)
    ensures
        b == (line@ == delimiter()),
{
    let b = line.len() == 3 && line[0] == '-' && line[1] == '-' && line[2] == '-';
    proof {
        if b {
            assert(line@ =~= delimiter());
        }
    }
    b
}

/// Separates the frontmatter block of `content` from its body.
///
/// Where the first line is `---`, the block runs up to the next such line,
/// which belongs to neither part, and the body is what follows it. A block
/// that is never closed takes every remaining line and leaves the body
/// empty. Where the first line is anything else, the block is empty and the
/// body is `content` unchanged.
pub fn split_frontmatter(content: &str) -> (parts: (String, String))
    ensures
        parts.0@ == frontmatter_of(content@),
        parts.1@ == body_of(content@),
{
    let chars = chars_of(content);
    let ls = split_lines(&chars);
    let n = ls.len();
    if n > 0 && is_delimiter(&ls[0]) {
        let mut close: usize = 1;
        while close < n && !is_delimiter(&ls[close])
            invariant
                1 <= close <= n == ls.len(),
                line_views(ls@) == lines(content@),
                next_delimiter(lines(content@), 1) == next_delimiter(
                    lines(content@),
                    close as int,
                ),
            decreases n - close,
        {
            close += 1;
        }
        let front = joined(&ls, 1, close);
        let body = if close < n {
            let rest = joined(&ls, close + 1, n);
            assert(line_views(ls@).subrange(close + 1, n as int) == line_views(ls@).skip(
                close + 1,
            ));
            rest
        } else {
            Vec::new()
        };
        (string_of(&front), string_of(&body))
    } else {
        assert(join_lines(Seq::<Seq<char>>::empty()) == Seq::<char>::empty());
        (String::new(), content.to_owned())
    }
}

/// Looks `key` up in a frontmatter block.
///
/// Returns the trimmed rest of the first line that begins with the key
/// directly followed by a colon, and `None` where no line does. The match is
/// exact and case-sensitive, and the value is handed back as it stands.
pub fn extract_metadata(content: &str, key: &str) -> (value: Option<String>)
    ensures
        value is Some == metadata_value(content@, key@) is Some,
        value is Some ==> Some(value->0@) == metadata_value(content@, key@),
{
    let chars = chars_of(content);
    let ls = split_lines(&chars);
    let mut prefix = chars_of(key);
    prefix.push(':');
    let n = ls.len();
    let mut at: usize = 0;
    while at < n && !has_prefix(&ls[at], &prefix)
        invariant
            at <= n == ls.len(),
            line_views(ls@) == lines(content@),
            prefix@ == key_prefix(key@),
            next_with_prefix(lines(content@), prefix@, 0) == next_with_prefix(
                lines(content@),
                prefix@,
                at as int,
            ),
        decreases n - at,
    {
        at += 1;
    }
    if at < n {
        assert(prefix@.is_prefix_of(ls@[at as int]@));
        let value = trimmed_from(&ls[at], prefix.len());
        Some(string_of(&value))
    } else {
        None
    }
}

/// A carriage return at the end of a line neither makes nor hides a key, and
/// does not show in the key's value.
pub proof fn lemma_carriage_return_is_ignored(line: Seq<char>, key: Seq<char>)
    ensures
        key_prefix(key).is_prefix_of(strip_cr(line)) == key_prefix(key).is_prefix_of(line),
        key_prefix(key).is_prefix_of(line) ==> trim(
            strip_cr(line).skip(key_prefix(key).len() as int),
        ) == trim(line.skip(key_prefix(key).len() as int)),
{
    let prefix = key_prefix(key);
    let n = prefix.len() as int;
    if line.len() > 0 && line.last() == '\r' {
        let short = line.drop_last();
        assert(prefix[n - 1] == ':');
        if prefix.is_prefix_of(line) {
            assert(line.subrange(0, n)[n - 1] == ':');
            assert(n < line.len());
            assert(short.subrange(0, n) == line.subrange(0, n));
            assert(line.skip(n) == short.skip(n).push('\r'));
            assert(is_whitespace('\r'));
            lemma_trim_ignores_trailing_whitespace(short.skip(n), '\r');
        }
        if prefix.is_prefix_of(short) {
            assert(short.subrange(0, n) == line.subrange(0, n));
        }
    }
}

/// A text that opens with no delimiter has an empty frontmatter block, is
/// its own body, and gives no key a value.
pub proof fn lemma_without_frontmatter(content: Seq<char>, key: Seq<char>)
    requires
        !has_frontmatter(content),
    ensures
        frontmatter_of(content) == Seq::<char>::empty(),
        body_of(content) == content,
        metadata_value(frontmatter_of(content), key) is None,
{
    assert(join_lines(Seq::<Seq<char>>::empty()) == Seq::<char>::empty());
    assert(lines(Seq::<char>::empty()) == Seq::<Seq<char>>::empty());
}

/// A block that is opened and never closed takes every line after the
/// opening one, and leaves an empty body.
pub proof fn lemma_unclosed_frontmatter(content: Seq<char>)
    requires
        has_frontmatter(content),
        forall|i: int| 1 <= i < lines(content).len() ==> lines(content)[i] != delimiter(),
    ensures
        frontmatter_lines(content) == lines(content).skip(1),
        body_of(content) == Seq::<char>::empty(),
{
    let ls = lines(content);
    lemma_next_delimiter(ls, 1);
    assert(ls.subrange(1, ls.len() as int) == ls.skip(1));
}

/// A block closed at line `close` holds the lines between the opening line
/// and that one; the body is made of the lines after it.
pub proof fn lemma_closed_frontmatter(content: Seq<char>, close: int)
    requires
        has_frontmatter(content),
        1 <= close < lines(content).len(),
        lines(content)[close] == delimiter(),
        forall|i: int| 1 <= i < close ==> lines(content)[i] != delimiter(),
    ensures
        frontmatter_lines(content) == lines(content).subrange(1, close),
        body_of(content) == join_lines(lines(content).skip(close + 1)),
{
    lemma_next_delimiter(lines(content), 1);
}

/// Where line `at` of `content` lies inside the frontmatter block and is the
/// first line of the block that begins with `key` and a colon, the block
/// gives `key` the trimmed rest of that line, whatever the other lines of
/// the block hold and wherever among them the line stands.
pub proof fn lemma_first_key_line_gives_value(content: Seq<char>, key: Seq<char>, at: int)
    requires
        has_frontmatter(content),
        1 <= at < next_delimiter(lines(content), 1),
        key_prefix(key).is_prefix_of(lines(content)[at]),
        forall|j: int| 1 <= j < at ==> !key_prefix(key).is_prefix_of(lines(content)[j]),
    ensures
        metadata_value(frontmatter_of(content), key) == Some(
            trim(lines(content)[at].skip(key_prefix(key).len() as int)),
        ),
{
    let ls = lines(content);
    let prefix = key_prefix(key);
    lemma_next_delimiter(ls, 1);
    let block = frontmatter_lines(content);
    lemma_lines_are_single(content);
    assert forall|i: int| 0 <= i < block.len() implies is_single_line(#[trigger] block[i]) by {
        assert(block[i] == ls[i + 1]);
    }
    lemma_lines_of_joined(block);
    let again = lines(frontmatter_of(content));
    assert forall|j: int| 0 <= j < at - 1 implies !prefix.is_prefix_of(#[trigger] again[j]) by {
        assert(block[j] == ls[j + 1]);
        lemma_carriage_return_is_ignored(ls[j + 1], key);
    }
    assert(block[at - 1] == ls[at]);
    lemma_carriage_return_is_ignored(ls[at], key);
    assert(prefix.is_prefix_of(again[at - 1]));
    lemma_next_with_prefix(again, prefix, 0);
}

} // verus!
