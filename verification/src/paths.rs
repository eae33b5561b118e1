//! Where a content file lies and where its page goes: paths as sequences of
//! component names, file stems and extensions, and the category that a
//! file's position gives it.

use crate::text::{chars_of, same_text, slice_of, string_of};
use vstd::prelude::*;

verus! {

/// The component names of a path, each as text.
pub open spec fn names(path: Seq<String>) -> Seq<Seq<char>> {
    Seq::new(path.len(), |i: int| path[i]@)
}

/// The position of the last dot in `name`, or -1 where it has none.
pub open spec fn last_dot(name: Seq<char>) -> int
    decreases name.len(),
{
    if name.len() == 0 {
        -1
    } else if name.last() == '.' {
        name.len() - 1
    } else {
        last_dot(name.drop_last())
    }
}

/// Whether `name` has an extension: a last dot that is not its first
/// character. The name `..` has none.
pub open spec fn has_extension(name: Seq<char>) -> bool {
    name != seq!['.', '.'] && last_dot(name) > 0
}

/// `name` up to its extension's dot; all of it where it has no extension.
pub open spec fn file_stem(name: Seq<char>) -> Seq<char> {
    if has_extension(name) {
        name.take(last_dot(name))
    } else {
        name
    }
}

/// What follows the last dot of `name`, where it has an extension.
pub open spec fn extension(name: Seq<char>) -> Option<Seq<char>> {
    if has_extension(name) {
        Some(name.skip(last_dot(name) + 1))
    } else {
        None
    }
}

/// Whether `name` is that of a content file: its extension is `md`.
pub open spec fn is_content_name(name: Seq<char>) -> bool {
    extension(name) == Some("md"@)
}

/// The name of the page made from the file `name`: its stem and `.html`.
pub open spec fn html_name(name: Seq<char>) -> Seq<char> {
    file_stem(name) + ".html"@
}

/// The short name of a file at `path`: the stem of its last component.
pub open spec fn slug_of(path: Seq<Seq<char>>) -> Seq<char> {
    if path.len() == 0 {
        Seq::empty()
    } else {
        file_stem(path.last())
    }
}

/// The path of the page made from the file at `path`, both relative to
/// their roots: the same directories, and the file's name with `.html` for
/// its extension.
pub open spec fn output_path(path: Seq<Seq<char>>) -> Seq<Seq<char>> {
    if path.len() == 0 {
        path
    } else {
        path.drop_last().push(html_name(path.last()))
    }
}

/// `path` without the leading components `root`, where it begins with them
/// and goes on after them.
pub open spec fn relative_to(path: Seq<Seq<char>>, root: Seq<Seq<char>>) -> Option<
    Seq<Seq<char>>,
> {
    if root.len() < path.len() && root.is_prefix_of(path) {
        Some(path.skip(root.len() as int))
    } else {
        None
    }
}

/// `last_dot` is -1 or the position of a dot after which there is none.
pub proof fn lemma_last_dot(name: Seq<char>)
    ensures
        -1 <= last_dot(name) < name.len(),
        last_dot(name) >= 0 ==> name[last_dot(name)] == '.',
        forall|j: int| last_dot(name) < j < name.len() ==> name[j] != '.',
    decreases name.len(),
{
    if name.len() > 0 && name.last() != '.' {
        let front = name.drop_last();
        lemma_last_dot(front);
        assert forall|j: int| last_dot(name) < j < name.len() implies name[j] != '.' by {
            if j < front.len() {
                assert(name[j] == front[j]);
            }
        }
    }
}

/// A position that is -1 or holds a dot, with no dot after it, is `last_dot`.
pub proof fn lemma_last_dot_is(name: Seq<char>, k: int)
    requires
        -1 <= k < name.len(),
        k >= 0 ==> name[k] == '.',
        forall|j: int| k < j < name.len() ==> name[j] != '.',
    ensures
        last_dot(name) == k,
{
    lemma_last_dot(name);
}

/// The position of the last dot of `name` that is not its first character
/// and so starts an extension, if there is one.
fn extension_dot(name: &Vec<char>) -> (dot: Option<usize>)
    ensures
        dot is Some == has_extension(name@),
        dot is Some ==> dot->0 == last_dot(name@) && 0 < dot->0 < name.len(),
{
    let n = name.len();
    let mut i: usize = n;
    while i > 0 && name[i - 1] != '.'
        invariant
            i <= n == name.len(),
            forall|j: int| i <= j < n ==> name@[j] != '.',
        decreases i,
    {
        i -= 1;
    }
    proof {
        lemma_last_dot_is(name@, i - 1);
    }
    if i <= 1 {
        return None;
    }
    if n == 2 && name[0] == '.' {
        assert(name@ =~= seq!['.', '.']);
        return None;
    }
    proof {
        if name@ == seq!['.', '.'] {
            assert(seq!['.', '.'].len() == 2);
            assert(seq!['.', '.'][0] == '.');
        }
    }
    Some(i - 1)
}

/// The stem of a file name: the name up to the dot of its extension.
pub fn stem(name: &str) -> (out: String)
    ensures
        out@ == file_stem(name@),
{
    let chars = chars_of(name);
    match extension_dot(&chars) {
        Some(dot) => {
            let front = slice_of(&chars, 0, dot);
            string_of(&front)
        },
        None => name.to_owned(),
    }
}

/// The extension of a file name: what follows its last dot, where that dot
/// is not the first character.
pub fn extension_of(name: &str) -> (out: Option<String>)
    ensures
        out is Some == extension(name@) is Some,
        out is Some ==> Some(out->0@) == extension(name@),
{
    let chars = chars_of(name);
    match extension_dot(&chars) {
        Some(dot) => {
            let back = slice_of(&chars, dot + 1, chars.len());
            assert(chars@.subrange(dot + 1, chars.len() as int) == chars@.skip(dot + 1));
            Some(string_of(&back))
        },
        None => None,
    }
}

/// Whether a directory entry of this name is a content file.
pub fn is_content_file(name: &str) -> (b: bool)
    ensures
        b == is_content_name(name@),
{
    match extension_of(name) {
        Some(ext) => same_text(ext.as_str(), "md"),
        None => false,
    }
}

/// Whether the entry at `path` is a content file: it has a last component,
/// and that is the name of a content file.
pub fn is_content_path(path: &Vec<String>) -> (b: bool)
    ensures
        b == (path.len() > 0 && is_content_name(names(path@).last())),
{
    path.len() > 0 && is_content_file(path[path.len() - 1].as_str())
}

/// The name of the page that is made from the content file `name`.
pub fn page_name(name: &str) -> (out: String)
    ensures
        out@ == html_name(name@),
{
    let mut out = stem(name);
    out.append(".html");
    out
}

/// A copy of the components `path[from..to]`.
pub fn components(path: &Vec<String>, from: usize, to: usize) -> (out: Vec<String>)
    requires
        from <= to <= path.len(),
    ensures
        names(out@) == names(path@).subrange(from as int, to as int),
{
    let mut out: Vec<String> = Vec::new();
    let mut i: usize = from;
    while i < to
        invariant
            from <= i <= to <= path.len(),
            names(out@) == names(path@).subrange(from as int, i as int),
        decreases to - i,
    {
        let name = path[i].clone();
        assert(name@ == path@[i as int]@);
        assert(names(out@.push(name)) =~= names(out@).push(name@));
        assert(names(path@).subrange(from as int, i + 1) =~= names(path@).subrange(
            from as int,
            i as int,
        ).push(names(path@)[i as int]));
        out.push(name);
        i += 1;
    }
    out
}

/// The part of `path` below `root`.
///
/// `Some` exactly where `path` begins with every component of `root` and
/// has at least one more; the result holds those further components.
pub fn strip_root(path: &Vec<String>, root: &Vec<String>) -> (rest: Option<Vec<String>>)
    ensures
        rest is Some == relative_to(names(path@), names(root@)) is Some,
        rest is Some ==> Some(names(rest->0@)) == relative_to(names(path@), names(root@)),
{
    if root.len() >= path.len() {
        return None;
    }
    let mut i: usize = 0;
    while i < root.len()
        invariant
            i <= root.len() < path.len(),
            forall|k: int| 0 <= k < i ==> names(root@)[k] == names(path@)[k],
        decreases root.len() - i,
    {
        if !same_text(root[i].as_str(), path[i].as_str()) {
            assert(names(path@).subrange(0, root.len() as int)[i as int] != names(root@)[i as int]);
            return None;
        }
        i += 1;
    }
    assert(names(root@) =~= names(path@).subrange(0, root.len() as int));
    let rest = components(path, root.len(), path.len());
    assert(names(path@).subrange(root.len() as int, path.len() as int) == names(path@).skip(
        root.len() as int,
    ));
    Some(rest)
}

/// The short name of the file at `path`: the stem of its last component,
/// and empty for a path without components.
pub fn slug(path: &Vec<String>) -> (out: String)
    ensures
        out@ == slug_of(names(path@)),
{
    if path.len() == 0 {
        String::new()
    } else {
        stem(path[path.len() - 1].as_str())
    }
}

/// Where the page of the content file at `path` goes, relative to the
/// output root: the file's own directories, then its name with `.html` in
/// place of its extension.
pub fn page_path(path: &Vec<String>) -> (out: Vec<String>)
    ensures
        names(out@) == output_path(names(path@)),
{
    let n = path.len();
    if n == 0 {
        let out: Vec<String> = Vec::new();
        assert(names(out@) =~= names(path@));
        out
    } else {
        let mut out = components(path, 0, n - 1);
        let name = page_name(path[n - 1].as_str());
        assert(names(path@).subrange(0, n - 1) == names(path@).drop_last());
        assert(names(out@.push(name)) == names(out@).push(name@));
        out.push(name);
        out
    }
}

/// The name of a content file is its stem, a dot, and `md`.
pub proof fn lemma_content_name_parts(name: Seq<char>)
    requires
        is_content_name(name),
    ensures
        name == file_stem(name) + seq!['.'] + "md"@,
{
    lemma_last_dot(name);
    let dot = last_dot(name);
    assert(name =~= name.take(dot) + seq!['.'] + name.skip(dot + 1));
}

/// Content files at different places get pages at different places.
pub proof fn lemma_page_paths_differ(first: Seq<Seq<char>>, second: Seq<Seq<char>>)
    requires
        first.len() > 0,
        second.len() > 0,
        is_content_name(first.last()),
        is_content_name(second.last()),
        first != second,
    ensures
        output_path(first) != output_path(second),
{
    if output_path(first) == output_path(second) {
        let a = first.last();
        let b = second.last();
        assert(output_path(first).len() == first.len());
        assert(output_path(second).len() == second.len());
        assert(output_path(first).drop_last() =~= first.drop_last());
        assert(output_path(second).drop_last() =~= second.drop_last());
        assert(output_path(first).last() == html_name(a));
        assert(output_path(second).last() == html_name(b));
        let tail = ".html"@;
        assert((file_stem(a) + tail).len() == (file_stem(b) + tail).len());
        assert forall|i: int| 0 <= i < file_stem(a).len() implies file_stem(a)[i] == file_stem(
            b,
        )[i] by {
            assert((file_stem(a) + tail)[i] == file_stem(a)[i]);
            assert((file_stem(b) + tail)[i] == file_stem(b)[i]);
        }
        assert(file_stem(a) =~= file_stem(b));
        lemma_content_name_parts(a);
        lemma_content_name_parts(b);
        assert(first =~= first.drop_last().push(a));
        assert(second =~= second.drop_last().push(b));
        assert(first == second);
    }
}

/// `path` moved from below `root` to below `target`, where it lies below
/// `root`.
pub open spec fn rebased(
    path: Seq<Seq<char>>,
    root: Seq<Seq<char>>,
    target: Seq<Seq<char>>,
) -> Option<Seq<Seq<char>>> {
    match relative_to(path, root) {
        Some(rel) => Some(target + rel),
        None => None,
    }
}

/// Where a file at `path`, below `root`, goes when the tree under `root`
/// is mirrored under `target`: to the same place below `target`. `None`
/// where `path` does not lie below `root`.
pub fn rebase(path: &Vec<String>, root: &Vec<String>, target: &Vec<String>) -> (out: Option<
    Vec<String>,
>)
    ensures
        out is Some == rebased(names(path@), names(root@), names(target@)) is Some,
        out is Some ==> Some(names(out->0@)) == rebased(
            names(path@),
            names(root@),
            names(target@),
        ),
{
    let rel = match strip_root(path, root) {
        Some(rel) => rel,
        None => {
            return None;
        },
    };
    let mut out = components(target, 0, target.len());
    assert(names(target@).subrange(0, target.len() as int) == names(target@));
    let mut i: usize = 0;
    while i < rel.len()
        invariant
            i <= rel.len(),
            out.len() == target.len() + i,
            names(out@) == names(target@) + names(rel@).take(i as int),
        decreases rel.len() - i,
    {
        let name = rel[i].clone();
        assert(name@ == rel@[i as int]@);
        assert(names(out@.push(name)) =~= names(out@).push(name@));
        assert(names(rel@).take(i + 1) =~= names(rel@).take(i as int).push(name@));
        assert(names(out@).push(name@) =~= names(target@) + names(rel@).take(i + 1));
        out.push(name);
        i += 1;
    }
    assert(names(rel@).take(rel.len() as int) == names(rel@));
    Some(out)
}

/// A mirrored file lies below the target as it lay below the root: the
/// directories between are the same, and so is the file's name.
pub proof fn lemma_rebase_keeps_place(
    path: Seq<Seq<char>>,
    root: Seq<Seq<char>>,
    target: Seq<Seq<char>>,
)
    requires
        rebased(path, root, target) is Some,
    ensures
        relative_to(rebased(path, root, target)->0, target) == relative_to(path, root),
{
    let rel = path.skip(root.len() as int);
    let moved = target + rel;
    assert(moved.subrange(0, target.len() as int) =~= target);
    assert(moved.skip(target.len() as int) =~= rel);
}

/// Two files below the root that are mirrored to the same place are one
/// file.
pub proof fn lemma_rebase_is_injective(
    first: Seq<Seq<char>>,
    second: Seq<Seq<char>>,
    root: Seq<Seq<char>>,
    target: Seq<Seq<char>>,
)
    requires
        rebased(first, root, target) is Some,
        rebased(first, root, target) == rebased(second, root, target),
    ensures
        first == second,
{
    lemma_rebase_keeps_place(first, root, target);
    lemma_rebase_keeps_place(second, root, target);
    assert(first =~= root + first.skip(root.len() as int));
    assert(second =~= root + second.skip(root.len() as int));
}

} // verus!
