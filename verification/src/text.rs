//! Text and path helpers over the character view of strings.

use vstd::prelude::*;
use vstd::string::*;

verus! {

/// `s` ends with `suffix`.
pub open spec fn has_suffix(s: Seq<char>, suffix: Seq<char>) -> bool {
    s.len() >= suffix.len() && s.subrange(s.len() - suffix.len(), s.len() as int) == suffix
}

/// `s` starts with `prefix`.
pub open spec fn has_prefix(s: Seq<char>, prefix: Seq<char>) -> bool {
    s.len() >= prefix.len() && s.subrange(0, prefix.len() as int) == prefix
}

/// `needle` occurs somewhere inside `haystack`.
pub open spec fn occurs_in(haystack: Seq<char>, needle: Seq<char>) -> bool {
    exists|i: int|
        0 <= i && i + needle.len() <= haystack.len() && #[trigger] haystack.subrange(
            i,
            i + needle.len(),
        ) == needle
}

/// The file name `name` carries the extension `ext`: it ends with a dot
/// followed by `ext`, and something stands before that dot. A name that is
/// only a dot and the extension, such as `.md`, is a hidden file without an
/// extension.
pub open spec fn has_extension(name: Seq<char>, ext: Seq<char>) -> bool {
    name.len() > ext.len() + 1 && has_suffix(name, seq!['.'] + ext)
}

/// What is left of `name` once the dot and the extension `ext` are cut off.
pub open spec fn stem(name: Seq<char>, ext: Seq<char>) -> Seq<char> {
    name.take(name.len() - ext.len() - 1)
}

/// `name` with its extension `from` replaced by `to`.
pub open spec fn with_extension(name: Seq<char>, from: Seq<char>, to: Seq<char>) -> Seq<char> {
    stem(name, from) + seq!['.'] + to
}

/// The path of `rel` inside the directory `base`. An empty base is the current
/// directory, so the result is `rel` itself; a base that already ends with a
/// separator gets no second one.
pub open spec fn joined(base: Seq<char>, rel: Seq<char>) -> Seq<char> {
    if base.len() == 0 {
        rel
    } else if base.last() == '/' {
        base + rel
    } else {
        base + seq!['/'] + rel
    }
}

/// `dir` followed by a separator and `name`.
pub open spec fn child_path(dir: Seq<char>, name: Seq<char>) -> Seq<char> {
    dir + seq!['/'] + name
}

/// What stands before a relative path once it is put inside the directory
/// `base`: the base and its separator.
pub open spec fn dir_prefix(base: Seq<char>) -> Seq<char> {
    joined(base, Seq::empty())
}

/// The path lies inside the directory `dir`, at any depth.
pub open spec fn is_under(path: Seq<char>, dir: Seq<char>) -> bool {
    has_prefix(path, dir + seq!['/'])
}

/// The directory `inner` is `dir` itself or lies inside it.
pub open spec fn is_within(inner: Seq<char>, dir: Seq<char>) -> bool {
    inner == dir || is_under(inner, dir)
}

/// A name as a directory listing gives it: not empty, and without a
/// separator in it.
pub open spec fn plain_name(name: Seq<char>) -> bool {
    name.len() > 0 && forall|i: int| 0 <= i < name.len() ==> name[i] != '/'
}

/// Whether two strings hold the same characters.
pub fn same_text(a: &str, b: &str) -> (same: bool)
    ensures
        same == (a@ == b@),
{
    let left = String::from_str(a);
    let right = String::from_str(b);
    left == right
}

/// Whether `s` ends with `suffix`.
pub fn ends_with(s: &str, suffix: &str) -> (found: bool)
    ensures
        found == has_suffix(s@, suffix@),
{
    let n: usize = s.unicode_len();
    let m: usize = suffix.unicode_len();
    if n < m {
        return false;
    }
    same_text(s.substring_char(n - m, n), suffix)
}

/// Whether `needle` occurs inside `haystack`.
pub fn contains(haystack: &str, needle: &str) -> (found: bool)
    ensures
        found == occurs_in(haystack@, needle@),
{
    let n: usize = haystack.unicode_len();
    let m: usize = needle.unicode_len();
    if n < m {
        return false;
    }
    let last: usize = n - m;
    let mut i: usize = 0;
    loop
        invariant
            n == haystack@.len(),
            m == needle@.len(),
            last == n - m,
            i <= last,
            forall|j: int| 0 <= j < i ==> #[trigger] haystack@.subrange(j, j + m) != needle@,
        decreases last - i,
    {
        if same_text(haystack.substring_char(i, i + m), needle) {
            return true;
        }
        if i == last {
            return false;
        }
        i = i + 1;
    }
}

/// The name without its extension, where it carries `ext`; `None` where it
/// does not.
pub fn strip_extension(name: &str, ext: &str) -> (cut: Option<String>)
    ensures
        cut is Some <==> has_extension(name@, ext@),
        cut matches Some(s) ==> s@ == stem(name@, ext@),
{
    let n: usize = name.unicode_len();
    let m: usize = ext.unicode_len();
    if n <= m || n - m <= 1 {
        return None;
    }
    let mut dotted = String::from_str(".");
    dotted.append(ext);
    proof {
        reveal_strlit(".");
        assert("."@ =~= seq!['.']);
    }
    if same_text(name.substring_char(n - m - 1, n), dotted.as_str()) {
        Some(String::from_str(name.substring_char(0, n - m - 1)))
    } else {
        None
    }
}

/// Whether the file name carries the extension `ext`.
pub fn carries_extension(name: &str, ext: &str) -> (found: bool)
    ensures
        found == has_extension(name@, ext@),
{
    strip_extension(name, ext).is_some()
}

/// `dir`, a separator, and `name`.
pub fn child_of(dir: &str, name: &str) -> (path: String)
    ensures
        path@ == child_path(dir@, name@),
{
    let mut path = String::from_str(dir);
    path.append("/");
    path.append(name);
    proof {
        reveal_strlit("/");
        assert("/"@ =~= seq!['/']);
    }
    path
}

/// The path of `rel` inside the directory `base`.
pub fn join_path(base: &str, rel: &str) -> (path: String)
    ensures
        path@ == joined(base@, rel@),
{
    let n: usize = base.unicode_len();
    if n == 0 {
        return String::from_str(rel);
    }
    let mut path = String::from_str(base);
    if base.get_char(n - 1) != '/' {
        path.append("/");
    }
    path.append(rel);
    proof {
        reveal_strlit("/");
        assert("/"@ =~= seq!['/']);
    }
    path
}

/// A path inside a directory is the directory's prefix and the relative
/// path behind it.
pub proof fn lemma_joined_starts_with_prefix(base: Seq<char>, rel: Seq<char>)
    ensures
        joined(base, rel) == dir_prefix(base) + rel,
{
    let none = Seq::<char>::empty();
    if base.len() == 0 {
        assert(none + rel == rel);
    } else if base.last() == '/' {
        assert(base + none == base);
    } else {
        assert(base + seq!['/'] + none == base + seq!['/']);
    }
}

/// A common start does not change whether one text opens another.
pub proof fn lemma_prefix_cancels(start: Seq<char>, a: Seq<char>, b: Seq<char>)
    ensures
        has_prefix(start + a, start + b) == has_prefix(a, b),
{
    let n = start.len() as int;
    if a.len() >= b.len() {
        let left = (start + a).subrange(0, n + b.len());
        if has_prefix(a, b) {
            assert(left == start + b);
        }
        if has_prefix(start + a, start + b) {
            assert forall|i: int| 0 <= i < b.len() implies a.subrange(0, b.len() as int)[i]
                == b[i] by {
                assert(left[n + i] == (start + b)[n + i]);
            }
            assert(a.subrange(0, b.len() as int) == b);
        }
    }
}

/// What opens the opening of a text opens the text.
pub proof fn lemma_prefix_of_prefix(text: Seq<char>, middle: Seq<char>, start: Seq<char>)
    requires
        has_prefix(text, middle),
        has_prefix(middle, start),
    ensures
        has_prefix(text, start),
{
    assert forall|i: int| 0 <= i < start.len() implies text.subrange(0, start.len() as int)[i]
        == start[i] by {
        assert(middle.subrange(0, start.len() as int)[i] == start[i]);
        assert(text.subrange(0, middle.len() as int)[i] == middle[i]);
    }
    assert(text.subrange(0, start.len() as int) == start);
}

/// What opens a text opens every longer text too.
pub proof fn lemma_prefix_survives_append(text: Seq<char>, start: Seq<char>, more: Seq<char>)
    requires
        has_prefix(text, start),
    ensures
        has_prefix(text + more, start),
{
    assert((text + more).subrange(0, start.len() as int) == text.subrange(0, start.len() as int));
}

/// A directory that lies inside `dir` holds only what lies inside `dir`.
pub proof fn lemma_under_is_transitive(path: Seq<char>, inner: Seq<char>, dir: Seq<char>)
    requires
        is_under(path, inner),
        is_within(inner, dir),
    ensures
        is_under(path, dir),
{
    if inner != dir {
        lemma_prefix_survives_append(inner, dir + seq!['/'], seq!['/']);
        lemma_prefix_of_prefix(path, inner + seq!['/'], dir + seq!['/']);
    }
}

/// A path in a directory that is within `dir` lies inside `dir`.
pub proof fn lemma_child_is_under(inner: Seq<char>, name: Seq<char>, dir: Seq<char>)
    requires
        is_within(inner, dir),
    ensures
        is_under(child_path(inner, name), dir),
{
    let path = child_path(inner, name);
    assert(path.subrange(0, (inner.len() + 1) as int) == inner + seq!['/']);
    lemma_under_is_transitive(path, inner, dir);
}

/// A plain name lies inside no directory.
pub proof fn lemma_plain_name_is_under_nothing(name: Seq<char>, dir: Seq<char>)
    requires
        plain_name(name),
    ensures
        !is_under(name, dir),
{
    if is_under(name, dir) {
        let opening = dir + seq!['/'];
        assert(name.subrange(0, opening.len() as int)[dir.len() as int] == opening[dir.len() as int]);
    }
}

/// Directories of different plain names hold no path in common.
pub proof fn lemma_plain_dirs_are_apart(path: Seq<char>, a: Seq<char>, b: Seq<char>)
    requires
        plain_name(a),
        plain_name(b),
        a != b,
        is_under(path, a),
    ensures
        !is_under(path, b),
{
    if is_under(path, b) {
        let in_a = a + seq!['/'];
        let in_b = b + seq!['/'];
        assert forall|i: int| 0 <= i < in_a.len() implies path[i] == in_a[i] by {
            assert(path.subrange(0, in_a.len() as int)[i] == in_a[i]);
        }
        assert forall|i: int| 0 <= i < in_b.len() implies path[i] == in_b[i] by {
            assert(path.subrange(0, in_b.len() as int)[i] == in_b[i]);
        }
        if a.len() < b.len() {
            assert(in_a[a.len() as int] == '/');
            assert(in_b[a.len() as int] == b[a.len() as int]);
        } else if b.len() < a.len() {
            assert(in_b[b.len() as int] == '/');
            assert(in_a[b.len() as int] == a[b.len() as int]);
        } else {
            assert forall|i: int| 0 <= i < a.len() implies a[i] == b[i] by {
                assert(in_a[i] == a[i] && in_b[i] == b[i]);
            }
            assert(a =~= b);
        }
    }
}

/// Putting a path and a directory under the same root does not change
/// whether the path lies inside the directory.
pub proof fn lemma_rooting_keeps_under(root: Seq<char>, path: Seq<char>, dir: Seq<char>)
    ensures
        is_under(joined(root, path), joined(root, dir)) == is_under(path, dir),
{
    lemma_joined_starts_with_prefix(root, path);
    lemma_joined_starts_with_prefix(root, dir);
    assert(dir_prefix(root) + dir + seq!['/'] == dir_prefix(root) + (dir + seq!['/']));
    lemma_prefix_cancels(dir_prefix(root), path, dir + seq!['/']);
}

/// Under one root, directories of different plain names hold no path in
/// common.
pub proof fn lemma_rooted_dirs_are_apart(root: Seq<char>, path: Seq<char>, a: Seq<char>, b: Seq<char>)
    requires
        plain_name(a),
        plain_name(b),
        a != b,
        is_under(path, joined(root, a)),
    ensures
        !is_under(path, joined(root, b)),
{
    let start = dir_prefix(root);
    lemma_joined_starts_with_prefix(root, a);
    lemma_joined_starts_with_prefix(root, b);
    assert(start + a + seq!['/'] == start + (a + seq!['/']));
    assert(start + b + seq!['/'] == start + (b + seq!['/']));
    let rest = path.subrange(start.len() as int, path.len() as int);
    assert(path == start + rest) by {
        assert forall|i: int| 0 <= i < start.len() implies path[i] == start[i] by {
            assert(path.subrange(0, (start + (a + seq!['/'])).len() as int)[i] == (start + (a
                + seq!['/']))[i]);
        }
        assert(path =~= start + rest);
    }
    lemma_prefix_cancels(start, rest, a + seq!['/']);
    lemma_prefix_cancels(start, rest, b + seq!['/']);
    lemma_plain_dirs_are_apart(rest, a, b);
}

/// Under one root, different paths stay different.
pub proof fn lemma_rooting_is_injective(root: Seq<char>, a: Seq<char>, b: Seq<char>)
    requires
        joined(root, a) == joined(root, b),
    ensures
        a == b,
{
    lemma_joined_starts_with_prefix(root, a);
    lemma_joined_starts_with_prefix(root, b);
    let start = dir_prefix(root);
    assert((start + a).subrange(start.len() as int, (start + a).len() as int) == a);
    assert((start + b).subrange(start.len() as int, (start + b).len() as int) == b);
}

/// A directory within `dir` has a path at least as long as that of `dir`.
pub proof fn lemma_within_is_no_shorter(inner: Seq<char>, dir: Seq<char>)
    requires
        is_within(inner, dir),
    ensures
        inner.len() >= dir.len(),
        inner != dir ==> inner.len() > dir.len(),
{
}

} // verus!
