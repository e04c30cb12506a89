//! Paths as texts whose components are separated by `/`: the part of a path
//! below a root, file names and extensions, and the place of a converted file
//! under the output root.

use crate::text::{
    chars_of, last_index_of, lemma_last_index_of, lemma_last_index_of_unique, text_of,
};
use vstd::prelude::*;

verus! {

/// `s` without the separators at its end.
pub open spec fn trim_end(s: Seq<char>) -> Seq<char>
    decreases s.len(),
{
    if s.len() > 0 && s.last() == '/' {
        trim_end(s.drop_last())
    } else {
        s
    }
}

/// `s` without the separators at its start.
pub open spec fn trim_start(s: Seq<char>) -> Seq<char>
    decreases s.len(),
{
    if s.len() > 0 && s[0] == '/' {
        trim_start(s.drop_first())
    } else {
        s
    }
}

/// The part of `path` below `root`, without separators at its start.
///
/// `root` counts without the separators at its end. `path` lies below it when
/// it starts with that text, goes on with a separator (any start will do under
/// the empty root) and names something after it. The root itself, and a path
/// that only shares a prefix of characters with it, lie nowhere below it.
pub open spec fn relative_to(root: Seq<char>, path: Seq<char>) -> Option<Seq<char>> {
    let base = trim_end(root);
    if base.is_prefix_of(path) {
        let rest = path.skip(base.len() as int);
        let rel = trim_start(rest);
        if rel.len() > 0 && (root.len() == 0 || rest[0] == '/') {
            Some(rel)
        } else {
            None
        }
    } else {
        None
    }
}

/// Where the file name of `path` starts: behind its last separator.
pub open spec fn name_start(path: Seq<char>) -> int {
    last_index_of(path, '/') + 1
}

/// Position in `path` of the dot that starts the extension of its file name,
/// or `-1` when the file name holds no dot.
pub open spec fn extension_dot(path: Seq<char>) -> int {
    let dot = last_index_of(path, '.');
    if dot >= name_start(path) {
        dot
    } else {
        -1
    }
}

/// The extension of `path`: what follows the last dot of its file name.
/// A file name without a dot has none.
pub open spec fn extension_of(path: Seq<char>) -> Option<Seq<char>> {
    let dot = extension_dot(path);
    if dot >= 0 {
        Some(path.skip(dot + 1))
    } else {
        None
    }
}

/// `path` with the extension of its file name replaced by `ext`. A file name
/// without an extension gets one; the empty `ext` leaves no dot behind.
pub open spec fn with_extension(path: Seq<char>, ext: Seq<char>) -> Seq<char> {
    let dot = extension_dot(path);
    let stem = if dot >= 0 {
        path.take(dot)
    } else {
        path
    };
    if ext.len() == 0 {
        stem
    } else {
        stem + seq!['.'] + ext
    }
}

/// `rel` placed below `base`, with one separator between them unless `base`
/// is empty or brings its own.
pub open spec fn join(base: Seq<char>, rel: Seq<char>) -> Seq<char> {
    if base.len() == 0 {
        rel
    } else if base.last() == '/' {
        base + rel
    } else {
        base + seq!['/'] + rel
    }
}

/// The directory that holds `path`: what stands before its last separator.
/// It is empty for a bare file name and `/` for a name directly below `/`.
pub open spec fn parent(path: Seq<char>) -> Seq<char> {
    let k = last_index_of(path, '/');
    if k < 0 {
        Seq::empty()
    } else if k == 0 {
        path.take(1)
    } else {
        path.take(k)
    }
}

/// Whether a component of `rel` begins with a dot.
pub open spec fn is_hidden(rel: Seq<char>) -> bool {
    exists|i: int| 0 <= i < rel.len() && #[trigger] rel[i] == '.' && (i == 0 || rel[i - 1] == '/')
}

/// Where the file that is converted from `source` belongs: below
/// `output_root`, at the place that `source` has below `source_root`, with the
/// extension `output_extension`. A `source` that does not lie below
/// `source_root` has no such place.
pub open spec fn output_path_of(
    source_root: Seq<char>,
    output_root: Seq<char>,
    output_extension: Seq<char>,
    source: Seq<char>,
) -> Option<Seq<char>> {
    match relative_to(source_root, source) {
        Some(rel) => Some(join(output_root, with_extension(rel, output_extension))),
        None => None,
    }
}

/// Whether `ext` can stand as an extension: it holds no dot and no separator.
pub open spec fn is_plain_extension(ext: Seq<char>) -> bool {
    forall|i: int| 0 <= i < ext.len() ==> ext[i] != '.' && ext[i] != '/'
}

/// A path that ends in a dot and a plain extension has that dot as the start
/// of its extension.
pub proof fn lemma_extension_dot_of_named(stem: Seq<char>, ext: Seq<char>)
    requires
        is_plain_extension(ext),
    ensures
        extension_dot(stem + seq!['.'] + ext) == stem.len(),
{
    let path = stem + seq!['.'] + ext;
    let k = stem.len() as int;
    assert(path[k] == '.');
    assert forall|j: int| k < j < path.len() implies path[j] != '.' && path[j] != '/' by {
        assert(path[j] == ext[j - k - 1]);
    }
    lemma_last_index_of_unique(path, '.', k);
    lemma_last_index_of(path, '/');
}

/// A path that ends in a dot and a plain extension has that extension, and
/// swapping it swaps what stands behind the dot.
pub proof fn lemma_extension_of_named(stem: Seq<char>, ext: Seq<char>, other: Seq<char>)
    requires
        is_plain_extension(ext),
        other.len() > 0,
    ensures
        extension_of(stem + seq!['.'] + ext) == Some(ext),
        with_extension(stem + seq!['.'] + ext, other) == stem + seq!['.'] + other,
{
    let path = stem + seq!['.'] + ext;
    lemma_extension_dot_of_named(stem, ext);
    assert(path.skip(stem.len() as int + 1) =~= ext);
    assert(path.take(stem.len() as int) =~= stem);
}

/// Trimming takes nothing from a text that does not end in a separator, nor
/// from one that does not start with one.
pub proof fn lemma_trim_nothing(s: Seq<char>)
    ensures
        s.len() == 0 || s.last() != '/' ==> trim_end(s) == s,
        s.len() == 0 || s[0] != '/' ==> trim_start(s) == s,
{
}

/// The output mirrors the source: a file `rel` with the extension `ext` below
/// the source root goes to `rel` with the output extension below the output
/// root. Here the roots are written without a separator at their end, `rel`
/// without one at its start, and the extensions are plain.
pub proof fn lemma_output_mirrors_source(
    source_root: Seq<char>,
    output_root: Seq<char>,
    rel: Seq<char>,
    ext: Seq<char>,
    output_extension: Seq<char>,
)
    requires
        source_root.len() > 0 && source_root.last() != '/',
        output_root.len() > 0 && output_root.last() != '/',
        rel.len() > 0 && rel[0] != '/',
        is_plain_extension(ext),
        output_extension.len() > 0,
    ensures
        relative_to(source_root, source_root + seq!['/'] + rel + seq!['.'] + ext) == Some(
            rel + seq!['.'] + ext,
        ),
        output_path_of(
            source_root,
            output_root,
            output_extension,
            source_root + seq!['/'] + rel + seq!['.'] + ext,
        ) == Some(output_root + seq!['/'] + rel + seq!['.'] + output_extension),
{
    let below = rel + seq!['.'] + ext;
    let source = source_root + seq!['/'] + rel + seq!['.'] + ext;
    lemma_trim_nothing(source_root);
    assert(source.take(source_root.len() as int) =~= source_root);
    let rest = source.skip(source_root.len() as int);
    assert(rest =~= seq!['/'] + below);
    assert(rest.drop_first() =~= below);
    assert(below[0] == rel[0]);
    lemma_trim_nothing(below);
    assert(trim_start(rest) == below);
    lemma_extension_of_named(rel, ext, output_extension);
}

/// Position of the last `c` in `chars`.
fn rfind(chars: &Vec<char>, c: char) -> (at: Option<usize>)
    ensures
        match at {
            Some(k) => k < chars.len() && last_index_of(chars@, c) == k,
            None => last_index_of(chars@, c) == -1,
        },
{
    let mut i: usize = chars.len();
    while i > 0
        invariant
            i <= chars.len(),
            forall|j: int| i <= j < chars.len() ==> chars@[j] != c,
        decreases i,
    {
        i -= 1;
        if chars[i] == c {
            proof {
                lemma_last_index_of_unique(chars@, c, i as int);
            }
            return Some(i);
        }
    }
    proof {
        lemma_last_index_of_unique(chars@, c, -1);
    }
    None
}

/// Length of `chars` without the separators at its end.
pub(crate) fn trimmed_len(chars: &Vec<char>) -> (n: usize)
    ensures
        n <= chars.len(),
        trim_end(chars@) == chars@.take(n as int),
{
    let mut n: usize = chars.len();
    assert(chars@.take(n as int) =~= chars@);
    while n > 0 && chars[n - 1] == '/'
        invariant
            n <= chars.len(),
            trim_end(chars@) == trim_end(chars@.take(n as int)),
        decreases n,
    {
        assert(chars@.take(n as int).drop_last() =~= chars@.take(n - 1));
        n -= 1;
    }
    n
}

/// Position of the dot that starts the extension of the file name.
fn find_extension_dot(chars: &Vec<char>) -> (at: Option<usize>)
    ensures
        match at {
            Some(k) => k < chars.len() && extension_dot(chars@) == k,
            None => extension_dot(chars@) == -1,
        },
{
    let dot = rfind(chars, '.');
    let sep = rfind(chars, '/');
    match dot {
        None => None,
        Some(d) => match sep {
            None => Some(d),
            Some(s) => if d > s {
                Some(d)
            } else {
                None
            },
        },
    }
}

/// The extension of `path`, if its file name has one.
pub fn extension(path: &str) -> (ext: Option<String>)
    ensures
        text_of(ext) == extension_of(path@),
{
    let chars = chars_of(path);
    match find_extension_dot(&chars) {
        Some(d) => Some(path.substring_char(d + 1, chars.len()).to_owned()),
        None => None,
    }
}

/// Whether the extension of `path` is exactly `ext`.
pub fn has_extension(path: &str, ext: &str) -> (same: bool)
    ensures
        same == (extension_of(path@) == Some(ext@)),
{
    let chars = chars_of(path);
    let wanted = chars_of(ext);
    match find_extension_dot(&chars) {
        None => false,
        Some(d) => {
            let from: usize = d + 1;
            if chars.len() - from != wanted.len() {
                return false;
            }
            let mut i: usize = 0;
            while i < wanted.len()
                invariant
                    i <= wanted.len(),
                    from + wanted.len() == chars.len(),
                    extension_dot(path@) == from - 1,
                    chars@ == path@,
                    wanted@ == ext@,
                    forall|j: int| 0 <= j < i ==> chars@[from + j] == wanted@[j],
                decreases wanted.len() - i,
            {
                if chars[from + i] != wanted[i] {
                    assert(path@.skip(from as int)[i as int] == chars@[from + i]);
                    assert(path@.skip(from as int)[i as int] != ext@[i as int]);
                    return false;
                }
                i += 1;
            }
            assert(path@.skip(from as int) =~= ext@);
            true
        },
    }
}

/// `path` with its extension replaced by `ext`.
pub fn replace_extension(path: &str, ext: &str) -> (out: String)
    ensures
        out@ == with_extension(path@, ext@),
{
    let chars = chars_of(path);
    let stem_len: usize = match find_extension_dot(&chars) {
        Some(d) => d,
        None => chars.len(),
    };
    let mut out = path.substring_char(0, stem_len).to_owned();
    proof {
        assert(path@.subrange(0, stem_len as int) =~= path@.take(stem_len as int));
        assert(path@.take(path@.len() as int) =~= path@);
    }
    if ext.unicode_len() > 0 {
        proof {
            reveal_strlit(".");
            assert("."@ =~= seq!['.']);
        }
        out.append(".");
        out.append(ext);
    }
    out
}

/// `rel` placed below `base`.
pub fn join_paths(base: &str, rel: &str) -> (out: String)
    ensures
        out@ == join(base@, rel@),
{
    let chars = chars_of(base);
    if chars.len() == 0 {
        return rel.to_owned();
    }
    let mut out = base.to_owned();
    if chars[chars.len() - 1] != '/' {
        proof {
            reveal_strlit("/");
            assert("/"@ =~= seq!['/']);
        }
        out.append("/");
    }
    out.append(rel);
    out
}

/// The directory that holds `path`.
pub fn parent_dir(path: &str) -> (out: String)
    ensures
        out@ == parent(path@),
{
    let chars = chars_of(path);
    let end: usize = match rfind(&chars, '/') {
        None => 0,
        Some(k) => if k == 0 {
            1
        } else {
            k
        },
    };
    proof {
        assert(path@.subrange(0, end as int) =~= path@.take(end as int));
        assert(path@.take(0) =~= Seq::<char>::empty());
    }
    path.substring_char(0, end).to_owned()
}

/// The part of `path` below `root`, if it lies there.
pub fn relative(root: &str, path: &str) -> (rel: Option<String>)
    ensures
        text_of(rel) == relative_to(root@, path@),
{
    let r = chars_of(root);
    let p = chars_of(path);
    let base_len = trimmed_len(&r);
    if base_len > p.len() {
        return None;
    }
    let mut i: usize = 0;
    while i < base_len
        invariant
            i <= base_len <= p.len(),
            base_len <= r.len(),
            r@ == root@,
            p@ == path@,
            trim_end(root@) == root@.take(base_len as int),
            forall|j: int| 0 <= j < i ==> r@[j] == p@[j],
        decreases base_len - i,
    {
        if r[i] != p[i] {
            assert(trim_end(root@)[i as int] != path@[i as int]);
            return None;
        }
        i += 1;
    }
    assert(trim_end(root@) =~= path@.take(base_len as int));
    let ghost rest = path@.skip(base_len as int);
    let mut start: usize = base_len;
    assert(rest.skip(0) =~= rest);
    while start < p.len() && p[start] == '/'
        invariant
            base_len <= start <= p.len(),
            p@ == path@,
            rest == path@.skip(base_len as int),
            trim_start(rest) == trim_start(rest.skip(start - base_len)),
        decreases p.len() - start,
    {
        assert(rest.skip(start - base_len).drop_first() =~= rest.skip(start + 1 - base_len));
        start += 1;
    }
    proof {
        let tail = rest.skip(start - base_len);
        assert(tail =~= path@.skip(start as int));
        assert(trim_start(tail) == tail);
    }
    if start == p.len() {
        return None;
    }
    if r.len() > 0 && p[base_len] != '/' {
        return None;
    }
    proof {
        assert(path@.subrange(start as int, p.len() as int) =~= path@.skip(start as int));
    }
    Some(path.substring_char(start, p.len()).to_owned())
}

/// Whether a component of `rel` begins with a dot.
pub fn hidden(rel: &str) -> (found: bool)
    ensures
        found == is_hidden(rel@),
{
    let chars = chars_of(rel);
    let mut i: usize = 0;
    while i < chars.len()
        invariant
            i <= chars.len(),
            chars@ == rel@,
            forall|j: int|
                0 <= j < i ==> !(#[trigger] rel@[j] == '.' && (j == 0 || rel@[j - 1] == '/')),
        decreases chars.len() - i,
    {
        if chars[i] == '.' && (i == 0 || chars[i - 1] == '/') {
            assert(rel@[i as int] == '.');
            return true;
        }
        i += 1;
    }
    false
}

/// Where the file that is converted from `source` belongs, if `source` lies
/// below `source_root`.
pub fn output_path(source_root: &str, output_root: &str, output_extension: &str, source: &str) -> (out:
    Option<String>)
    ensures
        text_of(out) == output_path_of(source_root@, output_root@, output_extension@, source@),
{
    match relative(source_root, source) {
        Some(rel) => {
            let swapped = replace_extension(rel.as_str(), output_extension);
            Some(join_paths(output_root, swapped.as_str()))
        },
        None => None,
    }
}

} // verus!
