//! Paths as texts, with `/` between their components. For paths that are not UTF-8 see `os_path`.

use vstd::prelude::*;
use vstd::string::StrSliceExecFns;
use vstd::string::StringExecFns;

verus! {

/// The path of `tail` as seen from `base`: an absolute `tail` stands for itself, any other one
/// follows `base` after a separator.
pub open spec fn join_of(base: Seq<char>, tail: Seq<char>) -> Seq<char> {
    if tail.len() > 0 && tail.first() == '/' {
        tail
    } else if base.len() == 0 || base.last() == '/' {
        base + tail
    } else {
        base + "/"@ + tail
    }
}

/// Whether the characters from `i` to `j` are one component of `path`.
pub open spec fn is_component(path: Seq<char>, i: int, j: int) -> bool {
    &&& 0 <= i <= j <= path.len()
    &&& i == 0 || path[i - 1] == '/'
    &&& j == path.len() || path[j] == '/'
    &&& forall|k: int| i <= k < j ==> path[k] != '/'
}

/// Whether `path` has a component `.` or `..`.
pub open spec fn has_dots(path: Seq<char>) -> bool {
    exists|i: int, j: int| #[trigger]
        is_component(path, i, j) && (path.subrange(i, j) == "."@ || path.subrange(i, j) == ".."@)
}

/// Whether `tail` leads from a directory to something in it: it is neither empty nor absolute, and
/// none of its components is `.` or `..`.
pub open spec fn descends(tail: Seq<char>) -> bool {
    tail.len() > 0 && tail.first() != '/' && !has_dots(tail)
}

/// Whether `path` is that of something in the directory `dir`, at any depth.
pub open spec fn lies_below(dir: Seq<char>, path: Seq<char>) -> bool {
    exists|tail: Seq<char>| #[trigger] descends(tail) && path == join_of(dir, tail)
}

/// `path` without the separators and the `.` components at its end. The root stays.
pub open spec fn bare(path: Seq<char>) -> Seq<char>
    decreases path.len(),
{
    if path.len() > 1 && (path.last() == '/' || (path.last() == '.' && path[path.len() - 2]
        == '/')) {
        bare(path.drop_last())
    } else {
        path
    }
}

/// Where the text behind the last separator starts.
pub open spec fn segment_start(path: Seq<char>) -> int
    decreases path.len(),
{
    if path.len() == 0 {
        0
    } else if path.last() == '/' {
        path.len() as int
    } else {
        segment_start(path.drop_last())
    }
}

/// The name that `path` ends in. The root, `.` and `..` are no names.
pub open spec fn file_name_of(path: Seq<char>) -> Option<Seq<char>> {
    let end = bare(path);
    let name = end.skip(segment_start(end));
    if name.len() == 0 || name == "."@ || name == ".."@ {
        None
    } else {
        Some(name)
    }
}

/// `path` without its last component. The root and the empty path have none to leave off.
pub open spec fn parent_of(path: Seq<char>) -> Option<Seq<char>> {
    let end = bare(path);
    if segment_start(end) == end.len() {
        None
    } else {
        Some(bare(end.take(segment_start(end))))
    }
}

/// Appends `tail` to `base`, or takes `tail` alone when it is absolute.
pub fn join(base: &str, tail: &str) -> (path: String)
    ensures
        path@ == join_of(base@, tail@),
{
    let base_length: usize = base.unicode_len();
    if tail.unicode_len() > 0 && tail.get_char(0) == '/' {
        tail.to_string()
    } else {
        let mut path = base.to_string();
        if base_length > 0 && base.get_char(base_length - 1) != '/' {
            path.append("/");
        }
        path.append(tail);
        path
    }
}

/// How many characters of the first `length` ones stay when the end is made bare.
fn bare_length(path: &str, length: usize) -> (kept: usize)
    requires
        length <= path@.len(),
    ensures
        kept <= length,
        path@.take(kept as int) == bare(path@.take(length as int)),
{
    let mut kept: usize = length;
    while kept > 1 && (path.get_char(kept - 1) == '/' || (path.get_char(kept - 1) == '.'
        && path.get_char(kept - 2) == '/'))
        invariant
            kept <= length <= path@.len(),
            bare(path@.take(length as int)) == bare(path@.take(kept as int)),
        decreases kept,
    {
        assert(path@.take(kept as int).drop_last() =~= path@.take(kept - 1));
        kept -= 1;
    }
    kept
}

/// Where the text behind the last separator of the first `length` characters starts.
fn last_segment(path: &str, length: usize) -> (start: usize)
    requires
        length <= path@.len(),
    ensures
        start <= length,
        start == segment_start(path@.take(length as int)),
{
    let mut start: usize = length;
    while start > 0 && path.get_char(start - 1) != '/'
        invariant
            start <= length <= path@.len(),
            segment_start(path@.take(length as int)) == segment_start(path@.take(start as int)),
        decreases start,
    {
        assert(path@.take(start as int).drop_last() =~= path@.take(start - 1));
        start -= 1;
    }
    start
}

/// The name that `path` ends in, if it ends in one.
pub fn file_name(path: &str) -> (name: Option<String>)
    ensures
        match name {
            Some(n) => file_name_of(path@) == Some(n@),
            None => file_name_of(path@) is None,
        },
{
    let length: usize = path.unicode_len();
    assert(path@.take(length as int) =~= path@);
    let end: usize = bare_length(path, length);
    let start: usize = last_segment(path, end);
    let name = path.substring_char(start, end).to_string();
    assert(name@ =~= path@.take(end as int).skip(start as int));
    if start == end || name == ".".to_string() || name == "..".to_string() {
        None
    } else {
        Some(name)
    }
}

/// `path` without its last component, if it has one.
pub fn parent(path: &str) -> (shorter: Option<String>)
    ensures
        match shorter {
            Some(p) => parent_of(path@) == Some(p@),
            None => parent_of(path@) is None,
        },
{
    let length: usize = path.unicode_len();
    assert(path@.take(length as int) =~= path@);
    let end: usize = bare_length(path, length);
    let start: usize = last_segment(path, end);
    if start == end {
        None
    } else {
        let kept: usize = bare_length(path, start);
        proof {
            assert(path@.take(end as int).take(start as int) =~= path@.take(start as int));
            assert(path@.subrange(0, kept as int) =~= path@.take(kept as int));
        }
        Some(path.substring_char(0, kept).to_string())
    }
}

} // verus!
