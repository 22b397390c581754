//! Paths as texts.

use vstd::prelude::*;

use super::text::is_name;
use crate::path::{bare, file_name_of, join_of, parent_of, segment_start};

verus! {

/// A path that is seen from a directory stays what it is if it is absolute, and otherwise begins
/// with the directory and ends with the path, with one separator between them.
pub proof fn law_paths_follow_their_directories(dir: Seq<char>, tail: Seq<char>)
    ensures
        tail.len() > 0 && tail[0] == '/' ==> join_of(dir, tail) == tail,
        !(tail.len() > 0 && tail[0] == '/') && dir.len() == 0 ==> join_of(dir, tail) == tail,
        !(tail.len() > 0 && tail[0] == '/') && dir.len() > 0 && dir[dir.len() - 1] == '/'
            ==> join_of(dir, tail) == dir + tail,
        !(tail.len() > 0 && tail[0] == '/') && dir.len() > 0 && dir[dir.len() - 1] != '/'
            ==> join_of(dir, tail) == dir.push('/') + tail,
{
    reveal_strlit("/");
    assert("/"@ =~= seq!['/']);
    assert(dir + "/"@ + tail =~= dir.push('/') + tail);
    assert(Seq::<char>::empty() + tail =~= tail);
    if dir.len() == 0 {
        assert(dir + tail =~= tail);
    }
}

/// What is left off at the end of a path are separators, and dots that stand alone behind them.
/// None of them is left.
pub proof fn law_bare_paths(path: Seq<char>)
    ensures
        bare(path).len() <= path.len(),
        bare(path) == path.take(bare(path).len() as int),
        path.len() > 0 ==> bare(path).len() > 0,
        bare(path).len() > 1 ==> {
            let last = bare(path).len() - 1;
            &&& path[last] != '/'
            &&& path[last] == '.' ==> path[last - 1] != '/'
        },
        forall|k: int|
            bare(path).len() <= k < path.len() ==> (#[trigger] path[k]) == '/' || (path[k] == '.'
                && path[k - 1] == '/'),
    decreases path.len(),
{
    if path.len() > 1 && (path.last() == '/' || (path.last() == '.' && path[path.len() - 2]
        == '/')) {
        let rest = path.drop_last();
        law_bare_paths(rest);
        let n = bare(path).len() as int;
        assert(rest.take(n) =~= path.take(n));
        assert forall|k: int| n <= k < path.len() implies (#[trigger] path[k]) == '/' || (path[k]
            == '.' && path[k - 1] == '/') by {
            if k < rest.len() {
                assert(rest[k] == path[k]);
            }
        }
    } else {
        assert(path.take(path.len() as int) =~= path);
    }
}

/// A separator, or a separator and a dot, at the end of a path changes neither the name that it ends
/// in nor the directory that this is in.
pub proof fn law_redundant_ends_make_no_difference(path: Seq<char>)
    requires
        path.len() > 0,
    ensures
        file_name_of(path.push('/')) == file_name_of(path),
        parent_of(path.push('/')) == parent_of(path),
        file_name_of(path.push('/').push('.')) == file_name_of(path),
        parent_of(path.push('/').push('.')) == parent_of(path),
{
    assert(path.push('/').drop_last() =~= path);
    assert(path.push('/').push('.').drop_last() =~= path.push('/'));
    assert(bare(path.push('/')) == bare(path));
    assert(bare(path.push('/').push('.')) == bare(path.push('/')));
}

/// The name that a path ends in is a name, and stands in the path behind a separator or at its
/// start, with nothing behind it but what is redundant. The directory that it is in is what stands
/// before it, made bare.
pub proof fn law_names_stand_at_the_end(path: Seq<char>)
    ensures
        file_name_of(path) matches Some(name) ==> {
            let end = bare(path).len();
            let start = end - name.len();
            &&& is_name(name)
            &&& 0 <= start
            &&& name == path.subrange(start, end as int)
            &&& start == 0 || path[start - 1] == '/'
            &&& parent_of(path) == Some(bare(path.take(start)))
        },
        file_name_of(path) is None ==> {
            let end = bare(path);
            ||| end.len() == 0
            ||| end == seq!['/']
            ||| end == "."@
            ||| end == ".."@
            ||| end.len() > 2 && end[end.len() - 1] == '.' && end[end.len() - 2] == '.'
                && end[end.len() - 3] == '/'
        },
{
    let end = bare(path);
    law_bare_paths(path);
    lemma_segment_start(end);
    let start = segment_start(end);
    let name = end.skip(start);
    reveal_strlit(".");
    reveal_strlit("..");
    assert forall|k: int| 0 <= k < name.len() implies name[k] != '/' by {
        assert(name[k] == end[start + k]);
    }
    if name.len() == 0 {
        if end.len() > 0 {
            assert(end[end.len() - 1] == '/');
            if end.len() > 1 {
                assert(path[end.len() - 1] == end[end.len() - 1]);
            } else {
                assert(end =~= seq!['/']);
            }
        }
    } else if name == "."@ {
        assert(name[0] == end[start]);
        if start > 0 {
            assert(path[end.len() - 1] == end[end.len() - 1]);
            assert(path[end.len() - 2] == end[end.len() - 2]);
        } else {
            assert(end =~= name);
        }
    } else if name == ".."@ {
        assert(name[0] == end[start] && name[1] == end[start + 1]);
        if start == 0 {
            assert(end =~= name);
        }
    } else {
        assert(name =~= path.subrange(start, end.len() as int));
        assert(end.take(start) =~= path.take(start));
        if start > 0 {
            assert(path[start - 1] == end[start - 1]);
        }
    }
}

/// Every path but the empty one and the root is in a directory: what stands before its last
/// component, made bare.
pub proof fn law_paths_have_parents(path: Seq<char>)
    ensures
        parent_of(path) is None <==> path.len() == 0 || bare(path) == seq!['/'],
        parent_of(path) matches Some(dir) ==> exists|start: int|
            {
                &&& 0 <= start < bare(path).len()
                &&& start == 0 || bare(path)[start - 1] == '/'
                &&& forall|k: int| start <= k < bare(path).len() ==> bare(path)[k] != '/'
                &&& dir == bare(#[trigger] bare(path).take(start))
            },
{
    let end = bare(path);
    law_bare_paths(path);
    lemma_segment_start(end);
    let start = segment_start(end);
    if start == end.len() {
        if end.len() > 0 {
            assert(path[end.len() - 1] == end[end.len() - 1]);
            assert(end =~= seq!['/']);
        }
    } else {
        assert(end.take(start) == end.take(start));
        assert(end[end.len() - 1] != '/');
    }
}

proof fn lemma_segment_start(path: Seq<char>)
    ensures
        0 <= segment_start(path) <= path.len(),
        segment_start(path) == 0 || path[segment_start(path) - 1] == '/',
        forall|k: int| segment_start(path) <= k < path.len() ==> path[k] != '/',
    decreases path.len(),
{
    if path.len() > 0 && path.last() != '/' {
        let rest = path.drop_last();
        lemma_segment_start(rest);
        assert forall|k: int| segment_start(path) <= k < path.len() implies path[k] != '/' by {
            if k < rest.len() {
                assert(rest[k] == path[k]);
            }
        }
    }
}

} // verus!
