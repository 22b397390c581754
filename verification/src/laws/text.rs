//! Texts: names, numbers, joining and trimming.

use vstd::prelude::*;

use crate::names::{path_slug_of, vm_name_of};
use crate::os_path::shown_of;
use crate::path::{bare, file_name_of, join_of, parent_of, segment_start};
use crate::text::{decimal, digit, joined, replaced, signed_decimal, trimmed, white_space};

verus! {

/// Whether `after` is `before` with a dash for each slash, and nothing else changed.
pub open spec fn dashes_for_slashes(before: Seq<char>, after: Seq<char>) -> bool {
    &&& after.len() == before.len()
    &&& forall|i: int|
        0 <= i < before.len() ==> if before[i] == '/' {
            #[trigger] after[i] == '-'
        } else {
            after[i] == before[i]
        }
}

/// The name of a machine is made of the program's own name, that of the repository and that of the
/// branch, with dashes between them and for slashes. It is no longer than that.
pub proof fn law_machines_are_named_after_repository_and_branch(
    repo: Seq<char>,
    branch: Seq<char>,
)
    ensures
        exists|r: Seq<char>, b: Seq<char>|
            {
                &&& #[trigger] dashes_for_slashes(repo, r)
                &&& #[trigger] dashes_for_slashes(branch, b)
                &&& vm_name_of(repo, branch) == "tachikoma-"@ + r + "-"@ + b
            },
{
    assert(dashes_for_slashes(repo, replaced(repo, '/', '-')));
    assert(dashes_for_slashes(branch, replaced(branch, '/', '-')));
}

/// The slug of a path is the path as it is shown, with dashes for slashes.
pub proof fn law_slugs_are_paths_with_dashes(path: Seq<char>)
    ensures
        dashes_for_slashes(shown_of(path), path_slug_of(path)),
        !path.contains('\0') ==> dashes_for_slashes(path, path_slug_of(path)),
{
}

/// The number that a text of decimal digits stands for.
pub open spec fn value(text: Seq<char>) -> int
    decreases text.len(),
{
    if text.len() == 0 {
        0
    } else {
        10 * value(text.drop_last()) + (text.last() as int - '0' as int)
    }
}

/// A number comes back from its decimal text, which is made of digits, and starts with a zero only
/// if it is zero.
pub proof fn law_numbers_come_back_from_their_texts(n: nat)
    ensures
        value(decimal(n)) == n,
        decimal(n).len() > 0,
        decimal(n)[0] == '0' ==> n == 0 && decimal(n).len() == 1,
        forall|i: int| 0 <= i < decimal(n).len() ==> '0' <= #[trigger] decimal(n)[i] <= '9',
    decreases n,
{
    lemma_digit((n % 10) as int);
    if n < 10 {
        lemma_digit(n as int);
        assert(decimal(n).drop_last() =~= Seq::empty());
        assert(value(Seq::<char>::empty()) == 0);
    } else {
        law_numbers_come_back_from_their_texts(n / 10);
        let head = decimal(n / 10);
        let last = digit((n % 10) as int);
        assert(decimal(n) == head + last);
        assert(decimal(n).drop_last() =~= head);
        assert(decimal(n)[0] == head[0]);
        assert forall|i: int| 0 <= i < decimal(n).len() implies '0' <= #[trigger] decimal(n)[i]
            <= '9' by {
            if i < head.len() {
                assert(decimal(n)[i] == head[i]);
            }
        }
    }
}

proof fn lemma_digit(d: int)
    requires
        0 <= d < 10,
    ensures
        digit(d).len() == 1,
        digit(d)[0] as int == '0' as int + d,
        '0' <= digit(d)[0] <= '9',
{
    reveal_strlit("0");
    reveal_strlit("1");
    reveal_strlit("2");
    reveal_strlit("3");
    reveal_strlit("4");
    reveal_strlit("5");
    reveal_strlit("6");
    reveal_strlit("7");
    reveal_strlit("8");
    reveal_strlit("9");
}

/// A negative number is written as its magnitude behind a minus sign, and any other one as itself.
pub proof fn law_signs(n: int)
    ensures
        n >= 0 ==> value(signed_decimal(n)) == n,
        n < 0 ==> {
            &&& signed_decimal(n).len() > 0
            &&& signed_decimal(n)[0] == '-'
            &&& value(signed_decimal(n).drop_first()) == -n
        },
{
    reveal_strlit("-");
    if n < 0 {
        law_numbers_come_back_from_their_texts((-n) as nat);
        assert(signed_decimal(n).drop_first() =~= decimal((-n) as nat));
    } else {
        law_numbers_come_back_from_their_texts(n as nat);
    }
}

/// Joining nothing gives nothing, and one part stands for itself. Two lists of parts are joined
/// with one separator between them.
pub proof fn law_joining(a: Seq<Seq<char>>, b: Seq<Seq<char>>, part: Seq<char>, separator: Seq<char>)
    ensures
        joined(Seq::empty(), separator) == Seq::<char>::empty(),
        joined(seq![part], separator) == part,
        a.len() > 0 && b.len() > 0 ==> joined(a + b, separator) == joined(a, separator) + separator
            + joined(b, separator),
    decreases b.len(),
{
    if a.len() > 0 && b.len() > 0 {
        assert((a + b).drop_last() =~= a + b.drop_last());
        assert((a + b).last() == b.last());
        if b.len() == 1 {
            assert(a + b.drop_last() =~= a);
        } else {
            law_joining(a, b.drop_last(), part, separator);
        }
        assert(joined(a + b, separator) =~= joined(a, separator) + separator + joined(b, separator));
    }
}

/// Whether all characters are white space.
pub open spec fn all_white(s: Seq<char>) -> bool {
    forall|i: int| 0 <= i < s.len() ==> white_space(#[trigger] s[i])
}

/// Trimming takes off white space at the two ends and nothing else, until there is none left there.
pub proof fn law_trimming(s: Seq<char>)
    ensures
        exists|before: Seq<char>, after: Seq<char>|
            {
                &&& #[trigger] all_white(before)
                &&& #[trigger] all_white(after)
                &&& s == before + trimmed(s) + after
            },
        trimmed(s).len() > 0 ==> !white_space(trimmed(s).first()) && !white_space(trimmed(s).last()),
{
    let t = crate::text::trimmed_start(s);
    let before = lemma_trimmed_start(s);
    let after = lemma_trimmed_end(t);
    assert(all_white(before) && all_white(after));
    assert(s =~= before + trimmed(s) + after);
    if trimmed(s).len() > 0 {
        assert(trimmed(s).first() == t.first());
    }
}

proof fn lemma_trimmed_start(s: Seq<char>) -> (before: Seq<char>)
    ensures
        all_white(before),
        s == before + crate::text::trimmed_start(s),
        crate::text::trimmed_start(s).len() > 0 ==> !white_space(
            crate::text::trimmed_start(s).first(),
        ),
    decreases s.len(),
{
    if s.len() > 0 && white_space(s.first()) {
        let rest = lemma_trimmed_start(s.drop_first());
        let before = seq![s.first()] + rest;
        let kept = crate::text::trimmed_start(s.drop_first());
        assert(s =~= seq![s.first()] + s.drop_first());
        assert(seq![s.first()] + (rest + kept) =~= before + kept);
        before
    } else {
        assert(s =~= Seq::<char>::empty() + s);
        Seq::empty()
    }
}

proof fn lemma_trimmed_end(s: Seq<char>) -> (after: Seq<char>)
    ensures
        all_white(after),
        s == crate::text::trimmed_end(s) + after,
        crate::text::trimmed_end(s).len() > 0 ==> !white_space(crate::text::trimmed_end(s).last()),
    decreases s.len(),
{
    if s.len() > 0 && white_space(s.last()) {
        let rest = lemma_trimmed_end(s.drop_last());
        let after = rest.push(s.last());
        let kept = crate::text::trimmed_end(s.drop_last());
        assert(s =~= s.drop_last().push(s.last()));
        assert((kept + rest).push(s.last()) =~= kept + after);
        after
    } else {
        assert(s =~= s + Seq::<char>::empty());
        Seq::empty()
    }
}

/// White space is what Unicode calls so: tab to carriage return, the blank, and the wider and
/// narrower blanks, line and paragraph separators beyond ASCII.
pub proof fn law_white_space(c: char)
    ensures
        white_space(c) <==> {
            let code = c as u32;
            ||| 9 <= code <= 13
            ||| code == 32
            ||| code == 133
            ||| code == 160
            ||| code == 5760
            ||| 8192 <= code <= 8202
            ||| code == 8232
            ||| code == 8233
            ||| code == 8239
            ||| code == 8287
            ||| code == 12288
        },
{
}

/// Whether a text can be the name of something in a directory.
pub open spec fn is_name(name: Seq<char>) -> bool {
    &&& name.len() > 0
    &&& !name.contains('/')
    &&& name != "."@
    &&& name != ".."@
}

/// A path that was joined from a directory and a name ends in that name, and without it is the
/// directory again, but for what is redundant at the directory's end.
pub proof fn law_names_come_back_from_joined_paths(dir: Seq<char>, name: Seq<char>)
    requires
        is_name(name),
    ensures
        file_name_of(join_of(dir, name)) == Some(name),
        dir.len() > 0 ==> parent_of(join_of(dir, name)) == Some(bare(dir)),
{
    reveal_strlit("/");
    assert("/"@ =~= seq!['/']);
    let path = join_of(dir, name);
    let start = path.len() - name.len();
    assert forall|k: int| 0 <= k < name.len() implies name[k] != '/' by {
        assert(name.contains(name[k]));
    }
    assert(path.skip(start) =~= name);
    lemma_bare_with_name(path, name);
    lemma_segment(path, start);
    if dir.len() > 0 {
        lemma_head_is_dir(dir, path.take(start));
    }
}

proof fn lemma_head_is_dir(dir: Seq<char>, head: Seq<char>)
    requires
        dir.len() > 0,
        head =~= dir || head =~= dir.push('/'),
    ensures
        bare(head) == bare(dir),
{
    if head != dir {
        assert(head.drop_last() =~= dir);
    }
}

proof fn lemma_bare_with_name(path: Seq<char>, name: Seq<char>)
    requires
        is_name(name),
        path.len() >= name.len(),
        path.skip(path.len() - name.len()) == name,
        forall|k: int| 0 <= k < name.len() ==> name[k] != '/',
    ensures
        bare(path) == path,
{
    reveal_strlit(".");
    let start = path.len() - name.len();
    assert(path.last() == name[name.len() - 1]);
    if path.len() > 1 && path.last() == '.' && path[path.len() - 2] == '/' {
        if name.len() == 1 {
            assert(name =~= "."@);
        } else {
            assert(path[path.len() - 2] == path.skip(start)[name.len() - 2]);
        }
    }
}

proof fn lemma_segment(path: Seq<char>, start: int)
    requires
        0 <= start <= path.len(),
        start == 0 || path[start - 1] == '/',
        forall|k: int| start <= k < path.len() ==> path[k] != '/',
    ensures
        segment_start(path) == start,
    decreases path.len(),
{
    if path.len() > start {
        lemma_segment(path.drop_last(), start);
    }
}

} // verus!
