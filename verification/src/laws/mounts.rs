//! The directories that a machine sees.

use vstd::prelude::*;

use crate::config::Config;
use crate::names::path_slug_of;
use crate::path::join_of;
use crate::tart::types::{mounts_view, DirMount, MountView, RunOpts};
use crate::text::texts;
use crate::vm::mounts::{are_candidates, are_run_opts, kept, optional_mounts};

verus! {

/// What a mount is: the name under which the machine sees the directory, where the directory is on
/// the host, and whether the machine may only read it.
pub open spec fn mount(m: DirMount) -> (Option<Seq<char>>, Seq<char>, bool) {
    (
        match m.name {
            Some(name) => Some(name@),
            None => None,
        },
        m.host_path@,
        m.read_only,
    )
}

/// How many directories a machine may see besides its worktree: the repository's `.git`, and of a
/// user with a home directory the shared ones and the memory.
pub open spec fn option_count(config: Config, home: Option<Seq<char>>) -> nat {
    if home is None {
        1
    } else {
        config.share_claude_dirs@.len() + 2
    }
}

/// The directories that a machine may see besides its worktree, by their number: first the
/// repository's `.git`, last the project's memory, and between them the shared ones in the order of
/// the settings.
pub open spec fn option(
    config: Config,
    repo_root: Seq<char>,
    home: Option<Seq<char>>,
    p: int,
) -> (Option<Seq<char>>, Seq<char>, bool) {
    let own = join_of(home->Some_0, "."@ + config.agent@);
    if p == 0 {
        (Some("dotgit"@), join_of(repo_root, ".git"@), false)
    } else if p <= config.share_claude_dirs@.len() {
        let name = config.share_claude_dirs@[p - 1]@;
        (Some(config.agent@ + "-"@ + name), join_of(own, name), true)
    } else {
        (
            Some(config.agent@ + "-memory"@),
            join_of(join_of(join_of(own, "projects"@), path_slug_of(repo_root)), "memory"@),
            true,
        )
    }
}

/// The options that are present, in order.
pub open spec fn present_options(
    config: Config,
    repo_root: Seq<char>,
    home: Option<Seq<char>>,
    present: Seq<bool>,
) -> Seq<(Option<Seq<char>>, Seq<char>, bool)> {
    Seq::new(option_count(config, home), |p: int| p).filter_map(
        |p: int|
            if present[p] {
                Some(option(config, repo_root, home, p))
            } else {
                None
            },
    )
}

/// Whether the paths are those of all options.
pub open spec fn are_option_paths(
    paths: Seq<String>,
    config: Config,
    repo_root: Seq<char>,
    home: Option<Seq<char>>,
) -> bool {
    &&& paths.len() == option_count(config, home)
    &&& forall|p: int|
        0 <= p < paths.len() ==> (#[trigger] paths[p])@ == option(config, repo_root, home, p).1
}

/// Whether a machine is started as it should be: headless if the display is `none`, without
/// Rosetta, and with the right mounts. The first mount is the worktree, writable, under the name
/// `code`; the others are the options that are present.
pub open spec fn is_right_start(
    opts: RunOpts,
    config: Config,
    worktree_path: Seq<char>,
    repo_root: Seq<char>,
    home: Option<Seq<char>>,
    present: Seq<bool>,
) -> bool {
    &&& opts.no_graphics == (config.vm_display@ == "none"@)
    &&& !opts.rosetta
    &&& opts.dirs@.map_values(|m: DirMount| mount(m)) == seq![
        (Some("code"@), worktree_path, false),
    ] + present_options(config, repo_root, home, present)
}

/// Two views of a mount.
pub open spec fn unview(m: MountView) -> (Option<Seq<char>>, Seq<char>, bool) {
    (m.name, m.host_path, m.read_only)
}

pub proof fn lemma_candidates_are_options(
    candidates: Seq<DirMount>,
    config: Config,
    repo_root: Seq<char>,
    home: Option<String>,
    dir: Option<Seq<char>>,
)
    requires
        are_candidates(candidates, config, repo_root, home),
        home is None <==> dir is None,
        home matches Some(h) ==> dir == Some(h@),
    ensures
        candidates.len() == option_count(config, dir),
        forall|p: int|
            0 <= p < candidates.len() ==> mount(#[trigger] candidates[p]) == option(
                config,
                repo_root,
                dir,
                p,
            ),
{
    let all = mounts_view(candidates);
    let shared = texts(config.share_claude_dirs@);
    assert(all.len() == candidates.len());
    assert(all == optional_mounts(config.agent@, shared, repo_root, dir));
    assert forall|p: int| 0 <= p < candidates.len() implies mount(#[trigger] candidates[p])
        == option(config, repo_root, dir, p) by {
        assert(all[p] == candidates[p]@);
        assert(mount(candidates[p]) == unview(all[p]));
        if 0 < p <= shared.len() {
            assert(shared[p - 1] == config.share_claude_dirs@[p - 1]@);
        }
    }
}

proof fn lemma_kept(
    config: Config,
    repo_root: Seq<char>,
    dir: Option<Seq<char>>,
    candidates: Seq<DirMount>,
    present: Seq<bool>,
    n: int,
)
    requires
        0 <= n <= candidates.len(),
        present.len() == candidates.len(),
        forall|p: int|
            0 <= p < candidates.len() ==> mount(#[trigger] candidates[p]) == option(
                config,
                repo_root,
                dir,
                p,
            ),
    ensures
        kept(mounts_view(candidates).take(n), present).map_values(|m: MountView| unview(m))
            == Seq::new(n as nat, |p: int| p).filter_map(
            |p: int|
                if present[p] {
                    Some(option(config, repo_root, dir, p))
                } else {
                    None
                },
        ),
    decreases n,
{
    let all = mounts_view(candidates);
    let numbers = Seq::new(n as nat, |p: int| p);
    let pick = |p: int|
        if present[p] {
            Some(option(config, repo_root, dir, p))
        } else {
            None
        };
    if n > 0 {
        lemma_kept(config, repo_root, dir, candidates, present, n - 1);
        assert(all.take(n).drop_last() =~= all.take(n - 1));
        assert(numbers.drop_last() =~= Seq::new((n - 1) as nat, |p: int| p));
        assert(all.take(n).last() == candidates[n - 1]@);
        assert(unview(candidates[n - 1]@) == mount(candidates[n - 1]));
        let before = kept(all.take(n - 1), present);
        if present[n - 1] {
            assert(before.push(all[n - 1]).map_values(|m: MountView| unview(m)) =~= before.map_values(
                |m: MountView| unview(m),
            ).push(unview(all[n - 1])));
        }
        assert(kept(all.take(n), present).map_values(|m: MountView| unview(m)) =~= numbers.filter_map(
            pick,
        ));
    } else {
        assert(kept(all.take(n), present).map_values(|m: MountView| unview(m)) =~= numbers.filter_map(
            pick,
        ));
    }
}

/// A machine is started with its worktree, and with those of the options whose directories exist.
pub proof fn law_machines_see_what_they_should(
    opts: RunOpts,
    config: Config,
    worktree_path: Seq<char>,
    repo_root: Seq<char>,
    home: Option<String>,
    dir: Option<Seq<char>>,
    candidates: Seq<DirMount>,
    present: Seq<bool>,
)
    requires
        are_candidates(candidates, config, repo_root, home),
        are_run_opts(opts, config, worktree_path, candidates, present),
        present.len() == candidates.len(),
        home is None <==> dir is None,
        home matches Some(h) ==> dir == Some(h@),
    ensures
        candidates.len() == option_count(config, dir),
        forall|p: int|
            0 <= p < candidates.len() ==> (#[trigger] candidates[p]).host_path@ == option(
                config,
                repo_root,
                dir,
                p,
            ).1,
        is_right_start(opts, config, worktree_path, repo_root, dir, present),
{
    lemma_candidates_are_options(candidates, config, repo_root, home, dir);
    lemma_kept(config, repo_root, dir, candidates, present, candidates.len() as int);
    let all = mounts_view(candidates);
    assert(all.take(all.len() as int) =~= all);
    let mounted = mounts_view(opts.dirs@);
    assert(opts.dirs@.map_values(|m: DirMount| mount(m)) =~= mounted.map_values(
        |m: MountView| unview(m),
    ));
    let rest = kept(all, present);
    assert(mounted.map_values(|m: MountView| unview(m)) =~= seq![
        (Some("code"@), worktree_path, false),
    ] + rest.map_values(|m: MountView| unview(m)));
    assert forall|p: int| 0 <= p < candidates.len() implies (#[trigger] candidates[p]).host_path@
        == option(config, repo_root, dir, p).1 by {
        assert(mount(candidates[p]).1 == candidates[p].host_path@);
    }
}

} // verus!
