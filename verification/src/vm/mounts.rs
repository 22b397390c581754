//! The directories of the host that a machine sees.

use vstd::prelude::*;
use vstd::string::StringExecFns;

use crate::config::Config;
use crate::names::{path_slug, path_slug_of};
use crate::os_path::shown_of;
use crate::path::{descends, is_component, join, join_of, lies_below};
use crate::tart::types::{mounts_view, DirMount, MountView, RunOpts};
use crate::text::{optional_text, texts};

verus! {

/// The worktree, which the machine may change.
pub open spec fn code_mount(worktree_path: Seq<char>) -> MountView {
    MountView { name: Some("code"@), host_path: worktree_path, read_only: false }
}

/// The repository's `.git` directory, which the machine may change: git has to work in it.
pub open spec fn dotgit_mount(repo_root: Seq<char>) -> MountView {
    MountView { name: Some("dotgit"@), host_path: join_of(repo_root, ".git"@), read_only: false }
}

/// The agent's own directory on the host.
pub open spec fn agent_dir(home: Seq<char>, agent: Seq<char>) -> Seq<char> {
    join_of(home, "."@ + agent)
}

/// A directory in the agent's own one, which the machine may only read.
pub open spec fn shared_mount(home: Seq<char>, agent: Seq<char>, subdir: Seq<char>) -> MountView {
    MountView {
        name: Some(agent + "-"@ + subdir),
        host_path: join_of(agent_dir(home, agent), subdir),
        read_only: true,
    }
}

/// What the agent keeps in mind of the project, which the machine may only read. The rest of what
/// the agent keeps of a project holds transcripts, and is not shared.
pub open spec fn memory_mount(home: Seq<char>, agent: Seq<char>, repo_root: Seq<char>) -> MountView {
    MountView {
        name: Some(agent + "-memory"@),
        host_path: join_of(
            join_of(join_of(agent_dir(home, agent), "projects"@), path_slug_of(repo_root)),
            "memory"@,
        ),
        read_only: true,
    }
}

/// The mounts that a machine gets if their directories exist, in order.
pub open spec fn optional_mounts(
    agent: Seq<char>,
    shared: Seq<Seq<char>>,
    repo_root: Seq<char>,
    home: Option<Seq<char>>,
) -> Seq<MountView> {
    match home {
        None => seq![dotgit_mount(repo_root)],
        Some(home) => seq![dotgit_mount(repo_root)] + shared.map_values(
            |subdir: Seq<char>| shared_mount(home, agent, subdir),
        ) + seq![memory_mount(home, agent, repo_root)],
    }
}

/// Those of the mounts that are flagged as present, in order.
pub open spec fn kept(mounts: Seq<MountView>, present: Seq<bool>) -> Seq<MountView>
    decreases mounts.len(),
{
    if mounts.len() == 0 {
        Seq::empty()
    } else if present[mounts.len() - 1] {
        kept(mounts.drop_last(), present).push(mounts.last())
    } else {
        kept(mounts.drop_last(), present)
    }
}

/// Whether `candidates` are the mounts that a machine may get besides its worktree.
pub open spec fn are_candidates(
    candidates: Seq<DirMount>,
    config: Config,
    repo_root: Seq<char>,
    home: Option<String>,
) -> bool {
    mounts_view(candidates) == optional_mounts(
        config.agent@,
        texts(config.share_claude_dirs@),
        repo_root,
        optional_text(home),
    )
}

/// Whether `opts` start a machine with its worktree, and with those of the candidates that are
/// flagged as present.
pub open spec fn are_run_opts(
    opts: RunOpts,
    config: Config,
    worktree_path: Seq<char>,
    candidates: Seq<DirMount>,
    present: Seq<bool>,
) -> bool {
    &&& opts.no_graphics == (config.vm_display@ == "none"@)
    &&& mounts_view(opts.dirs@) == seq![code_mount(worktree_path)] + kept(
        mounts_view(candidates),
        present,
    )
    &&& !opts.rosetta
}

fn push_mount(mounts: &mut Vec<DirMount>, mount: DirMount)
    ensures
        final(mounts)@ == old(mounts)@.push(mount),
        mounts_view(final(mounts)@) == mounts_view(old(mounts)@).push(mount@),
{
    mounts.push(mount);
    assert(mounts_view(mounts@) =~= mounts_view(old(mounts)@).push(mount@));
}

/// Lists the mounts that a machine may get besides its worktree. Which of them it does get is
/// decided by which directories exist.
pub fn candidate_mounts(config: &Config, repo_root: &str, home: &Option<String>) -> (candidates: Vec<
    DirMount,
>)
    ensures
        are_candidates(candidates@, *config, repo_root@, *home),
{
    let mut mounts: Vec<DirMount> = Vec::new();
    assert(mounts_view(mounts@) =~= Seq::empty());
    push_mount(
        &mut mounts,
        DirMount {
            name: Some("dotgit".to_string()),
            host_path: join(repo_root, ".git"),
            read_only: false,
        },
    );
    let ghost shared = texts(config.share_claude_dirs@);
    let ghost start = mounts_view(mounts@);
    assert(start =~= seq![dotgit_mount(repo_root@)]);
    if let Some(home) = home {
        let mut hidden = ".".to_string();
        hidden.append(config.agent.as_str());
        let dir = join(home.as_str(), hidden.as_str());
        let ghost entry = |subdir: Seq<char>| shared_mount(home@, config.agent@, subdir);
        let mut i: usize = 0;
        assert(start + shared.take(0).map_values(entry) =~= start);
        while i < config.share_claude_dirs.len()
            invariant
                i <= config.share_claude_dirs.len(),
                dir@ == agent_dir(home@, config.agent@),
                shared == texts(config.share_claude_dirs@),
                entry == (|subdir: Seq<char>| shared_mount(home@, config.agent@, subdir)),
                mounts_view(mounts@) == start + shared.take(i as int).map_values(entry),
            decreases config.share_claude_dirs.len() - i,
        {
            let subdir = &config.share_claude_dirs[i];
            let mut name = config.agent.clone();
            name.append("-");
            name.append(subdir.as_str());
            push_mount(
                &mut mounts,
                DirMount {
                    name: Some(name),
                    host_path: join(dir.as_str(), subdir.as_str()),
                    read_only: true,
                },
            );
            proof {
                assert(shared.take(i + 1) =~= shared.take(i as int).push(subdir@));
                assert(start + shared.take(i + 1).map_values(entry) =~= (start + shared.take(
                    i as int,
                ).map_values(entry)).push(entry(subdir@)));
            }
            i += 1;
        }
        assert(shared.take(shared.len() as int) =~= shared);
        let projects = join(dir.as_str(), "projects");
        let project = join(projects.as_str(), path_slug(repo_root).as_str());
        let mut name = config.agent.clone();
        name.append("-memory");
        push_mount(
            &mut mounts,
            DirMount {
                name: Some(name),
                host_path: join(project.as_str(), "memory"),
                read_only: true,
            },
        );
    }
    assert(mounts_view(mounts@) =~= optional_mounts(
        config.agent@,
        shared,
        repo_root@,
        optional_text(*home),
    ));
    mounts
}

/// How to start a machine, once it is known which candidates exist.
pub fn build_run_opts(
    config: &Config,
    worktree_path: &str,
    candidates: &Vec<DirMount>,
    present: &Vec<bool>,
) -> (opts: RunOpts)
    requires
        present.len() == candidates.len(),
    ensures
        are_run_opts(opts, *config, worktree_path@, candidates@, present@),
{
    let mut dirs: Vec<DirMount> = Vec::new();
    assert(mounts_view(dirs@) =~= Seq::empty());
    push_mount(
        &mut dirs,
        DirMount {
            name: Some("code".to_string()),
            host_path: worktree_path.to_string(),
            read_only: false,
        },
    );
    let ghost start = mounts_view(dirs@);
    assert(start =~= seq![code_mount(worktree_path@)]);
    let ghost all = mounts_view(candidates@);
    let mut i: usize = 0;
    assert(start + kept(all.take(0), present@) =~= start);
    while i < candidates.len()
        invariant
            i <= candidates.len(),
            present.len() == candidates.len(),
            all == mounts_view(candidates@),
            mounts_view(dirs@) == start + kept(all.take(i as int), present@),
        decreases candidates.len() - i,
    {
        proof {
            assert(all.take(i + 1).drop_last() =~= all.take(i as int));
            assert(all.take(i + 1).last() == candidates@[i as int]@);
        }
        if present[i] {
            push_mount(&mut dirs, candidates[i].duplicate());
        }
        assert(mounts_view(dirs@) =~= start + kept(all.take(i + 1), present@));
        i += 1;
    }
    assert(all.take(all.len() as int) =~= all);
    RunOpts { no_graphics: config.vm_display == "none".to_string(), dirs, rosetta: false }
}

proof fn lemma_kept_were_flagged(mounts: Seq<MountView>, present: Seq<bool>, j: int)
    requires
        0 <= j < kept(mounts, present).len(),
    ensures
        exists|i: int|
            0 <= i < mounts.len() && present[i] && #[trigger] mounts[i] == kept(mounts, present)[j],
    decreases mounts.len(),
{
    let before = mounts.drop_last();
    if present[mounts.len() - 1] && j == kept(before, present).len() {
        assert(mounts[mounts.len() - 1] == kept(mounts, present)[j]);
    } else {
        lemma_kept_were_flagged(before, present, j);
        let i = choose|i: int|
            0 <= i < before.len() && present[i] && #[trigger] before[i] == kept(before, present)[j];
        assert(mounts[i] == kept(mounts, present)[j]);
    }
}

proof fn lemma_flagged_are_kept(mounts: Seq<MountView>, present: Seq<bool>, i: int)
    requires
        0 <= i < mounts.len(),
        present[i],
    ensures
        kept(mounts, present).contains(mounts[i]),
    decreases mounts.len(),
{
    let before = mounts.drop_last();
    if i == mounts.len() - 1 {
        assert(kept(mounts, present).last() == mounts[i]);
    } else {
        lemma_flagged_are_kept(before, present, i);
        let j = choose|j: int|
            0 <= j < kept(before, present).len() && kept(before, present)[j] == before[i];
        assert(kept(mounts, present)[j] == mounts[i]);
    }
}

/// Each candidate is the `.git` directory, a shared directory or the memory of the project.
proof fn lemma_candidates(
    candidates: Seq<DirMount>,
    config: Config,
    repo_root: Seq<char>,
    home: Option<String>,
    i: int,
)
    requires
        are_candidates(candidates, config, repo_root, home),
        0 <= i < candidates.len(),
    ensures
        candidates[i]@ == dotgit_mount(repo_root) || (home matches Some(h) && {
            ||| candidates[i]@ == memory_mount(h@, config.agent@, repo_root)
            ||| exists|k: int|
                0 <= k < config.share_claude_dirs@.len() && candidates[i]@ == shared_mount(
                    h@,
                    config.agent@,
                    (#[trigger] config.share_claude_dirs@[k])@,
                )
        }),
{
    let all = mounts_view(candidates);
    assert(all[i] == candidates[i]@);
    assert(all.len() == candidates.len());
    assert(all[0] == dotgit_mount(repo_root));
    if let Some(h) = home {
        let shared = texts(config.share_claude_dirs@);
        if 0 < i <= shared.len() {
            assert(all[i] == shared_mount(h@, config.agent@, shared[i - 1]));
            assert(shared[i - 1] == config.share_claude_dirs@[i - 1]@);
        } else if i > 0 {
            assert(all[i] == memory_mount(h@, config.agent@, repo_root));
        }
    }
}

/// Whether a mount is one of the candidates that are flagged as present.
pub open spec fn is_present(candidates: Seq<DirMount>, present: Seq<bool>, mount: MountView) -> bool {
    exists|i: int| 0 <= i < candidates.len() && present[i] && (#[trigger] candidates[i])@ == mount
}

/// The first mount is the worktree, and every other one is a candidate that is present. Every
/// candidate that is present is mounted.
pub proof fn law_mounts_are_the_worktree_and_what_is_present(
    opts: RunOpts,
    config: Config,
    worktree_path: Seq<char>,
    candidates: Seq<DirMount>,
    present: Seq<bool>,
)
    requires
        are_run_opts(opts, config, worktree_path, candidates, present),
        present.len() == candidates.len(),
    ensures
        opts.dirs@.len() > 0,
        opts.dirs@[0]@ == code_mount(worktree_path),
        forall|j: int|
            0 < j < opts.dirs@.len() ==> is_present(
                candidates,
                present,
                (#[trigger] opts.dirs@[j])@,
            ),
        forall|i: int|
            0 <= i < candidates.len() && present[i] ==> mounts_view(opts.dirs@).contains(
                #[trigger] candidates[i]@,
            ),
{
    let all = mounts_view(candidates);
    let mounted = mounts_view(opts.dirs@);
    assert(mounted[0] == code_mount(worktree_path));
    assert(mounted.len() == opts.dirs@.len());
    assert forall|j: int| 0 < j < opts.dirs@.len() implies is_present(
        candidates,
        present,
        (#[trigger] opts.dirs@[j])@,
    ) by {
        lemma_kept_were_flagged(all, present, j - 1);
        let i = choose|i: int|
            0 <= i < all.len() && present[i] && #[trigger] all[i] == kept(all, present)[j - 1];
        assert(mounted[j] == kept(all, present)[j - 1]);
        assert(mounted[j] == opts.dirs@[j]@);
        assert(all[i] == candidates[i]@);
    }
    assert forall|i: int| 0 <= i < candidates.len() && present[i] implies mounted.contains(
        #[trigger] candidates[i]@,
    ) by {
        lemma_flagged_are_kept(all, present, i);
        assert(all[i] == candidates[i]@);
        let j = choose|j: int|
            0 <= j < kept(all, present).len() && kept(all, present)[j] == all[i];
        assert(mounted[j + 1] == all[i]);
    }
}

/// A machine can change nothing of the host but its worktree and the repository's `.git`
/// directory: every other mount is read-only.
pub proof fn law_only_code_and_git_are_writable(
    opts: RunOpts,
    config: Config,
    worktree_path: Seq<char>,
    repo_root: Seq<char>,
    home: Option<String>,
    candidates: Seq<DirMount>,
    present: Seq<bool>,
    j: int,
)
    requires
        are_candidates(candidates, config, repo_root, home),
        are_run_opts(opts, config, worktree_path, candidates, present),
        present.len() == candidates.len(),
        0 <= j < opts.dirs@.len(),
    ensures
        opts.dirs@[j].read_only || opts.dirs@[j]@ == code_mount(worktree_path) || opts.dirs@[j]@
            == dotgit_mount(repo_root),
        opts.dirs@[j]@.name == Some("code"@) || opts.dirs@[j]@.name == Some("dotgit"@)
            ==> !opts.dirs@[j].read_only,
{
    law_mounts_are_the_worktree_and_what_is_present(opts, config, worktree_path, candidates, present);
    if j > 0 {
        let i = choose|i: int|
            0 <= i < candidates.len() && present[i] && (#[trigger] candidates[i])@ == opts.dirs@[j]@;
        lemma_candidates(candidates, config, repo_root, home, i);
        reveal_strlit("code");
        reveal_strlit("dotgit");
        reveal_strlit("-");
        reveal_strlit("-memory");
        if opts.dirs@[j].read_only {
            let name = opts.dirs@[j]@.name->0;
            assert(name[config.agent@.len() as int] == '-');
            assert("code"@ =~= seq!['c', 'o', 'd', 'e']);
            assert("dotgit"@ =~= seq!['d', 'o', 't', 'g', 'i', 't']);
        }
    }
}

/// The way from the agent's own directory to what it keeps in mind of a project.
spec fn memory_tail(slug: Seq<char>) -> Seq<char> {
    if slug.len() == 0 {
        "projects/memory"@
    } else {
        "projects/"@ + slug + "/memory"@
    }
}

/// What the agent keeps in mind of a project lies below its own directory, unless the project's
/// slug is `.` or `..`.
proof fn lemma_memory_lies_below(dir: Seq<char>, repo_root: Seq<char>)
    requires
        shown_of(repo_root) != "."@,
        shown_of(repo_root) != ".."@,
    ensures
        lies_below(
            dir,
            join_of(join_of(join_of(dir, "projects"@), path_slug_of(repo_root)), "memory"@),
        ),
{
    let shown = shown_of(repo_root);
    let slug = path_slug_of(repo_root);
    let tail = memory_tail(slug);
    let n = slug.len() as int;
    reveal_strlit("/");
    reveal_strlit(".");
    reveal_strlit("..");
    reveal_strlit("projects");
    reveal_strlit("projects/");
    reveal_strlit("memory");
    reveal_strlit("/memory");
    reveal_strlit("projects/memory");
    assert("projects"@ =~= seq!['p', 'r', 'o', 'j', 'e', 'c', 't', 's']);
    assert("projects/"@ =~= "projects"@.push('/'));
    assert("memory"@ =~= seq!['m', 'e', 'm', 'o', 'r', 'y']);
    assert("/memory"@ =~= seq!['/'] + "memory"@);
    assert("projects/memory"@ =~= "projects"@.push('/') + "memory"@);
    assert(forall|k: int| 0 <= k < n ==> slug[k] != '/');
    assert(join_of(join_of(join_of(dir, "projects"@), slug), "memory"@) =~= join_of(dir, tail));
    assert forall|i: int, j: int| #[trigger] is_component(tail, i, j) implies tail.subrange(i, j)
        != "."@ && tail.subrange(i, j) != ".."@ by {
        let part = tail.subrange(i, j);
        if part == "."@ || part == ".."@ {
            assert(part[0] == '.');
            assert(tail[i] == '.');
            assert(tail[0] == 'p');
            assert(n > 0 && i == 9);
            assert(tail[9 + n] == '/');
            if j < 9 + n {
                assert(tail[j] == slug[j - 9]);
            }
            assert(j == 9 + n);
            assert(part =~= slug);
            assert(forall|k: int|
                0 <= k < n ==> slug[k] == if shown[k] == '/' {
                    '-'
                } else {
                    shown[k]
                });
            assert(shown =~= part);
        }
    }
    assert(descends(tail));
}

/// The agent's own directory is never shown as a whole, and nothing outside of it is shown
/// read-only: each mount that a machine may only read lies below that directory, as long as the
/// shared directories are given by names that lead into it.
pub proof fn law_shared_mounts_lie_below_the_agent_directory(
    config: Config,
    repo_root: Seq<char>,
    home: String,
    candidates: Seq<DirMount>,
    i: int,
)
    requires
        are_candidates(candidates, config, repo_root, Some(home)),
        forall|k: int|
            0 <= k < config.share_claude_dirs@.len() ==> descends(
                (#[trigger] config.share_claude_dirs@[k])@,
            ),
        shown_of(repo_root) != "."@,
        shown_of(repo_root) != ".."@,
        0 <= i < candidates.len(),
        candidates[i].read_only,
    ensures
        lies_below(agent_dir(home@, config.agent@), candidates[i].host_path@),
{
    lemma_candidates(candidates, config, repo_root, Some(home), i);
    lemma_memory_lies_below(agent_dir(home@, config.agent@), repo_root);
    assert(candidates[i].host_path@ == candidates[i]@.host_path);
}

} // verus!
