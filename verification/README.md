# tachikoma

Autonomous VM sandboxes, one for each git worktree. The program finds the branch that a directory is
on, sees to a linked worktree for it, and brings up the `tart` machine that belongs to it: it
connects to a running one, resumes a suspended one, starts a stopped one, and clones a new one.

## How it is built

`src/` is the library, verified with Verus. It changes nothing. Each procedure is a machine that asks
for one call at a time (`effect::Call`) and goes on with the reply (`effect::Reply`). By itself it
reads off the host only the home directory and the time of day (`system`). What a machine may
do with a reply is its `transition`, and `resume` is proved to keep to it. What holds of whole runs
is stated and proved in the functions named `law_*`.

- `effect`: calls, replies, machines and runs
- `tart`: command lines of `tart`, and how its outcomes are read
- `vm`: boot detection, mounts, worktrees, and the spawn of a machine
- `cmd`: the spawn from a directory, the credential proxy, commands in machines, images
- `program`: preparation, dispatch of the command line, and what the user is told
- `cli`, `config`, `state`, `worktree`, `error`: the data
- `names`, `path`, `os_path`, `text`, `system`: names, paths and their texts, and what is read off
  the host

`app/` is the program around it: it parses the command line, performs the calls with processes,
sockets and files, and prints the results. Subcommands that the library only hands on are carried
out by companion programs named `tachikoma-<subcommand>`.
