//! What a command tells the user in the end.

use vstd::prelude::*;
use vstd::string::StringExecFns;

use crate::cli::SshAction;
use crate::effect::PruneResult;
use crate::text::{push_text, texts, trim, trimmed};
use crate::vm::SpawnResult;

verus! {

/// What to print when a command has succeeded.
#[derive(Debug)]
pub enum Report {
    /// A message of success.
    Success(String),
    /// Bare lines.
    Lines(Vec<String>),
    /// A text as it is.
    Raw(String),
    Nothing,
}

/// Whether a report is the given message of success.
pub open spec fn succeeds(report: Report, text: Seq<char>) -> bool {
    report matches Report::Success(m) && m@ == text
}

/// Whether a report is made of the given lines.
pub open spec fn prints(report: Report, lines: Seq<Seq<char>>) -> bool {
    report matches Report::Lines(printed) && texts(printed@) == lines
}

/// A message of three parts.
pub(crate) fn success(before: &str, middle: &str, after: &str) -> (report: Report)
    ensures
        succeeds(report, before@ + middle@ + after@),
{
    let mut m = before.to_string();
    m.append(middle);
    m.append(after);
    Report::Success(m)
}

/// What is told of a machine that was spawned without a subcommand.
pub open spec fn spawned_text(result: SpawnResult) -> Seq<char> {
    (match result {
        SpawnResult::Reconnected { .. } => "Reconnected to "@,
        SpawnResult::Resumed { .. } => "Resumed "@,
        SpawnResult::Started { .. } => "Started "@,
        SpawnResult::Created { .. } => "Created "@,
    }) + result.spec_name()@ + " ("@ + result.spec_ip().text@ + ")"@
}

/// What is told of a machine that was spawned by the subcommand.
pub open spec fn ready_text(result: SpawnResult) -> Seq<char> {
    "VM "@ + result.spec_name()@ + " ready at "@ + result.spec_ip().text@
}

/// What is told of a machine that was spawned, without a subcommand or by it.
pub open spec fn told_of(result: SpawnResult, shorthand: bool) -> Seq<char> {
    if shorthand {
        spawned_text(result)
    } else {
        ready_text(result)
    }
}

/// Tells of a machine that was spawned, without a subcommand or by it.
pub fn spawn_report(result: &SpawnResult, shorthand: bool) -> (report: Report)
    ensures
        succeeds(report, told_of(*result, shorthand)),
{
    let ip = result.ip();
    if shorthand {
        let verb = match result {
            SpawnResult::Reconnected { .. } => "Reconnected to ",
            SpawnResult::Resumed { .. } => "Resumed ",
            SpawnResult::Started { .. } => "Started ",
            SpawnResult::Created { .. } => "Created ",
        };
        let mut m = verb.to_string();
        m.append(result.name());
        m.append(" (");
        m.append(ip.text.as_str());
        m.append(")");
        Report::Success(m)
    } else {
        let mut m = "VM ".to_string();
        m.append(result.name());
        m.append(" ready at ");
        m.append(ip.text.as_str());
        Report::Success(m)
    }
}

/// The lines that tell of pruned machines.
pub open spec fn pruned_lines(result: PruneResult) -> Seq<Seq<char>> {
    let action = if result.dry_run {
        "Would prune"@
    } else {
        "Pruned"@
    };
    texts(result.pruned@).map_values(|name: Seq<char>| action + ": "@ + name)
}

/// Whether a report tells of pruned machines.
pub open spec fn tells_of_pruning(report: Report, result: PruneResult) -> bool {
    if result.pruned@.len() == 0 {
        succeeds(report, "No VMs to prune"@)
    } else {
        prints(report, pruned_lines(result))
    }
}

/// Tells of pruned machines.
pub fn prune_report(result: &PruneResult) -> (report: Report)
    ensures
        tells_of_pruning(report, *result),
{
    if result.pruned.len() == 0 {
        return Report::Success("No VMs to prune".to_string());
    }
    let action = if result.dry_run {
        "Would prune"
    } else {
        "Pruned"
    };
    let mut lines: Vec<String> = Vec::new();
    let mut i: usize = 0;
    assert(texts(lines@) =~= pruned_lines(*result).take(0));
    while i < result.pruned.len()
        invariant
            i <= result.pruned.len(),
            action@ == if result.dry_run {
                "Would prune"@
            } else {
                "Pruned"@
            },
            texts(lines@) == pruned_lines(*result).take(i as int),
        decreases result.pruned.len() - i,
    {
        let mut line = action.to_string();
        line.append(": ");
        line.append(result.pruned[i].as_str());
        push_text(&mut lines, line);
        assert(texts(lines@) =~= pruned_lines(*result).take(i + 1));
        i += 1;
    }
    assert(pruned_lines(*result).take(i as int) =~= pruned_lines(*result));
    Report::Lines(lines)
}

/// What is told of the entries in `~/.ssh/config`.
pub open spec fn ssh_text(action: SshAction) -> Seq<char> {
    match action {
        SshAction::Install => "SSH config installed"@,
        SshAction::Uninstall => "SSH config removed"@,
        SshAction::Refresh => "SSH config refreshed"@,
    }
}

/// Tells of the entries in `~/.ssh/config`.
pub fn ssh_report(action: SshAction) -> (report: Report)
    ensures
        succeeds(report, ssh_text(action)),
{
    match action {
        SshAction::Install => Report::Success("SSH config installed".to_string()),
        SshAction::Uninstall => Report::Success("SSH config removed".to_string()),
        SshAction::Refresh => Report::Success("SSH config refreshed".to_string()),
    }
}

/// What a user is asked before a machine is destroyed.
pub open spec fn destroy_prompt_text(vm_name: Seq<char>) -> Seq<char> {
    "Destroy VM '"@ + vm_name + "'? This cannot be undone. [y/N] "@
}

/// The question before a machine is destroyed.
pub fn destroy_prompt(vm_name: &str) -> (prompt: String)
    ensures
        prompt@ == destroy_prompt_text(vm_name@),
{
    let mut prompt = "Destroy VM '".to_string();
    prompt.append(vm_name);
    prompt.append("'? This cannot be undone. [y/N] ");
    prompt
}

/// Whether an answer means yes: it is the letter `y`, small or capital, and white space.
pub open spec fn confirms(input: Seq<char>) -> bool {
    trimmed(input) == "y"@ || trimmed(input) == "Y"@
}

/// Whether an answer means yes.
pub fn is_confirmed(input: &str) -> (yes: bool)
    ensures
        yes == confirms(input@),
{
    let answer = trim(input).to_string();
    answer == "y".to_string() || answer == "Y".to_string()
}

} // verus!
