//! Git: reading the output of Git commands, and deciding which branch an
//! update follows. The configured branch is tried first (in the local
//! remote-tracking refs, then on the remote); when it does not exist, the
//! remote's default branch is used, and last the checked-out branch.
use vstd::prelude::*;
use crate::command::{CommandOutput, CommandSpec, git_spec};
use crate::models::string_views;
use crate::text::{
    chars_of, concat2, has_prefix, slice_vec, split_char, split_on, starts_with, string_of,
    trim, trimmed, views, words, words_of};

verus! {

/// The trimmed standard output of a Git command that ran and succeeded,
/// when it is not empty.
pub open spec fn git_value_spec(output: Option<CommandOutput>) -> Option<Seq<char>> {
    match output {
        Some(o) => if o.success && trim(o.stdout@).len() > 0 {
            Some(trim(o.stdout@))
        } else {
            None
        },
        None => None,
    }
}

/// The trimmed standard output of a Git command (`None` when it could not
/// run), when it succeeded and printed something.
pub fn git_value(output: &Option<CommandOutput>) -> (r: Option<String>)
    ensures
        match git_value_spec(*output) {
            Some(v) => r matches Some(s) && s@ == v,
            None => r is None,
        },
{
    match output {
        Some(o) => {
            if !o.success {
                return None;
            }
            let t = trimmed(&chars_of(o.stdout.as_str()));
            if t.len() == 0 {
                return None;
            }
            Some(string_of(&t))
        },
        None => None,
    }
}

/// Whether a command ran and succeeded.
pub open spec fn succeeded(output: Option<CommandOutput>) -> bool {
    match output {
        Some(o) => o.success,
        None => false,
    }
}

// ---------------------------------------------------------------------
// The default branch that `git ls-remote --symref` reports
// ---------------------------------------------------------------------

/// The branch that one line of `git ls-remote --symref <remote> HEAD`
/// names: a line `ref: refs/heads/<branch> HEAD`.
pub open spec fn line_branch(line: Seq<char>) -> Option<Seq<char>> {
    let w = words(line);
    if w.len() >= 3 && w[0] == "ref:"@ && w[2] == "HEAD"@ && starts_with(w[1], "refs/heads/"@)
        && w[1].len() > 11 {
        Some(w[1].subrange(11, w[1].len() as int))
    } else {
        None
    }
}

/// The branch that the first line naming one names.
pub open spec fn first_line_branch(lines: Seq<Seq<char>>) -> Option<Seq<char>>
    decreases lines.len(),
{
    if lines.len() == 0 {
        None
    } else {
        match line_branch(lines[0]) {
            Some(b) => Some(b),
            None => first_line_branch(lines.drop_first()),
        }
    }
}

/// The default branch that the output of `git ls-remote --symref` names,
/// reading it line by line.
pub open spec fn remote_default_branch_spec(value: Seq<char>) -> Option<Seq<char>> {
    first_line_branch(split_char(value, '\n'))
}

fn word_is(w: &Vec<char>, s: &str) -> (b: bool)
    ensures
        b == (w@ == s@),
{
    let v = chars_of(s);
    if w.len() != v.len() {
        return false;
    }
    let b = has_prefix(w, &v);
    proof {
        if b {
            assert(w@.subrange(0, v@.len() as int) =~= w@);
        }
        if w@ == v@ {
            assert(w@.subrange(0, v@.len() as int) =~= w@);
        }
    }
    b
}

fn line_branch_exec(line: &Vec<char>) -> (r: Option<String>)
    ensures
        match line_branch(line@) {
            Some(b) => r matches Some(s) && s@ == b,
            None => r is None,
        },
{
    let w = words_of(line);
    if w.len() < 3 {
        return None;
    }
    assert(views(w@)[0] == w@[0]@ && views(w@)[1] == w@[1]@ && views(w@)[2] == w@[2]@);
    if !word_is(&w[0], "ref:") || !word_is(&w[2], "HEAD") {
        return None;
    }
    let prefix = chars_of("refs/heads/");
    if !has_prefix(&w[1], &prefix) || w[1].len() <= 11 {
        return None;
    }
    proof {
        reveal_strlit("refs/heads/");
    }
    Some(string_of(&slice_vec(&w[1], 11, w[1].len())))
}

/// The default branch that the output of `git ls-remote --symref
/// <remote> HEAD` names, if it names one.
pub fn parse_remote_default_branch(value: &str) -> (r: Option<String>)
    ensures
        match remote_default_branch_spec(value@) {
            Some(b) => r matches Some(s) && s@ == b,
            None => r is None,
        },
{
    let lines = split_on(&chars_of(value), '\n');
    let n = lines.len();
    let ghost all = views(lines@);
    assert(all.subrange(0, n as int) =~= all);
    for i in 0..n
        invariant
            n == lines.len(),
            all == views(lines@),
            all == split_char(value@, '\n'),
            first_line_branch(all) == first_line_branch(all.subrange(i as int, n as int)),
    {
        assert(all.subrange(i as int, n as int)[0] == lines@[i as int]@);
        assert(all.subrange(i as int, n as int).drop_first() =~= all.subrange(i + 1, n as int));
        match line_branch_exec(&lines[i]) {
            Some(b) => return Some(b),
            None => {},
        }
    }
    None
}

// ---------------------------------------------------------------------
// Choosing the branch of an update
// ---------------------------------------------------------------------

/// The questions asked, in order, to find the branch of an update.
#[derive(Debug, Clone, Copy, PartialEq, Eq, Structural)]
pub enum BranchProbe {
    /// Does `refs/remotes/<remote>/<branch>` exist locally?
    LocalRemoteBranch,
    /// Does the remote have `refs/heads/<branch>`?
    RemoteBranch,
    /// What does the local `refs/remotes/<remote>/HEAD` point to?
    LocalRemoteDefault,
    /// What does the remote report as its `HEAD`?
    RemoteDefault,
    /// Which branch is checked out?
    CurrentBranch,
}

/// The next step of choosing the branch of an update.
#[derive(Debug, Clone, PartialEq)]
pub enum BranchStep {
    /// Run this Git command and report its output for this probe.
    Run(BranchProbe, CommandSpec),
    /// The update follows this branch.
    Resolved(String),
    /// No branch could be found.
    Failed(String),
}

/// The probe after `p`, if any.
pub open spec fn next_probe(p: BranchProbe) -> Option<BranchProbe> {
    match p {
        BranchProbe::LocalRemoteBranch => Some(BranchProbe::RemoteBranch),
        BranchProbe::RemoteBranch => Some(BranchProbe::LocalRemoteDefault),
        BranchProbe::LocalRemoteDefault => Some(BranchProbe::RemoteDefault),
        BranchProbe::RemoteDefault => Some(BranchProbe::CurrentBranch),
        BranchProbe::CurrentBranch => None,
    }
}

/// The arguments of the Git command that answers the probe `p`.
pub open spec fn probe_args(p: BranchProbe, remote: Seq<char>, branch: Seq<char>) -> Seq<Seq<char>> {
    match p {
        BranchProbe::LocalRemoteBranch => seq![
            "show-ref"@,
            "--verify"@,
            "--quiet"@,
            "refs/remotes/"@ + remote + "/"@ + branch,
        ],
        BranchProbe::RemoteBranch => seq![
            "ls-remote"@,
            "--exit-code"@,
            "--heads"@,
            remote,
            "refs/heads/"@ + branch,
        ],
        BranchProbe::LocalRemoteDefault => seq![
            "symbolic-ref"@,
            "--short"@,
            "refs/remotes/"@ + remote + "/HEAD"@,
        ],
        BranchProbe::RemoteDefault => seq!["ls-remote"@, "--symref"@, remote, "HEAD"@],
        BranchProbe::CurrentBranch => seq!["rev-parse"@, "--abbrev-ref"@, "HEAD"@],
    }
}

/// Whether `spec` is the Git command that answers the probe `p`.
pub open spec fn is_probe_command(
    spec: CommandSpec,
    p: BranchProbe,
    remote: Seq<char>,
    branch: Seq<char>,
) -> bool {
    spec.program@ == "git"@ && string_views(spec.args@) == probe_args(p, remote, branch)
}

/// The branch that the output of the command of probe `p` settles on, if
/// it settles on one.
pub open spec fn probe_answer(
    p: BranchProbe,
    output: Option<CommandOutput>,
    remote: Seq<char>,
    branch: Seq<char>,
) -> Option<Seq<char>> {
    match p {
        BranchProbe::LocalRemoteBranch | BranchProbe::RemoteBranch => if succeeded(output) {
            Some(branch)
        } else {
            None
        },
        BranchProbe::LocalRemoteDefault => match git_value_spec(output) {
            Some(v) => if starts_with(v, remote + "/"@) {
                Some(v.subrange((remote.len() + 1) as int, v.len() as int))
            } else {
                None
            },
            None => None,
        },
        BranchProbe::RemoteDefault => match output {
            Some(o) => if o.success {
                remote_default_branch_spec(o.stdout@)
            } else {
                None
            },
            None => None,
        },
        BranchProbe::CurrentBranch => match git_value_spec(output) {
            Some(v) => if v != "HEAD"@ {
                Some(v)
            } else {
                None
            },
            None => None,
        },
    }
}

/// The message when no branch could be found.
pub open spec fn no_branch_message(remote: Seq<char>, branch: Seq<char>) -> Seq<char> {
    "配置的远程分支 "@ + branch + " 不存在，且无法确定 "@ + remote + " 的默认分支"@
}

/// The step that follows the answer to the probe `p`.
pub open spec fn branch_step_after(
    p: BranchProbe,
    output: Option<CommandOutput>,
    remote: Seq<char>,
    branch: Seq<char>,
    step: BranchStep,
) -> bool {
    match probe_answer(p, output, remote, branch) {
        Some(b) => step matches BranchStep::Resolved(s) && s@ == b,
        None => match next_probe(p) {
            Some(q) => step matches BranchStep::Run(q2, spec) && q2 == q && is_probe_command(
                spec,
                q,
                remote,
                branch,
            ),
            None => step matches BranchStep::Failed(m) && m@ == no_branch_message(remote, branch),
        },
    }
}

/// The Git command that answers the probe `p`.
pub fn probe_command(p: BranchProbe, remote: &str, branch: &str) -> (spec: CommandSpec)
    ensures
        is_probe_command(spec, p, remote@, branch@),
{
    let spec = match p {
        BranchProbe::LocalRemoteBranch => {
            let mut r = String::from_str("refs/remotes/");
            r.append(remote);
            r.append("/");
            r.append(branch);
            let mut spec = git_spec(vec!["show-ref", "--verify", "--quiet"]);
            let ghost before = string_views(spec.args@);
            spec.args.push(r);
            assert(string_views(spec.args@) =~= before.push(r@));
            spec
        },
        BranchProbe::RemoteBranch => {
            let r = concat2("refs/heads/", branch);
            git_spec(vec!["ls-remote", "--exit-code", "--heads", remote, r.as_str()])
        },
        BranchProbe::LocalRemoteDefault => {
            let r = crate::text::concat3("refs/remotes/", remote, "/HEAD");
            git_spec(vec!["symbolic-ref", "--short", r.as_str()])
        },
        BranchProbe::RemoteDefault => git_spec(vec!["ls-remote", "--symref", remote, "HEAD"]),
        BranchProbe::CurrentBranch => git_spec(vec!["rev-parse", "--abbrev-ref", "HEAD"]),
    };
    assert(string_views(spec.args@) =~= probe_args(p, remote@, branch@));
    spec
}

/// The first step of choosing the branch of an update: look for the
/// configured branch among the local remote-tracking refs.
pub fn first_branch_step(remote: &str, branch: &str) -> (step: BranchStep)
    ensures
        step matches BranchStep::Run(p, spec) && p == BranchProbe::LocalRemoteBranch
            && is_probe_command(spec, p, remote@, branch@),
{
    BranchStep::Run(BranchProbe::LocalRemoteBranch, probe_command(BranchProbe::LocalRemoteBranch, remote, branch))
}

/// The step after the probe `p` was answered by `output` (`None` when its
/// command could not run).
pub fn next_branch_step(p: BranchProbe, output: &Option<CommandOutput>, remote: &str, branch: &str) -> (step: BranchStep)
    ensures
        branch_step_after(p, *output, remote@, branch@, step),
{
    let answer: Option<String> = match p {
        BranchProbe::LocalRemoteBranch | BranchProbe::RemoteBranch => {
            let ok = match output {
                Some(o) => o.success,
                None => false,
            };
            if ok {
                Some(String::from_str(branch))
            } else {
                None
            }
        },
        BranchProbe::LocalRemoteDefault => match git_value(output) {
            Some(v) => {
                let vc = chars_of(v.as_str());
                let prefix = chars_of(concat2(remote, "/").as_str());
                if has_prefix(&vc, &prefix) {
                    Some(string_of(&slice_vec(&vc, prefix.len(), vc.len())))
                } else {
                    None
                }
            },
            None => None,
        },
        BranchProbe::RemoteDefault => match output {
            Some(o) => if o.success {
                parse_remote_default_branch(o.stdout.as_str())
            } else {
                None
            },
            None => None,
        },
        BranchProbe::CurrentBranch => match git_value(output) {
            Some(v) => {
                if word_is(&chars_of(v.as_str()), "HEAD") {
                    None
                } else {
                    Some(v)
                }
            },
            None => None,
        },
    };
    proof {
        reveal_strlit("/");
    }
    assert(match probe_answer(p, *output, remote@, branch@) {
        Some(b) => answer matches Some(s) && s@ == b,
        None => answer is None,
    });
    match answer {
        Some(b) => BranchStep::Resolved(b),
        None => {
            let next = match p {
                BranchProbe::LocalRemoteBranch => Some(BranchProbe::RemoteBranch),
                BranchProbe::RemoteBranch => Some(BranchProbe::LocalRemoteDefault),
                BranchProbe::LocalRemoteDefault => Some(BranchProbe::RemoteDefault),
                BranchProbe::RemoteDefault => Some(BranchProbe::CurrentBranch),
                BranchProbe::CurrentBranch => None,
            };
            match next {
                Some(q) => BranchStep::Run(q, probe_command(q, remote, branch)),
                None => {
                    let mut m = String::from_str("配置的远程分支 ");
                    m.append(branch);
                    m.append(" 不存在，且无法确定 ");
                    m.append(remote);
                    m.append(" 的默认分支");
                    BranchStep::Failed(m)
                },
            }
        },
    }
}

/// The line logged when the update follows another branch than the
/// configured one.
pub fn branch_fallback_message(configured: &str, branch: &str) -> (r: Option<String>)
    ensures
        configured@ == branch@ ==> r is None,
        configured@ != branch@ ==> (r matches Some(m) && m@ == "配置分支 "@ + configured@
            + " 不存在，已改用远程默认分支 "@ + branch@),
{
    if word_is(&chars_of(branch), configured) {
        return None;
    }
    let mut m = String::from_str("配置分支 ");
    m.append(configured);
    m.append(" 不存在，已改用远程默认分支 ");
    m.append(branch);
    Some(m)
}

/// The configured branch is looked for first, locally and then on the
/// remote; when either finds it, the update follows it, without looking at
/// any default branch.
pub proof fn law_configured_branch_first(remote: Seq<char>, branch: Seq<char>, output: Option<CommandOutput>)
    requires
        succeeded(output),
    ensures
        probe_answer(BranchProbe::LocalRemoteBranch, output, remote, branch) == Some(branch),
        probe_answer(BranchProbe::RemoteBranch, output, remote, branch) == Some(branch),
        next_probe(BranchProbe::LocalRemoteBranch) == Some(BranchProbe::RemoteBranch),
        next_probe(BranchProbe::RemoteBranch) == Some(BranchProbe::LocalRemoteDefault),
{
}


/// A probe whose command could not run (no output at all, as when the
/// remote cannot be reached) settles on no branch.
pub proof fn law_probe_without_output_settles_nothing(p: BranchProbe, remote: Seq<char>, branch: Seq<char>)
    ensures
        probe_answer(p, None, remote, branch) is None,
{
}

/// The branch of an update is looked for in a fixed order, each question
/// asked only when the one before it settled on nothing: the local
/// remote-tracking ref of the configured branch, that branch on the remote,
/// the local record of the remote's default branch, the default branch that
/// the remote itself reports, and last the checked-out branch. Only when
/// the checked-out branch gives nothing either does the search fail, with
/// the message that names the configured branch and the remote.
pub proof fn law_branch_probe_order(
    p: BranchProbe,
    output: Option<CommandOutput>,
    remote: Seq<char>,
    branch: Seq<char>,
    step: BranchStep,
)
    requires
        branch_step_after(p, output, remote, branch, step),
        output is None || probe_answer(p, output, remote, branch) is None,
    ensures
        p == BranchProbe::LocalRemoteBranch ==> (step matches BranchStep::Run(q, spec)
            && q == BranchProbe::RemoteBranch && spec.program@ == "git"@
            && string_views(spec.args@) == seq![
            "ls-remote"@,
            "--exit-code"@,
            "--heads"@,
            remote,
            "refs/heads/"@ + branch,
        ]),
        p == BranchProbe::RemoteBranch ==> (step matches BranchStep::Run(q, spec)
            && q == BranchProbe::LocalRemoteDefault && spec.program@ == "git"@
            && string_views(spec.args@) == seq![
            "symbolic-ref"@,
            "--short"@,
            "refs/remotes/"@ + remote + "/HEAD"@,
        ]),
        p == BranchProbe::LocalRemoteDefault ==> (step matches BranchStep::Run(q, spec)
            && q == BranchProbe::RemoteDefault && spec.program@ == "git"@
            && string_views(spec.args@) == seq!["ls-remote"@, "--symref"@, remote, "HEAD"@]),
        p == BranchProbe::RemoteDefault ==> (step matches BranchStep::Run(q, spec)
            && q == BranchProbe::CurrentBranch && spec.program@ == "git"@
            && string_views(spec.args@) == seq!["rev-parse"@, "--abbrev-ref"@, "HEAD"@]),
        p == BranchProbe::CurrentBranch ==> (step matches BranchStep::Failed(m) && m@ == "配置的远程分支 "@
            + branch + " 不存在，且无法确定 "@ + remote + " 的默认分支"@),
{
    law_probe_without_output_settles_nothing(p, remote, branch);
}

/// The search starts with the local remote-tracking ref of the configured
/// branch.
pub proof fn law_branch_search_starts_locally(remote: Seq<char>, branch: Seq<char>, step: BranchStep)
    requires
        step matches BranchStep::Run(p, spec) && p == BranchProbe::LocalRemoteBranch
            && is_probe_command(spec, p, remote, branch),
    ensures
        step matches BranchStep::Run(_, spec) && spec.program@ == "git"@ && string_views(spec.args@)
            == seq!["show-ref"@, "--verify"@, "--quiet"@, "refs/remotes/"@ + remote + "/"@ + branch],
{
}


/// What each answered probe leads to: when the configured branch is found
/// (locally or on the remote) the update follows it; when the checked-out
/// branch is asked, a successful answer other than a detached `HEAD`
/// (trimmed, not empty) is followed, and a failed or detached answer ends
/// the search; the local record of the remote's default branch is followed
/// only as `<remote>/<branch>`; no failed command settles on a branch.
pub proof fn law_branch_answers(
    p: BranchProbe,
    output: Option<CommandOutput>,
    remote: Seq<char>,
    branch: Seq<char>,
    step: BranchStep,
)
    requires
        branch_step_after(p, output, remote, branch, step),
    ensures
        (p == BranchProbe::LocalRemoteBranch || p == BranchProbe::RemoteBranch) ==> (succeeded(output)
            <==> step is Resolved),
        (p == BranchProbe::LocalRemoteBranch || p == BranchProbe::RemoteBranch) && succeeded(output)
            ==> (step matches BranchStep::Resolved(b) && b@ == branch),
        p == BranchProbe::CurrentBranch ==> (step is Resolved <==> (succeeded(output) && trim(
            output->Some_0.stdout@,
        ).len() > 0 && trim(output->Some_0.stdout@) != "HEAD"@)),
        p == BranchProbe::CurrentBranch && step is Resolved ==> (step matches BranchStep::Resolved(b)
            && b@ == trim(output->Some_0.stdout@)),
        p == BranchProbe::LocalRemoteDefault && step is Resolved ==> (succeeded(output) && (step matches BranchStep::Resolved(b)
            && trim(output->Some_0.stdout@) == remote + "/"@ + b@)),
        p == BranchProbe::RemoteDefault && step is Resolved ==> succeeded(output),
{
    if p == BranchProbe::LocalRemoteDefault && step is Resolved {
        reveal_strlit("/");
        let v = trim(output->Some_0.stdout@);
        let pre = remote + "/"@;
        assert(pre.len() == remote.len() + 1);
        assert(starts_with(v, pre));
        assert(v =~= pre + v.subrange(pre.len() as int, v.len() as int));
    }
}

} // verus!
