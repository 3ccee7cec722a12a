use deepseek_desktop::command::CommandOutput;
use deepseek_desktop::git::{
    branch_fallback_message, first_branch_step, git_value, next_branch_step,
    parse_remote_default_branch, BranchProbe, BranchStep,
};

fn output(success: bool, stdout: &str) -> Option<CommandOutput> {
    Some(CommandOutput {
        success,
        code: Some(if success { 0 } else { 1 }),
        stdout: stdout.into(),
        stderr: String::new(),
    })
}

#[test]
fn parses_remote_default_branch() {
    let output = "ref: refs/heads/master\tHEAD\n012345\tHEAD\n";
    assert_eq!(
        parse_remote_default_branch(output).as_deref(),
        Some("master")
    );
    assert!(parse_remote_default_branch("012345\tHEAD\n").is_none());
}

#[test]
fn remote_default_branch_needs_the_full_pattern() {
    assert!(parse_remote_default_branch("ref: refs/heads/\tHEAD\n").is_none());
    assert!(parse_remote_default_branch("ref: refs/tags/v1\tHEAD\n").is_none());
    assert!(parse_remote_default_branch("ref: refs/heads/main\n").is_none());
    assert_eq!(
        parse_remote_default_branch("x\r\n  ref:   refs/heads/dev   HEAD  \r\n").as_deref(),
        Some("dev")
    );
}

#[test]
fn git_value_is_trimmed_successful_output() {
    assert_eq!(git_value(&output(true, " main\n")).as_deref(), Some("main"));
    assert_eq!(git_value(&output(true, "  \n")), None);
    assert_eq!(git_value(&output(false, "main")), None);
    assert_eq!(git_value(&None), None);
}

#[test]
fn configured_branch_is_tried_first() {
    let step = first_branch_step("origin", "main");
    match step {
        BranchStep::Run(BranchProbe::LocalRemoteBranch, spec) => {
            assert_eq!(spec.program, "git");
            assert_eq!(spec.args, vec!["show-ref", "--verify", "--quiet", "refs/remotes/origin/main"]);
        }
        other => panic!("unexpected step {:?}", other),
    }
    let found = next_branch_step(BranchProbe::LocalRemoteBranch, &output(true, ""), "origin", "main");
    assert_eq!(found, BranchStep::Resolved("main".into()));
}

#[test]
fn falls_back_to_remote_default_branch() {
    let step = next_branch_step(BranchProbe::LocalRemoteBranch, &output(false, ""), "origin", "main");
    match step {
        BranchStep::Run(BranchProbe::RemoteBranch, spec) => {
            assert_eq!(spec.args, vec!["ls-remote", "--exit-code", "--heads", "origin", "refs/heads/main"]);
        }
        other => panic!("unexpected step {:?}", other),
    }
    let step = next_branch_step(BranchProbe::RemoteBranch, &None, "origin", "main");
    assert!(matches!(step, BranchStep::Run(BranchProbe::LocalRemoteDefault, _)));
    let step = next_branch_step(BranchProbe::LocalRemoteDefault, &output(true, "origin/master\n"), "origin", "main");
    assert_eq!(step, BranchStep::Resolved("master".into()));
    let step = next_branch_step(BranchProbe::LocalRemoteDefault, &output(true, "upstream/master\n"), "origin", "main");
    assert!(matches!(step, BranchStep::Run(BranchProbe::RemoteDefault, _)));
    let step = next_branch_step(
        BranchProbe::RemoteDefault,
        &output(true, "ref: refs/heads/master\tHEAD\n"),
        "origin",
        "main",
    );
    assert_eq!(step, BranchStep::Resolved("master".into()));
}

#[test]
fn detached_head_leaves_no_branch() {
    let step = next_branch_step(BranchProbe::CurrentBranch, &output(true, "HEAD\n"), "origin", "main");
    assert_eq!(
        step,
        BranchStep::Failed("配置的远程分支 main 不存在，且无法确定 origin 的默认分支".into())
    );
    let step = next_branch_step(BranchProbe::CurrentBranch, &output(true, "feature\n"), "origin", "main");
    assert_eq!(step, BranchStep::Resolved("feature".into()));
}

#[test]
fn fallback_is_logged_only_when_branch_differs() {
    assert_eq!(branch_fallback_message("main", "main"), None);
    assert_eq!(
        branch_fallback_message("main", "master").as_deref(),
        Some("配置分支 main 不存在，已改用远程默认分支 master")
    );
}
