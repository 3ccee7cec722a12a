use deepseek_desktop::models::{AppConfig, UpdateOptions, UpdatePhase};
use deepseek_desktop::update::{update_begin, update_step, UpdateAction, UpdateEvent, UpdateStage};

fn config() -> AppConfig {
    AppConfig::default_for_home(Some("/home/u".into()), false)
}

#[test]
fn full_update_of_a_running_service_follows_the_documented_order() {
    let c = config();
    let (mut s, out) = update_begin(&c, false, UpdateOptions { create_stash: true }, true);
    assert_eq!(out.action, UpdateAction::CheckService);
    assert_eq!(out.progress.unwrap().percent, Some(5));
    let events = vec![
        UpdateEvent::ServiceRunning(true),
        UpdateEvent::StopFinished(Ok(())),
        UpdateEvent::PortReleased(true),
        UpdateEvent::WorktreeDirty(true),
        UpdateEvent::StashFinished(Ok("Saved working directory".into())),
        UpdateEvent::CancelRequested(false),
        UpdateEvent::BranchResolved(Ok("master".into())),
        UpdateEvent::StepFinished(Ok(())),
        UpdateEvent::StepFinished(Ok(())),
        UpdateEvent::StepFinished(Ok(())),
        UpdateEvent::StepFinished(Ok(())),
        UpdateEvent::StepFinished(Ok(())),
        UpdateEvent::StepFinished(Ok(())),
    ];
    let mut stages = Vec::new();
    let mut percents = vec![5u8];
    let mut actions = Vec::new();
    for e in events {
        let (t, out) = update_step(&c, &s, e);
        stages.push(t.stage);
        if let Some(p) = &out.progress {
            if let Some(x) = p.percent {
                percents.push(x);
            }
        }
        actions.push(out.action);
        s = t;
    }
    assert_eq!(
        stages,
        vec![
            UpdateStage::Stopping,
            UpdateStage::AwaitingPort,
            UpdateStage::Inspecting,
            UpdateStage::Stashing,
            UpdateStage::CheckingCancel,
            UpdateStage::ResolvingBranch,
            UpdateStage::Fetching,
            UpdateStage::FastForwarding,
            UpdateStage::Installing,
            UpdateStage::Cleaning,
            UpdateStage::Building,
            UpdateStage::Restarting,
            UpdateStage::Done,
        ]
    );
    assert_eq!(percents, vec![5, 12, 20, 25, 32, 42, 55, 68, 78, 92, 100]);
    assert_eq!(actions[0], UpdateAction::StopService);
    assert_eq!(actions[1], UpdateAction::AwaitPortRelease(3080));
    assert_eq!(
        actions[6],
        UpdateAction::RunGit(
            vec!["fetch".into(), "--prune".into(), "origin".into(), "master".into()],
            "git fetch".into()
        )
    );
    assert_eq!(
        actions[7],
        UpdateAction::RunGit(
            vec!["merge".into(), "--ff-only".into(), "refs/remotes/origin/master".into()],
            "git merge --ff-only".into()
        )
    );
    assert_eq!(actions[9], UpdateAction::Clean(vec!["dist".into()]));
    assert_eq!(actions[11], UpdateAction::Restart);
    assert_eq!(actions[12], UpdateAction::Finish);
}

#[test]
fn stopped_service_is_not_restarted() {
    let c = config();
    let (s, _) = update_begin(&c, false, UpdateOptions { create_stash: false }, true);
    let (s, out) = update_step(&c, &s, UpdateEvent::ServiceRunning(false));
    assert_eq!(out.action, UpdateAction::InspectWorktree);
    let (mut s, _) = update_step(&c, &s, UpdateEvent::WorktreeDirty(false));
    for e in [
        UpdateEvent::CancelRequested(false),
        UpdateEvent::BranchResolved(Ok("main".into())),
        UpdateEvent::StepFinished(Ok(())),
        UpdateEvent::StepFinished(Ok(())),
        UpdateEvent::StepFinished(Ok(())),
        UpdateEvent::StepFinished(Ok(())),
    ] {
        s = update_step(&c, &s, e).0;
    }
    assert_eq!(s.stage, UpdateStage::Building);
    let (t, out) = update_step(&c, &s, UpdateEvent::StepFinished(Ok(())));
    assert_eq!(t.stage, UpdateStage::Done);
    assert_eq!(out.action, UpdateAction::Finish);
    assert_eq!(out.progress.unwrap().phase, UpdatePhase::Completed);
}

#[test]
fn local_changes_abort_without_stash() {
    let c = config();
    let (s, _) = update_begin(&c, false, UpdateOptions { create_stash: false }, true);
    let (s, _) = update_step(&c, &s, UpdateEvent::ServiceRunning(false));
    let (t, out) = update_step(&c, &s, UpdateEvent::WorktreeDirty(true));
    assert_eq!(t.stage, UpdateStage::Failed);
    assert_eq!(
        out.action,
        UpdateAction::Fail("工作区存在本地修改或未跟踪文件。更新已中止；如需继续，请明确选择创建备份 stash".into())
    );
    let (t2, out2) = update_step(&c, &t, UpdateEvent::StepFinished(Ok(())));
    assert_eq!(t2.stage, UpdateStage::Failed);
    assert_eq!(out2.action, UpdateAction::Halt);
}

#[test]
fn failed_steps_and_cancel_stop_the_update() {
    let c = config();
    let (s, _) = update_begin(&c, false, UpdateOptions { create_stash: true }, true);
    let (s, _) = update_step(&c, &s, UpdateEvent::ServiceRunning(true));
    let (t, out) = update_step(&c, &s, UpdateEvent::StopFinished(Ok(())));
    assert_eq!(t.stage, UpdateStage::AwaitingPort);
    let (t, out2) = update_step(&c, &t, UpdateEvent::PortReleased(false));
    assert_eq!(t.stage, UpdateStage::Failed);
    assert_eq!(out2.action, UpdateAction::Fail("服务端口仍被占用，未继续替换构建产物".into()));
    assert!(out.progress.is_none());

    let (s, _) = update_begin(&c, false, UpdateOptions { create_stash: true }, true);
    let (s, _) = update_step(&c, &s, UpdateEvent::ServiceRunning(false));
    let (s, _) = update_step(&c, &s, UpdateEvent::WorktreeDirty(true));
    let (t, out) = update_step(&c, &s, UpdateEvent::StashFinished(Ok("No local changes to save".into())));
    assert_eq!(t.stage, UpdateStage::Failed);
    assert_eq!(out.action, UpdateAction::Fail("Git 未能创建备份 stash，更新已中止".into()));

    let (s, _) = update_begin(&c, false, UpdateOptions { create_stash: true }, true);
    let (s, _) = update_step(&c, &s, UpdateEvent::ServiceRunning(false));
    let (s, _) = update_step(&c, &s, UpdateEvent::WorktreeDirty(false));
    let (t, out) = update_step(&c, &s, UpdateEvent::CancelRequested(true));
    assert_eq!(t.stage, UpdateStage::Failed);
    assert_eq!(out.progress.unwrap().phase, UpdatePhase::Cancelled);
    assert_eq!(out.action, UpdateAction::Fail("更新已取消".into()));
}

#[test]
fn update_needs_valid_config_and_checkout() {
    let mut c = config();
    let (s, out) = update_begin(&c, false, UpdateOptions { create_stash: false }, false);
    assert_eq!(s.stage, UpdateStage::Failed);
    assert_eq!(out.action, UpdateAction::Fail("尚未安装 Harness 源码".into()));
    c.harness.port = 0;
    let (_, out) = update_begin(&c, false, UpdateOptions { create_stash: false }, true);
    assert_eq!(out.action, UpdateAction::Fail("端口必须是 1 到 65535 之间的整数".into()));
}

#[test]
fn update_runs_only_git_commands_that_keep_local_work() {
    let c = config();
    let (mut s, _) = update_begin(&c, false, UpdateOptions { create_stash: true }, true);
    let events = vec![
        UpdateEvent::ServiceRunning(false),
        UpdateEvent::WorktreeDirty(true),
        UpdateEvent::StashFinished(Ok("Saved working directory".into())),
        UpdateEvent::CancelRequested(false),
        UpdateEvent::BranchResolved(Ok("master".into())),
        UpdateEvent::StepFinished(Ok(())),
        UpdateEvent::StepFinished(Ok(())),
        UpdateEvent::StepFinished(Ok(())),
        UpdateEvent::StepFinished(Ok(())),
        UpdateEvent::StepFinished(Ok(())),
    ];
    let mut git = Vec::new();
    let mut programs = Vec::new();
    for e in events {
        let (t, out) = update_step(&c, &s, e);
        match out.action {
            UpdateAction::RunGit(args, _) => git.push(format!("{} {}", args[0], args[1])),
            UpdateAction::Run(spec, _) => programs.push(format!("{} {}", spec.program, spec.args.join(" "))),
            _ => {}
        }
        s = t;
    }
    assert_eq!(git, vec!["stash push", "fetch --prune", "merge --ff-only"]);
    assert_eq!(programs, vec!["pnpm install --frozen-lockfile", "pnpm run build"]);
    assert_eq!(s.stage, UpdateStage::Done);
}
