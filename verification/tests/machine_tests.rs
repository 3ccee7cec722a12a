use deepseek_desktop::command::CommandOutput;
use deepseek_desktop::upstream::{upstream_begin, upstream_step, UpstreamAction, UpstreamEvent, UpstreamStage};
use deepseek_desktop::models::{AppConfig, DependencyStatus, UpdatePhase};
use deepseek_desktop::prepare::{prepare_begin, prepare_step, PrepareAction, PrepareEvent, PrepareStage};
use deepseek_desktop::process::StopSignal;
use deepseek_desktop::start::{start_begin, start_step, StartAction, StartEvent, StartStage};
use deepseek_desktop::stop::{stop_begin, stop_step, StopAction, StopEvent, StopStage};

fn machine_config() -> AppConfig {
    AppConfig::default_for_home(Some("/home/u".into()), false)
}

fn tool(name: &str, available: bool) -> DependencyStatus {
    DependencyStatus {
        name: name.into(),
        available,
        version: None,
        command: name.into(),
        suggestion: format!("请安装 {name}"),
    }
}

#[test]
fn stop_sends_interrupt_first_then_terminate_after_timeout() {
    let (s, out) = stop_begin(Some((4242, 3080)), None, false);
    assert_eq!(s.stage, StopStage::Signalling(StopSignal::Interrupt));
    assert_eq!(out.action, StopAction::Signal(StopSignal::Interrupt));
    assert_eq!(out.log.as_deref(), Some("向 Harness 进程组 4242 发送中断信号"));
    let (s, out) = stop_step(s, StopEvent::SignalSent(Ok(())));
    assert_eq!(out.action, StopAction::Wait(10));
    let (s, out) = stop_step(s, StopEvent::WaitFinished(Ok(false)));
    assert_eq!(s.stage, StopStage::Signalling(StopSignal::Terminate));
    assert_eq!(out.action, StopAction::Signal(StopSignal::Terminate));
    let (s, out) = stop_step(s, StopEvent::SignalSent(Ok(())));
    assert_eq!(out.action, StopAction::Wait(5));
    let (s, out) = stop_step(s, StopEvent::WaitFinished(Ok(false)));
    assert_eq!(s.stage, StopStage::Failed);
    assert_eq!(
        out.action,
        StopAction::Fail("Harness 未在超时内停止，已停止后续强制操作；请检查进程和日志".into())
    );
    let (t, out) = stop_step(s, StopEvent::SignalSent(Ok(())));
    assert_eq!(t.stage, StopStage::Failed);
    assert_eq!(out.action, StopAction::Halt);
}

#[test]
fn stop_finishes_when_interrupt_suffices() {
    let (s, _) = stop_begin(None, Some((7, 3081)), true);
    assert_eq!((s.pid, s.port), (7, 3081));
    let (s, _) = stop_step(s, StopEvent::SignalSent(Ok(())));
    let (s, out) = stop_step(s, StopEvent::WaitFinished(Ok(true)));
    assert_eq!(s.stage, StopStage::Stopped);
    assert_eq!(out.action, StopAction::Finish);
}

#[test]
fn stop_without_a_running_service_fails() {
    let (s, out) = stop_begin(None, Some((7, 3081)), false);
    assert_eq!(s.stage, StopStage::Failed);
    assert_eq!(out.action, StopAction::Fail("没有发现仍在运行的 Harness 进程".into()));
    let (s, out) = stop_begin(Some((1, 2)), None, false);
    let (_, out2) = stop_step(s, StopEvent::SignalSent(Err("kill failed".into())));
    assert_eq!(out.action, StopAction::Signal(StopSignal::Interrupt));
    assert_eq!(out2.action, StopAction::Fail("kill failed".into()));
}

#[test]
fn start_runs_its_checks_then_spawns_on_a_free_port() {
    let c = machine_config();
    let (s, out) = start_begin();
    assert_eq!(s.stage, StartStage::CheckingService);
    assert_eq!(out.action, StartAction::CheckService);
    let (s, out) = start_step(&c, false, s, StartEvent::ServiceState { running: false, orphan: false });
    assert_eq!(out.action, StartAction::CheckSource);
    let (s, out) = start_step(&c, false, s, StartEvent::SourcePresent(true));
    assert_eq!(out.action, StartAction::CheckDependencies);
    let deps = vec![tool("git", true), tool("node", true), tool("pnpm", true)];
    let (s, out) = start_step(&c, false, s, StartEvent::Dependencies(deps));
    assert_eq!(out.action, StartAction::CheckArtifacts);
    let (s, out) = start_step(&c, false, s, StartEvent::ArtifactsPresent(false));
    assert_eq!(out.action, StartAction::Prepare);
    assert_eq!(out.log.as_deref(), Some("未找到 Harness 构建产物，启动前自动安装依赖并构建"));
    let (s, out) = start_step(&c, false, s, StartEvent::PrepareFinished(Ok(())));
    assert_eq!(out.action, StartAction::CheckPort);
    let (s, out) = start_step(&c, false, s, StartEvent::PortInUse(false));
    match &out.action {
        StartAction::Spawn(spec) => {
            assert_eq!(spec.program, "pnpm");
            assert_eq!(spec.args, vec!["dsh".to_string(), "web".into(), "--no-open".into()]);
        }
        other => panic!("unexpected action {other:?}"),
    }
    let (s, out) = start_step(&c, false, s, StartEvent::Spawned(Ok(99)));
    assert_eq!(s.stage, StartStage::AwaitingReady);
    assert_eq!(out.log.as_deref(), Some("Harness 已启动，PID 99，等待端口 3080"));
    let (s, out) = start_step(&c, false, s, StartEvent::ReadyChecked { ready: true, exited: false });
    assert_eq!(s.stage, StartStage::Ready);
    assert_eq!(out.action, StartAction::Succeed);
    let p = out.progress.unwrap();
    assert_eq!(p.phase, UpdatePhase::Completed);
    assert_eq!(p.percent, Some(100));
    assert_eq!(p.detail.as_deref(), Some("PID 99，端口 3080"));
}

#[test]
fn start_refuses_a_second_service_and_a_taken_port() {
    let c = machine_config();
    let (s, _) = start_begin();
    let (t, out) = start_step(&c, false, s, StartEvent::ServiceState { running: true, orphan: false });
    assert_eq!(t.stage, StartStage::Failed);
    assert_eq!(out.action, StartAction::Fail("Harness 已在运行".into()));
    let (t, out) = start_step(&c, false, s, StartEvent::ServiceState { running: false, orphan: true });
    assert_eq!(t.stage, StartStage::Failed);
    assert_eq!(
        out.action,
        StartAction::Fail("发现由上一次运行遗留的 Harness 进程，请先确认并停止它".into())
    );
    let (s, _) = start_step(&c, false, s, StartEvent::ServiceState { running: false, orphan: false });
    let (s, _) = start_step(&c, false, s, StartEvent::SourcePresent(true));
    let (s, _) = start_step(&c, false, s, StartEvent::Dependencies(vec![tool("git", true)]));
    let (s, _) = start_step(&c, false, s, StartEvent::ArtifactsPresent(true));
    let (t, out) = start_step(&c, false, s, StartEvent::PortInUse(true));
    assert_eq!(t.stage, StartStage::Failed);
    assert_eq!(
        out.action,
        StartAction::Fail("端口 3080 已被占用，请修改端口或停止占用它的服务".into())
    );
}

#[test]
fn start_names_the_first_missing_tool() {
    let c = machine_config();
    let (s, _) = start_begin();
    let (s, _) = start_step(&c, false, s, StartEvent::ServiceState { running: false, orphan: false });
    let (s, _) = start_step(&c, false, s, StartEvent::SourcePresent(true));
    let deps = vec![tool("git", true), tool("node", false), tool("pnpm", false)];
    let (t, out) = start_step(&c, false, s, StartEvent::Dependencies(deps));
    assert_eq!(t.stage, StartStage::Failed);
    assert_eq!(out.action, StartAction::Fail("无法启动 Harness：node 不可用。请安装 node".into()));
}

#[test]
fn start_failure_explains_itself_and_clears_an_exited_record() {
    let c = machine_config();
    let (s, _) = start_begin();
    let (s, _) = start_step(&c, false, s, StartEvent::ServiceState { running: false, orphan: false });
    let (s, _) = start_step(&c, false, s, StartEvent::SourcePresent(true));
    let (s, _) = start_step(&c, false, s, StartEvent::Dependencies(vec![]));
    let (s, _) = start_step(&c, false, s, StartEvent::ArtifactsPresent(true));
    let (s, _) = start_step(&c, false, s, StartEvent::PortInUse(false));
    let (s, _) = start_step(&c, false, s, StartEvent::Spawned(Ok(5)));
    let (t, out) = start_step(&c, false, s, StartEvent::ReadyChecked { ready: false, exited: true });
    assert_eq!(t.stage, StartStage::Failed);
    match out.action {
        StartAction::FailStart { message, clear_record } => {
            assert!(message.contains("进程已退出"));
            assert!(message.contains("3080"));
            assert!(clear_record);
        }
        other => panic!("unexpected action {other:?}"),
    }
    let (_, out) = start_step(&c, false, s, StartEvent::ReadyChecked { ready: false, exited: false });
    match out.action {
        StartAction::FailStart { message, clear_record } => {
            assert!(message.contains("仍在运行"));
            assert!(!clear_record);
        }
        other => panic!("unexpected action {other:?}"),
    }
}

#[test]
fn prepare_installs_then_builds_then_checks_artifacts() {
    let c = machine_config();
    let (s, out) = prepare_begin();
    assert_eq!(s, PrepareStage::CheckingService);
    assert_eq!(out.action, PrepareAction::CheckService);
    let (s, _) = prepare_step(&c, false, s, PrepareEvent::ServiceBusy(false));
    let (s, _) = prepare_step(&c, false, s, PrepareEvent::SourcePresent(true));
    let (s, out) = prepare_step(&c, false, s, PrepareEvent::Dependencies(vec![tool("pnpm", true)]));
    assert_eq!(s, PrepareStage::Installing);
    assert_eq!(out.progress.iter().map(|p| p.percent).collect::<Vec<_>>(), vec![Some(5), Some(25)]);
    match &out.action {
        PrepareAction::Run(spec, label) => {
            assert_eq!(spec.program, "pnpm");
            assert_eq!(spec.args, vec!["install".to_string(), "--frozen-lockfile".into()]);
            assert_eq!(label, "安装 Harness 依赖");
        }
        other => panic!("unexpected action {other:?}"),
    }
    let (s, out) = prepare_step(&c, false, s, PrepareEvent::StepFinished(Ok(())));
    assert_eq!(out.action, PrepareAction::CheckCancel);
    let (s, out) = prepare_step(&c, false, s, PrepareEvent::CancelRequested(false));
    assert_eq!(s, PrepareStage::Building);
    assert_eq!(out.progress[0].percent, Some(65));
    assert_eq!(out.progress[0].detail.as_deref(), Some("apps/cli/lib/bin.js"));
    let (s, out) = prepare_step(&c, false, s, PrepareEvent::StepFinished(Ok(())));
    assert_eq!(out.action, PrepareAction::CheckArtifacts);
    let (s, out) = prepare_step(&c, false, s, PrepareEvent::ArtifactsPresent(true));
    assert_eq!(s, PrepareStage::Done);
    assert_eq!(out.action, PrepareAction::Finish);
    assert_eq!(out.progress[0].percent, Some(100));
}

#[test]
fn prepare_stops_at_the_first_failure() {
    let c = machine_config();
    let (s, _) = prepare_begin();
    let (t, out) = prepare_step(&c, false, s, PrepareEvent::ServiceBusy(true));
    assert_eq!(t, PrepareStage::Failed);
    assert_eq!(
        out.action,
        PrepareAction::Fail("Harness 正在运行，请先停止服务后再安装依赖和构建".into())
    );
    let (s, _) = prepare_step(&c, false, s, PrepareEvent::ServiceBusy(false));
    let (s, _) = prepare_step(&c, false, s, PrepareEvent::SourcePresent(true));
    let (s, _) = prepare_step(&c, false, s, PrepareEvent::Dependencies(vec![]));
    let (t, out) = prepare_step(&c, false, s, PrepareEvent::StepFinished(Err("install failed".into())));
    assert_eq!(t, PrepareStage::Failed);
    assert_eq!(out.action, PrepareAction::Fail("install failed".into()));
    let (t2, out2) = prepare_step(&c, false, t, PrepareEvent::StepFinished(Ok(())));
    assert_eq!(t2, PrepareStage::Failed);
    assert_eq!(out2.action, PrepareAction::Halt);
    let (s, _) = prepare_step(&c, false, s, PrepareEvent::StepFinished(Ok(())));
    let (t, out) = prepare_step(&c, false, s, PrepareEvent::CancelRequested(true));
    assert_eq!(t, PrepareStage::Failed);
    assert_eq!(out.action, PrepareAction::Fail("准备构建已取消".into()));
}

#[test]
fn prepare_reports_missing_artifacts_after_build() {
    let c = machine_config();
    let (s, _) = prepare_begin();
    let (s, _) = prepare_step(&c, false, s, PrepareEvent::ServiceBusy(false));
    let (s, _) = prepare_step(&c, false, s, PrepareEvent::SourcePresent(true));
    let (s, _) = prepare_step(&c, false, s, PrepareEvent::Dependencies(vec![]));
    let (s, _) = prepare_step(&c, false, s, PrepareEvent::StepFinished(Ok(())));
    let (s, _) = prepare_step(&c, false, s, PrepareEvent::CancelRequested(false));
    let (s, _) = prepare_step(&c, false, s, PrepareEvent::StepFinished(Ok(())));
    let (t, out) = prepare_step(&c, false, s, PrepareEvent::ArtifactsPresent(false));
    assert_eq!(t, PrepareStage::Failed);
    assert_eq!(
        out.action,
        PrepareAction::Fail("构建命令已结束，但仍未找到预期产物，请查看实时日志".into())
    );
}

#[test]
fn prepare_refuses_a_missing_checkout() {
    let c = machine_config();
    let (s, _) = prepare_begin();
    let (s, _) = prepare_step(&c, false, s, PrepareEvent::ServiceBusy(false));
    let (t, out) = prepare_step(&c, false, s, PrepareEvent::SourcePresent(false));
    assert_eq!(t, PrepareStage::Failed);
    assert_eq!(out.action, PrepareAction::Fail("找不到 Harness 源码，请先完成首次安装".into()));
}

#[test]
fn upstream_check_resolves_then_fetches_dry() {
    let config = machine_config();
    let (s, a) = upstream_begin(&config, false, true);
    assert_eq!(s.stage, UpstreamStage::ResolvingBranch);
    assert_eq!(a, UpstreamAction::ResolveBranch);
    let (s, a) = upstream_step(&s, UpstreamEvent::BranchResolved(Ok("main".into())));
    assert_eq!(s.stage, UpstreamStage::Fetching);
    let remote = config.update.remote_name.clone();
    assert_eq!(
        a,
        UpstreamAction::RunGit(
            vec!["fetch".into(), "--dry-run".into(), "--prune".into(), remote, "main".into()],
            "检查 Harness 上游更新".into()
        )
    );
    let output = CommandOutput { success: true, code: Some(0), stdout: String::new(), stderr: String::new() };
    let (done, a) = upstream_step(&s, UpstreamEvent::FetchFinished(Ok(output)));
    assert_eq!(done.stage, UpstreamStage::Done);
    assert_eq!(a, UpstreamAction::Inspect);
    let failed = CommandOutput { success: false, code: Some(128), stdout: String::new(), stderr: "no remote\n".into() };
    let (t, a) = upstream_step(&s, UpstreamEvent::FetchFinished(Ok(failed)));
    assert_eq!(t.stage, UpstreamStage::Failed);
    assert_eq!(a, UpstreamAction::Fail("检查 Harness 上游更新 失败（退出码 Some(128)）\nno remote\n".into()));
}

#[test]
fn upstream_check_refuses_missing_checkout_and_bad_config() {
    let (s, a) = upstream_begin(&machine_config(), false, false);
    assert_eq!(s.stage, UpstreamStage::Failed);
    assert_eq!(a, UpstreamAction::Fail("尚未安装 Harness 源码".into()));
    let mut config = machine_config();
    config.harness.port = 0;
    let (_, a) = upstream_begin(&config, false, true);
    assert!(matches!(a, UpstreamAction::Fail(m) if m.contains("端口")));
    let (s, _) = upstream_begin(&machine_config(), false, true);
    let (t, a) = upstream_step(&s, UpstreamEvent::BranchResolved(Err("找不到分支".into())));
    assert_eq!(t.stage, UpstreamStage::Failed);
    assert_eq!(a, UpstreamAction::Fail("找不到分支".into()));
}
