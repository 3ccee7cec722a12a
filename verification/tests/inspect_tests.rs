use deepseek_desktop::command::search_path_entries;
use deepseek_desktop::inspect::{nvm_versions_dir, search_path_candidates};
use deepseek_desktop::command::{add_runtime_path, command_log_text, ensure_success, CommandOutput, CommandSpec};
use deepseek_desktop::inspect::{
    artifacts_present, best_node_candidate, command_finished_log, harness_status, home_runtime_dirs,
    missing_program_message, newest_first_order, open_url_command, platform_tool_dirs, program_is_path, web_ui_not_listening,
    web_ui_port, GitObservation, HarnessObservation, ServiceObservation,
};
use deepseek_desktop::models::{is_blank_record, UpdatePhase};
use deepseek_desktop::prepare::{
    clone_command, clone_target_refusal, installer_error, package_manager, system_dependency_commands,
    system_install_plan, Platform,
};
use deepseek_desktop::process::web_url_text;
use deepseek_desktop::progress::{log_entry, progress_entry, report, timestamp};
use deepseek_desktop::versions::node_version_key;

#[test]
fn missing_program_names_the_program_and_finder() {
    let message = missing_program_message("pnpm");
    assert!(message.contains("pnpm"));
    assert!(message.contains("Finder"));
    assert!(program_is_path("/usr/bin/git"));
    assert!(program_is_path("C:\\tools\\git.exe"));
    assert!(!program_is_path("git"));
}

#[test]
fn newest_node_install_comes_first() {
    let dirs = [
        "/h/.nvm/versions/node/v20.20.2/bin",
        "/h/.nvm/versions/node/v24.19.0/bin",
        "/h/.nvm/versions/node/v22.19.0/bin",
        "/h/.nvm/versions/node/broken/bin",
        "/h/.nvm/versions/node/v24.19.0/bin",
    ];
    let keys: Vec<(u32, u32, u32)> = dirs.iter().map(|d| node_version_key(d, false)).collect();
    assert_eq!(keys[1], (24, 19, 0));
    assert_eq!(keys[3], (0, 0, 0));
    assert_eq!(newest_first_order(&keys), vec![1, 4, 2, 0, 3]);
    assert_eq!(newest_first_order(&Vec::new()), Vec::<usize>::new());
}

#[test]
fn best_node_candidate_takes_the_last_of_the_newest() {
    assert_eq!(best_node_candidate(&vec![]), None);
    assert_eq!(best_node_candidate(&vec![(20, 1, 0), (24, 0, 0), (22, 9, 9)]), Some(1));
    assert_eq!(best_node_candidate(&vec![(24, 0, 0), (20, 1, 0), (24, 0, 0)]), Some(2));
}

#[test]
fn home_tool_directories_in_search_order() {
    assert_eq!(
        home_runtime_dirs("/home/u", false),
        vec![
            "/home/u/.local/bin".to_string(),
            "/home/u/.local/share/pnpm".into(),
            "/home/u/Library/pnpm".into(),
            "/home/u/.volta/bin".into(),
            "/home/u/.asdf/shims".into(),
            "/home/u/.cargo/bin".into(),
        ]
    );
    assert_eq!(home_runtime_dirs("/home/u/", false)[0], "/home/u/.local/bin");
}

#[test]
fn web_ui_address_must_be_local_with_a_port() {
    assert_eq!(web_ui_port("http://127.0.0.1:3080"), Ok(3080));
    assert_eq!(web_ui_port("http://localhost:8080"), Ok(8080));
    assert_eq!(
        web_ui_port("http://example.com:3080"),
        Err("只允许打开本机 Harness Web UI 地址".to_string())
    );
    assert_eq!(
        web_ui_port("http://127.0.0.1:30 80"),
        Err("只允许打开本机 Harness Web UI 地址".to_string())
    );
    assert_eq!(web_ui_port("http://127.0.0.1:99999"), Err("Web UI 地址端口无效".to_string()));
    assert_eq!(
        web_ui_not_listening(3080),
        "Web UI 端口 3080 当前未监听，请先等待 Harness 启动完成"
    );
    let open = open_url_command(Platform::Other, "http://127.0.0.1:3080");
    assert_eq!(open.program, "xdg-open");
    assert_eq!(open.args, vec!["http://127.0.0.1:3080".to_string()]);
    assert_eq!(open_url_command(Platform::MacOs, "u").program, "open");
    assert_eq!(open_url_command(Platform::Windows, "u").program, "explorer.exe");
}

fn observation() -> HarnessObservation {
    HarnessObservation {
        source_dir: "/home/u/deepseek-harness".into(),
        checkout_present: true,
        git: GitObservation {
            branch: Some("master".into()),
            commit: Some("abc123".into()),
            tag: None,
            changes: Some(" M README.md".into()),
            behind: Some("3".into()),
        },
        dependencies: vec![],
        artifacts_present: true,
        managed: Some(ServiceObservation { pid: 10, port: 3080, port_open: true }),
        orphan: None,
        configured_port: 3080,
        configured_port_open: true,
        last_action: Some("done".into()),
        last_error: None,
    }
}

#[test]
fn status_of_a_running_checkout() {
    let st = harness_status(observation());
    assert_eq!(st.branch.as_deref(), Some("master"));
    assert_eq!(st.dirty, Some(true));
    assert_eq!(st.update_available, Some(true));
    assert!(st.service_running);
    assert!(st.service_ready);
    assert!(!st.orphaned_process);
    assert_eq!(st.pid, Some(10));
    assert_eq!(st.port, Some(3080));
    assert_eq!(st.web_url.as_deref(), Some("http://127.0.0.1:3080"));
    assert_eq!(st.last_action.as_deref(), Some("done"));
}

#[test]
fn status_of_a_missing_checkout_and_of_an_orphan() {
    let mut o = observation();
    o.checkout_present = false;
    o.managed = None;
    o.orphan = Some(ServiceObservation { pid: 11, port: 3081, port_open: false });
    let st = harness_status(o.clone());
    assert_eq!(st.branch, None);
    assert_eq!(st.build_artifacts_present, None);
    assert!(!st.service_running);
    assert!(st.orphaned_process);
    o.checkout_present = true;
    o.git.behind = Some("0".into());
    o.git.changes = None;
    let st = harness_status(o);
    assert_eq!(st.update_available, Some(false));
    assert_eq!(st.dirty, Some(false));
    assert!(st.orphaned_process);
    assert_eq!(st.pid, Some(11));
    assert!(!st.service_ready);
    assert_eq!(st.port, Some(3080));
    assert_eq!(st.web_url, None);
}

#[test]
fn artifacts_need_node_modules_and_every_path() {
    assert!(artifacts_present(true, &vec![true, true]));
    assert!(!artifacts_present(false, &vec![true]));
    assert!(!artifacts_present(true, &vec![true, false]));
    assert!(!artifacts_present(true, &vec![]));
}

#[test]
fn command_logging_and_results() {
    let spec = CommandSpec { program: "git".into(), args: vec!["fetch".into(), "origin".into()] };
    assert_eq!(command_log_text("git fetch", &spec), "执行 git fetch: git fetch origin");
    assert_eq!(command_finished_log("git fetch", true, Some(0)), "git fetch 完成");
    assert!(command_finished_log("git fetch", false, Some(128)).contains("128"));
    let ok = CommandOutput { success: true, code: Some(0), stdout: "out".into(), stderr: String::new() };
    assert_eq!(ensure_success(ok, "x"), Ok("out".to_string()));
    let failed = CommandOutput {
        success: false,
        code: Some(1),
        stdout: "token: abc,\n".into(),
        stderr: "bad".into(),
    };
    let error = ensure_success(failed, "step").unwrap_err();
    assert!(error.starts_with("step 失败"));
    assert!(!error.contains("abc"));
    assert!(error.contains("bad"));
}

#[test]
fn runtime_path_skips_duplicates_and_missing_directories() {
    let mut paths = Vec::new();
    add_runtime_path(&mut paths, "/usr/bin".into(), true, false);
    add_runtime_path(&mut paths, "/usr//bin/".into(), true, false);
    add_runtime_path(&mut paths, "/missing".into(), false, false);
    add_runtime_path(&mut paths, "/opt/bin".into(), true, false);
    assert_eq!(paths, vec!["/usr/bin".to_string(), "/opt/bin".into()]);
}

#[test]
fn progress_entries_and_log_lines() {
    let p = report(UpdatePhase::Building, "构建", Some("dist".into()), Some(78), true);
    let e = progress_entry(p, timestamp(Some(1700000000)));
    assert_eq!(e.operation, "harnessUpdate");
    assert_eq!(e.phase, "building");
    assert_eq!(e.timestamp, "1700000000");
    assert_eq!(e.percent, Some(78));
    assert_eq!(timestamp(None), "0");
    let l = log_entry("stderr", "Authorization: Bearer abc123", "5".into());
    assert_eq!(l.line, "Authorization: [REDACTED]");
    assert_eq!(UpdatePhase::ValidatingWorkspace.as_str(), "validatingWorkspace");
    assert_eq!(UpdatePhase::FastForwarding.as_str(), "fastForwarding");
}

#[test]
fn blank_runtime_records() {
    assert!(is_blank_record(""));
    assert!(is_blank_record("  null\n"));
    assert!(!is_blank_record("not-json"));
    assert!(!is_blank_record("{\"pid\":1}"));
}

#[test]
fn first_install_and_system_tools() {
    assert_eq!(
        clone_target_refusal(true, false).as_deref(),
        Some("目标目录已存在且非空；为保护用户文件，未执行覆盖或清理")
    );
    assert_eq!(clone_target_refusal(true, true), None);
    assert_eq!(clone_target_refusal(false, false), None);
    let c = clone_command("https://example.com/r.git", "/home/u/r");
    assert_eq!(c.program, "git");
    assert_eq!(c.args, vec!["clone".to_string(), "https://example.com/r.git".into(), "/home/u/r".into()]);
    let mac = system_dependency_commands(Platform::MacOs, Ok(())).unwrap();
    assert_eq!(mac.len(), 1);
    assert_eq!(mac[0].program, "brew");
    let win = system_dependency_commands(Platform::Windows, Ok(())).unwrap();
    assert_eq!(win.len(), 3);
    assert_eq!(win[2].args.last().map(String::as_str), Some("pnpm.pnpm"));
    assert!(system_dependency_commands(Platform::Other, Ok(())).is_err());
    assert_eq!(
        system_dependency_commands(Platform::MacOs, Err("找不到可执行文件 brew".into())),
        Err("找不到可执行文件 brew".to_string())
    );
    assert!(installer_error(Platform::MacOs, "找不到可执行文件 brew".into()).contains("Homebrew"));
    assert_eq!(installer_error(Platform::MacOs, "other".into()), "other");
    assert_eq!(package_manager(Platform::Windows), Some("winget"));
    assert_eq!(package_manager(Platform::Other), None);
}

#[test]
fn system_tools_install_plan() {
    assert_eq!(
        system_install_plan(true, Platform::MacOs, Ok(())).unwrap_err(),
        "Harness 正在运行，请先停止服务后再安装系统依赖"
    );
    let plan = system_install_plan(false, Platform::Windows, Ok(())).unwrap();
    assert_eq!(plan.intro.percent, Some(10));
    assert_eq!(plan.steps.len(), 3);
    let percents: Vec<Option<u8>> = plan.steps.iter().map(|s| s.progress.percent).collect();
    assert_eq!(percents, vec![Some(20), Some(45), Some(70)]);
    assert_eq!(plan.steps[0].command.program, "winget");
    assert_eq!(
        plan.steps[0].progress.detail.as_deref(),
        Some("install --exact --upgrade --source winget --accept-source-agreements --accept-package-agreements --id Git.Git")
    );
    assert_eq!(plan.done.percent, Some(100));
    let mac = system_install_plan(false, Platform::MacOs, Ok(())).unwrap();
    assert_eq!(mac.steps[0].progress.detail.as_deref(), Some("install git node pnpm"));
    assert!(system_install_plan(false, Platform::MacOs, Err("找不到可执行文件 brew".into()))
        .unwrap_err()
        .contains("https://brew.sh"));
    assert!(system_install_plan(false, Platform::Other, Ok(())).unwrap_err().contains("手动安装"));
}

#[test]
fn shown_web_address_opens_its_port() {
    for port in [0u16, 1, 80, 3080, 65535] {
        assert_eq!(web_ui_port(&web_url_text(port)), Ok(port));
    }
}

#[test]
fn windows_search_path_entries_compare_as_windows_paths() {
    let mut paths = Vec::new();
    add_runtime_path(&mut paths, "C:\\Tools\\bin".into(), true, true);
    add_runtime_path(&mut paths, "c:/Tools/bin/".into(), true, true);
    add_runtime_path(&mut paths, "C:\\Tools\\other".into(), true, true);
    assert_eq!(paths, vec!["C:\\Tools\\bin".to_string(), "C:\\Tools\\other".into()]);
    assert_eq!(home_runtime_dirs("C:\\Users\\u", true)[0], "C:\\Users\\u\\.local/bin");
}

#[test]
fn package_manager_directories_per_system() {
    assert_eq!(
        platform_tool_dirs(Platform::Windows, Some("C:\\Users\\u\\AppData\\Roaming".into()), None),
        vec!["C:\\Users\\u\\AppData\\Roaming\\npm".to_string()]
    );
    assert_eq!(
        platform_tool_dirs(Platform::MacOs, None, None),
        vec!["/opt/homebrew/bin".to_string(), "/opt/homebrew/sbin".into(), "/usr/local/bin".into()]
    );
    assert!(platform_tool_dirs(Platform::Other, Some("x".into()), Some("y".into())).is_empty());
}

#[test]
fn search_path_lists_sources_in_order() {
    assert_eq!(nvm_versions_dir("/home/u", false), "/home/u/.nvm/versions/node");
    let nvm = vec![
        "/home/u/.nvm/versions/node/v18.20.0".to_string(),
        "/home/u/.nvm/versions/node/v22.19.1".to_string(),
        "/home/u/.nvm/versions/node/v20.3.0".to_string(),
    ];
    let candidates = search_path_candidates(
        Some("/home/u".into()),
        nvm.clone(),
        Platform::MacOs,
        None,
        None,
        vec!["/opt/shell/bin".into()],
        vec!["/usr/bin".into(), "/bin".into()],
        false,
    );
    assert_eq!(
        candidates,
        vec![
            "/home/u/.nvm/versions/node/v22.19.1/bin",
            "/home/u/.nvm/versions/node/v20.3.0/bin",
            "/home/u/.nvm/versions/node/v18.20.0/bin",
            "/home/u/.local/bin",
            "/home/u/.local/share/pnpm",
            "/home/u/Library/pnpm",
            "/home/u/.volta/bin",
            "/home/u/.asdf/shims",
            "/home/u/.cargo/bin",
            "/opt/homebrew/bin",
            "/opt/homebrew/sbin",
            "/usr/local/bin",
            "/opt/shell/bin",
            "/usr/bin",
            "/bin",
        ]
    );
    let without_home = search_path_candidates(
        None,
        Vec::new(),
        Platform::Windows,
        Some("C:\\Users\\u\\AppData\\Roaming".into()),
        None,
        Vec::new(),
        vec!["C:\\Windows".into()],
        true,
    );
    assert_eq!(without_home, vec!["C:\\Users\\u\\AppData\\Roaming\\npm", "C:\\Windows"]);
    let kept = search_path_entries(
        vec![
            ("/usr/bin".into(), true),
            ("/missing".into(), false),
            ("/usr//bin/".into(), true),
            ("/bin".into(), true),
            ("/usr/bin".into(), true),
        ],
        false,
    );
    assert_eq!(kept, vec!["/usr/bin", "/bin"]);
    let kept = search_path_entries(vec![("C:\\Tools".into(), true), ("c:/Tools".into(), true)], true);
    assert_eq!(kept, vec!["C:\\Tools"]);
}
