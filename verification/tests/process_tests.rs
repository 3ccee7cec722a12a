use deepseek_desktop::command::CommandOutput;
use deepseek_desktop::models::ProcessRecord;
use deepseek_desktop::process::{
    command_line_value, group_signal_command, lsof_cwd, process_signal_command, ps_command,
    record_matches, start_failure_message, web_url_text, windows_signal_command, StopSignal,
};

#[test]
fn explains_start_failure_when_process_exits_before_port_is_ready() {
    assert!(start_failure_message(3080, true).contains("进程已退出"));
    assert!(start_failure_message(3080, false).contains("仍在运行"));
    assert!(start_failure_message(3080, true).contains("3080"));
}

fn record() -> ProcessRecord {
    ProcessRecord {
        pid: 42,
        source_dir: "/home/u/deepseek-harness".into(),
        port: 3080,
        command: vec!["pnpm".into(), "dsh".into(), "web".into(), "--no-open".into()],
        started_at: "1".into(),
    }
}

#[test]
fn recorded_process_needs_matching_command_and_directory() {
    let r = record();
    let cmd = Some("node /x/dsh web --no-open".to_string());
    assert!(record_matches(&r, &cmd, &Some("/home/u/deepseek-harness/apps".into()), false));
    assert!(!record_matches(&r, &cmd, &Some("/home/u/other".into()), false));
    assert!(!record_matches(&r, &Some("vim notes".into()), &Some("/home/u/deepseek-harness".into()), false));
    let with_dir = Some("pnpm --dir /home/u/deepseek-harness dsh web".to_string());
    assert!(record_matches(&r, &with_dir, &None, false));
    assert!(!record_matches(&r, &None, &Some("/home/u/deepseek-harness".into()), false));
}

#[test]
fn windows_record_match_checks_tool_and_arguments() {
    let r = record();
    assert!(record_matches(&r, &Some("C:\\Node\\NODE.EXE pnpm dsh web --no-open".into()), &None, true));
    assert!(!record_matches(&r, &Some("C:\\x.exe dsh web".into()), &None, true));
    assert!(!record_matches(&r, &Some("node dsh web".into()), &None, true));
}

#[test]
fn process_queries_and_signals() {
    let ps = ps_command(42);
    assert_eq!(ps.program, "ps");
    assert_eq!(ps.args, vec!["-p", "42", "-o", "command="]);
    let g = group_signal_command(42, StopSignal::Interrupt);
    assert_eq!(g.args, vec!["-INT", "-42"]);
    let p = process_signal_command(7, StopSignal::Terminate);
    assert_eq!(p.args, vec!["-TERM", "7"]);
    let w = windows_signal_command(9);
    assert_eq!(w.program, "taskkill");
    assert_eq!(w.args, vec!["/PID", "9", "/T"]);
    assert_eq!(web_url_text(3080), "http://127.0.0.1:3080");
}

#[test]
fn reads_command_line_and_directory_output() {
    let ok = |s: &str| Some(CommandOutput { success: true, code: Some(0), stdout: s.into(), stderr: String::new() });
    assert_eq!(command_line_value(&ok("  node dsh web \n"), false).as_deref(), Some("node dsh web"));
    assert_eq!(command_line_value(&ok("   "), false).as_deref(), Some(""));
    assert_eq!(command_line_value(&ok("   "), true), None);
    assert_eq!(lsof_cwd(&ok("p42\nfcwd\nn/home/u/h\n")).as_deref(), Some("/home/u/h"));
    assert_eq!(lsof_cwd(&ok("p42\n")), None);
    assert_eq!(lsof_cwd(&ok("p42\r\nfcwd\r\nn/home/u/h\r\n")).as_deref(), Some("/home/u/h"));
    assert_eq!(lsof_cwd(&ok("p42\r\nn/home/u/h\r")).as_deref(), Some("/home/u/h\r"));
}
