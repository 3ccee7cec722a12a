//! The Harness service process: how a left-over process is recognised, how
//! it is signalled, and the messages around starting it.
use vstd::prelude::*;
use crate::command::{CommandOutput, CommandSpec, strings_of};
use crate::models::{ProcessRecord, string_views};
use crate::path::{components, components_start_with, path_starts_with};
use crate::text::{
    chars_of, contains_seq, decimal, find_from, lemma_find, push_decimal, slice_vec,
    split_char, split_on, string_of, trim, trimmed, views};

verus! {

/// Whether `p` occurs in `t`.
pub fn text_contains(t: &str, p: &str) -> (b: bool)
    ensures
        b == contains_seq(t@, p@),
{
    let tv = chars_of(t);
    let pv = chars_of(p);
    proof {
        lemma_find(tv@, pv@);
    }
    assert(tv@.subrange(0, tv@.len() as int) =~= tv@);
    find_from(&tv, &pv, 0).is_some()
}

/// `s` with ASCII capitals made small, as `to_ascii_lowercase` does.
pub open spec fn ascii_lower(s: Seq<char>) -> Seq<char> {
    s.map_values(|c: char| if 'A' <= c && c <= 'Z' { ((c as u32) + 32) as char } else { c })
}

fn ascii_lowercase(s: &str) -> (r: String)
    ensures
        r@ == ascii_lower(s@),
{
    let v = chars_of(s);
    let mut out: Vec<char> = Vec::new();
    let n = v.len();
    for i in 0..n
        invariant
            n == v.len(),
            out@ == ascii_lower(v@).take(i as int),
            v@ == s@,
    {
        let c = v[i];
        let d = if 'A' <= c && c <= 'Z' {
            ((c as u32) + 32) as u8 as char
        } else {
            c
        };
        out.push(d);
        assert(out@ =~= ascii_lower(v@).take(i + 1));
    }
    assert(ascii_lower(v@).take(n as int) =~= ascii_lower(v@));
    string_of(&out)
}

/// Whether the recorded Harness process still runs, judged from what the
/// system reports for its pid: its command line and (where it can be
/// read) its working directory. On Windows, where the working directory
/// cannot be read, the command line must name pnpm, node or npm and hold
/// every recorded argument after the program.
pub open spec fn record_matches_spec(
    record: ProcessRecord,
    commandline: Option<Seq<char>>,
    cwd: Option<Seq<char>>,
    windows: bool,
) -> bool {
    let command_matches = match commandline {
        Some(c) => contains_seq(c, "dsh"@) && contains_seq(c, "web"@),
        None => false,
    };
    if windows && command_matches {
        let c = commandline->0;
        let lower = ascii_lower(c);
        (contains_seq(lower, "pnpm"@) || contains_seq(lower, "node"@) || contains_seq(lower, "npm"@))
            && forall|i: int|
            1 <= i < record.command@.len() ==> contains_seq(c, #[trigger] record.command@[i]@)
    } else {
        let cwd_matches = match cwd {
            Some(d) => components_start_with(components(d), components(record.source_dir@)),
            None => false,
        };
        command_matches && (cwd_matches || match commandline {
            Some(c) => contains_seq(c, record.source_dir@),
            None => false,
        })
    }
}

/// Whether the recorded Harness process still runs, given the command line
/// and working directory that the system reports for its pid.
#[verifier::loop_isolation(false)]
pub fn record_matches(
    record: &ProcessRecord,
    commandline: &Option<String>,
    cwd: &Option<String>,
    windows: bool,
) -> (b: bool)
    ensures
        b == record_matches_spec(
            *record,
            match commandline {
                Some(c) => Some(c@),
                None => None,
            },
            match cwd {
                Some(d) => Some(d@),
                None => None,
            },
            windows,
        ),
{
    let command_matches = match commandline {
        Some(c) => text_contains(c.as_str(), "dsh") && text_contains(c.as_str(), "web"),
        None => false,
    };
    if windows && command_matches {
        let c = match commandline {
            Some(c) => c,
            None => return false,
        };
        let lower = ascii_lowercase(c.as_str());
        let tool = text_contains(lower.as_str(), "pnpm") || text_contains(lower.as_str(), "node")
            || text_contains(lower.as_str(), "npm");
        if !tool {
            return false;
        }
        let n = record.command.len();
        let mut i: usize = 1;
        while i < n
            invariant
                n == record.command.len(),
                1 <= i,
                forall|j: int| 1 <= j < i && j < n ==> contains_seq(c@, #[trigger] record.command@[j]@),
            decreases n - i,
        {
            if !text_contains(c.as_str(), record.command[i].as_str()) {
                return false;
            }
            i = i + 1;
        }
        return true;
    }
    let cwd_matches = match cwd {
        Some(d) => path_starts_with(d.as_str(), record.source_dir.as_str()),
        None => false,
    };
    command_matches && (cwd_matches || match commandline {
        Some(c) => text_contains(c.as_str(), record.source_dir.as_str()),
        None => false,
    })
}

// ---------------------------------------------------------------------
// Asking the system about a process
// ---------------------------------------------------------------------

/// The command that prints the command line of `pid` on a POSIX system.
pub fn ps_command(pid: u32) -> (spec: CommandSpec)
    ensures
        spec.program@ == "ps"@,
        string_views(spec.args@) == seq!["-p"@, decimal(pid as nat), "-o"@, "command="@],
{
    let mut p = String::new();
    push_decimal(&mut p, pid as u64);
    let args = strings_of(&vec!["-p", p.as_str(), "-o", "command="]);
    assert(string_views(args@) =~= seq!["-p"@, decimal(pid as nat), "-o"@, "command="@]);
    CommandSpec { program: String::from_str("ps"), args }
}

/// The command that prints the working directory of `pid` on macOS.
pub fn lsof_command(pid: u32) -> (spec: CommandSpec)
    ensures
        spec.program@ == "lsof"@,
        string_views(spec.args@) == seq!["-a"@, "-p"@, decimal(pid as nat), "-d"@, "cwd"@, "-Fn"@],
{
    let mut p = String::new();
    push_decimal(&mut p, pid as u64);
    let args = strings_of(&vec!["-a", "-p", p.as_str(), "-d", "cwd", "-Fn"]);
    assert(string_views(args@) =~= seq!["-a"@, "-p"@, decimal(pid as nat), "-d"@, "cwd"@, "-Fn"@]);
    CommandSpec { program: String::from_str("lsof"), args }
}

/// The command that prints the command line of `pid` through `wmic`.
pub fn wmic_command(pid: u32) -> (spec: CommandSpec)
    ensures
        spec.program@ == "wmic"@,
        string_views(spec.args@) == seq![
            "process"@,
            "where"@,
            "ProcessId="@ + decimal(pid as nat),
            "get"@,
            "CommandLine"@,
            "/value"@,
        ],
{
    let mut p = String::from_str("ProcessId=");
    push_decimal(&mut p, pid as u64);
    let args = strings_of(&vec!["process", "where", p.as_str(), "get", "CommandLine", "/value"]);
    assert(string_views(args@) =~= seq![
        "process"@,
        "where"@,
        "ProcessId="@ + decimal(pid as nat),
        "get"@,
        "CommandLine"@,
        "/value"@,
    ]);
    CommandSpec { program: String::from_str("wmic"), args }
}

/// The PowerShell script that prints the command line of `pid`.
pub open spec fn powershell_script(pid: u32) -> Seq<char> {
    "$p = Get-CimInstance Win32_Process -Filter 'ProcessId = "@ + decimal(pid as nat)
        + "'; $p.CommandLine"@
}

/// The command that prints the command line of `pid` through PowerShell.
pub fn powershell_command(pid: u32) -> (spec: CommandSpec)
    ensures
        spec.program@ == "powershell"@,
        string_views(spec.args@) == seq![
            "-NoProfile"@,
            "-NonInteractive"@,
            "-Command"@,
            powershell_script(pid),
        ],
{
    let mut script = String::from_str("$p = Get-CimInstance Win32_Process -Filter 'ProcessId = ");
    push_decimal(&mut script, pid as u64);
    script.append("'; $p.CommandLine");
    let args = strings_of(&vec!["-NoProfile", "-NonInteractive", "-Command", script.as_str()]);
    assert(string_views(args@) =~= seq![
        "-NoProfile"@,
        "-NonInteractive"@,
        "-Command"@,
        powershell_script(pid),
    ]);
    CommandSpec { program: String::from_str("powershell"), args }
}

/// The command line in the output of a process query that ran: on a POSIX
/// system any successful answer (trimmed), on Windows only a non-empty one.
pub open spec fn command_line_spec(output: Option<CommandOutput>, windows: bool) -> Option<Seq<char>> {
    match output {
        Some(o) => if o.success && (!windows || trim(o.stdout@).len() > 0) {
            Some(trim(o.stdout@))
        } else {
            None
        },
        None => None,
    }
}

/// The command line in the output of a process query (`None` when the
/// query could not run).
pub fn command_line_value(output: &Option<CommandOutput>, windows: bool) -> (r: Option<String>)
    ensures
        match command_line_spec(*output, windows) {
            Some(v) => r matches Some(s) && s@ == v,
            None => r is None,
        },
{
    match output {
        Some(o) => {
            if !o.success {
                return None;
            }
            let t = trimmed(&chars_of(o.stdout.as_str()));
            if windows && t.len() == 0 {
                return None;
            }
            Some(string_of(&t))
        },
        None => None,
    }
}

/// A line that ended with `\n`, as `str::lines` gives it: without a
/// trailing `\r`.
pub open spec fn without_cr(l: Seq<char>) -> Seq<char> {
    if l.len() > 0 && l.last() == '\r' {
        l.drop_last()
    } else {
        l
    }
}

/// The `i`-th line of the pieces `lines` of a text split at `\n`, as
/// `str::lines` gives it: a trailing `\r` is dropped where a `\n` followed,
/// so not from the last piece.
pub open spec fn text_line(lines: Seq<Seq<char>>, i: int) -> Seq<char> {
    if i + 1 < lines.len() {
        without_cr(lines[i])
    } else {
        lines[i]
    }
}

/// The directory in the output of `lsof -Fn` that was split at `\n` into
/// `lines`, from the `i`-th piece on: the first line that starts with `n`,
/// without that `n`.
pub open spec fn lsof_cwd_from(lines: Seq<Seq<char>>, i: int) -> Option<Seq<char>>
    decreases lines.len() - i,
{
    if i < 0 || i >= lines.len() {
        None
    } else if text_line(lines, i).len() > 0 && text_line(lines, i)[0] == 'n' {
        Some(text_line(lines, i).drop_first())
    } else {
        lsof_cwd_from(lines, i + 1)
    }
}

/// The directory in the output of `lsof -Fn` that was split at `\n` into
/// `lines`: the first line that starts with `n`, without that `n`.
pub open spec fn lsof_cwd_line(lines: Seq<Seq<char>>) -> Option<Seq<char>> {
    lsof_cwd_from(lines, 0)
}

/// The working directory that a successful `lsof` query printed.
pub open spec fn lsof_cwd_spec(output: Option<CommandOutput>) -> Option<Seq<char>> {
    match output {
        Some(o) => if o.success {
            lsof_cwd_line(split_char(o.stdout@, '\n'))
        } else {
            None
        },
        None => None,
    }
}

/// The working directory that an `lsof` query printed (`None` when it
/// could not run).
#[verifier::loop_isolation(false)]
pub fn lsof_cwd(output: &Option<CommandOutput>) -> (r: Option<String>)
    ensures
        match lsof_cwd_spec(*output) {
            Some(v) => r matches Some(s) && s@ == v,
            None => r is None,
        },
{
    match output {
        Some(o) => {
            if !o.success {
                return None;
            }
            let lines = split_on(&chars_of(o.stdout.as_str()), '\n');
            let n = lines.len();
            let ghost all = views(lines@);
            for i in 0..n
                invariant
                    n == lines.len(),
                    all == views(lines@),
                    all == split_char(o.stdout@, '\n'),
                    lsof_cwd_line(all) == lsof_cwd_from(all, i as int),
            {
                assert(all[i as int] == lines@[i as int]@);
                let line = &lines[i];
                let end = if i + 1 < n && line.len() > 0 && line[line.len() - 1] == '\r' {
                    line.len() - 1
                } else {
                    line.len()
                };
                let l = slice_vec(line, 0, end);
                assert(l@ =~= text_line(all, i as int));
                if l.len() > 0 && l[0] == 'n' {
                    let rest = slice_vec(&l, 1, l.len());
                    assert(rest@ =~= text_line(all, i as int).drop_first());
                    return Some(string_of(&rest));
                }
            }
            None
        },
        None => None,
    }
}

// ---------------------------------------------------------------------
// Signals
// ---------------------------------------------------------------------

/// The signals that stopping the service sends: an interrupt first, a
/// termination request when the interrupt did not help. Nothing stronger.
#[derive(Debug, Clone, Copy, PartialEq, Eq, Structural)]
pub enum StopSignal {
    Interrupt,
    Terminate,
}

/// The `kill` option for a signal.
pub open spec fn signal_flag(s: StopSignal) -> Seq<char> {
    match s {
        StopSignal::Interrupt => "-INT"@,
        StopSignal::Terminate => "-TERM"@,
    }
}

fn signal_flag_str(s: StopSignal) -> (r: &'static str)
    ensures
        r@ == signal_flag(s),
{
    match s {
        StopSignal::Interrupt => "-INT",
        StopSignal::Terminate => "-TERM",
    }
}

/// The `kill` command that signals the process group of `pid`.
pub fn group_signal_command(pid: u32, signal: StopSignal) -> (spec: CommandSpec)
    ensures
        spec.program@ == "kill"@,
        string_views(spec.args@) == seq![signal_flag(signal), "-"@ + decimal(pid as nat)],
{
    let mut g = String::from_str("-");
    push_decimal(&mut g, pid as u64);
    let args = strings_of(&vec![signal_flag_str(signal), g.as_str()]);
    assert(string_views(args@) =~= seq![signal_flag(signal), "-"@ + decimal(pid as nat)]);
    CommandSpec { program: String::from_str("kill"), args }
}

/// The `kill` command that signals `pid` alone; used when signalling its
/// group failed.
pub fn process_signal_command(pid: u32, signal: StopSignal) -> (spec: CommandSpec)
    ensures
        spec.program@ == "kill"@,
        string_views(spec.args@) == seq![signal_flag(signal), decimal(pid as nat)],
{
    let mut p = String::new();
    push_decimal(&mut p, pid as u64);
    let args = strings_of(&vec![signal_flag_str(signal), p.as_str()]);
    assert(string_views(args@) =~= seq![signal_flag(signal), decimal(pid as nat)]);
    CommandSpec { program: String::from_str("kill"), args }
}

/// The `taskkill` command that ends the process tree of `pid` on Windows;
/// both signals are sent this way.
pub fn windows_signal_command(pid: u32) -> (spec: CommandSpec)
    ensures
        spec.program@ == "taskkill"@,
        string_views(spec.args@) == seq!["/PID"@, decimal(pid as nat), "/T"@],
{
    let mut p = String::new();
    push_decimal(&mut p, pid as u64);
    let args = strings_of(&vec!["/PID", p.as_str(), "/T"]);
    assert(string_views(args@) =~= seq!["/PID"@, decimal(pid as nat), "/T"@]);
    CommandSpec { program: String::from_str("taskkill"), args }
}

// ---------------------------------------------------------------------
// Messages about the service
// ---------------------------------------------------------------------

/// Why the service did not come up: its process exited, or it still runs
/// without listening on its port.
pub open spec fn start_failure_text(port: u16, process_exited: bool) -> Seq<char> {
    if process_exited {
        "Harness 进程已退出，端口 "@ + decimal(port as nat) + " 未监听；请查看实时日志并检查构建产物和启动命令"@
    } else {
        "Harness 进程仍在运行，但端口 "@ + decimal(port as nat) + " 未监听；请查看实时日志"@
    }
}

/// Why the service did not come up on `port`.
pub fn start_failure_message(port: u16, process_exited: bool) -> (m: String)
    ensures
        m@ == start_failure_text(port, process_exited),
{
    if process_exited {
        let mut m = String::from_str("Harness 进程已退出，端口 ");
        push_decimal(&mut m, port as u64);
        m.append(" 未监听；请查看实时日志并检查构建产物和启动命令");
        m
    } else {
        let mut m = String::from_str("Harness 进程仍在运行，但端口 ");
        push_decimal(&mut m, port as u64);
        m.append(" 未监听；请查看实时日志");
        m
    }
}

/// The record kept of a service started as `pid` from `source_dir`.
pub fn process_record(
    pid: u32,
    source_dir: &str,
    port: u16,
    spec: &CommandSpec,
    started_at: String,
) -> (r: ProcessRecord)
    ensures
        r.pid == pid,
        r.source_dir@ == source_dir@,
        r.port == port,
        string_views(r.command@) == seq![spec.program@] + string_views(spec.args@),
        r.started_at@ == started_at@,
{
    let mut command: Vec<String> = Vec::new();
    command.push(String::from_str(spec.program.as_str()));
    let rest = crate::command::copy_strings(&spec.args);
    let n = rest.len();
    for i in 0..n
        invariant
            n == rest.len(),
            string_views(command@) == seq![spec.program@] + string_views(rest@).take(i as int),
    {
        let ghost before = string_views(command@);
        command.push(String::from_str(rest[i].as_str()));
        assert(string_views(command@) =~= before.push(rest@[i as int]@));
        assert(string_views(rest@).take(i + 1) =~= string_views(rest@).take(i as int).push(
            rest@[i as int]@,
        ));
    }
    assert(string_views(rest@).take(n as int) =~= string_views(rest@));
    ProcessRecord {
        pid,
        source_dir: String::from_str(source_dir),
        port,
        command,
        started_at,
    }
}

/// The local address of the Web UI on `port`.
pub open spec fn web_url(port: u16) -> Seq<char> {
    "http://127.0.0.1:"@ + decimal(port as nat)
}

/// The local address of the Web UI on `port`.
pub fn web_url_text(port: u16) -> (u: String)
    ensures
        u@ == web_url(port),
{
    let mut u = String::from_str("http://127.0.0.1:");
    push_decimal(&mut u, port as u64);
    u
}

/// A recorded pid is trusted only when the process that has it now runs
/// the Harness Web command (`dsh` and `web`): a reused pid of an unrelated
/// program is never taken for a left-over service.
pub proof fn law_unrelated_process_not_trusted(
    record: ProcessRecord,
    commandline: Option<Seq<char>>,
    cwd: Option<Seq<char>>,
    windows: bool,
)
    requires
        commandline matches Some(c) ==> !(contains_seq(c, "dsh"@) && contains_seq(c, "web"@)),
    ensures
        !record_matches_spec(record, commandline, cwd, windows),
{
}

} // verus!
