//! What the application shows about the Harness and the machine: the status
//! of the checkout and its service, where tools are looked for and which
//! one is taken, and the Web UI address.
use vstd::prelude::*;
use crate::command::{CommandSpec, exit_code_text, push_exit_code, strings_of};
use crate::models::{DependencyStatus, HarnessStatus, join_name, join_path, string_views};
use crate::prepare::Platform;
use crate::process::{web_url, web_url_text};
use crate::text::{
    any_ws_or_nul, chars_of, decimal, has_char, has_ws_or_nul, is_digit, is_ws, lemma_decimal,
    parse_number, parse_unsigned,
    push_decimal, slice_vec, starts_with, str_starts_with};
use crate::versions::{node_version_key, node_version_key_spec};
use crate::lmstudio::{lemma_rfind_char, lemma_rfind_char_skip, rfind_char, rfind_char_exec};

verus! {

// ---------------------------------------------------------------------
// The status of the Harness
// ---------------------------------------------------------------------

/// A running service as observed: its pid, its port, and whether the port
/// is open.
#[derive(Debug, Clone, Copy, PartialEq, Eq)]
pub struct ServiceObservation {
    pub pid: u32,
    pub port: u16,
    pub port_open: bool,
}

/// What Git reported about the checkout (each value as `git_value` gives
/// it).
#[derive(Debug, Clone, PartialEq)]
pub struct GitObservation {
    /// `git rev-parse --abbrev-ref HEAD`
    pub branch: Option<String>,
    /// `git rev-parse HEAD`
    pub commit: Option<String>,
    /// `git describe --tags --exact-match`
    pub tag: Option<String>,
    /// `git status --porcelain`
    pub changes: Option<String>,
    /// `git rev-list --count HEAD..@{u}`
    pub behind: Option<String>,
}

/// Everything observed about the Harness for its status.
#[derive(Debug, Clone, PartialEq)]
pub struct HarnessObservation {
    pub source_dir: String,
    /// Whether the checkout exists with its `.git`.
    pub checkout_present: bool,
    pub git: GitObservation,
    pub dependencies: Vec<DependencyStatus>,
    pub artifacts_present: bool,
    /// The service started here, if any.
    pub managed: Option<ServiceObservation>,
    /// The recorded service of an earlier run, if it still runs.
    pub orphan: Option<ServiceObservation>,
    /// Whether something listens on the configured port.
    pub configured_port: u16,
    pub configured_port_open: bool,
    pub last_action: Option<String>,
    pub last_error: Option<String>,
}

/// The views of an optional string.
pub open spec fn ov(o: Option<String>) -> Option<Seq<char>> {
    match o {
        Some(s) => Some(s@),
        None => None,
    }
}

/// Whether the checkout is behind its upstream, from the count that Git
/// printed.
pub open spec fn behind_upstream(count: Option<String>) -> Option<bool> {
    match count {
        Some(c) => match parse_unsigned(c@, u64::MAX as nat) {
            Some(n) => Some(n > 0),
            None => None,
        },
        None => None,
    }
}

/// The service facts of a status: running, ready, port, pid and address.
pub open spec fn service_facts(st: HarnessStatus, o: HarnessObservation) -> bool {
    let svc = match o.managed {
        Some(m) => Some(m),
        None => o.orphan,
    };
    &&& st.service_running == (o.managed is Some)
    &&& st.orphaned_process == (o.managed is None && o.orphan is Some)
    &&& match svc {
        Some(m) => {
            &&& st.pid == Some(m.pid)
            &&& st.service_ready == m.port_open
            &&& if m.port_open {
                ov(st.web_url) == Some(web_url(m.port))
            } else {
                st.web_url is None
            }
            &&& st.port == if o.managed is None && o.configured_port_open {
                Some(o.configured_port)
            } else if m.port_open {
                Some(m.port)
            } else {
                None
            }
        },
        None => {
            &&& st.pid is None
            &&& !st.service_ready
            &&& st.web_url is None
            &&& st.port == if o.configured_port_open {
                Some(o.configured_port)
            } else {
                None
            }
        },
    }
}

/// The status that the observations `o` give. Without a checkout only the
/// tools and a left-over service are reported.
pub open spec fn status_of(st: HarnessStatus, o: HarnessObservation) -> bool {
    &&& st.source_dir@ == o.source_dir@
    &&& st.dependencies@ == o.dependencies@
    &&& if o.checkout_present {
        &&& ov(st.branch) == ov(o.git.branch)
        &&& ov(st.commit) == ov(o.git.commit)
        &&& ov(st.tag) == ov(o.git.tag)
        &&& st.dirty == Some(o.git.changes is Some)
        &&& st.update_available == behind_upstream(o.git.behind)
        &&& st.build_artifacts_present == Some(o.artifacts_present)
        &&& service_facts(st, o)
        &&& ov(st.last_action) == ov(o.last_action)
        &&& ov(st.last_error) == ov(o.last_error)
    } else {
        &&& st.branch is None && st.commit is None && st.tag is None
        &&& st.dirty is None && st.update_available is None
        &&& st.build_artifacts_present is None
        &&& !st.service_running && !st.service_ready
        &&& st.orphaned_process == (o.orphan is Some)
        &&& st.pid is None && st.port is None && st.web_url is None
        &&& st.last_action is None && st.last_error is None
    }
}

fn copy_opt(o: &Option<String>) -> (r: Option<String>)
    ensures
        ov(r) == ov(*o),
{
    match o {
        Some(s) => Some(String::from_str(s.as_str())),
        None => None,
    }
}

/// The status of the Harness that the observations give.
pub fn harness_status(o: HarnessObservation) -> (st: HarnessStatus)
    ensures
        status_of(st, o),
{
    let source_dir = String::from_str(o.source_dir.as_str());
    if !o.checkout_present {
        return HarnessStatus {
            source_dir,
            branch: None,
            commit: None,
            tag: None,
            dirty: None,
            update_available: None,
            dependencies: o.dependencies,
            build_artifacts_present: None,
            service_running: false,
            service_ready: false,
            orphaned_process: o.orphan.is_some(),
            pid: None,
            port: None,
            web_url: None,
            last_action: None,
            last_error: None,
        };
    }
    let update_available = match &o.git.behind {
        Some(c) => match parse_number(&chars_of(c.as_str()), 0xffff_ffff_ffff_ffff) {
            Some(n) => Some(n > 0),
            None => None,
        },
        None => None,
    };
    let svc = match o.managed {
        Some(m) => Some(m),
        None => o.orphan,
    };
    let (pid, ready, mut port, url) = match svc {
        Some(m) => (
            Some(m.pid),
            m.port_open,
            if m.port_open {
                Some(m.port)
            } else {
                None
            },
            if m.port_open {
                Some(web_url_text(m.port))
            } else {
                None
            },
        ),
        None => (None, false, None, None),
    };
    if o.managed.is_none() && o.configured_port_open {
        port = Some(o.configured_port);
    }
    HarnessStatus {
        source_dir,
        branch: copy_opt(&o.git.branch),
        commit: copy_opt(&o.git.commit),
        tag: copy_opt(&o.git.tag),
        dirty: Some(o.git.changes.is_some()),
        update_available,
        dependencies: o.dependencies,
        build_artifacts_present: Some(o.artifacts_present),
        service_running: o.managed.is_some(),
        service_ready: ready,
        orphaned_process: o.managed.is_none() && o.orphan.is_some(),
        pid,
        port,
        web_url: url,
        last_action: copy_opt(&o.last_action),
        last_error: copy_opt(&o.last_error),
    }
}

/// Whether a checkout has its build output: `node_modules` exists (the
/// workspace links that `pnpm install` makes), at least one artifact path
/// is configured, and every configured path exists.
pub fn artifacts_present(node_modules: bool, paths_exist: &Vec<bool>) -> (b: bool)
    ensures
        b == (node_modules && paths_exist.len() > 0 && forall|i: int|
            0 <= i < paths_exist.len() ==> #[trigger] paths_exist[i]),
{
    if !node_modules || paths_exist.len() == 0 {
        return false;
    }
    let n = paths_exist.len();
    for i in 0..n
        invariant
            n == paths_exist.len(),
            forall|j: int| 0 <= j < i ==> #[trigger] paths_exist[j],
    {
        if !paths_exist[i] {
            return false;
        }
    }
    true
}

// ---------------------------------------------------------------------
// Finding programs
// ---------------------------------------------------------------------

/// Whether `program` is given as a path rather than a name to look up.
pub open spec fn names_a_path(program: Seq<char>) -> bool {
    program.contains('/') || program.contains('\\')
}

/// Whether `program` is given as a path rather than a name to look up.
pub fn program_is_path(program: &str) -> (b: bool)
    ensures
        b == names_a_path(program@),
{
    let v = chars_of(program);
    has_char(&v, '/') || has_char(&v, '\\')
}

/// The message when `program` is found nowhere.
pub open spec fn missing_program_text(program: Seq<char>) -> Seq<char> {
    "找不到可执行文件 "@ + program
        + "。Finder 启动的应用没有继承终端 PATH，请在设置中填入绝对路径，或确认已安装 Git、Node.js 和 pnpm"@
}

/// The message when `program` is found nowhere.
pub fn missing_program_message(program: &str) -> (m: String)
    ensures
        m@ == missing_program_text(program@),
{
    crate::text::concat3(
        "找不到可执行文件 ",
        program,
        "。Finder 启动的应用没有继承终端 PATH，请在设置中填入绝对路径，或确认已安装 Git、Node.js 和 pnpm",
    )
}

/// Whether version `a` is older than or the same as version `b`.
pub open spec fn version_le(a: (u32, u32, u32), b: (u32, u32, u32)) -> bool {
    a.0 < b.0 || (a.0 == b.0 && (a.1 < b.1 || (a.1 == b.1 && a.2 <= b.2)))
}

/// Which Node.js candidate is taken: the newest version, and of equally new
/// ones the last found (as `max_by_key` picks).
pub fn best_node_candidate(versions: &Vec<(u32, u32, u32)>) -> (r: Option<usize>)
    ensures
        versions.len() == 0 <==> r is None,
        r matches Some(i) ==> i < versions.len() && (forall|j: int|
            0 <= j < versions.len() ==> version_le(#[trigger] versions[j], versions[i as int]))
            && (forall|j: int|
            i < j < versions.len() ==> !version_le(versions[i as int], #[trigger] versions[j])),
{
    if versions.len() == 0 {
        return None;
    }
    let n = versions.len();
    let mut best: usize = 0;
    for k in 1..n
        invariant
            n == versions.len(),
            best < k <= n,
            forall|j: int| 0 <= j < k ==> version_le(#[trigger] versions[j], versions[best as int]),
            forall|j: int| best < j < k ==> !version_le(versions[best as int], #[trigger] versions[j]),
    {
        let a = versions[best];
        let b = versions[k];
        let le = a.0 < b.0 || (a.0 == b.0 && (a.1 < b.1 || (a.1 == b.1 && a.2 <= b.2)));
        if le {
            best = k;
        }
    }
    Some(best)
}

/// Whether `r` lists the positions of `keys` newest version first, equal
/// versions in the order they were found (as a stable sort by the reversed
/// key gives them).
pub open spec fn newest_first(keys: Seq<(u32, u32, u32)>, r: Seq<usize>) -> bool {
    &&& r.len() == keys.len()
    &&& forall|i: int| 0 <= i < r.len() ==> #[trigger] r[i] < keys.len()
    &&& forall|i: int, j: int| 0 <= i < j < r.len() ==> #[trigger] r[i] != #[trigger] r[j]
    &&& forall|i: int, j: int|
        0 <= i < j < r.len() ==> version_le(keys[#[trigger] r[j] as int], keys[#[trigger] r[i] as int])
    &&& forall|i: int, j: int|
        0 <= i < j < r.len() && keys[#[trigger] r[i] as int] == keys[#[trigger] r[j] as int] ==> r[i] < r[j]
}

/// The order in which the Node.js installations with versions `keys` are
/// searched: newest first, equal versions as found.
pub fn newest_first_order(keys: &Vec<(u32, u32, u32)>) -> (r: Vec<usize>)
    ensures
        newest_first(keys@, r@),
{
    let n = keys.len();
    let mut r: Vec<usize> = Vec::new();
    for k in 0..n
        invariant
            n == keys.len(),
            r.len() == k,
            forall|i: int| 0 <= i < r.len() ==> #[trigger] r[i] < k,
            forall|i: int, j: int| 0 <= i < j < r.len() ==> #[trigger] r[i] != #[trigger] r[j],
            forall|i: int, j: int|
                0 <= i < j < r.len() ==> version_le(keys@[#[trigger] r[j] as int], keys@[#[trigger] r[i] as int]),
            forall|i: int, j: int|
                0 <= i < j < r.len() && keys@[#[trigger] r[i] as int] == keys@[#[trigger] r[j] as int]
                    ==> r[i] < r[j],
    {
        let key = keys[k];
        let mut p: usize = 0;
        while p < r.len()
            invariant
                p <= r.len() == k,
                k < n == keys.len(),
                key == keys@[k as int],
                forall|i: int| 0 <= i < r.len() ==> #[trigger] r[i] < k,
                forall|q: int| 0 <= q < p ==> version_le(key, keys@[#[trigger] r[q] as int]),
            ensures
                p <= r.len(),
                forall|q: int| 0 <= q < p ==> version_le(key, keys@[#[trigger] r[q] as int]),
                p < r.len() ==> !version_le(key, keys@[r[p as int] as int]),
            decreases r.len() - p,
        {
            let other = keys[r[p]];
            let key_le = key.0 < other.0 || (key.0 == other.0 && (key.1 < other.1 || (key.1 == other.1
                && key.2 <= other.2)));
            if !key_le {
                break;
            }
            p = p + 1;
        }
        let ghost old_r = r@;
        proof {
            assert forall|q: int| p <= q < old_r.len() implies !version_le(key, keys@[#[trigger] old_r[q] as int]) by {
                if q > p {
                    assert(version_le(keys@[old_r[q] as int], keys@[old_r[p as int] as int]));
                }
            }
        }
        r.insert(p, k);
        proof {
            assert forall|i: int| 0 <= i < r.len() implies #[trigger] r[i] < k + 1 by {
                if i < p {
                    assert(r[i] == old_r[i]);
                } else if i > p {
                    assert(r[i] == old_r[i - 1]);
                }
            }
            assert forall|i: int, j: int| 0 <= i < j < r.len() implies #[trigger] r[i] != #[trigger] r[j]
                && version_le(keys@[r[j] as int], keys@[r[i] as int])
                && (keys@[r[i] as int] == keys@[r[j] as int] ==> r[i] < r[j]) by {
                let a = if i < p { i } else if i > p { i - 1 } else { -1 };
                let b = if j < p { j } else if j > p { j - 1 } else { -1 };
                if a >= 0 {
                    assert(r[i] == old_r[a]);
                }
                if b >= 0 {
                    assert(r[j] == old_r[b]);
                }
            }
        }
    }
    r
}

/// The directories under the home directory where tools are commonly
/// installed, in the order they are searched.
pub open spec fn home_tool_dirs(home: Seq<char>, windows: bool) -> Seq<Seq<char>> {
    seq![
        join_name(home, ".local/bin"@, windows),
        join_name(home, ".local/share/pnpm"@, windows),
        join_name(home, "Library/pnpm"@, windows),
        join_name(home, ".volta/bin"@, windows),
        join_name(home, ".asdf/shims"@, windows),
        join_name(home, ".cargo/bin"@, windows),
    ]
}

/// The directories under `home` where tools are commonly installed.
pub fn home_runtime_dirs(home: &str, windows: bool) -> (dirs: Vec<String>)
    ensures
        string_views(dirs@) == home_tool_dirs(home@, windows),
{
    let mut dirs: Vec<String> = Vec::new();
    dirs.push(join_path(home, ".local/bin", windows));
    dirs.push(join_path(home, ".local/share/pnpm", windows));
    dirs.push(join_path(home, "Library/pnpm", windows));
    dirs.push(join_path(home, ".volta/bin", windows));
    dirs.push(join_path(home, ".asdf/shims", windows));
    dirs.push(join_path(home, ".cargo/bin", windows));
    assert(string_views(dirs@) =~= home_tool_dirs(home@, windows));
    dirs
}

/// The directories of the system's package managers that are searched
/// after those in the home directory: npm and pnpm under `APPDATA` and
/// `LOCALAPPDATA` on Windows, Homebrew's and `/usr/local/bin` on macOS.
pub open spec fn platform_dirs(platform: Platform, app_data: Option<Seq<char>>, local_app_data: Option<Seq<char>>) -> Seq<Seq<char>> {
    match platform {
        Platform::Windows => {
            let a = match app_data {
                Some(d) => seq![join_name(d, "npm"@, true)],
                None => Seq::empty(),
            };
            let l = match local_app_data {
                Some(d) => seq![join_name(d, "pnpm"@, true)],
                None => Seq::empty(),
            };
            a + l
        },
        Platform::MacOs => seq!["/opt/homebrew/bin"@, "/opt/homebrew/sbin"@, "/usr/local/bin"@],
        Platform::Other => Seq::empty(),
    }
}

/// The directories of the system's package managers that are searched.
pub fn platform_tool_dirs(platform: Platform, app_data: Option<String>, local_app_data: Option<String>) -> (dirs: Vec<String>)
    ensures
        string_views(dirs@) == platform_dirs(platform, ov(app_data), ov(local_app_data)),
{
    let mut dirs: Vec<String> = Vec::new();
    match platform {
        Platform::Windows => {
            match &app_data {
                Some(d) => dirs.push(join_path(d.as_str(), "npm", true)),
                None => {},
            }
            let ghost a = string_views(dirs@);
            match &local_app_data {
                Some(d) => dirs.push(join_path(d.as_str(), "pnpm", true)),
                None => {},
            }
            assert(string_views(dirs@) =~= platform_dirs(platform, ov(app_data), ov(local_app_data)));
        },
        Platform::MacOs => {
            dirs.push(String::from_str("/opt/homebrew/bin"));
            dirs.push(String::from_str("/opt/homebrew/sbin"));
            dirs.push(String::from_str("/usr/local/bin"));
            assert(string_views(dirs@) =~= platform_dirs(platform, ov(app_data), ov(local_app_data)));
        },
        Platform::Other => {
            assert(string_views(dirs@) =~= platform_dirs(platform, ov(app_data), ov(local_app_data)));
        },
    }
    dirs
}

/// The `bin` directory of the NVM installation `entry`.
pub open spec fn nvm_bin(entry: Seq<char>, windows: bool) -> Seq<char> {
    join_name(entry, "bin"@, windows)
}

/// The directory under `home` where NVM keeps its Node.js installations.
pub open spec fn nvm_root(home: Seq<char>, windows: bool) -> Seq<char> {
    join_name(home, ".nvm/versions/node"@, windows)
}

/// The directory under `home` where NVM keeps its Node.js installations.
pub fn nvm_versions_dir(home: &str, windows: bool) -> (d: String)
    ensures
        d@ == nvm_root(home@, windows),
{
    join_path(home, ".nvm/versions/node", windows)
}

/// The versions of the NVM installations `entries`, read from their `bin`
/// directories.
pub open spec fn nvm_keys(entries: Seq<String>, windows: bool) -> Seq<(u32, u32, u32)> {
    entries.map_values(|e: String| node_version_key_spec(nvm_bin(e@, windows), windows))
}

/// The `bin` directories of the NVM installations `entries`, in the order
/// `order`.
pub open spec fn nvm_bins_in(entries: Seq<String>, order: Seq<usize>, windows: bool) -> Seq<Seq<char>> {
    order.map_values(|i: usize| nvm_bin(entries[i as int]@, windows))
}

/// The directories that the command search path is made of, in the order
/// they are tried: with a home directory, the NVM `bin` directories `nvm`
/// and the tool directories in the home; then the package manager
/// directories of the platform; then the entries `shell` of the login
/// shell's `PATH`; then the entries `env` of `PATH` itself.
pub open spec fn search_order(
    home: Option<Seq<char>>,
    nvm: Seq<Seq<char>>,
    platform: Platform,
    app_data: Option<Seq<char>>,
    local_app_data: Option<Seq<char>>,
    shell: Seq<Seq<char>>,
    env: Seq<Seq<char>>,
    windows: bool,
) -> Seq<Seq<char>> {
    let from_home = match home {
        Some(h) => nvm + home_tool_dirs(h, windows),
        None => Seq::empty(),
    };
    from_home + platform_dirs(platform, app_data, local_app_data) + shell + env
}

/// The directories that the command search path is made of, in order: the
/// NVM installations `nvm_entries` (found under the home directory `home`)
/// newest first, then the other directories as `search_order` lists them.
pub fn search_path_candidates(
    home: Option<String>,
    nvm_entries: Vec<String>,
    platform: Platform,
    app_data: Option<String>,
    local_app_data: Option<String>,
    shell: Vec<String>,
    env: Vec<String>,
    windows: bool,
) -> (r: Vec<String>)
    ensures
        exists|order: Seq<usize>|
            {
                &&& newest_first(nvm_keys(nvm_entries@, windows), order)
                &&& string_views(r@) == search_order(
                    ov(home),
                    nvm_bins_in(nvm_entries@, order, windows),
                    platform,
                    ov(app_data),
                    ov(local_app_data),
                    string_views(shell@),
                    string_views(env@),
                    windows,
                )
            },
{
    let n = nvm_entries.len();
    let mut bins: Vec<String> = Vec::new();
    let mut keys: Vec<(u32, u32, u32)> = Vec::new();
    for i in 0..n
        invariant
            n == nvm_entries.len(),
            bins.len() == i,
            keys@ == nvm_keys(nvm_entries@, windows).take(i as int),
            forall|j: int| 0 <= j < i ==> #[trigger] bins@[j]@ == nvm_bin(nvm_entries@[j]@, windows),
    {
        let b = join_path(nvm_entries[i].as_str(), "bin", windows);
        keys.push(node_version_key(b.as_str(), windows));
        bins.push(b);
        assert(keys@ =~= nvm_keys(nvm_entries@, windows).take(i + 1));
    }
    assert(keys@ =~= nvm_keys(nvm_entries@, windows));
    let order = newest_first_order(&keys);
    let ghost nvm = nvm_bins_in(nvm_entries@, order@, windows);
    let mut r: Vec<String> = Vec::new();
    match &home {
        Some(h) => {
            let m = order.len();
            for k in 0..m
                invariant
                    m == order.len(),
                    bins.len() == n,
                    keys.len() == n,
                    nvm_entries.len() == n,
                    newest_first(keys@, order@),
                    forall|j: int| 0 <= j < n ==> #[trigger] bins@[j]@ == nvm_bin(nvm_entries@[j]@, windows),
                    nvm == nvm_bins_in(nvm_entries@, order@, windows),
                    string_views(r@) == nvm.take(k as int),
            {
                let idx = order[k];
                assert(order@[k as int] < keys@.len());
                let b = bins[idx].clone();
                assert(b@ == nvm[k as int]);
                let ghost before = string_views(r@);
                r.push(b);
                assert(string_views(r@) =~= before.push(nvm[k as int]));
                assert(nvm.take(k + 1) =~= nvm.take(k as int).push(nvm[k as int]));
            }
            assert(nvm.take(m as int) =~= nvm);
            let mut home_dirs = home_runtime_dirs(h.as_str(), windows);
            r.append(&mut home_dirs);
        },
        None => {},
    }
    let ghost ad = ov(app_data);
    let ghost la = ov(local_app_data);
    let mut pdirs = platform_tool_dirs(platform, app_data, local_app_data);
    r.append(&mut pdirs);
    let mut shell = shell;
    let mut env = env;
    let ghost sv = string_views(shell@);
    let ghost ev = string_views(env@);
    r.append(&mut shell);
    r.append(&mut env);
    assert(string_views(r@) =~= search_order(
        ov(home),
        nvm,
        platform,
        ad,
        la,
        sv,
        ev,
        windows,
    ));
    r
}

/// The line logged when a command finished.
pub open spec fn finished_text(label: Seq<char>, success: bool, code: Option<i32>) -> Seq<char> {
    if success {
        label + " 完成"@
    } else {
        label + " 失败，退出码 "@ + exit_code_text(code)
    }
}

/// The line logged when a command finished.
pub fn command_finished_log(label: &str, success: bool, code: Option<i32>) -> (m: String)
    ensures
        m@ == finished_text(label@, success, code),
{
    let mut m = String::from_str(label);
    if success {
        m.append(" 完成");
    } else {
        m.append(" 失败，退出码 ");
        push_exit_code(&mut m, code);
    }
    m
}

// ---------------------------------------------------------------------
// The Web UI
// ---------------------------------------------------------------------

/// The port of a local Web UI address: only `http://127.0.0.1:` and
/// `http://localhost:` addresses without whitespace or NUL are opened, and
/// the text after their last `:` must be a port.
pub open spec fn web_ui_port_spec(url: Seq<char>) -> Result<u16, Seq<char>> {
    if !(starts_with(url, "http://127.0.0.1:"@) || starts_with(url, "http://localhost:"@))
        || has_ws_or_nul(url) {
        Err("只允许打开本机 Harness Web UI 地址"@)
    } else {
        let tail = match rfind_char(url, ':') {
            Some(k) => url.subrange(k + 1int, url.len() as int),
            None => url,
        };
        match parse_unsigned(tail, u16::MAX as nat) {
            Some(p) => Ok(p as u16),
            None => Err("Web UI 地址端口无效"@),
        }
    }
}

/// The port of a local Web UI address, or why it is not opened.
pub fn web_ui_port(url: &str) -> (r: Result<u16, String>)
    ensures
        match web_ui_port_spec(url@) {
            Ok(p) => r == Ok::<u16, String>(p),
            Err(m) => r matches Err(e) && e@ == m,
        },
{
    let u = chars_of(url);
    if !(str_starts_with(&u, "http://127.0.0.1:") || str_starts_with(&u, "http://localhost:"))
        || any_ws_or_nul(&u) {
        return Err(String::from_str("只允许打开本机 Harness Web UI 地址"));
    }
    proof {
        lemma_rfind_char(u@, ':');
        assert(u@.subrange(0, u@.len() as int) =~= u@);
    }
    let tail = match rfind_char_exec(&u, ':') {
        Some(k) => slice_vec(&u, k + 1, u.len()),
        None => slice_vec(&u, 0, u.len()),
    };
    match parse_number(&tail, 0xffff) {
        Some(p) => Ok(p as u16),
        None => Err(String::from_str("Web UI 地址端口无效")),
    }
}

/// The message when the Web UI port is not open yet.
pub fn web_ui_not_listening(port: u16) -> (m: String)
    ensures
        m@ == "Web UI 端口 "@ + decimal(port as nat) + " 当前未监听，请先等待 Harness 启动完成"@,
{
    let mut m = String::from_str("Web UI 端口 ");
    push_decimal(&mut m, port as u64);
    m.append(" 当前未监听，请先等待 Harness 启动完成");
    m
}

/// The address shown for a service on `port` is one that the Web UI opener
/// accepts, and it opens that same port.
pub proof fn law_web_address_opens_its_port(port: u16)
    ensures
        web_ui_port_spec(web_url(port)) == Ok::<u16, Seq<char>>(port),
{
    reveal_strlit("http://127.0.0.1:");
    let pre = "http://127.0.0.1:"@;
    let d = decimal(port as nat);
    lemma_decimal(port as nat);
    let url = pre + d;
    assert(url == web_url(port));
    assert(url.subrange(0, pre.len() as int) =~= pre);
    assert(starts_with(url, pre));
    assert(!has_ws_or_nul(url)) by {
        assert forall|i: int| 0 <= i < url.len() implies !(is_ws(#[trigger] url[i]) || url[i] == '\0') by {
            if i >= pre.len() {
                assert(url[i] == d[i - pre.len()]);
                assert(is_digit(d[i - pre.len()]));
            }
        }
    }
    assert(!d.contains(':')) by {
        if d.contains(':') {
            let i = choose|i: int| 0 <= i < d.len() && d[i] == ':';
            assert(is_digit(d[i]));
        }
    }
    lemma_rfind_char_skip(pre, d, ':');
    assert(pre.last() == ':');
    assert(rfind_char(pre, ':') == Some(16nat));
    assert(url.subrange(17, url.len() as int) =~= d);
    assert(d[0] != '+') by {
        assert(is_digit(d[0]));
    }
}

/// The command that opens `url` in the browser: `open` on macOS,
/// `explorer.exe` on Windows, `xdg-open` on Linux.
pub fn open_url_command(platform: Platform, url: &str) -> (spec: CommandSpec)
    ensures
        spec.program@ == match platform {
            Platform::MacOs => "open"@,
            Platform::Windows => "explorer.exe"@,
            Platform::Other => "xdg-open"@,
        },
        string_views(spec.args@) == seq![url@],
{
    let program = match platform {
        Platform::MacOs => "open",
        Platform::Windows => "explorer.exe",
        Platform::Other => "xdg-open",
    };
    let args = strings_of(&vec![url]);
    assert(string_views(args@) =~= seq![url@]);
    CommandSpec { program: String::from_str(program), args }
}

} // verus!
