//! The data that the desktop application keeps, shows and exchanges with
//! its front end: configuration, status reports, log entries, progress
//! reports, and the phases of the safe update.
use vstd::prelude::*;
use crate::path::{
    is_sep, prefix_len, verbatim_join, verbatim_join_of, win_prefix, win_prefix_exec,
    win_verbatim, PrefixKind,
};
use crate::text::{chars_of, slice_vec, string_of};

verus! {

/// A program and its arguments, as configured.
#[derive(Debug, Clone, PartialEq)]
pub struct CommandConfig {
    pub program: String,
    pub args: Vec<String>,
}

/// Where the Harness checkout lives and how it is built and served.
#[derive(Debug, Clone, PartialEq)]
pub struct HarnessConfig {
    pub source_dir: String,
    pub repo_url: String,
    pub branch: String,
    pub port: u16,
    pub start_command: CommandConfig,
    pub install_command: CommandConfig,
    pub build_command: CommandConfig,
    /// Checkout-relative paths that a finished build leaves behind.
    pub artifact_paths: Vec<String>,
    /// Checkout-relative paths that an update removes before rebuilding.
    pub clean_paths: Vec<String>,
}

/// Where the LM Studio model list is served.
#[derive(Debug, Clone, PartialEq)]
pub struct LmStudioConfig {
    pub api_url: String,
}

/// How the Harness checkout is updated.
#[derive(Debug, Clone, PartialEq)]
pub struct UpdateConfig {
    pub remote_name: String,
    pub allow_prerelease: bool,
}

/// The whole configuration of the application.
#[derive(Debug, Clone, PartialEq)]
pub struct AppConfig {
    pub harness: HarnessConfig,
    pub lm_studio: LmStudioConfig,
    pub update: UpdateConfig,
}

/// Whether a tool that the Harness needs is present and recent enough.
#[derive(Debug, Clone, PartialEq)]
pub struct DependencyStatus {
    pub name: String,
    pub available: bool,
    pub version: Option<String>,
    pub command: String,
    pub suggestion: String,
}

/// What is known of the Harness checkout and its service.
#[derive(Debug, Clone, PartialEq)]
pub struct HarnessStatus {
    pub source_dir: String,
    pub branch: Option<String>,
    pub commit: Option<String>,
    pub tag: Option<String>,
    pub dirty: Option<bool>,
    pub update_available: Option<bool>,
    pub dependencies: Vec<DependencyStatus>,
    pub build_artifacts_present: Option<bool>,
    pub service_running: bool,
    pub service_ready: bool,
    pub orphaned_process: bool,
    pub pid: Option<u32>,
    pub port: Option<u16>,
    pub web_url: Option<String>,
    pub last_action: Option<String>,
    pub last_error: Option<String>,
}

/// The answer of the LM Studio model endpoint.
#[derive(Debug, Clone, PartialEq)]
pub struct LmStudioStatus {
    pub reachable: bool,
    pub api_url: String,
    pub models: Vec<String>,
    pub error: Option<String>,
    pub checked_at: String,
}

/// The record of a started Harness service, kept across launches.
#[derive(Debug, Clone, PartialEq)]
pub struct ProcessRecord {
    pub pid: u32,
    pub source_dir: String,
    pub port: u16,
    pub command: Vec<String>,
    pub started_at: String,
}

/// One line of output shown in the log view.
#[derive(Debug, Clone, PartialEq)]
pub struct LogEntry {
    pub stream: String,
    pub line: String,
    pub timestamp: String,
}

/// A progress report of a long operation.
#[derive(Debug, Clone, PartialEq)]
pub struct OperationProgress {
    pub operation: String,
    pub phase: String,
    pub message: String,
    pub detail: Option<String>,
    pub percent: Option<u8>,
    pub cancellable: bool,
    pub timestamp: String,
}

/// Everything the front end shows at once.
#[derive(Debug, Clone, PartialEq)]
pub struct AppSnapshot {
    pub config: AppConfig,
    pub harness: HarnessStatus,
    pub lm_studio: LmStudioStatus,
    pub last_progress: Option<OperationProgress>,
}

/// What the user chose for an update.
#[derive(Debug, Clone, Copy, PartialEq, Eq)]
pub struct UpdateOptions {
    pub create_stash: bool,
}

/// The phases that progress reports name.
#[derive(Debug, Clone, Copy, PartialEq, Eq, Structural)]
pub enum UpdatePhase {
    Checking,
    Stopping,
    ValidatingWorkspace,
    Stashing,
    Fetching,
    FastForwarding,
    InstallingDependencies,
    CleaningBuild,
    Building,
    Restarting,
    Completed,
    Failed,
    Cancelled,
}

/// The name of a phase as the front end knows it.
pub open spec fn phase_name(p: UpdatePhase) -> Seq<char> {
    match p {
        UpdatePhase::Checking => "checking"@,
        UpdatePhase::Stopping => "stopping"@,
        UpdatePhase::ValidatingWorkspace => "validatingWorkspace"@,
        UpdatePhase::Stashing => "stashing"@,
        UpdatePhase::Fetching => "fetching"@,
        UpdatePhase::FastForwarding => "fastForwarding"@,
        UpdatePhase::InstallingDependencies => "installingDependencies"@,
        UpdatePhase::CleaningBuild => "cleaningBuild"@,
        UpdatePhase::Building => "building"@,
        UpdatePhase::Restarting => "restarting"@,
        UpdatePhase::Completed => "completed"@,
        UpdatePhase::Failed => "failed"@,
        UpdatePhase::Cancelled => "cancelled"@,
    }
}

impl UpdatePhase {
    /// The name of the phase as the front end knows it.
    pub fn as_str(self) -> (s: &'static str)
        ensures
            s@ == phase_name(self),
    {
        match self {
            Self::Checking => "checking",
            Self::Stopping => "stopping",
            Self::ValidatingWorkspace => "validatingWorkspace",
            Self::Stashing => "stashing",
            Self::Fetching => "fetching",
            Self::FastForwarding => "fastForwarding",
            Self::InstallingDependencies => "installingDependencies",
            Self::CleaningBuild => "cleaningBuild",
            Self::Building => "building",
            Self::Restarting => "restarting",
            Self::Completed => "completed",
            Self::Failed => "failed",
            Self::Cancelled => "cancelled",
        }
    }
}

/// The character sequences that the strings of `v` hold.
pub open spec fn string_views(v: Seq<String>) -> Seq<Seq<char>> {
    v.map_values(|s: String| s@)
}

/// The name of the checkout directory that the default configuration uses.
pub open spec fn default_dir_name() -> Seq<char> {
    "deepseek-harness"@
}

/// `base` joined with `name`, as `Path::join` puts them together (on
/// Windows when `windows`). A `name` with a root (with a prefix, on Windows)
/// stands for itself; on Windows a `name` with a root but no prefix keeps
/// only the prefix of `base`, and a verbatim `base` (`\\?\...`) is written
/// anew with the components of `name` added. Otherwise a separator (`\` on
/// Windows, `/` elsewhere) goes between them unless `base` is empty, already
/// ends with one, or is a bare drive such as `C:`.
pub open spec fn join_name(base: Seq<char>, name: Seq<char>, windows: bool) -> Seq<char> {
    if windows {
        if win_prefix(name) is Some {
            name
        } else if win_verbatim(base) && name.len() > 0 {
            verbatim_join(base, name)
        } else if name.len() > 0 && is_sep(name[0], true, false) {
            base.subrange(0, prefix_len(base)) + name
        } else if base.len() == 0 || is_sep(base.last(), true, false) || (base.len() == 2
            && win_prefix(base) == Some((PrefixKind::Disk, 2int))) {
            base + name
        } else {
            base + seq!['\\'] + name
        }
    } else if name.len() > 0 && name[0] == '/' {
        name
    } else if base.len() == 0 || base.last() == '/' {
        base + name
    } else {
        base + seq!['/'] + name
    }
}

/// `base` joined with `name`.
pub fn join_path(base: &str, name: &str, windows: bool) -> (r: String)
    ensures
        r@ == join_name(base@, name@, windows),
{
    let b = chars_of(base);
    let nm = chars_of(name);
    let n = b.len();
    if windows {
        let bp = win_prefix_exec(&b);
        if win_prefix_exec(&nm).is_some() {
            return String::from_str(name);
        }
        let verbatim = match bp {
            Some((k, _)) => k == PrefixKind::Verbatim || k == PrefixKind::VerbatimUnc || k
                == PrefixKind::VerbatimDisk,
            None => false,
        };
        if verbatim && nm.len() > 0 {
            return verbatim_join_of(&b, &nm);
        }
        if nm.len() > 0 && (nm[0] == '/' || nm[0] == '\\') {
            let l = match bp {
                Some((_, l)) => l,
                None => 0,
            };
            let mut r = string_of(&slice_vec(&b, 0, l));
            r.append(name);
            return r;
        }
        let drive = n == 2 && match bp {
            Some((k, l)) => k == PrefixKind::Disk && l == 2,
            None => false,
        };
        let mut r = String::from_str(base);
        if n > 0 && !(b[n - 1] == '/' || b[n - 1] == '\\') && !drive {
            r.push('\\');
        }
        r.append(name);
        r
    } else {
        if nm.len() > 0 && nm[0] == '/' {
            return String::from_str(name);
        }
        let mut r = String::from_str(base);
        if n > 0 && b[n - 1] != '/' {
            r.push('/');
        }
        r.append(name);
        r
    }
}

/// The checkout directory of the default configuration: `deepseek-harness`
/// in the home directory, or in the working directory when no home
/// directory is known.
pub open spec fn default_source_dir_spec(home: Option<Seq<char>>, windows: bool) -> Seq<char> {
    match home {
        Some(h) => join_name(h, default_dir_name(), windows),
        None => default_dir_name(),
    }
}

/// The checkout directory of the default configuration, given the home
/// directory when one is known.
pub fn default_source_dir(home: Option<String>, windows: bool) -> (dir: String)
    ensures
        dir@ == default_source_dir_spec(
            match home {
                Some(h) => Some(h@),
                None => None,
            },
            windows,
        ),
{
    match home {
        Some(h) => join_path(h.as_str(), "deepseek-harness", windows),
        None => String::from_str("deepseek-harness"),
    }
}

/// A command of `program` with the given arguments.
fn command_config(program: &str, args: Vec<&str>) -> (c: CommandConfig)
    ensures
        c.program@ == program@,
        string_views(c.args@) == args@.map_values(|a: &str| a@),
{
    let mut out: Vec<String> = Vec::new();
    let n = args.len();
    for i in 0..n
        invariant
            n == args.len(),
            string_views(out@) == args@.map_values(|a: &str| a@).take(i as int),
    {
        let item = String::from_str(args[i]);
        assert(item@ == args@[i as int]@);
        let ghost before = string_views(out@);
        out.push(item);
        assert(string_views(out@) =~= before.push(item@));
        assert(string_views(out@) =~= args@.map_values(|a: &str| a@).take(i + 1));
    }
    assert(args@.map_values(|a: &str| a@).take(n as int) =~= args@.map_values(|a: &str| a@));
    CommandConfig { program: String::from_str(program), args: out }
}

/// Whether `c` is the default configuration for the home directory `home`
/// (on Windows when `windows`).
pub open spec fn is_default_config(c: AppConfig, home: Option<Seq<char>>, windows: bool) -> bool {
    &&& c.harness.source_dir@ == default_source_dir_spec(home, windows)
    &&& c.harness.repo_url@ == "https://github.com/deepseek-ai/deepseek-harness.git"@
    &&& c.harness.branch@ == "master"@
    &&& c.harness.port == 3080
    &&& c.harness.start_command.program@ == "pnpm"@
    &&& string_views(c.harness.start_command.args@) == seq!["dsh"@, "web"@, "--no-open"@]
    &&& c.harness.install_command.program@ == "pnpm"@
    &&& string_views(c.harness.install_command.args@) == seq!["install"@, "--frozen-lockfile"@]
    &&& c.harness.build_command.program@ == "pnpm"@
    &&& string_views(c.harness.build_command.args@) == seq!["run"@, "build"@]
    &&& string_views(c.harness.artifact_paths@) == seq!["apps/cli/lib/bin.js"@]
    &&& string_views(c.harness.clean_paths@) == seq!["dist"@]
    &&& c.lm_studio.api_url@ == "http://127.0.0.1:1234/v1/models"@
    &&& c.update.remote_name@ == "origin"@
    &&& !c.update.allow_prerelease
}

impl AppConfig {
    /// The default configuration, for the home directory `home` when one
    /// is known (on Windows when `windows`).
    pub fn default_for_home(home: Option<String>, windows: bool) -> (c: AppConfig)
        ensures
            is_default_config(
                c,
                match home {
                    Some(h) => Some(h@),
                    None => None,
                },
                windows,
            ),
    {
        let source_dir = default_source_dir(home, windows);
        let start = command_config("pnpm", vec!["dsh", "web", "--no-open"]);
        let install = command_config("pnpm", vec!["install", "--frozen-lockfile"]);
        let build = command_config("pnpm", vec!["run", "build"]);
        let mut artifact_paths: Vec<String> = Vec::new();
        artifact_paths.push(String::from_str("apps/cli/lib/bin.js"));
        let mut clean_paths: Vec<String> = Vec::new();
        clean_paths.push(String::from_str("dist"));
        assert(string_views(artifact_paths@) =~= seq!["apps/cli/lib/bin.js"@]);
        assert(string_views(clean_paths@) =~= seq!["dist"@]);
        assert(string_views(start.args@) =~= seq!["dsh"@, "web"@, "--no-open"@]);
        assert(string_views(install.args@) =~= seq!["install"@, "--frozen-lockfile"@]);
        assert(string_views(build.args@) =~= seq!["run"@, "build"@]);
        AppConfig {
            harness: HarnessConfig {
                source_dir,
                repo_url: String::from_str("https://github.com/deepseek-ai/deepseek-harness.git"),
                branch: String::from_str("master"),
                port: 3080,
                start_command: start,
                install_command: install,
                build_command: build,
                artifact_paths,
                clean_paths,
            },
            lm_studio: LmStudioConfig {
                api_url: String::from_str("http://127.0.0.1:1234/v1/models"),
            },
            update: UpdateConfig { remote_name: String::from_str("origin"), allow_prerelease: false },
        }
    }
}

/// Whether the text of a saved runtime record stands for no record: it is
/// blank, or the JSON `null`.
pub open spec fn blank_record_text(value: Seq<char>) -> bool {
    crate::text::trim(value).len() == 0 || crate::text::trim(value) == "null"@
}

/// Whether the text of a saved runtime record stands for no record.
pub fn is_blank_record(value: &str) -> (b: bool)
    ensures
        b == blank_record_text(value@),
{
    let t = crate::text::trimmed(&chars_of(value));
    if t.len() == 0 {
        return true;
    }
    let null = chars_of("null");
    if t.len() != null.len() {
        return false;
    }
    let b = crate::text::has_prefix(&t, &null);
    proof {
        assert(t@.subrange(0, null@.len() as int) =~= t@);
    }
    b
}

} // verus!
