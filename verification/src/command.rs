//! Commands that the application runs, and what it makes of their results:
//! which command a configuration stands for, which file names a program may
//! have, how the search path is built up, and how a failed command is
//! reported.
use vstd::prelude::*;
use crate::models::{CommandConfig, string_views};
use crate::path::{components_equal, path_components, path_components_of};
use crate::text::{
    chars_of, decimal, push_decimal, split_char, split_on, trim, trimmed, views};
use crate::validation::{command_error, redact, redacted, validate_command};

verus! {

/// A program and its arguments, ready to run.
#[derive(Debug, Clone, PartialEq)]
pub struct CommandSpec {
    pub program: String,
    pub args: Vec<String>,
}

/// What a finished command left behind: whether it succeeded, its exit
/// code when it has one, and its output.
#[derive(Debug, Clone, PartialEq)]
pub struct CommandOutput {
    pub success: bool,
    pub code: Option<i32>,
    pub stdout: String,
    pub stderr: String,
}

/// A copy of the strings `v`.
pub fn copy_strings(v: &Vec<String>) -> (r: Vec<String>)
    ensures
        string_views(r@) == string_views(v@),
{
    let mut r: Vec<String> = Vec::new();
    let n = v.len();
    for i in 0..n
        invariant
            n == v.len(),
            string_views(r@) == string_views(v@).take(i as int),
    {
        let item = String::from_str(v[i].as_str());
        let ghost before = string_views(r@);
        r.push(item);
        assert(string_views(r@) =~= before.push(v@[i as int]@));
        assert(string_views(v@).take(i + 1) =~= string_views(v@).take(i as int).push(
            v@[i as int]@,
        ));
    }
    assert(string_views(v@).take(n as int) =~= string_views(v@));
    r
}

/// The strings of `v`, each copied.
pub fn strings_of(v: &Vec<&str>) -> (r: Vec<String>)
    ensures
        string_views(r@) == v@.map_values(|a: &str| a@),
{
    let mut r: Vec<String> = Vec::new();
    let n = v.len();
    for i in 0..n
        invariant
            n == v.len(),
            string_views(r@) == v@.map_values(|a: &str| a@).take(i as int),
    {
        let item = String::from_str(v[i]);
        let ghost before = string_views(r@);
        r.push(item);
        assert(string_views(r@) =~= before.push(v@[i as int]@));
        assert(v@.map_values(|a: &str| a@).take(i + 1) =~= v@.map_values(|a: &str| a@).take(
            i as int,
        ).push(v@[i as int]@));
    }
    assert(v@.map_values(|a: &str| a@).take(n as int) =~= v@.map_values(|a: &str| a@));
    r
}

/// The command that a configured command stands for, once it passes
/// validation: the program without surrounding whitespace, and the
/// arguments as they are.
pub fn command_from(config: &CommandConfig) -> (r: Result<CommandSpec, String>)
    ensures
        match command_error(config.program@, string_views(config.args@)) {
            Some(e) => r matches Err(x) && x@ == e,
            None => r matches Ok(spec) && spec.program@ == trim(config.program@) && string_views(
                spec.args@,
            ) == string_views(config.args@),
        },
{
    match validate_command(config) {
        Err(e) => Err(e),
        Ok(()) => {
            let program = string_of_chars(&trimmed(&chars_of(config.program.as_str())));
            Ok(CommandSpec { program, args: copy_strings(&config.args) })
        },
    }
}

fn string_of_chars(v: &Vec<char>) -> (s: String)
    ensures
        s@ == v@,
{
    crate::text::string_of(v)
}

/// A `git` command with the given arguments.
pub fn git_spec(args: Vec<&str>) -> (spec: CommandSpec)
    ensures
        spec.program@ == "git"@,
        string_views(spec.args@) == args@.map_values(|a: &str| a@),
{
    CommandSpec { program: String::from_str("git"), args: strings_of(&args) }
}

// ---------------------------------------------------------------------
// Program names on Windows
// ---------------------------------------------------------------------

/// `s` with backslashes read as slashes: Windows accepts both separators.
pub open spec fn with_slashes(s: Seq<char>) -> Seq<char> {
    s.map_values(|c: char| if c == '\\' { '/' } else { c })
}

/// `s` without a leading drive prefix such as `C:`.
pub open spec fn without_drive(s: Seq<char>) -> Seq<char> {
    if s.len() >= 2 && (('a' <= s[0] && s[0] <= 'z') || ('A' <= s[0] && s[0] <= 'Z')) && s[1]
        == ':' {
        s.subrange(2, s.len() as int)
    } else {
        s
    }
}

/// The last name among the segments `segs`: empty and `.` segments are
/// passed over, and a final `..` means there is none.
pub open spec fn last_name(segs: Seq<Seq<char>>) -> Option<Seq<char>>
    decreases segs.len(),
{
    if segs.len() == 0 {
        None
    } else {
        let g = segs.last();
        if g.len() == 0 || g == seq!['.'] {
            last_name(segs.drop_last())
        } else if g == seq!['.', '.'] {
            None
        } else {
            Some(g)
        }
    }
}

/// The file name of a Windows path.
pub open spec fn windows_file_name(s: Seq<char>) -> Option<Seq<char>> {
    last_name(split_char(with_slashes(without_drive(s)), '/'))
}

/// Whether the file name `name` has an extension: a `.` that is not its
/// first character.
pub open spec fn name_has_extension(name: Seq<char>) -> bool {
    exists|i: int| 0 < i < name.len() && name[i] == '.'
}

/// Whether a Windows path names a file with an extension.
pub open spec fn windows_has_extension(s: Seq<char>) -> bool {
    match windows_file_name(s) {
        Some(n) => name_has_extension(n),
        None => false,
    }
}

/// The file names under which `program` is looked for: the name itself,
/// and on Windows, when it has no extension, also its `.exe`, `.cmd` and
/// `.bat` wrappers.
pub open spec fn program_names_spec(program: Seq<char>, windows: bool) -> Seq<Seq<char>> {
    if windows && !windows_has_extension(program) {
        seq![program, program + ".exe"@, program + ".cmd"@, program + ".bat"@]
    } else {
        seq![program]
    }
}

fn last_name_exec(segs: &Vec<Vec<char>>) -> (r: Option<Vec<char>>)
    ensures
        match last_name(views(segs@)) {
            Some(n) => r matches Some(v) && v@ == n,
            None => r is None,
        },
{
    let mut k = segs.len();
    assert(views(segs@).take(k as int) =~= views(segs@));
    while k > 0
        invariant
            k <= segs.len(),
            last_name(views(segs@)) == last_name(views(segs@).take(k as int)),
        decreases k,
    {
        let g = &segs[k - 1];
        let ghost part = views(segs@).take(k as int);
        assert(part.last() == g@);
        assert(part.drop_last() =~= views(segs@).take(k - 1));
        if g.len() == 0 || (g.len() == 1 && g[0] == '.') {
            proof {
                if g@.len() == 1 {
                    assert(g@ =~= seq!['.']);
                }
            }
            k = k - 1;
        } else if g.len() == 2 && g[0] == '.' && g[1] == '.' {
            assert(g@ =~= seq!['.', '.']);
            return None;
        } else {
            proof {
                if g@ == seq!['.'] {
                    assert(g@[0] == '.');
                }
                if g@ == seq!['.', '.'] {
                    assert(g@[0] == '.' && g@[1] == '.');
                }
            }
            let copy = crate::text::slice_vec(g, 0, g.len());
            assert(copy@ =~= g@);
            return Some(copy);
        }
    }
    None
}

fn windows_has_extension_exec(program: &Vec<char>) -> (b: bool)
    ensures
        b == windows_has_extension(program@),
{
    let n = program.len();
    let drive = n >= 2 && (('a' <= program[0] && program[0] <= 'z') || ('A' <= program[0]
        && program[0] <= 'Z')) && program[1] == ':';
    let start: usize = if drive {
        2
    } else {
        0
    };
    let mut s: Vec<char> = Vec::new();
    let mut i = start;
    let ghost rest = without_drive(program@);
    assert(rest =~= program@.subrange(start as int, n as int));
    while i < n
        invariant
            start <= i <= n == program.len(),
            rest == program@.subrange(start as int, n as int),
            s@ == with_slashes(rest.take(i - start)),
        decreases n - i,
    {
        let c = if program[i] == '\\' {
            '/'
        } else {
            program[i]
        };
        s.push(c);
        assert(with_slashes(rest.take(i + 1 - start)) =~= with_slashes(rest.take(i - start)).push(
            c,
        ));
        i = i + 1;
    }
    assert(rest.take(n - start) =~= rest);
    let segs = split_on(&s, '/');
    match last_name_exec(&segs) {
        None => false,
        Some(name) => {
            assert(windows_file_name(program@) == Some(name@));
            let m = name.len();
            let mut j: usize = 1;
            while j < m
                invariant
                    m == name.len(),
                    1 <= j,
                    windows_file_name(program@) == Some(name@),
                    forall|k: int| 0 < k < j && k < m ==> name@[k] != '.',
                decreases m - j,
            {
                if name[j] == '.' {
                    return true;
                }
                j = j + 1;
            }
            false
        },
    }
}

/// The file names under which `program` is looked for; `windows` says
/// whether the system is Windows.
pub fn program_names(program: &str, windows: bool) -> (names: Vec<String>)
    ensures
        string_views(names@) == program_names_spec(program@, windows),
{
    let mut names: Vec<String> = Vec::new();
    names.push(String::from_str(program));
    if windows && !windows_has_extension_exec(&chars_of(program)) {
        names.push(crate::text::concat2(program, ".exe"));
        names.push(crate::text::concat2(program, ".cmd"));
        names.push(crate::text::concat2(program, ".bat"));
    }
    assert(string_views(names@) =~= program_names_spec(program@, windows));
    names
}

// ---------------------------------------------------------------------
// The search path
// ---------------------------------------------------------------------

/// Whether some path of `paths` is the same path as `p` (compared as
/// Windows paths when `windows`).
pub open spec fn has_same_path(paths: Seq<Seq<char>>, p: Seq<char>, windows: bool) -> bool {
    exists|i: int| 0 <= i < paths.len() && path_components(#[trigger] paths[i], windows) == path_components(p, windows)
}

/// Adds `path` to the search path `paths` when it is a directory
/// (`is_dir`) and no entry of `paths` is already the same path.
pub fn add_runtime_path(paths: &mut Vec<String>, path: String, is_dir: bool, windows: bool)
    ensures
        string_views(final(paths)@) == if is_dir && !has_same_path(string_views(old(paths)@), path@, windows) {
            string_views(old(paths)@).push(path@)
        } else {
            string_views(old(paths)@)
        },
{
    if !is_dir {
        return;
    }
    let cp = path_components_of(&chars_of(path.as_str()), windows);
    let n = paths.len();
    for i in 0..n
        invariant
            n == paths.len(),
            crate::path::models(cp@) == path_components(path@, windows),
            forall|j: int| 0 <= j < i ==> path_components(#[trigger] paths@[j]@, windows) != path_components(path@, windows),
    {
        let ce = path_components_of(&chars_of(paths[i].as_str()), windows);
        if components_equal(&ce, &cp) {
            assert(string_views(paths@)[i as int] == paths@[i as int]@);
            return;
        }
    }
    proof {
        let v = string_views(paths@);
        assert forall|i: int| 0 <= i < v.len() implies path_components(#[trigger] v[i], windows)
            != path_components(path@, windows) by {
            assert(v[i] == paths@[i]@);
        }
    }
    let ghost before = string_views(paths@);
    paths.push(path);
    assert(string_views(paths@) =~= before.push(path@));
}

/// The candidates `c` as character sequences, each with whether it is a
/// directory.
pub open spec fn candidate_views(c: Seq<(String, bool)>) -> Seq<(Seq<char>, bool)> {
    c.map_values(|e: (String, bool)| (e.0@, e.1))
}

/// The search path made of the candidates `c`, each with whether it is a
/// directory: in order, each directory that is not the same path as one
/// taken before it.
pub open spec fn kept_paths(c: Seq<(Seq<char>, bool)>, windows: bool) -> Seq<Seq<char>>
    decreases c.len(),
{
    if c.len() == 0 {
        Seq::empty()
    } else {
        let k = kept_paths(c.drop_last(), windows);
        if c.last().1 && !has_same_path(k, c.last().0, windows) {
            k.push(c.last().0)
        } else {
            k
        }
    }
}

/// The search path made of `candidates`, each with whether it is a
/// directory.
pub fn search_path_entries(candidates: Vec<(String, bool)>, windows: bool) -> (r: Vec<String>)
    ensures
        string_views(r@) == kept_paths(candidate_views(candidates@), windows),
{
    let mut r: Vec<String> = Vec::new();
    let n = candidates.len();
    let ghost all = candidate_views(candidates@);
    for i in 0..n
        invariant
            n == candidates.len(),
            all == candidate_views(candidates@),
            string_views(r@) == kept_paths(all.take(i as int), windows),
    {
        assert(all.take(i + 1).drop_last() =~= all.take(i as int));
        assert(all.take(i + 1).last() == all[i as int]);
        let p = candidates[i].0.clone();
        add_runtime_path(&mut r, p, candidates[i].1, windows);
    }
    assert(all.take(n as int) =~= all);
    r
}

// ---------------------------------------------------------------------
// Reporting a failed command
// ---------------------------------------------------------------------

/// An integer as `{:?}` writes it.
pub open spec fn int_text(n: int) -> Seq<char> {
    if n < 0 {
        seq!['-'] + decimal((-n) as nat)
    } else {
        decimal(n as nat)
    }
}

/// An optional exit code as `{:?}` writes it.
pub open spec fn exit_code_text(code: Option<i32>) -> Seq<char> {
    match code {
        Some(n) => "Some("@ + int_text(n as int) + ")"@,
        None => "None"@,
    }
}

/// Appends an optional exit code as `{:?}` writes it.
pub fn push_exit_code(out: &mut String, code: Option<i32>)
    ensures
        final(out)@ == old(out)@ + exit_code_text(code),
{
    match code {
        Some(n) => {
            out.append("Some(");
            if n < 0 {
                out.push('-');
                let m: u64 = (-(n as i64)) as u64;
                push_decimal(out, m);
            } else {
                push_decimal(out, n as u64);
            }
            out.append(")");
        },
        None => out.append("None"),
    }
}

/// The message of a failed command, before redaction.
pub open spec fn failure_detail(label: Seq<char>, output: CommandOutput) -> Seq<char> {
    label + " 失败（退出码 "@ + exit_code_text(output.code) + "）\n"@ + output.stdout@
        + output.stderr@
}

/// The output of a command that must have succeeded: its standard output,
/// or, when it failed, a redacted report of the failure.
pub fn ensure_success(result: CommandOutput, label: &str) -> (r: Result<String, String>)
    ensures
        result.success ==> (r matches Ok(out) && out@ == result.stdout@),
        !result.success ==> (r matches Err(e) && e@ == redacted(failure_detail(label@, result))),
{
    if result.success {
        return Ok(result.stdout);
    }
    let mut detail = String::from_str(label);
    detail.append(" 失败（退出码 ");
    push_exit_code(&mut detail, result.code);
    detail.append("）\n");
    detail.append(result.stdout.as_str());
    detail.append(result.stderr.as_str());
    assert(detail@ =~= failure_detail(label@, result));
    Err(redact(detail.as_str()))
}

/// The line logged before a command runs: its label, program and
/// arguments joined by spaces.
pub open spec fn command_log_line(label: Seq<char>, spec: CommandSpec) -> Seq<char> {
    "执行 "@ + label + ": "@ + spec.program@ + " "@ + joined(string_views(spec.args@), " "@)
}

/// The strings `parts` joined by `sep`, as `join` puts them together.
pub open spec fn joined(parts: Seq<Seq<char>>, sep: Seq<char>) -> Seq<char>
    decreases parts.len(),
{
    if parts.len() == 0 {
        Seq::empty()
    } else if parts.len() == 1 {
        parts[0]
    } else {
        joined(parts.drop_last(), sep) + sep + parts.last()
    }
}

/// The strings `parts` joined by `sep`.
pub fn join_strings(parts: &Vec<String>, sep: &str) -> (r: String)
    ensures
        r@ == joined(string_views(parts@), sep@),
{
    let mut r = String::new();
    let n = parts.len();
    let ghost all = string_views(parts@);
    for i in 0..n
        invariant
            n == parts.len(),
            all == string_views(parts@),
            r@ == joined(all.take(i as int), sep@),
    {
        assert(all.take(i + 1).drop_last() =~= all.take(i as int));
        assert(all.take(i + 1).last() == parts@[i as int]@);
        if i > 0 {
            r.append(sep);
        } else {
            assert(all.take(1)[0] == parts@[0]@);
        }
        r.append(parts[i].as_str());
        assert(r@ =~= joined(all.take(i + 1), sep@));
    }
    assert(all.take(n as int) =~= all);
    r
}

/// The line logged before a command runs.
pub fn command_log_text(label: &str, spec: &CommandSpec) -> (r: String)
    ensures
        r@ == command_log_line(label@, *spec),
{
    let mut r = String::from_str("执行 ");
    r.append(label);
    r.append(": ");
    r.append(spec.program.as_str());
    r.append(" ");
    let args = join_strings(&spec.args, " ");
    r.append(args.as_str());
    r
}

} // verus!
