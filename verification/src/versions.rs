//! Tool versions: reading `major.minor.patch` from a tool's output, the
//! versions of Node.js and pnpm that the Harness needs, the order of NVM
//! installation directories, and the status reported for each tool.
use vstd::prelude::*;
use crate::command::{CommandOutput, exit_code_text, push_exit_code, strings_of};
use crate::models::{AppConfig, DependencyStatus, string_views};
use crate::path::{file_name_of, parent_components, path_components, path_components_of, PathComponent, models};
use crate::text::{
    chars_of, decimal, is_digit, is_ws, lemma_decimal, lemma_split_char_append, lemma_split_char_len,
    lemma_trim_plain, parse_number, parse_unsigned, slice_vec, split_char,
    split_on, str_equals, string_of, trim, trimmed, views};

verus! {

/// The ASCII digits at the start of `s`.
pub open spec fn leading_digits(s: Seq<char>) -> Seq<char>
    decreases s.len(),
{
    if s.len() > 0 && is_digit(s[0]) {
        seq![s[0]] + leading_digits(s.drop_first())
    } else {
        Seq::empty()
    }
}

/// The number that a version part starts with, if any.
pub open spec fn version_part(s: Seq<char>) -> Option<nat> {
    parse_unsigned(leading_digits(s), u32::MAX as nat)
}

/// The text of a version: trimmed, without a leading `v`.
pub open spec fn version_text(value: Seq<char>) -> Seq<char> {
    let t = trim(value);
    if t.len() > 0 && t[0] == 'v' {
        t.drop_first()
    } else {
        t
    }
}

/// The `(major, minor, patch)` version that `value` states: the `.`-separated
/// parts each begin with digits; the patch part may be missing (then it is
/// 0), and parts after it do not count.
pub open spec fn parsed_version_spec(value: Seq<char>) -> Option<(u32, u32, u32)> {
    let p = split_char(version_text(value), '.');
    let major = version_part(p[0]);
    let minor = if p.len() > 1 {
        version_part(p[1])
    } else {
        None
    };
    let patch = if p.len() > 2 {
        version_part(p[2])
    } else {
        Some(0nat)
    };
    match (major, minor, patch) {
        (Some(a), Some(b), Some(c)) => Some((a as u32, b as u32, c as u32)),
        _ => None,
    }
}

/// A run of digits is its own leading digits.
proof fn lemma_leading_digits_all(s: Seq<char>)
    requires
        forall|i: int| 0 <= i < s.len() ==> is_digit(#[trigger] s[i]),
    ensures
        leading_digits(s) == s,
    decreases s.len(),
{
    if s.len() > 0 {
        assert forall|i: int| 0 <= i < s.drop_first().len() implies is_digit(#[trigger] s.drop_first()[i]) by {
            assert(s.drop_first()[i] == s[i + 1]);
        }
        lemma_leading_digits_all(s.drop_first());
        assert(seq![s[0]] + s.drop_first() =~= s);
    }
}

/// The printed form of `n` reads back as `n`.
proof fn lemma_version_part_decimal(n: u32)
    ensures
        version_part(decimal(n as nat)) == Some(n as nat),
        !decimal(n as nat).contains('.'),
        !decimal(n as nat).contains('v'),
{
    let d = decimal(n as nat);
    lemma_decimal(n as nat);
    lemma_leading_digits_all(d);
    assert(d[0] != '+') by {
        assert(is_digit(d[0]));
    }
    assert(!d.contains('.')) by {
        if d.contains('.') {
            let i = choose|i: int| 0 <= i < d.len() && d[i] == '.';
            assert(is_digit(d[i]));
        }
    }
    assert(!d.contains('v')) by {
        if d.contains('v') {
            let i = choose|i: int| 0 <= i < d.len() && d[i] == 'v';
            assert(is_digit(d[i]));
        }
    }
}

/// A version printed as `a.b.c`, with or without a leading `v`, reads back
/// as `(a, b, c)`.
pub proof fn law_printed_version_reads_back(a: u32, b: u32, c: u32, with_v: bool)
    ensures
        parsed_version_spec(
            (if with_v { seq!['v'] } else { Seq::<char>::empty() }) + decimal(a as nat) + seq!['.']
                + decimal(b as nat) + seq!['.'] + decimal(c as nat),
        ) == Some((a, b, c)),
{
    let da = decimal(a as nat);
    let db = decimal(b as nat);
    let dc = decimal(c as nat);
    lemma_version_part_decimal(a);
    lemma_version_part_decimal(b);
    lemma_version_part_decimal(c);
    lemma_decimal(a as nat);
    lemma_decimal(c as nat);
    let body = da + seq!['.'] + db + seq!['.'] + dc;
    let pre = if with_v { seq!['v'] } else { Seq::<char>::empty() };
    let s = pre + da + seq!['.'] + db + seq!['.'] + dc;
    assert(s =~= pre + body);
    // The text is already trimmed.
    assert(body[0] == da[0]);
    assert(is_digit(body[0]));
    assert(body.last() == dc.last()) by {
        assert(body[body.len() - 1] == dc[dc.len() - 1]);
    }
    assert(is_digit(dc[dc.len() - 1]));
    assert(!is_ws(s[0]));
    assert(!is_ws(s.last())) by {
        assert(s.last() == body.last());
    }
    lemma_trim_plain(s);
    if with_v {
        assert(s.drop_first() =~= body);
    } else {
        assert(s =~= body);
        assert(s[0] != 'v');
    }
    assert(version_text(s) == body);
    // It splits into the three numbers.
    let e = Seq::<char>::empty();
    lemma_split_char_append(e, da, '.');
    assert(e + da =~= da);
    assert(split_char(e, '.') =~= seq![e]);
    let s1 = split_char(da, '.');
    assert(s1.len() == 1 && s1.last() =~= da);
    assert(s1 =~= seq![da]);
    let x1 = da + seq!['.'];
    assert(x1.drop_last() =~= da);
    assert(x1.last() == '.');
    let s2 = split_char(x1, '.');
    assert(s2 == s1.push(e));
    lemma_split_char_append(x1, db, '.');
    let s3 = split_char(x1 + db, '.');
    assert(s3.len() == 2 && s3.last() =~= db && s3.drop_last() =~= seq![da]);
    assert(s3 =~= seq![da, db]);
    let x2 = x1 + db + seq!['.'];
    assert(x2.drop_last() =~= x1 + db);
    assert(x2.last() == '.');
    let s4 = split_char(x2, '.');
    assert(s4 == s3.push(e));
    lemma_split_char_append(x2, dc, '.');
    assert(x2 + dc =~= body);
    let p = split_char(body, '.');
    assert(p.len() == 3 && p.last() =~= dc && p.drop_last() =~= seq![da, db]);
    assert(p =~= seq![da, db, dc]);
}

fn leading_digits_exec(s: &Vec<char>) -> (r: Vec<char>)
    ensures
        r@ == leading_digits(s@),
{
    let n = s.len();
    let mut k: usize = 0;
    assert(s@.subrange(0, n as int) =~= s@);
    assert(s@.take(0) =~= Seq::<char>::empty());
    while k < n && '0' <= s[k] && s[k] <= '9'
        invariant
            k <= n == s.len(),
            leading_digits(s@) == s@.take(k as int) + leading_digits(s@.subrange(k as int, n as int)),
        decreases n - k,
    {
        let ghost rest = s@.subrange(k as int, n as int);
        assert(rest.drop_first() =~= s@.subrange(k + 1, n as int));
        assert(s@.take(k + 1) =~= s@.take(k as int) + seq![rest[0]]);
        k = k + 1;
    }
    proof {
        if k == n {
            assert(s@.subrange(k as int, n as int).len() == 0);
        }
    }
    slice_vec(s, 0, k)
}

fn version_part_exec(s: &Vec<char>) -> (r: Option<u32>)
    ensures
        match version_part(s@) {
            Some(v) => r == Some(v as u32),
            None => r is None,
        },
{
    let d = leading_digits_exec(s);
    match parse_number(&d, 0xffff_ffff) {
        Some(v) => Some(v as u32),
        None => None,
    }
}

/// The `(major, minor, patch)` version that a tool printed, if it states one.
pub fn parsed_version(value: &str) -> (r: Option<(u32, u32, u32)>)
    ensures
        r == parsed_version_spec(value@),
{
    let t = trimmed(&chars_of(value));
    let v = if t.len() > 0 && t[0] == 'v' {
        slice_vec(&t, 1, t.len())
    } else {
        slice_vec(&t, 0, t.len())
    };
    assert(v@ =~= version_text(value@));
    let p = split_on(&v, '.');
    proof {
        lemma_split_char_len(v@, '.');
        assert(p@[0]@ == views(p@)[0]);
    }
    let major = match version_part_exec(&p[0]) {
        Some(a) => a,
        None => return None,
    };
    if p.len() < 2 {
        return None;
    }
    assert(p@[1]@ == views(p@)[1]);
    let minor = match version_part_exec(&p[1]) {
        Some(b) => b,
        None => return None,
    };
    let patch = if p.len() > 2 {
        assert(p@[2]@ == views(p@)[2]);
        match version_part_exec(&p[2]) {
            Some(c) => c,
            None => return None,
        }
    } else {
        0
    };
    Some((major, minor, patch))
}

/// Whether a Node.js version satisfies the Harness: 22.19 or later in the
/// 22 line, or 24 and later.
pub open spec fn node_supported(v: Option<(u32, u32, u32)>) -> bool {
    match v {
        Some((major, minor, _)) => (major == 22 && minor >= 19) || major >= 24,
        None => false,
    }
}

/// Whether a pnpm version satisfies the Harness: 11.7 or later.
pub open spec fn pnpm_supported(v: Option<(u32, u32, u32)>) -> bool {
    match v {
        Some((major, minor, _)) => major > 11 || (major == 11 && minor >= 7),
        None => false,
    }
}

/// Whether the Node.js version that `value` states satisfies the Harness.
pub fn node_version_supported(value: &str) -> (b: bool)
    ensures
        b == node_supported(parsed_version_spec(value@)),
{
    match parsed_version(value) {
        Some((major, minor, _patch)) => (major == 22 && minor >= 19) || major >= 24,
        None => false,
    }
}

/// Whether the pnpm version that `value` states satisfies the Harness.
pub fn pnpm_version_supported(value: &str) -> (b: bool)
    ensures
        b == pnpm_supported(parsed_version_spec(value@)),
{
    match parsed_version(value) {
        Some((major, minor, _patch)) => major > 11 || (major == 11 && minor >= 7),
        None => false,
    }
}

/// The text `a.b.c`, with a leading `v` when `with_v`.
pub open spec fn printed_version(a: u32, b: u32, c: u32, with_v: bool) -> Seq<char> {
    (if with_v { seq!['v'] } else { Seq::<char>::empty() }) + decimal(a as nat) + seq!['.'] + decimal(
        b as nat,
    ) + seq!['.'] + decimal(c as nat)
}

/// Node.js `a.b.c` (written with or without a leading `v`) satisfies the
/// Harness exactly when it is 24 or later, or 22.19 or later in the 22
/// line: no 23.x release does, nor anything before 22.19.
pub proof fn law_node_support_by_version(a: u32, b: u32, c: u32, with_v: bool)
    ensures
        node_supported(parsed_version_spec(printed_version(a, b, c, with_v))) <==> (a >= 24 || (a == 22
            && b >= 19)),
        a == 23 ==> !node_supported(parsed_version_spec(printed_version(a, b, c, with_v))),
{
    law_printed_version_reads_back(a, b, c, with_v);
    assert(parsed_version_spec(printed_version(a, b, c, with_v)) == Some((a, b, c)));
}

/// pnpm `a.b.c` (written with or without a leading `v`) satisfies the
/// Harness exactly when it is 11.7 or later.
pub proof fn law_pnpm_support_by_version(a: u32, b: u32, c: u32, with_v: bool)
    ensures
        pnpm_supported(parsed_version_spec(printed_version(a, b, c, with_v))) <==> (a > 11 || (a == 11
            && b >= 7)),
{
    law_printed_version_reads_back(a, b, c, with_v);
    assert(parsed_version_spec(printed_version(a, b, c, with_v)) == Some((a, b, c)));
}

/// Whatever the text, a Node.js version is accepted only when the text
/// states a version `(a, b, c)` with `a >= 24`, or `a == 22` and `b >= 19`;
/// a pnpm version only when it states one with `a > 11`, or `a == 11` and
/// `b >= 7`. Text that states no version is refused for both.
pub proof fn law_supported_versions(value: Seq<char>)
    ensures
        node_supported(parsed_version_spec(value)) <==> (parsed_version_spec(value) matches Some(
            (a, b, _),
        ) && (a >= 24 || (a == 22 && b >= 19))),
        pnpm_supported(parsed_version_spec(value)) <==> (parsed_version_spec(value) matches Some(
            (a, b, _),
        ) && (a > 11 || (a == 11 && b >= 7))),
{
}

/// Why the version `version` of the tool `name` does not do, if it does not.
pub open spec fn dependency_version_error_spec(name: Seq<char>, version: Seq<char>) -> Option<
    Seq<char>,
> {
    if name == "node"@ && !node_supported(parsed_version_spec(version)) {
        Some("检测到 Node.js "@ + version + "；当前 Harness 需要 Node.js 22.19+ 或 24+"@)
    } else if name == "pnpm"@ && !pnpm_supported(parsed_version_spec(version)) {
        Some("检测到 pnpm "@ + version + "；当前 Harness 需要 pnpm 11.7+"@)
    } else {
        None
    }
}

/// Why the version `version` of the tool `name` does not do, if it does not.
pub fn dependency_version_error(name: &str, version: &str) -> (r: Option<String>)
    ensures
        match dependency_version_error_spec(name@, version@) {
            Some(m) => r matches Some(s) && s@ == m,
            None => r is None,
        },
{
    if str_equals(name, "node") && !node_version_supported(version) {
        return Some(crate::text::concat3(
            "检测到 Node.js ",
            version,
            "；当前 Harness 需要 Node.js 22.19+ 或 24+",
        ));
    }
    if str_equals(name, "pnpm") && !pnpm_version_supported(version) {
        return Some(crate::text::concat3("检测到 pnpm ", version, "；当前 Harness 需要 pnpm 11.7+"));
    }
    None
}

// ---------------------------------------------------------------------
// The version of an NVM installation directory
// ---------------------------------------------------------------------

/// The version that an NVM `bin` directory belongs to (a Windows path when
/// `windows`): the name of its parent directory without the leading `v`,
/// or nothing.
pub open spec fn nvm_version_text(path: Seq<char>, windows: bool) -> Seq<char> {
    let name = match parent_components(path_components(path, windows)) {
        Some(pc) => match file_name_of(pc) {
            Some(n) => n,
            None => Seq::empty(),
        },
        None => Seq::empty(),
    };
    if name.len() > 0 && name[0] == 'v' {
        name.drop_first()
    } else {
        Seq::empty()
    }
}

/// The number in part `i` of `parts`, or 0 when it is missing or is no
/// number.
pub open spec fn key_part(parts: Seq<Seq<char>>, i: int) -> u32 {
    if i < parts.len() {
        match parse_unsigned(parts[i], u32::MAX as nat) {
            Some(v) => v as u32,
            None => 0,
        }
    } else {
        0
    }
}

/// The sort key of an NVM `bin` directory: its `(major, minor, patch)`,
/// each part 0 when it cannot be read.
pub open spec fn node_version_key_spec(path: Seq<char>, windows: bool) -> (u32, u32, u32) {
    let parts = split_char(nvm_version_text(path, windows), '.');
    (key_part(parts, 0), key_part(parts, 1), key_part(parts, 2))
}

fn key_part_exec(parts: &Vec<Vec<char>>, i: usize) -> (r: u32)
    ensures
        r == key_part(views(parts@), i as int),
{
    if i < parts.len() {
        assert(views(parts@)[i as int] == parts@[i as int]@);
        match parse_number(&parts[i], 0xffff_ffff) {
            Some(v) => v as u32,
            None => 0,
        }
    } else {
        0
    }
}

/// The sort key of an NVM `bin` directory.
pub fn node_version_key(path: &str, windows: bool) -> (k: (u32, u32, u32))
    ensures
        k == node_version_key_spec(path@, windows),
{
    let c = path_components_of(&chars_of(path), windows);
    let n = c.len();
    let mut name: Vec<char> = Vec::new();
    proof {
        if n > 0 {
            assert(models(c@).last() == c@[n - 1].model());
        }
        if n > 1 {
            assert(models(c@).drop_last().last() == c@[n - 2].model());
        }
    }
    if n >= 2 {
        let has_parent = match &c[n - 1] {
            PathComponent::RootDir => false,
            PathComponent::Prefix(_) => false,
            _ => true,
        };
        if has_parent {
            match &c[n - 2] {
                PathComponent::Normal(v) => {
                    name = slice_vec(v, 0, v.len());
                },
                _ => {},
            }
        }
    } else if n == 1 {
        let ghost pc = models(c@).drop_last();
        assert(pc.len() == 0);
    }
    assert(name@ =~= match parent_components(path_components(path@, windows)) {
        Some(pc) => match file_name_of(pc) {
            Some(m) => m,
            None => Seq::empty(),
        },
        None => Seq::empty(),
    });
    let version = if name.len() > 0 && name[0] == 'v' {
        slice_vec(&name, 1, name.len())
    } else {
        Vec::new()
    };
    assert(version@ =~= nvm_version_text(path@, windows));
    let parts = split_on(&version, '.');
    (key_part_exec(&parts, 0), key_part_exec(&parts, 1), key_part_exec(&parts, 2))
}

// ---------------------------------------------------------------------
// Dependency status
// ---------------------------------------------------------------------

/// A tool that the Harness needs, and how it is checked.
#[derive(Debug, Clone, PartialEq)]
pub struct DependencyCheck {
    pub name: String,
    pub program: String,
    pub args: Vec<String>,
    pub suggestion: String,
}

/// Whether `c` checks the tool `name` by running `program --version`, and
/// suggests `suggestion` when it is missing.
pub open spec fn is_check(c: DependencyCheck, name: Seq<char>, program: Seq<char>, suggestion: Seq<char>) -> bool {
    &&& c.name@ == name
    &&& c.program@ == program
    &&& string_views(c.args@) == seq!["--version"@]
    &&& c.suggestion@ == suggestion
}

fn dependency_check(name: &str, program: &str, suggestion: &str) -> (c: DependencyCheck)
    ensures
        is_check(c, name@, program@, suggestion@),
{
    let args = strings_of(&vec!["--version"]);
    assert(string_views(args@) =~= seq!["--version"@]);
    DependencyCheck {
        name: String::from_str(name),
        program: String::from_str(program),
        args,
        suggestion: String::from_str(suggestion),
    }
}

/// The tools that the Harness needs, in the order they are checked: Git,
/// Node.js, and pnpm (run as the configured install program).
pub fn dependency_checks(config: &AppConfig) -> (checks: Vec<DependencyCheck>)
    ensures
        checks.len() == 3,
        is_check(checks[0], "git"@, "git"@, "安装 Git 并确保它位于 PATH 中"@),
        is_check(checks[1], "node"@, "node"@, "安装 Node.js 22.19+ 或 24+"@),
        is_check(
            checks[2],
            "pnpm"@,
            config.harness.install_command.program@,
            "安装 pnpm，并确认与 Harness README 要求的版本兼容"@,
        ),
{
    let mut checks = Vec::new();
    checks.push(dependency_check("git", "git", "安装 Git 并确保它位于 PATH 中"));
    checks.push(dependency_check("node", "node", "安装 Node.js 22.19+ 或 24+"));
    checks.push(
        dependency_check(
            "pnpm",
            config.harness.install_command.program.as_str(),
            "安装 pnpm，并确认与 Harness README 要求的版本兼容",
        ),
    );
    checks
}

/// What running a tool's version command gave: its output, or the text of
/// the error that kept it from running.
pub open spec fn dependency_status_spec(
    check: DependencyCheck,
    outcome: Result<CommandOutput, String>,
    s: DependencyStatus,
) -> bool {
    &&& s.name@ == check.name@
    &&& s.command@ == check.program@
    &&& match outcome {
        Ok(out) => if out.success {
            let version = trim(out.stdout@);
            let err = dependency_version_error_spec(check.name@, version);
            &&& s.available == (err is None)
            &&& s.version matches Some(v) && v@ == version
            &&& s.suggestion@ == match err {
                Some(m) => m,
                None => check.suggestion@,
            }
        } else {
            &&& !s.available
            &&& s.version is None
            &&& s.suggestion@ == check.suggestion@ + "（退出码 "@ + exit_code_text(out.code) + "）"@
        },
        Err(e) => {
            &&& !s.available
            &&& s.version is None
            &&& s.suggestion@ == check.suggestion@ + "。检测错误: "@ + e@
        },
    }
}

/// The status of a tool, given what running its version command gave.
pub fn dependency_status(check: &DependencyCheck, outcome: Result<CommandOutput, String>) -> (s: DependencyStatus)
    ensures
        dependency_status_spec(*check, outcome, s),
{
    let name = String::from_str(check.name.as_str());
    let command = String::from_str(check.program.as_str());
    match outcome {
        Ok(out) => {
            if out.success {
                let version = string_of(&trimmed(&chars_of(out.stdout.as_str())));
                let err = dependency_version_error(check.name.as_str(), version.as_str());
                let available = err.is_none();
                let suggestion = match err {
                    Some(m) => m,
                    None => String::from_str(check.suggestion.as_str()),
                };
                DependencyStatus { name, available, version: Some(version), command, suggestion }
            } else {
                let mut suggestion = String::from_str(check.suggestion.as_str());
                suggestion.append("（退出码 ");
                push_exit_code(&mut suggestion, out.code);
                suggestion.append("）");
                DependencyStatus { name, available: false, version: None, command, suggestion }
            }
        },
        Err(e) => {
            let suggestion = crate::text::concat3(check.suggestion.as_str(), "。检测错误: ", e.as_str());
            DependencyStatus { name, available: false, version: None, command, suggestion }
        },
    }
}

/// The first tool in `statuses` that is not available, if any.
pub fn first_unavailable(statuses: &Vec<DependencyStatus>) -> (r: Option<usize>)
    ensures
        match r {
            Some(i) => i < statuses.len() && !statuses[i as int].available && forall|j: int|
                0 <= j < i ==> statuses[j].available,
            None => forall|j: int| 0 <= j < statuses.len() ==> statuses[j].available,
        },
{
    let n = statuses.len();
    for i in 0..n
        invariant
            n == statuses.len(),
            forall|j: int| 0 <= j < i ==> statuses[j].available,
    {
        if !statuses[i].available {
            return Some(i);
        }
    }
    None
}


/// A tool is reported available only when its version command ran and
/// succeeded and the version it printed (trimmed) meets the requirement:
/// Node.js 22.19+ or 24+, pnpm 11.7+. A command that could not run or
/// failed leaves the tool unavailable, with no version.
pub proof fn law_available_only_when_usable(
    check: DependencyCheck,
    outcome: Result<CommandOutput, String>,
    s: DependencyStatus,
)
    requires
        dependency_status_spec(check, outcome, s),
    ensures
        s.available ==> (outcome matches Ok(out) && out.success),
        !(outcome matches Ok(out) && out.success) ==> (!s.available && s.version is None),
        s.available && check.name@ == "node"@ ==> (outcome matches Ok(out) && parsed_version_spec(
            trim(out.stdout@),
        ) matches Some((a, b, _)) && (a >= 24 || (a == 22 && b >= 19))),
        s.available && check.name@ == "pnpm"@ ==> (outcome matches Ok(out) && parsed_version_spec(
            trim(out.stdout@),
        ) matches Some((a, b, _)) && (a > 11 || (a == 11 && b >= 7))),
        outcome matches Ok(out) ==> (out.success ==> (s.version matches Some(v) && v@ == trim(
            out.stdout@,
        ))),
        check.name@ != "node"@ && check.name@ != "pnpm"@ ==> (s.available <==> (outcome matches Ok(out)
            && out.success)),
{
    match outcome {
        Ok(out) => {
            if out.success {
                law_supported_versions(trim(out.stdout@));
            }
        },
        Err(_) => {},
    }
}

} // verus!
