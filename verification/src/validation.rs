//! Validation of the configuration, and redaction of secrets in log text.
//!
//! Each check has a spec function that names the error it gives, or none;
//! the executable checks return exactly that error.
use vstd::prelude::*;
use crate::models::{
    AppConfig, CommandConfig, default_dir_name, default_source_dir_spec, is_default_config,
    string_views};
use crate::path::{
    Component, components, has_root, models, parent_components, path_components,
    path_components_of, path_is_absolute, path_is_absolute_exec, PathComponent,
    segment_components};
use crate::text::{
    any_ws_or_nul, chars_of, concat2, contains_seq, find, find_from, has_char, has_ws_or_nul,
    is_ws, lemma_find, lemma_split_char_append, lemma_split_char_len, lemma_trim_plain,
    lemma_trim_start_concat, lemma_trim_start_suffix, occurs_at, slice_vec, split_char,
    starts_with, str_starts_with, string_of, trim, trim_end, trim_start, trimmed};

verus! {

// ---------------------------------------------------------------------
// Error messages
// ---------------------------------------------------------------------

pub open spec fn source_dir_invalid_message() -> Seq<char> {
    "Harness 源码目录不能为空或包含非法字符"@
}

pub open spec fn source_dir_root_message() -> Seq<char> {
    "为了避免误操作，源码目录不能是文件系统根目录"@
}

pub open spec fn repo_url_message() -> Seq<char> {
    "Git URL 需要使用 HTTPS、SSH 或 git@host:path 格式"@
}

pub open spec fn lm_url_message() -> Seq<char> {
    "LM Studio API 地址必须是不含凭据的 HTTP(S) URL"@
}

pub open spec fn port_message() -> Seq<char> {
    "端口必须是 1 到 65535 之间的整数"@
}

pub open spec fn program_message() -> Seq<char> {
    "可执行文件不能为空或包含非法字符"@
}

pub open spec fn args_message() -> Seq<char> {
    "命令参数包含非法字符"@
}

pub open spec fn branch_message() -> Seq<char> {
    "分支名和远程仓库名不能为空"@
}

pub open spec fn relative_path_prefix() -> Seq<char> {
    "清理路径必须是源码目录内的相对路径: "@
}

/// Whether `r` is the outcome that the error `e` (or its absence) calls for.
pub open spec fn outcome_is(r: Result<(), String>, e: Option<Seq<char>>) -> bool {
    match e {
        Some(m) => r matches Err(x) && x@ == m,
        None => r is Ok,
    }
}

// ---------------------------------------------------------------------
// What each check rejects
// ---------------------------------------------------------------------

/// Whether the path `v` names the file-system root (on Windows when
/// `windows`): it has no parent, it equals `/`, or it is an absolute path of
/// at most one component.
pub open spec fn is_root_like(v: Seq<char>, windows: bool) -> bool {
    let c = path_components(v, windows);
    ||| parent_components(c) is None
    ||| c == seq![Component::RootDir]
    ||| (c.len() <= 1 && path_is_absolute(v, windows))
}

/// The error for a Harness source directory, if any.
pub open spec fn source_dir_error(value: Seq<char>, windows: bool) -> Option<Seq<char>> {
    let v = trim(value);
    if v.len() == 0 || v.contains('\0') {
        Some(source_dir_invalid_message())
    } else if is_root_like(v, windows) {
        Some(source_dir_root_message())
    } else {
        None
    }
}

/// The error for a Git repository URL, if any: it must start with one of
/// the accepted schemes and hold no whitespace or NUL.
pub open spec fn repo_url_error(value: Seq<char>) -> Option<Seq<char>> {
    let v = trim(value);
    let scheme = starts_with(v, "https://"@) || starts_with(v, "http://"@) || starts_with(
        v,
        "ssh://"@,
    ) || starts_with(v, "git@"@);
    if scheme && !has_ws_or_nul(v) {
        None
    } else {
        Some(repo_url_message())
    }
}

/// The error for an LM Studio URL, if any: HTTP(S), no credentials (`@`),
/// no whitespace or NUL.
pub open spec fn lm_url_error(value: Seq<char>) -> Option<Seq<char>> {
    let v = trim(value);
    if !(starts_with(v, "http://"@) || starts_with(v, "https://"@)) || v.contains('@')
        || has_ws_or_nul(v) {
        Some(lm_url_message())
    } else {
        None
    }
}

/// The error for a service port, if any.
pub open spec fn port_error(port: u16) -> Option<Seq<char>> {
    if port == 0 {
        Some(port_message())
    } else {
        None
    }
}

/// The error for a configured command, if any.
pub open spec fn command_error(program: Seq<char>, args: Seq<Seq<char>>) -> Option<Seq<char>> {
    if trim(program).len() == 0 || program.contains('\0') {
        Some(program_message())
    } else if exists|i: int| 0 <= i < args.len() && (#[trigger] args[i]).contains('\0') {
        Some(args_message())
    } else {
        None
    }
}

/// Whether the path `value` could leave the checkout (on Windows when
/// `windows`): it is blank, absolute, or has a prefix, root or
/// parent-directory component.
pub open spec fn escapes_checkout(value: Seq<char>, windows: bool) -> bool {
    let c = path_components(value, windows);
    ||| trim(value).len() == 0
    ||| path_is_absolute(value, windows)
    ||| exists|i: int|
        0 <= i < c.len() && (#[trigger] c[i] == Component::ParentDir || c[i]
            == Component::RootDir || c[i] is Prefix)
}

/// The error for a path that an update removes, if any.
pub open spec fn relative_path_error(value: Seq<char>, windows: bool) -> Option<Seq<char>> {
    if escapes_checkout(value, windows) {
        Some(relative_path_prefix() + value)
    } else {
        None
    }
}

/// The error of the first path in `paths` that has one.
pub open spec fn first_path_error(paths: Seq<Seq<char>>, windows: bool) -> Option<Seq<char>>
    decreases paths.len(),
{
    if paths.len() == 0 {
        None
    } else {
        match relative_path_error(paths[0], windows) {
            Some(e) => Some(e),
            None => first_path_error(paths.drop_first(), windows),
        }
    }
}

/// The first error of a whole configuration, in the order in which the
/// checks run.
pub open spec fn config_error(c: AppConfig, windows: bool) -> Option<Seq<char>> {
    let h = c.harness;
    if source_dir_error(h.source_dir@, windows) is Some {
        source_dir_error(h.source_dir@, windows)
    } else if repo_url_error(h.repo_url@) is Some {
        repo_url_error(h.repo_url@)
    } else if port_error(h.port) is Some {
        port_error(h.port)
    } else if command_error(h.start_command.program@, string_views(h.start_command.args@)) is Some {
        command_error(h.start_command.program@, string_views(h.start_command.args@))
    } else if command_error(h.install_command.program@, string_views(h.install_command.args@)) is Some {
        command_error(h.install_command.program@, string_views(h.install_command.args@))
    } else if command_error(h.build_command.program@, string_views(h.build_command.args@)) is Some {
        command_error(h.build_command.program@, string_views(h.build_command.args@))
    } else if trim(h.branch@).len() == 0 || trim(c.update.remote_name@).len() == 0 {
        Some(branch_message())
    } else if first_path_error(string_views(h.clean_paths@), windows) is Some {
        first_path_error(string_views(h.clean_paths@), windows)
    } else {
        lm_url_error(c.lm_studio.api_url@)
    }
}

// ---------------------------------------------------------------------
// The checks
// ---------------------------------------------------------------------

fn is_root_like_exec(v: &Vec<char>, windows: bool) -> (b: bool)
    ensures
        b == is_root_like(v@, windows),
{
    let c = path_components_of(v, windows);
    let n = c.len();
    let parent_none = n == 0 || match &c[n - 1] {
        PathComponent::RootDir => true,
        PathComponent::Prefix(_) => true,
        _ => false,
    };
    proof {
        if n > 0 {
            assert(models(c@).last() == c@[n - 1].model());
        }
    }
    let just_root = n == 1 && match &c[0] {
        PathComponent::RootDir => true,
        _ => false,
    };
    proof {
        if n == 1 {
            assert(models(c@) =~= seq![c@[0].model()]);
        }
        if path_components(v@, windows) == seq![Component::RootDir] {
            assert(models(c@)[0] == c@[0].model());
        }
    }
    let absolute = path_is_absolute_exec(v, windows);
    parent_none || just_root || (n <= 1 && absolute)
}

/// Checks the Harness source directory (on Windows when `windows`): it
/// must not be blank, hold NUL, or be the file-system root.
pub fn validate_source_dir(value: &str, windows: bool) -> (r: Result<(), String>)
    ensures
        outcome_is(r, source_dir_error(value@, windows)),
{
    let v = trimmed(&chars_of(value));
    if v.len() == 0 || has_char(&v, '\0') {
        return Err(String::from_str("Harness 源码目录不能为空或包含非法字符"));
    }
    if is_root_like_exec(&v, windows) {
        return Err(String::from_str("为了避免误操作，源码目录不能是文件系统根目录"));
    }
    Ok(())
}

/// Checks a Git repository URL: HTTPS, HTTP, SSH or `git@host:path`, with
/// no whitespace or NUL inside.
pub fn validate_repo_url(value: &str) -> (r: Result<(), String>)
    ensures
        outcome_is(r, repo_url_error(value@)),
{
    let v = trimmed(&chars_of(value));
    let accepted = (str_starts_with(&v, "https://") || str_starts_with(&v, "http://")
        || str_starts_with(&v, "ssh://") || str_starts_with(&v, "git@")) && !any_ws_or_nul(&v);
    if accepted {
        Ok(())
    } else {
        Err(String::from_str("Git URL 需要使用 HTTPS、SSH 或 git@host:path 格式"))
    }
}

/// Checks the LM Studio URL: HTTP(S), without credentials, whitespace or
/// NUL.
pub fn validate_lm_url(value: &str) -> (r: Result<(), String>)
    ensures
        outcome_is(r, lm_url_error(value@)),
{
    let v = trimmed(&chars_of(value));
    if !(str_starts_with(&v, "http://") || str_starts_with(&v, "https://")) || has_char(&v, '@')
        || any_ws_or_nul(&v) {
        return Err(String::from_str("LM Studio API 地址必须是不含凭据的 HTTP(S) URL"));
    }
    Ok(())
}

/// Checks the service port: any port but 0.
pub fn validate_port(port: u16) -> (r: Result<(), String>)
    ensures
        outcome_is(r, port_error(port)),
{
    if port == 0 {
        Err(String::from_str("端口必须是 1 到 65535 之间的整数"))
    } else {
        Ok(())
    }
}

/// Checks a configured command: the program must not be blank or hold NUL,
/// and no argument may hold NUL.
pub fn validate_command(command: &CommandConfig) -> (r: Result<(), String>)
    ensures
        outcome_is(r, command_error(command.program@, string_views(command.args@))),
{
    let program = chars_of(command.program.as_str());
    let t = trimmed(&program);
    if t.len() == 0 || has_char(&program, '\0') {
        return Err(String::from_str("可执行文件不能为空或包含非法字符"));
    }
    let n = command.args.len();
    for i in 0..n
        invariant
            n == command.args.len(),
            !(trim(command.program@).len() == 0 || command.program@.contains('\0')),
            forall|j: int| 0 <= j < i ==> !(#[trigger] command.args@[j])@.contains('\0'),
    {
        let a = chars_of(command.args[i].as_str());
        if has_char(&a, '\0') {
            assert(string_views(command.args@)[i as int].contains('\0'));
            return Err(String::from_str("命令参数包含非法字符"));
        }
    }
    proof {
        let args = string_views(command.args@);
        assert forall|i: int| 0 <= i < args.len() implies !(#[trigger] args[i]).contains('\0') by {
            assert(args[i] == command.args@[i]@);
        }
    }
    Ok(())
}

fn escapes_checkout_exec(value: &str, windows: bool) -> (b: bool)
    ensures
        b == escapes_checkout(value@, windows),
{
    let v = chars_of(value);
    let t = trimmed(&v);
    if t.len() == 0 || path_is_absolute_exec(&v, windows) {
        return true;
    }
    let c = path_components_of(&v, windows);
    let n = c.len();
    for i in 0..n
        invariant
            n == c.len(),
            models(c@) == path_components(value@, windows),
            forall|j: int|
                0 <= j < i ==> !(#[trigger] models(c@)[j] == Component::ParentDir || models(
                    c@,
                )[j] == Component::RootDir || models(c@)[j] is Prefix),
    {
        let bad = match &c[i] {
            PathComponent::ParentDir => true,
            PathComponent::RootDir => true,
            PathComponent::Prefix(_) => true,
            _ => false,
        };
        assert(models(c@)[i as int] == c@[i as int].model());
        if bad {
            return true;
        }
    }
    false
}

/// Checks a path that an update removes (on Windows when `windows`): it
/// must be a non-blank path inside the checkout.
pub fn validate_relative_path(value: &str, windows: bool) -> (r: Result<(), String>)
    ensures
        outcome_is(r, relative_path_error(value@, windows)),
{
    if escapes_checkout_exec(value, windows) {
        return Err(concat2("清理路径必须是源码目录内的相对路径: ", value));
    }
    Ok(())
}

fn validate_clean_paths(paths: &Vec<String>, windows: bool) -> (r: Result<(), String>)
    ensures
        outcome_is(r, first_path_error(string_views(paths@), windows)),
{
    let n = paths.len();
    let ghost all = string_views(paths@);
    assert(all.subrange(0, n as int) =~= all);
    for i in 0..n
        invariant
            n == paths.len(),
            all == string_views(paths@),
            first_path_error(all, windows) == first_path_error(all.subrange(i as int, n as int), windows),
    {
        assert(all.subrange(i as int, n as int)[0] == paths@[i as int]@);
        assert(all.subrange(i as int, n as int).drop_first() =~= all.subrange(i + 1, n as int));
        let r = validate_relative_path(paths[i].as_str(), windows);
        if r.is_err() {
            return r;
        }
    }
    assert(all.subrange(n as int, n as int).len() == 0);
    Ok(())
}

/// Checks a whole configuration (on Windows when `windows`), and gives the
/// first error found.
pub fn validate_config(config: &AppConfig, windows: bool) -> (r: Result<(), String>)
    ensures
        outcome_is(r, config_error(*config, windows)),
{
    let h = &config.harness;
    let r = validate_source_dir(h.source_dir.as_str(), windows);
    if r.is_err() {
        return r;
    }
    let r = validate_repo_url(h.repo_url.as_str());
    if r.is_err() {
        return r;
    }
    let r = validate_port(h.port);
    if r.is_err() {
        return r;
    }
    let r = validate_command(&h.start_command);
    if r.is_err() {
        return r;
    }
    let r = validate_command(&h.install_command);
    if r.is_err() {
        return r;
    }
    let r = validate_command(&h.build_command);
    if r.is_err() {
        return r;
    }
    let branch = trimmed(&chars_of(h.branch.as_str()));
    let remote = trimmed(&chars_of(config.update.remote_name.as_str()));
    if branch.len() == 0 || remote.len() == 0 {
        return Err(String::from_str("分支名和远程仓库名不能为空"));
    }
    let r = validate_clean_paths(&h.clean_paths, windows);
    if r.is_err() {
        return r;
    }
    validate_lm_url(config.lm_studio.api_url.as_str())
}

// ---------------------------------------------------------------------
// Redaction
// ---------------------------------------------------------------------

/// What a redacted value is replaced with.
pub open spec fn redaction_marker() -> Seq<char> {
    " [REDACTED]"@
}

/// The field names whose values are redacted, in the order they are
/// handled.
pub open spec fn redaction_keys() -> Seq<Seq<char>> {
    seq!["Authorization"@, "authorization"@, "api_key"@, "apiKey"@, "token"@, "password"@, "secret"@]
}

/// `t` with the values of the field `key` redacted, scanning from the
/// left: at each occurrence of `key`, the text between the first `:` after
/// it and the next `,` (or the end) becomes the marker, and the scan goes on
/// after that `,`. An occurrence with no `:` after it ends the scan.
pub open spec fn redact_key(t: Seq<char>, key: Seq<char>) -> Seq<char>
    decreases t.len(),
{
    match find(t, key) {
        None => t,
        Some(off) => if off > t.len() {
            t
        } else {
            match find(t.subrange(off as int, t.len() as int), seq![':']) {
                None => t,
                Some(c) => {
                    let vs: int = off as int + c as int + 1;
                    if vs > t.len() {
                        t
                    } else {
                        let e: int = match find(t.subrange(vs, t.len() as int), seq![',']) {
                            Some(p) => vs + p,
                            None => t.len() as int,
                        };
                        let head = t.subrange(0, vs) + redaction_marker();
                        if e >= t.len() {
                            head
                        } else {
                            head + seq![','] + redact_key(t.subrange(e + 1, t.len() as int), key)
                        }
                    }
                }
            }
        },
    }
}

/// `t` with the values of each field of `keys` redacted in turn.
pub open spec fn redact_with(t: Seq<char>, keys: Seq<Seq<char>>) -> Seq<char>
    decreases keys.len(),
{
    if keys.len() == 0 {
        t
    } else {
        redact_with(redact_key(t, keys[0]), keys.drop_first())
    }
}

/// `t` with the values of all secret fields redacted.
pub open spec fn redacted(t: Seq<char>) -> Seq<char> {
    redact_with(t, redaction_keys())
}

fn redact_key_exec(t: &Vec<char>, key: &Vec<char>) -> (r: Vec<char>)
    ensures
        r@ == redact_key(t@, key@),
{
    let n = t.len();
    let colon = vec![':'];
    let comma = vec![','];
    let marker = chars_of(" [REDACTED]");
    assert(colon@ =~= seq![':']);
    assert(comma@ =~= seq![',']);
    let mut out: Vec<char> = Vec::new();
    let mut pos: usize = 0;
    assert(t@.subrange(0, n as int) =~= t@);
    loop
        invariant
            pos <= n == t.len(),
            colon@ == seq![':'],
            comma@ == seq![','],
            marker@ == redaction_marker(),
            out@ + redact_key(t@.subrange(pos as int, n as int), key@) == redact_key(t@, key@),
        decreases n - pos,
    {
        let ghost rest = t@.subrange(pos as int, n as int);
        match find_from(t, key, pos) {
            None => {
                let tail = slice_vec(t, pos, n);
                let ghost before = out@;
                let mut tail_mut = tail;
                out.append(&mut tail_mut);
                assert(out@ =~= before + rest);
                return out;
            },
            Some(abs) => {
                let ghost off = (abs - pos) as nat;
                assert(find(rest, key@) == Some(off));
                proof {
                    lemma_find(rest, key@);
                }
                assert(rest.subrange(off as int, rest.len() as int) =~= t@.subrange(
                    abs as int,
                    n as int,
                ));
                match find_from(t, &colon, abs) {
                    None => {
                        let tail = slice_vec(t, pos, n);
                        let ghost before = out@;
                        let mut tail_mut = tail;
                        out.append(&mut tail_mut);
                        assert(out@ =~= before + rest);
                        return out;
                    },
                    Some(ci) => {
                        proof {
                            lemma_find(t@.subrange(abs as int, n as int), colon@);
                        }
                        let vs = ci + 1;
                        let ghost vs_rel: int = vs - pos;
                        assert(rest.subrange(vs_rel, rest.len() as int) =~= t@.subrange(
                            vs as int,
                            n as int,
                        ));
                        proof {
                            lemma_find(t@.subrange(vs as int, n as int), comma@);
                        }
                        let e = match find_from(t, &comma, vs) {
                            Some(p) => p,
                            None => n,
                        };
                        let ghost before = out@;
                        let head = slice_vec(t, pos, vs);
                        let mut head_mut = head;
                        out.append(&mut head_mut);
                        let mut marker_copy = slice_vec(&marker, 0, marker.len());
                        assert(marker_copy@ =~= marker@);
                        out.append(&mut marker_copy);
                        assert(rest.subrange(0, vs_rel) =~= t@.subrange(pos as int, vs as int));
                        if e >= n {
                            assert(out@ =~= before + redact_key(rest, key@));
                            return out;
                        }
                        out.push(',');
                        assert(rest.subrange(e - pos + 1, rest.len() as int) =~= t@.subrange(
                            e + 1,
                            n as int,
                        ));
                        assert(out@ + redact_key(t@.subrange(e + 1, n as int), key@) =~= before
                            + redact_key(rest, key@));
                        pos = e + 1;
                    },
                }
            },
        }
    }
}

/// The secret fields whose values are redacted.
fn redaction_key_list() -> (v: Vec<&'static str>)
    ensures
        v@.map_values(|k: &str| k@) == redaction_keys(),
{
    let v = vec!["Authorization", "authorization", "api_key", "apiKey", "token", "password", "secret"];
    assert(v@.map_values(|k: &str| k@) =~= redaction_keys());
    v
}

/// `value` with the values of common secret fields (`Authorization`,
/// `api_key`, `token`, `password`, `secret`, ...) replaced by
/// ` [REDACTED]`.
pub fn redact(value: &str) -> (r: String)
    ensures
        r@ == redacted(value@),
{
    let keys = redaction_key_list();
    let mut cur = chars_of(value);
    let k = keys.len();
    let ghost ks = keys@.map_values(|x: &str| x@);
    assert(ks.subrange(0, k as int) =~= ks);
    for i in 0..k
        invariant
            k == keys.len(),
            ks == keys@.map_values(|x: &str| x@),
            ks == redaction_keys(),
            redacted(value@) == redact_with(cur@, ks.subrange(i as int, k as int)),
    {
        let key = chars_of(keys[i]);
        assert(ks.subrange(i as int, k as int)[0] == key@);
        assert(ks.subrange(i as int, k as int).drop_first() =~= ks.subrange(i + 1, k as int));
        cur = redact_key_exec(&cur, &key);
    }
    assert(ks.subrange(k as int, k as int) =~= Seq::<Seq<char>>::empty());
    string_of(&cur)
}

// ---------------------------------------------------------------------
// Laws
// ---------------------------------------------------------------------

proof fn lemma_redact_with_unchanged(t: Seq<char>, keys: Seq<Seq<char>>)
    requires
        forall|i: int| 0 <= i < keys.len() ==> find(t, #[trigger] keys[i]) is None,
    ensures
        redact_with(t, keys) == t,
    decreases keys.len(),
{
    if keys.len() > 0 {
        assert(find(t, keys[0]) is None);
        assert forall|i: int| 0 <= i < keys.drop_first().len() implies find(
            t,
            #[trigger] keys.drop_first()[i],
        ) is None by {
            assert(keys.drop_first()[i] == keys[i + 1]);
        }
        lemma_redact_with_unchanged(t, keys.drop_first());
    }
}

/// Redaction changes nothing in a text that names none of the secret
/// fields.
pub proof fn law_redaction_keeps_text_without_secrets(t: Seq<char>)
    requires
        forall|i: int| 0 <= i < redaction_keys().len() ==> find(t, #[trigger] redaction_keys()[i]) is None,
    ensures
        redacted(t) == t,
{
    lemma_redact_with_unchanged(t, redaction_keys());
}

/// The secret field names hold no `:` or `,`, none stands inside another,
/// and none inside the marker, which holds no `,`.
proof fn lemma_keys_literal()
    ensures
        forall|i: int| 0 <= i < redaction_keys().len() ==> (#[trigger] redaction_keys()[i]).len() >= 4
            && !redaction_keys()[i].contains(':') && !redaction_keys()[i].contains(','),
        forall|i: int, j: int|
            0 <= i < redaction_keys().len() && 0 <= j < redaction_keys().len() && i != j ==> !contains_seq(
                #[trigger] redaction_keys()[i],
                #[trigger] redaction_keys()[j],
            ),
        forall|j: int| 0 <= j < redaction_keys().len() ==> !contains_seq(redaction_marker(), #[trigger] redaction_keys()[j]),
        !redaction_marker().contains(','),
{
    reveal_strlit("Authorization");
    reveal_strlit("authorization");
    reveal_strlit("api_key");
    reveal_strlit("apiKey");
    reveal_strlit("token");
    reveal_strlit("password");
    reveal_strlit("secret");
    reveal_strlit(" [REDACTED]");
    let ks = redaction_keys();
    assert forall|i: int, j: int| 0 <= i < ks.len() && 0 <= j < ks.len() && i != j implies !contains_seq(
        #[trigger] ks[i], #[trigger] ks[j]) by {
        let t = ks[i];
        let p = ks[j];
        assert forall|w: int| !occurs_at(t, p, w) by {
            if occurs_at(t, p, w) {
                let s = t.subrange(w, w + p.len());
                assert(s[0] == p[0]);
                assert(s[1] == p[1]);
                assert(s[2] == p[2]);
                assert(s[3] == p[3]);
            }
        }
    }
    assert forall|j: int| 0 <= j < ks.len() implies !contains_seq(redaction_marker(), #[trigger] ks[j]) by {
        let t = redaction_marker();
        let p = ks[j];
        assert forall|w: int| !occurs_at(t, p, w) by {
            if occurs_at(t, p, w) {
                let s = t.subrange(w, w + p.len());
                assert(s[0] == p[0]);
                assert(s[1] == p[1]);
            }
        }
    }
}


/// A window of `a + ":" + b` that holds no `:` lies inside `a` or inside `b`.
proof fn lemma_window_sides(a: Seq<char>, b: Seq<char>, p: Seq<char>, w: int)
    requires
        !p.contains(':'),
        occurs_at(a + ":"@ + b, p, w),
    ensures
        occurs_at(a, p, w) || occurs_at(b, p, w - a.len() - 1),
{
    reveal_strlit(":");
    let t = a + ":"@ + b;
    if w + p.len() <= a.len() {
        assert(t.subrange(w, w + p.len()) =~= a.subrange(w, w + p.len()));
    } else if w > a.len() {
        assert(t.subrange(w, w + p.len()) =~= b.subrange(w - a.len() - 1, w - a.len() - 1 + p.len()));
    } else {
        assert(t[a.len() as int] == ':');
        assert(t.subrange(w, w + p.len())[a.len() - w] == ':');
        assert(p[a.len() - w] == ':');
    }
}

/// No field name stands in `a + ":" + b` when none stands in `a` or `b`.
proof fn lemma_absent_across(a: Seq<char>, b: Seq<char>, p: Seq<char>)
    requires
        !p.contains(':'),
        !contains_seq(a, p),
        !contains_seq(b, p),
    ensures
        find(a + ":"@ + b, p) is None,
{
    lemma_find(a + ":"@ + b, p);
    if let Some(w) = find(a + ":"@ + b, p) {
        lemma_window_sides(a, b, p, w as int);
    }
}

/// Redacting another field `p` in `key:u` (no comma in it) leaves `key:`
/// in front and brings in no comma.
proof fn lemma_other_field(key: Seq<char>, u: Seq<char>, p: Seq<char>) -> (u2: Seq<char>)
    requires
        !key.contains(':'),
        !key.contains(','),
        !u.contains(','),
        !p.contains(':'),
        !contains_seq(key, p),
        !redaction_marker().contains(','),
    ensures
        redact_key(key + ":"@ + u, p) == key + ":"@ + u2,
        !u2.contains(','),
{
    reveal_strlit(":");
    let t = key + ":"@ + u;
    lemma_find(t, p);
    match find(t, p) {
        None => u,
        Some(off) => {
            lemma_window_sides(key, u, p, off as int);
            assert(off > key.len());
            let rest = t.subrange(off as int, t.len() as int);
            lemma_find(rest, seq![':']);
            match find(rest, seq![':']) {
                None => u,
                Some(c) => {
                    let vs: int = off as int + c as int + 1;
                    assert(occurs_at(rest, seq![':'], c as int));
                    assert(vs <= t.len());
                    let tail = t.subrange(vs, t.len() as int);
                    lemma_find(tail, seq![',']);
                    if let Some(q) = find(tail, seq![',']) {
                        assert(occurs_at(tail, seq![','], q as int));
                        assert(tail.subrange(q as int, q as int + 1)[0] == ',');
                        assert(t[vs + q] == ',');
                        if vs + q < key.len() {
                            assert(key[vs + q] == ',');
                        } else if vs + q > key.len() {
                            assert(u[vs + q - key.len() - 1] == ',');
                        }
                    }
                    let u2 = u.subrange(0, vs - key.len() - 1) + redaction_marker();
                    assert(t.subrange(0, vs) + redaction_marker() =~= key + ":"@ + u2);
                    assert forall|i: int| 0 <= i < u2.len() implies u2[i] != ',' by {
                        if i < vs - key.len() - 1 {
                            assert(u2[i] == u[i]);
                        } else {
                            assert(u2[i] == redaction_marker()[i - (vs - key.len() - 1)]);
                        }
                    }
                    u2
                },
            }
        },
    }
}


/// Redacting the field `key` itself in `key:u` (no comma in it) hides all
/// of `u`.
proof fn lemma_own_field(key: Seq<char>, u: Seq<char>)
    requires
        key.len() > 0,
        !key.contains(':'),
        !key.contains(','),
        !u.contains(','),
    ensures
        redact_key(key + ":"@ + u, key) == key + ":"@ + redaction_marker(),
{
    reveal_strlit(":");
    let t = key + ":"@ + u;
    assert(t.subrange(0, key.len() as int) =~= key);
    assert(starts_with(t, key));
    assert(find(t, key) == Some(0nat));
    assert(t.subrange(0, t.len() as int) =~= t);
    lemma_find(t, seq![':']);
    assert(occurs_at(t, seq![':'], key.len() as int)) by {
        assert(t.subrange(key.len() as int, key.len() as int + 1) =~= seq![':']);
    }
    let c = find(t, seq![':'])->0;
    if c < key.len() {
        assert(t.subrange(c as int, c as int + 1)[0] == ':');
        assert(key[c as int] == ':');
    }
    assert(c == key.len());
    let vs: int = key.len() as int + 1;
    let tail = t.subrange(vs, t.len() as int);
    assert(tail =~= u);
    lemma_find(u, seq![',']);
    if let Some(q) = find(u, seq![',']) {
        assert(u.subrange(q as int, q as int + 1)[0] == ',');
    }
    assert(t.subrange(0, vs) =~= key + ":"@);
}

/// Redacting the fields `ks`, none of which is `key` or stands in it, in
/// `key:u` (no comma in it) leaves `key:` in front and brings in no comma.
proof fn lemma_other_fields(key: Seq<char>, u: Seq<char>, ks: Seq<Seq<char>>) -> (u2: Seq<char>)
    requires
        !key.contains(':'),
        !key.contains(','),
        !u.contains(','),
        !redaction_marker().contains(','),
        forall|i: int| 0 <= i < ks.len() ==> !(#[trigger] ks[i]).contains(':') && !contains_seq(key, ks[i]),
    ensures
        redact_with(key + ":"@ + u, ks) == key + ":"@ + u2,
        !u2.contains(','),
    decreases ks.len(),
{
    if ks.len() == 0 {
        u
    } else {
        let u1 = lemma_other_field(key, u, ks[0]);
        assert forall|i: int| 0 <= i < ks.drop_first().len() implies !(#[trigger] ks.drop_first()[i]).contains(':')
            && !contains_seq(key, ks.drop_first()[i]) by {
            assert(ks.drop_first()[i] == ks[i + 1]);
        }
        lemma_other_fields(key, u1, ks.drop_first())
    }
}

/// Redacting with `a + b` redacts with `a`, then with `b`.
proof fn lemma_redact_with_append(t: Seq<char>, a: Seq<Seq<char>>, b: Seq<Seq<char>>)
    ensures
        redact_with(t, a + b) == redact_with(redact_with(t, a), b),
    decreases a.len(),
{
    if a.len() > 0 {
        assert((a + b).drop_first() =~= a.drop_first() + b);
        assert((a + b)[0] == a[0]);
        lemma_redact_with_append(redact_key(t, a[0]), a.drop_first(), b);
    } else {
        assert(a + b =~= b);
    }
}

/// The value of a secret field is hidden: for every secret field name
/// `key` and every value `v` without a comma, `key:v` is logged as
/// `key: [REDACTED]`.
pub proof fn law_secret_value_is_redacted(key: Seq<char>, v: Seq<char>)
    requires
        redaction_keys().contains(key),
        !v.contains(','),
    ensures
        redacted(key + ":"@ + v) == key + ":"@ + redaction_marker(),
{
    lemma_keys_literal();
    let ks = redaction_keys();
    let k = choose|k: int| 0 <= k < ks.len() && ks[k] == key;
    let before = ks.take(k);
    let after = ks.skip(k + 1);
    assert(ks =~= before + seq![key] + after);
    lemma_redact_with_append(key + ":"@ + v, before + seq![key], after);
    lemma_redact_with_append(key + ":"@ + v, before, seq![key]);
    assert forall|i: int| 0 <= i < before.len() implies !(#[trigger] before[i]).contains(':')
        && !contains_seq(key, before[i]) by {
        assert(before[i] == ks[i]);
    }
    let u2 = lemma_other_fields(key, v, before);
    lemma_own_field(key, u2);
    assert(redact_with(key + ":"@ + u2, seq![key]) == redact_key(key + ":"@ + u2, key)) by {
        let one = seq![key];
        let r = redact_key(key + ":"@ + u2, key);
        assert(one.drop_first() =~= Seq::<Seq<char>>::empty());
        assert(one[0] == key);
        assert(redact_with(r, Seq::<Seq<char>>::empty()) == r);
    }
    let done = key + ":"@ + redaction_marker();
    assert forall|i: int| 0 <= i < after.len() implies find(done, #[trigger] after[i]) is None by {
        assert(after[i] == ks[k + 1 + i]);
        lemma_absent_across(key, redaction_marker(), after[i]);
    }
    lemma_redact_with_unchanged(done, after);
}

/// The first occurrence of `p` in `t` stays the first when all of `t` from
/// `vs` on, which lies past that occurrence, is replaced by `u`.
proof fn lemma_first_occurrence_kept(t: Seq<char>, p: Seq<char>, off: int, vs: int, u: Seq<char>)
    requires
        0 <= off,
        find(t, p) == Some(off as nat),
        off + p.len() <= vs <= t.len(),
    ensures
        find(t.subrange(0, vs) + u, p) == Some(off as nat),
{
    let t2 = t.subrange(0, vs) + u;
    lemma_find(t, p);
    lemma_find(t2, p);
    assert(t2.subrange(off, off + p.len()) =~= t.subrange(off, off + p.len()));
    assert(occurs_at(t2, p, off));
    assert forall|w: int| 0 <= w < off implies !occurs_at(t2, p, w) by {
        if occurs_at(t2, p, w) {
            assert(w + p.len() <= vs);
            assert(t2.subrange(w, w + p.len()) =~= t.subrange(w, w + p.len()));
            assert(occurs_at(t, p, w));
            assert(!occurs_at(t, p, w));
        }
    }
    if let Some(f) = find(t2, p) {
        if f < off {
            assert(!occurs_at(t2, p, f as int));
        }
    }
}

/// A text without `c` has no first `c`; `a + [c] + b` with no `c` in `a`
/// has its first `c` right after `a`.
proof fn lemma_first_char(a: Seq<char>, b: Seq<char>, c: char)
    requires
        !a.contains(c),
    ensures
        find(a, seq![c]) is None,
        find(a + seq![c] + b, seq![c]) == Some(a.len()),
{
    lemma_find(a, seq![c]);
    if let Some(i) = find(a, seq![c]) {
        assert(a.subrange(i as int, i as int + 1)[0] == c);
    }
    let t = a + seq![c] + b;
    lemma_find(t, seq![c]);
    assert(t.subrange(a.len() as int, a.len() as int + 1) =~= seq![c]);
    assert(occurs_at(t, seq![c], a.len() as int));
    if let Some(i) = find(t, seq![c]) {
        if i < a.len() {
            assert(t.subrange(i as int, i as int + 1)[0] == c);
            assert(a[i as int] == c);
        }
    }
}

/// Redacting the field `key` twice gives what redacting it once gives.
pub proof fn law_redacting_a_field_twice_changes_nothing(t: Seq<char>, key: Seq<char>)
    requires
        redaction_keys().contains(key),
    ensures
        redact_key(redact_key(t, key), key) == redact_key(t, key),
    decreases t.len(),
{
    lemma_keys_literal();
    reveal_strlit(" [REDACTED]");
    let k = choose|k: int| 0 <= k < redaction_keys().len() && redaction_keys()[k] == key;
    assert(key.len() >= 4 && !key.contains(':'));
    let m = redaction_marker();
    assert(!m.contains(':')) by {
        assert forall|i: int| 0 <= i < m.len() implies m[i] != ':' by {}
    }
    match find(t, key) {
        None => {},
        Some(off) => {
            lemma_find(t, key);
            let rest = t.subrange(off as int, t.len() as int);
            match find(rest, seq![':']) {
                None => {},
                Some(c) => {
                    lemma_find(rest, seq![':']);
                    let vs: int = off as int + c as int + 1;
                    if c < key.len() {
                        assert(rest.subrange(c as int, c as int + 1)[0] == ':');
                        assert(t.subrange(off as int, off as int + key.len())[c as int] == ':');
                        assert(key[c as int] == ':');
                    }
                    let tail = t.subrange(vs, t.len() as int);
                    let e: int = match find(tail, seq![',']) {
                        Some(p) => vs + p,
                        None => t.len() as int,
                    };
                    let head = t.subrange(0, vs) + m;
                    let u = if e >= t.len() {
                        m
                    } else {
                        m + seq![','] + redact_key(t.subrange(e + 1, t.len() as int), key)
                    };
                    let r = t.subrange(0, vs) + u;
                    if e >= t.len() {
                        assert(r =~= head);
                    } else {
                        lemma_find(tail, seq![',']);
                        assert(r =~= head + seq![','] + redact_key(t.subrange(e + 1, t.len() as int), key));
                    }
                    assert(redact_key(t, key) == r);
                    // The second pass finds the same field and the same `:`.
                    lemma_first_occurrence_kept(t, key, off as int, vs, u);
                    let rest2 = r.subrange(off as int, r.len() as int);
                    assert(rest2 =~= rest.subrange(0, c as int + 1) + u);
                    lemma_first_occurrence_kept(rest, seq![':'], c as int, c as int + 1, u);
                    // Its value runs to the end of the marker.
                    let tail2 = r.subrange(vs, r.len() as int);
                    assert(tail2 =~= u);
                    if e >= t.len() {
                        lemma_first_char(m, Seq::empty(), ',');
                        assert(head.subrange(0, vs) =~= t.subrange(0, vs));
                    } else {
                        let r2 = redact_key(t.subrange(e + 1, t.len() as int), key);
                        lemma_first_char(m, r2, ',');
                        assert(u.subrange(m.len() as int + 1, u.len() as int) =~= r2);
                        assert(r.subrange(vs + m.len() as int + 1, r.len() as int) =~= r2);
                        assert(r.subrange(0, vs) =~= t.subrange(0, vs));
                        law_redacting_a_field_twice_changes_nothing(t.subrange(e + 1, t.len() as int), key);
                    }
                },
            }
        },
    }
}

/// Whether no `p` starts in `t` before position `n`.
pub open spec fn none_before(t: Seq<char>, p: Seq<char>, n: int) -> bool {
    forall|w: int| 0 <= w < n ==> !occurs_at(t, p, w)
}

/// Whether redacting the field `p` leaves `t` as it is.
pub open spec fn redacted_for(t: Seq<char>, p: Seq<char>) -> bool {
    redact_key(t, p) == t
}

/// A head `x` in which no `p` starts is left alone, and the rest is redacted
/// as it would be on its own.
proof fn lemma_redact_shift(x: Seq<char>, y: Seq<char>, p: Seq<char>)
    requires
        p.len() > 0,
        none_before(x + y, p, x.len() as int),
    ensures
        redact_key(x + y, p) == x + redact_key(y, p),
{
    let t = x + y;
    let n = x.len() as int;
    lemma_find(t, p);
    lemma_find(y, p);
    match find(y, p) {
        None => {
            if let Some(g) = find(t, p) {
                if g >= n {
                    assert(t.subrange(g as int, g as int + p.len()) =~= y.subrange(g - n, g - n + p.len()));
                    assert(occurs_at(y, p, g - n));
                }
            }
            assert(find(t, p) is None);
        },
        Some(f) => {
            let a = n + f;
            assert(t.subrange(a, a + p.len()) =~= y.subrange(f as int, f as int + p.len()));
            assert(occurs_at(t, p, a));
            let g = find(t, p)->0;
            if g < a {
                if g >= n {
                    assert(t.subrange(g as int, g as int + p.len()) =~= y.subrange(g - n, g - n + p.len()));
                    assert(occurs_at(y, p, g - n));
                }
            }
            assert(find(t, p) == Some(a as nat));
            let rt = t.subrange(a, t.len() as int);
            let ry = y.subrange(f as int, y.len() as int);
            assert(rt =~= ry);
            match find(ry, seq![':']) {
                None => {},
                Some(c) => {
                    let vy: int = f as int + c as int + 1;
                    let vt: int = a + c as int + 1;
                    lemma_find(ry, seq![':']);
                    assert(t.subrange(vt, t.len() as int) =~= y.subrange(vy, y.len() as int));
                    assert(t.subrange(0, vt) =~= x + y.subrange(0, vy));
                    match find(y.subrange(vy, y.len() as int), seq![',']) {
                        None => {
                            assert(x + y.subrange(0, vy) + redaction_marker() =~= x + (y.subrange(0, vy) + redaction_marker()));
                        },
                        Some(q) => {
                            lemma_find(y.subrange(vy, y.len() as int), seq![',']);
                            let ey = vy + q;
                            let et = vt + q;
                            if ey < y.len() {
                                assert(t.subrange(et + 1, t.len() as int) =~= y.subrange(ey + 1, y.len() as int));
                                let rr = redact_key(y.subrange(ey + 1, y.len() as int), p);
                                assert(x + y.subrange(0, vy) + redaction_marker() + seq![','] + rr =~= x + (y.subrange(0, vy) + redaction_marker() + seq![','] + rr));
                            } else {
                                assert(x + y.subrange(0, vy) + redaction_marker() =~= x + (y.subrange(0, vy) + redaction_marker()));
                            }
                        },
                    }
                },
            }
        },
    }
}

/// When the first field `p` of `u` is at `o` with its `:` at `o + c`, the
/// text up to that `:`, followed by the marker and `, y`, is redacted by
/// redacting `y`; followed by the marker alone, it is left as it is.
proof fn lemma_element_kept(u: Seq<char>, p: Seq<char>, o: int, c: int, y: Seq<char>)
    requires
        0 <= o,
        0 <= c,
        o + c + 1 <= u.len(),
        find(u, p) == Some(o as nat),
        find(u.subrange(o, u.len() as int), seq![':']) == Some(c as nat),
        o + p.len() <= o + c + 1 <= u.len(),
        !redaction_marker().contains(','),
    ensures
        redact_key(u.subrange(0, o + c + 1) + redaction_marker() + seq![','] + y, p)
            == u.subrange(0, o + c + 1) + redaction_marker() + seq![','] + redact_key(y, p),
        redact_key(u.subrange(0, o + c + 1) + redaction_marker(), p)
            == u.subrange(0, o + c + 1) + redaction_marker(),
{
    let m = redaction_marker();
    let vs = o + c + 1;
    let rest = u.subrange(o, u.len() as int);
    let head = u.subrange(0, vs);
    assert(c + 1 <= rest.len());
    // With `, y` after the marker.
    let w1 = m + seq![','] + y;
    let r1 = head + w1;
    assert(u.subrange(0, vs) + w1 =~= r1);
    lemma_first_occurrence_kept(u, p, o, vs, w1);
    assert(r1.subrange(o, r1.len() as int) =~= rest.subrange(0, c + 1) + w1);
    lemma_first_occurrence_kept(rest, seq![':'], c, c + 1, w1);
    assert(r1.subrange(vs, r1.len() as int) =~= w1);
    lemma_first_char(m, y, ',');
    assert(r1.subrange(vs + m.len() + 1, r1.len() as int) =~= y);
    assert(r1.subrange(0, vs) =~= head);
    assert(head + m + seq![','] + y =~= r1);
    // With the marker alone.
    let r2 = head + m;
    lemma_first_occurrence_kept(u, p, o, vs, m);
    assert(r2.subrange(o, r2.len() as int) =~= rest.subrange(0, c + 1) + m);
    lemma_first_occurrence_kept(rest, seq![':'], c, c + 1, m);
    assert(r2.subrange(vs, r2.len() as int) =~= m);
    lemma_first_char(m, Seq::empty(), ',');
    assert(r2.subrange(0, vs) =~= head);
}

/// No field `p` starts in the text up to a `:` (when none starts there in
/// `u`), the marker and a `,` after it, or the marker alone after it.
proof fn lemma_none_in_head(u: Seq<char>, vs: int, rest: Seq<char>, p: Seq<char>)
    requires
        1 <= vs <= u.len(),
        u[vs - 1] == ':',
        none_before(u, p, vs),
        p.len() > 0,
        !p.contains(':'),
        !p.contains(','),
        !contains_seq(redaction_marker(), p),
    ensures
        none_before(u.subrange(0, vs) + redaction_marker() + seq![','] + rest, p, vs + redaction_marker().len() + 1),
        find(u.subrange(0, vs) + redaction_marker(), p) is None,
{
    let m = redaction_marker();
    reveal_strlit(" [REDACTED]");
    assert(m.len() == 11);
    let r = u.subrange(0, vs) + m + seq![','] + rest;
    assert forall|w: int| 0 <= w < vs + m.len() + 1 implies !occurs_at(r, p, w) by {
        if occurs_at(r, p, w) {
            let s = r.subrange(w, w + p.len());
            if w < vs {
                if w + p.len() <= vs {
                    assert(s =~= u.subrange(w, w + p.len()));
                    assert(occurs_at(u, p, w));
                } else {
                    assert(s[vs - 1 - w] == ':');
                    assert(p[vs - 1 - w] == ':');
                }
            } else if w < vs + m.len() {
                if w + p.len() <= vs + m.len() {
                    assert(s =~= m.subrange(w - vs, w - vs + p.len()));
                    assert(occurs_at(m, p, w - vs));
                } else {
                    assert(s[vs + m.len() - w] == ',');
                    assert(p[vs + m.len() - w] == ',');
                }
            } else {
                assert(s[0] == ',');
                assert(p[0] == ',');
            }
        }
    }
    let r2 = u.subrange(0, vs) + m;
    lemma_find(r2, p);
    if let Some(w) = find(r2, p) {
        let w = w as int;
        let s = r2.subrange(w, w + p.len());
        if w < vs {
            if w + p.len() <= vs {
                assert(s =~= u.subrange(w, w + p.len()));
                assert(occurs_at(u, p, w));
            } else {
                assert(s[vs - 1 - w] == ':');
                assert(p[vs - 1 - w] == ':');
            }
        } else {
            assert(s =~= m.subrange(w - vs, w - vs + p.len()));
            assert(occurs_at(m, p, w - vs));
        }
    }
}

/// Whether `p` can be a secret field name: not empty, with no `:` or `,`,
/// and not inside the marker.
pub open spec fn plain_field(p: Seq<char>) -> bool {
    &&& p.len() > 0
    &&& !p.contains(':')
    &&& !p.contains(',')
    &&& !contains_seq(redaction_marker(), p)
}

/// Where the first `c` in `s` stands, if anywhere.
proof fn lemma_first_char_at(s: Seq<char>, c: char)
    ensures
        match find(s, seq![c]) {
            Some(i) => i < s.len() && s[i as int] == c && forall|j: int| 0 <= j < i ==> s[j] != c,
            None => forall|j: int| 0 <= j < s.len() ==> s[j] != c,
        },
{
    lemma_find(s, seq![c]);
    match find(s, seq![c]) {
        Some(i) => {
            assert(s.subrange(i as int, i as int + 1)[0] == c);
            assert forall|j: int| 0 <= j < i implies s[j] != c by {
                if s[j] == c {
                    assert(s.subrange(j, j + 1) =~= seq![c]);
                    assert(occurs_at(s, seq![c], j));
                }
            }
        },
        None => {
            assert forall|j: int| 0 <= j < s.len() implies s[j] != c by {
                if s[j] == c {
                    assert(s.subrange(j, j + 1) =~= seq![c]);
                    assert(occurs_at(s, seq![c], j));
                }
            }
        },
    }
}

/// A window of `u` that holds no `c` lies before or after a `c` at `i`.
proof fn lemma_window_avoids(u: Seq<char>, p: Seq<char>, w: int, i: int, c: char)
    requires
        occurs_at(u, p, w),
        0 <= i < u.len(),
        u[i] == c,
        !p.contains(c),
    ensures
        w + p.len() <= i || w > i,
{
    if w <= i && i < w + p.len() {
        assert(u.subrange(w, w + p.len())[i - w] == c);
        assert(p[i - w] == c);
    }
}

/// What it means that redacting `k` leaves `u` as it is, at its first field
/// `k` (at `o`, its `:` at `o + c`): the value after the `:` is the marker,
/// and what follows its `,` is again left as it is.
proof fn lemma_unfold_fixed(u: Seq<char>, k: Seq<char>, o: int, c: int)
    requires
        redacted_for(u, k),
        0 <= o,
        0 <= c,
        o + c + 1 <= u.len(),
        find(u, k) == Some(o as nat),
        find(u.subrange(o, u.len() as int), seq![':']) == Some(c as nat),
    ensures
        ({
            let vsk = o + c + 1;
            let m = redaction_marker();
            match find(u.subrange(vsk, u.len() as int), seq![',']) {
                None => u =~= u.subrange(0, vsk) + m,
                Some(q) => vsk + q < u.len() && u =~= u.subrange(0, vsk) + m + seq![','] + redact_key(
                    u.subrange(vsk + q + 1, u.len() as int),
                    k,
                ),
            }
        }),
{
    let vsk = o + c + 1;
    if let Some(q) = find(u.subrange(vsk, u.len() as int), seq![',']) {
        lemma_first_char_at(u.subrange(vsk, u.len() as int), ',');
    }
}

/// The marker with a `,` after it, at `vsk` in `u`, puts the first `,`
/// after `vsk` at `vsk + 11`.
proof fn lemma_marker_then_comma(u: Seq<char>, vsk: int, rest: Seq<char>)
    requires
        0 <= vsk <= u.len(),
        u =~= u.subrange(0, vsk) + redaction_marker() + seq![','] + rest,
        !redaction_marker().contains(','),
    ensures
        u[vsk + 11] == ',',
        forall|j: int| vsk <= j < vsk + 11 ==> u[j] != ',' && u[j] == redaction_marker()[j - vsk],
        u.subrange(vsk + 12, u.len() as int) == rest,
{
    reveal_strlit(" [REDACTED]");
    let m = redaction_marker();
    assert(m.len() == 11);
    assert forall|j: int| vsk <= j < vsk + 11 implies u[j] != ',' && u[j] == m[j - vsk] by {
        assert(u[j] == m[j - vsk]);
    }
    assert(u.subrange(vsk + 12, u.len() as int) =~= rest);
}

/// Past a `,` that lies between the first field `k` of `u` and its `:`,
/// the rest of `u` is left as it is by redacting `k`, when all of `u` is.
#[verifier::rlimit(80)]
proof fn lemma_suffix_spanning(u: Seq<char>, k: Seq<char>, o: int, ck: int, e2: int)
    requires
        plain_field(k),
        !redaction_marker().contains(','),
        0 <= o < e2 < ck < u.len(),
        u[e2] == ',',
        find(u, k) == Some(o as nat),
        find(u.subrange(o, u.len() as int), seq![':']) == Some((ck - o) as nat),
        redacted_for(u, k),
    ensures
        redacted_for(u.subrange(e2 + 1, u.len() as int), k),
{
    let m = redaction_marker();
    reveal_strlit(" [REDACTED]");
    assert(m.len() == 11);
    let n = u.len() as int;
    let y = u.subrange(e2 + 1, n);
    let vsk = ck + 1;
    let restk = u.subrange(o, n);
    lemma_first_char_at(restk, ':');
    lemma_unfold_fixed(u, k, o, ck - o);
    let tk = u.subrange(vsk, n);
    lemma_find(u, k);
    lemma_find(y, k);
    match find(y, k) {
        None => {},
        Some(o2) => {
            let o2 = o2 as int;
            let a2 = e2 + 1 + o2;
            assert(u.subrange(a2, a2 + k.len()) =~= y.subrange(o2, o2 + k.len()));
            assert(occurs_at(u, k, a2));
            assert(u[ck] == restk[ck - o]);
            lemma_window_avoids(u, k, a2, ck, ':');
            if a2 < ck {
                let ry = y.subrange(o2, y.len() as int);
                lemma_first_char_at(ry, ':');
                assert(ry[ck - a2] == u[ck]);
                let ci = find(ry, seq![':'])->0 as int;
                if ci < ck - a2 {
                    assert(ry[ci] == u[a2 + ci]);
                    assert(restk[a2 + ci - o] == ':');
                }
                assert(ci == ck - a2);
                let vsy = o2 + (ck - a2) + 1;
                assert(y.subrange(0, vsy) =~= u.subrange(e2 + 1, vsk));
                match find(tk, seq![',']) {
                    None => {
                        lemma_element_kept(y, k, o2, ck - a2, Seq::empty());
                        assert(y =~= y.subrange(0, vsy) + m);
                    },
                    Some(q) => {
                        let ek = vsk + q as int;
                        let rest = u.subrange(ek + 1, n);
                        let rk = redact_key(rest, k);
                        lemma_marker_then_comma(u, vsk, rk);
                        assert(rest =~= u.subrange(vsk + 12, n)) by {
                            lemma_first_char_at(tk, ',');
                            if q < 11 {
                                assert(tk[q as int] == u[vsk + q]);
                            }
                            if q > 11 {
                                assert(tk[11] == u[vsk + 11]);
                            }
                        }
                        assert(rest == rk);
                        lemma_element_kept(y, k, o2, ck - a2, rest);
                        assert(y =~= y.subrange(0, vsy) + m + seq![','] + rest);
                    },
                }
            } else {
                assert(a2 >= vsk);
                match find(tk, seq![',']) {
                    None => {
                        assert(u.subrange(vsk, n) =~= m);
                        assert(u.subrange(a2, a2 + k.len()) =~= m.subrange(a2 - vsk, a2 - vsk + k.len()));
                        assert(occurs_at(m, k, a2 - vsk));
                    },
                    Some(q) => {
                        let ek = vsk + q as int;
                        let rest = u.subrange(ek + 1, n);
                        let rk = redact_key(rest, k);
                        lemma_marker_then_comma(u, vsk, rk);
                        lemma_first_char_at(tk, ',');
                        if q < 11 {
                            assert(tk[q as int] == u[vsk + q]);
                        }
                        if q > 11 {
                            assert(tk[11] == u[vsk + 11]);
                        }
                        assert(ek == vsk + 11);
                        lemma_window_avoids(u, k, a2, ek, ',');
                        if a2 < ek {
                            assert(u.subrange(a2, a2 + k.len()) =~= m.subrange(a2 - vsk, a2 - vsk + k.len()));
                            assert(occurs_at(m, k, a2 - vsk));
                        }
                        assert(rest == rk);
                        let hy = u.subrange(e2 + 1, ek + 1);
                        assert(y =~= hy + rest);
                        assert forall|w: int| 0 <= w < hy.len() implies !occurs_at(hy + rest, k, w) by {
                            if occurs_at(hy + rest, k, w) {
                                assert(w >= o2);
                            }
                        }
                        lemma_redact_shift(hy, rest, k);
                    },
                }
            }
        },
    }
}

/// Text after a `,` that ends a value, before which no field `k` starts
/// ahead of the value, is left as it is by redacting `k` when all of `u` is.
#[verifier::rlimit(40)]
proof fn lemma_fixed_suffix(u: Seq<char>, k: Seq<char>, vs2: int, e2: int)
    requires
        0 < vs2 <= e2 < u.len(),
        u[e2] == ',',
        forall|j: int| vs2 <= j < e2 ==> u[j] != ',',
        none_before(u, k, vs2),
        redacted_for(u, k),
        plain_field(k),
        !redaction_marker().contains(','),
    ensures
        redacted_for(u.subrange(e2 + 1, u.len() as int), k),
{
    let n = u.len() as int;
    let y = u.subrange(e2 + 1, n);
    let hx = u.subrange(0, e2 + 1);
    assert(u =~= hx + y);
    lemma_find(u, k);
    lemma_find(y, k);
    match find(u, k) {
        None => {
            if let Some(o2) = find(y, k) {
                let a2 = e2 + 1 + o2;
                assert(u.subrange(a2, a2 + k.len()) =~= y.subrange(o2 as int, o2 as int + k.len()));
                assert(occurs_at(u, k, a2));
            }
        },
        Some(o) => {
            let o = o as int;
            if o >= e2 + 1 {
                assert(none_before(hx + y, k, e2 + 1));
                lemma_redact_shift(hx, y, k);
                assert(y =~= (hx + y).subrange(e2 + 1, n));
                assert(redact_key(y, k) =~= (hx + redact_key(y, k)).subrange(e2 + 1, n));
            } else {
                assert(o >= vs2);
                lemma_window_avoids(u, k, o, e2, ',');
                let restk = u.subrange(o, n);
                lemma_first_char_at(restk, ':');
                match find(restk, seq![':']) {
                    None => {
                        if let Some(o2) = find(y, k) {
                            let a2 = e2 + 1 + o2;
                            let ry = y.subrange(o2 as int, y.len() as int);
                            lemma_first_char_at(ry, ':');
                            if let Some(i) = find(ry, seq![':']) {
                                assert(ry[i as int] == u[a2 + i]);
                                assert(restk[a2 + i - o] == ':');
                            }
                        }
                    },
                    Some(ckr) => {
                        let ck = o + ckr;
                        assert(u[ck] == restk[ckr as int]);
                        if ck > e2 {
                            lemma_suffix_spanning(u, k, o, ck, e2);
                        } else {
                            assert(ck < e2);
                            let vsk = ck + 1;
                            lemma_window_avoids(u, k, o, ck, ':');
                            lemma_unfold_fixed(u, k, o, ckr as int);
                            let tk = u.subrange(vsk, n);
                            lemma_first_char_at(tk, ',');
                            assert(tk[e2 - vsk] == ',');
                            let q = find(tk, seq![','])->0 as int;
                            if q < e2 - vsk {
                                assert(tk[q] == u[vsk + q]);
                            }
                            assert(q == e2 - vsk);
                            let rk = redact_key(y, k);
                            lemma_marker_then_comma(u, vsk, rk);
                            if e2 < vsk + 11 {
                                assert(u[e2] != ',');
                            }
                            if e2 > vsk + 11 {
                                assert(tk[11] == u[vsk + 11]);
                            }
                            assert(y == rk);
                        }
                    },
                }
            }
        },
    }
}

/// The marker holds no `:` and no `,`.
proof fn lemma_marker_plain()
    ensures
        !redaction_marker().contains(':'),
        !redaction_marker().contains(','),
        redaction_marker().len() == 11,
{
    reveal_strlit(" [REDACTED]");
    let m = redaction_marker();
    assert forall|i: int| 0 <= i < m.len() implies m[i] != ':' && m[i] != ',' by {}
}

/// In `u`, left as it is by redacting `k`, a field `k` at `o` whose `:` at
/// `ck` comes before another `:` at `vs2 - 1` has its whole value, the
/// marker, and its `,` before that other `:`.
#[verifier::rlimit(40)]
proof fn lemma_value_before(u: Seq<char>, k: Seq<char>, o: int, ckr: int, vs2: int) -> (ek: int)
    requires
        plain_field(k),
        redacted_for(u, k),
        0 <= o,
        0 <= ckr,
        find(u, k) == Some(o as nat),
        find(u.subrange(o, u.len() as int), seq![':']) == Some(ckr as nat),
        o + ckr + 1 < vs2 <= u.len(),
        u[vs2 - 1] == ':',
    ensures
        ek == o + ckr + 1 + 11,
        ek < vs2 - 1,
        u[ek] == ',',
        forall|j: int| o + ckr + 1 <= j < ek ==> u[j] != ',' && u[j] == redaction_marker()[j - (o + ckr + 1)],
        redacted_for(u.subrange(ek + 1, u.len() as int), k),
{
    lemma_marker_plain();
    let m = redaction_marker();
    let n = u.len() as int;
    let vsk = o + ckr + 1;
    lemma_unfold_fixed(u, k, o, ckr);
    let tk = u.subrange(vsk, n);
    lemma_first_char_at(tk, ',');
    match find(tk, seq![',']) {
        None => {
            assert(u[vs2 - 1] == m[vs2 - 1 - vsk]);
            assert(false);
            0
        },
        Some(q) => {
            let rest = u.subrange(vsk + q + 1, n);
            let rk = redact_key(rest, k);
            lemma_marker_then_comma(u, vsk, rk);
            if q < 11 {
                assert(tk[q as int] == u[vsk + q]);
            }
            if q > 11 {
                assert(tk[11] == u[vsk + 11]);
            }
            assert(q == 11);
            if vs2 - 1 < vsk + 11 {
                assert(u[vs2 - 1] == m[vs2 - 1 - vsk]);
            }
            assert(rest == rk);
            vsk + 11
        },
    }
}

/// Redacting another field `k2` in text that redacting `k` leaves as it is
/// gives text that redacting `k` again leaves as it is.
#[verifier::rlimit(60)]
proof fn lemma_pass_keeps_fixed(u: Seq<char>, k: Seq<char>, k2: Seq<char>)
    requires
        plain_field(k),
        plain_field(k2),
        redacted_for(u, k),
    ensures
        redacted_for(redact_key(u, k2), k),
    decreases u.len(),
{
    lemma_marker_plain();
    let m = redaction_marker();
    let n = u.len() as int;
    lemma_find(u, k2);
    if let Some(off2) = find(u, k2) {
        let off2 = off2 as int;
        let rest2 = u.subrange(off2, n);
        lemma_first_char_at(rest2, ':');
        if let Some(c2) = find(rest2, seq![':']) {
            let c2 = c2 as int;
            let vs2 = off2 + c2 + 1;
            assert(u[vs2 - 1] == rest2[c2]);
            lemma_window_avoids(u, k2, off2, vs2 - 1, ':');
            let tail2 = u.subrange(vs2, n);
            lemma_first_char_at(tail2, ',');
            let e2: int = match find(tail2, seq![',']) {
                Some(q) => vs2 + q,
                None => n,
            };
            let r2 = redact_key(u, k2);
            lemma_find(u, k);
            let b1 = match find(u, k) {
                Some(o) => o < vs2,
                None => false,
            };
            if b1 {
                let o = find(u, k)->0 as int;
                lemma_window_avoids(u, k, o, vs2 - 1, ':');
                let restk = u.subrange(o, n);
                lemma_first_char_at(restk, ':');
                assert(restk[vs2 - 1 - o] == ':');
                let ckr = find(restk, seq![':'])->0 as int;
                let ck = o + ckr;
                let vsk = ck + 1;
                if vsk == vs2 {
                    lemma_unfold_fixed(u, k, o, ckr);
                    assert(tail2 == u.subrange(vsk, n));
                    if e2 < n {
                        let y = u.subrange(e2 + 1, n);
                        lemma_marker_then_comma(u, vs2, redact_key(y, k));
                        let q = e2 - vs2;
                        if q < 11 {
                            assert(tail2[q] == u[vs2 + q]);
                        }
                        if q > 11 {
                            assert(tail2[11] == u[vs2 + 11]);
                        }
                        assert(redacted_for(y, k));
                        lemma_pass_keeps_fixed(y, k, k2);
                        let y2 = redact_key(y, k2);
                        assert(r2 == u.subrange(0, vs2) + m + seq![','] + y2);
                        lemma_element_kept(u, k, o, ckr, y2);
                    } else {
                        assert(r2 == u.subrange(0, vs2) + m);
                    }
                } else {
                    assert(u[ck] == restk[ckr]);
                    if ck >= off2 {
                        assert(rest2[ck - off2] == ':');
                    }
                    let ek = lemma_value_before(u, k, o, ckr, vs2);
                    let y = u.subrange(ek + 1, n);
                    let x = u.subrange(0, ek + 1);
                    assert(u =~= x + y);
                    lemma_window_avoids(u, k2, off2, ek, ',');
                    if off2 <= ek {
                        assert(u.subrange(off2, off2 + k2.len()) =~= m.subrange(off2 - vsk, off2 - vsk + k2.len()));
                        assert(occurs_at(m, k2, off2 - vsk));
                    }
                    assert(none_before(x + y, k2, ek + 1));
                    lemma_redact_shift(x, y, k2);
                    lemma_pass_keeps_fixed(y, k, k2);
                    let y2 = redact_key(y, k2);
                    assert(x =~= u.subrange(0, vsk) + m + seq![',']);
                    lemma_element_kept(u, k, o, ckr, y2);
                    assert(r2 == x + y2);
                }
            } else {
                assert(none_before(u, k, vs2));
                if e2 < n {
                    let y = u.subrange(e2 + 1, n);
                    assert forall|j: int| vs2 <= j < e2 implies u[j] != ',' by {
                        assert(tail2[j - vs2] == u[j]);
                    }
                    assert(u[e2] == tail2[e2 - vs2]);
                    lemma_fixed_suffix(u, k, vs2, e2);
                    lemma_pass_keeps_fixed(y, k, k2);
                    let y2 = redact_key(y, k2);
                    assert(r2 == u.subrange(0, vs2) + m + seq![','] + y2);
                    lemma_none_in_head(u, vs2, y2, k);
                    let h = u.subrange(0, vs2) + m + seq![','];
                    assert(h + y2 =~= u.subrange(0, vs2) + m + seq![','] + y2);
                    lemma_redact_shift(h, y2, k);
                } else {
                    lemma_none_in_head(u, vs2, Seq::empty(), k);
                    assert(r2 == u.subrange(0, vs2) + m);
                }
            }
        }
    }
}

/// Redacting more fields keeps text that redacting `k` leaves as it is.
proof fn lemma_keeps_all(u: Seq<char>, k: Seq<char>, ks: Seq<Seq<char>>)
    requires
        plain_field(k),
        forall|i: int| 0 <= i < ks.len() ==> plain_field(#[trigger] ks[i]),
        redacted_for(u, k),
    ensures
        redacted_for(redact_with(u, ks), k),
    decreases ks.len(),
{
    if ks.len() > 0 {
        lemma_pass_keeps_fixed(u, k, ks[0]);
        assert forall|i: int| 0 <= i < ks.drop_first().len() implies plain_field(#[trigger] ks.drop_first()[i]) by {
            assert(ks.drop_first()[i] == ks[i + 1]);
        }
        lemma_keeps_all(redact_key(u, ks[0]), k, ks.drop_first());
    }
}

/// Text that redacting each field of `ks` leaves as it is, redacting all of
/// them leaves as it is.
proof fn lemma_fixed_all(u: Seq<char>, ks: Seq<Seq<char>>)
    requires
        forall|i: int| 0 <= i < ks.len() ==> redacted_for(u, #[trigger] ks[i]),
    ensures
        redact_with(u, ks) == u,
    decreases ks.len(),
{
    if ks.len() > 0 {
        assert(redacted_for(u, ks[0]));
        assert forall|i: int| 0 <= i < ks.drop_first().len() implies redacted_for(u, #[trigger] ks.drop_first()[i]) by {
            assert(ks.drop_first()[i] == ks[i + 1]);
        }
        lemma_fixed_all(u, ks.drop_first());
    }
}

/// Redaction is idempotent: redacting text that was redacted already
/// changes nothing.
pub proof fn law_redaction_is_idempotent(t: Seq<char>)
    ensures
        redacted(redacted(t)) == redacted(t),
{
    lemma_keys_literal();
    lemma_marker_plain();
    let ks = redaction_keys();
    let r = redacted(t);
    assert forall|i: int| 0 <= i < ks.len() implies plain_field(#[trigger] ks[i]) by {}
    assert forall|i: int| 0 <= i < ks.len() implies redacted_for(r, #[trigger] ks[i]) by {
        let before = ks.take(i);
        let after = ks.skip(i);
        assert(ks =~= before + after);
        lemma_redact_with_append(t, before, after);
        let v = redact_with(t, before);
        assert(after[0] == ks[i]);
        assert(after.drop_first() =~= ks.skip(i + 1));
        assert(redact_with(v, after) == redact_with(redact_key(v, ks[i]), ks.skip(i + 1)));
        assert(ks.contains(ks[i]));
        law_redacting_a_field_twice_changes_nothing(v, ks[i]);
        assert forall|j: int| 0 <= j < ks.skip(i + 1).len() implies plain_field(#[trigger] ks.skip(i + 1)[j]) by {
            assert(ks.skip(i + 1)[j] == ks[i + 1 + j]);
        }
        lemma_keeps_all(redact_key(v, ks[i]), ks[i], ks.skip(i + 1));
    }
    lemma_fixed_all(r, ks);
}

/// A path that ends in `/name`, or is `name`, for a plain name `name` (not
/// empty, no `/`, neither `.` nor `..`), has `name` as its last component
/// and a parent, and is no root.
proof fn lemma_path_ending_in_name(p: Seq<char>, name: Seq<char>)
    requires
        p.len() == 0 || p.last() == '/',
        name.len() > 0,
        !name.contains('/'),
        name != seq!['.'],
        name != seq!['.', '.'],
    ensures
        components(p + name).len() >= 1,
        components(p + name).last() == Component::Normal(name),
        has_root(p + name) ==> components(p + name).len() >= 2,
        !is_root_like(p + name, false),
{
    let t = p + name;
    lemma_split_char_append(p, name, '/');
    lemma_split_char_len(p, '/');
    let sp = split_char(p, '/');
    if p.len() == 0 {
        assert(sp =~= seq![Seq::<char>::empty()]);
    } else {
        lemma_split_char_len(p.drop_last(), '/');
        assert(sp == split_char(p.drop_last(), '/').push(Seq::<char>::empty()));
        assert(sp.len() >= 2);
    }
    assert(sp.last() + name =~= name);
    let segs = split_char(t, '/');
    assert(segs.last() == name);
    assert(segs.len() == sp.len());
    assert(segment_components(segs).last() == Component::Normal(name));
    if has_root(t) {
        assert(p.len() > 0) by {
            if p.len() == 0 {
                assert(t =~= name);
                assert(name[0] == '/');
            }
        }
        assert(segs.drop_first().len() >= 1);
        assert(segs.drop_first().last() == name);
        assert(segment_components(segs.drop_first()).last() == Component::Normal(name));
        let c = components(t);
        assert(c == seq![Component::RootDir] + segment_components(segs.drop_first()));
        assert(c.len() >= 2);
        assert(c.last() == Component::Normal(name));
    } else if segs[0] == seq!['.'] {
        assert(segs.len() >= 2) by {
            if segs.len() < 2 {
                assert(segs[0] == name);
            }
        }
        assert(segs.drop_first().last() == name);
        assert(segment_components(segs.drop_first()).last() == Component::Normal(name));
    }
    let c = components(t);
    assert(parent_components(c) is Some);
    assert(c != seq![Component::RootDir]) by {
        if c == seq![Component::RootDir] {
            assert(c.last() == Component::RootDir);
        }
    }
}

/// The checkout directory of the default configuration is accepted for
/// every home directory without NUL.
proof fn lemma_default_source_dir_valid(home: Option<Seq<char>>)
    requires
        home matches Some(h) ==> !h.contains('\0'),
    ensures
        source_dir_error(default_source_dir_spec(home, false), false) is None,
{
    reveal_strlit("deepseek-harness");
    let name = default_dir_name();
    assert(name.len() == 16);
    assert(!is_ws(name[0]));
    assert(!is_ws(name.last()));
    assert(!name.contains('/') && !name.contains('\0')) by {
        assert forall|i: int| 0 <= i < name.len() implies name[i] != '/' && name[i] != '\0' by {}
    }
    assert(name != seq!['.']);
    assert(name != seq!['.', '.']);
    let v = default_source_dir_spec(home, false);
    // The trimmed directory is `p + name`, `p` empty or ending in `/`.
    let p: Seq<char> = match home {
        None => Seq::empty(),
        Some(h) => if h.len() == 0 {
            Seq::empty()
        } else {
            let k = lemma_trim_start_suffix(h);
            if k == h.len() {
                assert(is_ws(h[h.len() - 1]));
            }
            if h.last() == '/' {
                trim_start(h)
            } else {
                trim_start(h) + seq!['/']
            }
        },
    };
    match home {
        None => {
            assert(v == name);
        },
        Some(h) => if h.len() == 0 {
            assert(v == name);
        } else if h.last() == '/' {
            assert(v == h + name);
            lemma_trim_start_concat(h, name);
        } else {
            assert(v == h + (seq!['/'] + name));
            assert(v =~= h + seq!['/'] + name);
            lemma_trim_start_concat(h, seq!['/'] + name);
            assert(trim_start(h) + (seq!['/'] + name) =~= p + name);
        },
    }
    assert(trim_start(v) == p + name);
    assert(trim_start(name) == name);
    let t = p + name;
    assert(t.last() == name.last());
    assert(trim_end(t) == t);
    assert(trim(v) == t);
    assert(p.len() == 0 || p.last() == '/') by {
        if let Some(h) = home {
            if h.len() > 0 {
                let k = lemma_trim_start_suffix(h);
                if h.last() == '/' {
                    assert(trim_start(h).last() == h.last());
                }
            }
        }
    }
    assert(!t.contains('\0')) by {
        if t.contains('\0') {
            let i = choose|i: int| 0 <= i < t.len() && t[i] == '\0';
            if i >= p.len() {
                assert(name[i - p.len()] == '\0');
            } else if let Some(h) = home {
                let k = lemma_trim_start_suffix(h);
                if i < trim_start(h).len() {
                    assert(h[k + i] == '\0');
                }
            }
        }
    }
    lemma_path_ending_in_name(p, name);
}

/// On a POSIX system the default configuration passes validation for every
/// home directory without NUL (and when no home directory is known).
pub proof fn law_default_config_is_valid(c: AppConfig, home: Option<Seq<char>>)
    requires
        is_default_config(c, home, false),
        home matches Some(h) ==> !h.contains('\0'),
    ensures
        config_error(c, false) is None,
{
    lemma_default_source_dir_valid(home);
    reveal_strlit("https://github.com/deepseek-ai/deepseek-harness.git");
    reveal_strlit("https://");
    reveal_strlit("http://");
    reveal_strlit("http://127.0.0.1:1234/v1/models");
    reveal_strlit("pnpm");
    reveal_strlit("dsh");
    reveal_strlit("web");
    reveal_strlit("--no-open");
    reveal_strlit("install");
    reveal_strlit("--frozen-lockfile");
    reveal_strlit("run");
    reveal_strlit("build");
    reveal_strlit("master");
    reveal_strlit("origin");
    reveal_strlit("dist");
    let h = c.harness;
    let repo = h.repo_url@;
    lemma_trim_plain(repo);
    assert(repo.subrange(0, 8) =~= "https://"@);
    assert(!has_ws_or_nul(repo));
    assert(repo_url_error(repo) is None);
    lemma_trim_plain("pnpm"@);
    assert(!"pnpm"@.contains('\0'));
    assert(command_error(h.start_command.program@, string_views(h.start_command.args@)) is None) by {
        let a = string_views(h.start_command.args@);
        assert(a == seq!["dsh"@, "web"@, "--no-open"@]);
        assert forall|i: int| 0 <= i < a.len() implies !(#[trigger] a[i]).contains('\0') by {}
    }
    assert(command_error(h.install_command.program@, string_views(h.install_command.args@)) is None) by {
        let a = string_views(h.install_command.args@);
        assert forall|i: int| 0 <= i < a.len() implies !(#[trigger] a[i]).contains('\0') by {}
    }
    assert(command_error(h.build_command.program@, string_views(h.build_command.args@)) is None) by {
        let a = string_views(h.build_command.args@);
        assert forall|i: int| 0 <= i < a.len() implies !(#[trigger] a[i]).contains('\0') by {}
    }
    lemma_trim_plain("master"@);
    lemma_trim_plain("origin"@);
    let dist = "dist"@;
    lemma_trim_plain(dist);
    assert(dist =~= Seq::<char>::empty() + dist);
    lemma_path_ending_in_name(Seq::<char>::empty(), dist);
    assert(!escapes_checkout(dist, false)) by {
        let cs = components(dist);
        lemma_split_char_append(Seq::<char>::empty(), dist, '/');
        assert(split_char(Seq::<char>::empty(), '/') =~= seq![Seq::<char>::empty()]);
        assert(split_char(dist, '/') =~= seq![dist]);
        assert(!has_root(dist));
        assert(dist != seq!['.']);
        let one = seq![dist];
        assert(one.drop_last() =~= Seq::<Seq<char>>::empty());
        assert(segment_components(Seq::<Seq<char>>::empty()) == Seq::<Component>::empty());
        assert(segment_components(one) =~= seq![Component::Normal(dist)]);
        assert(cs =~= seq![Component::Normal(dist)]);
    }
    let paths = string_views(h.clean_paths@);
    assert(paths == seq![dist]);
    assert(first_path_error(paths, false) is None) by {
        assert(paths.drop_first() =~= Seq::<Seq<char>>::empty());
        assert(first_path_error(Seq::<Seq<char>>::empty(), false) is None);
        assert(relative_path_error(paths[0], false) is None);
    }
    let lm = c.lm_studio.api_url@;
    lemma_trim_plain(lm);
    assert(lm.subrange(0, 7) =~= "http://"@);
    assert(!lm.contains('@'));
    assert(!has_ws_or_nul(lm));
}

proof fn lemma_first_path_error_none(paths: Seq<Seq<char>>, windows: bool)
    requires
        first_path_error(paths, windows) is None,
    ensures
        forall|i: int| 0 <= i < paths.len() ==> !escapes_checkout(#[trigger] paths[i], windows),
    decreases paths.len(),
{
    if paths.len() > 0 {
        lemma_first_path_error_none(paths.drop_first(), windows);
        assert forall|i: int| 0 <= i < paths.len() implies !escapes_checkout(#[trigger] paths[i], windows) by {
            if i > 0 {
                assert(paths[i] == paths.drop_first()[i - 1]);
            }
        }
    }
}

/// A configuration that passes validation names only build paths that stay
/// inside the checkout: none is blank or absolute, and none has a prefix,
/// root or parent-directory component.
pub proof fn law_clean_paths_stay_in_checkout(c: AppConfig, windows: bool)
    requires
        config_error(c, windows) is None,
    ensures
        forall|i: int|
            0 <= i < c.harness.clean_paths@.len() ==> !escapes_checkout(
                #[trigger] c.harness.clean_paths@[i]@,
                windows,
            ),
{
    let paths = string_views(c.harness.clean_paths@);
    assert(first_path_error(paths, windows) is None);
    lemma_first_path_error_none(paths, windows);
    assert forall|i: int| 0 <= i < c.harness.clean_paths@.len() implies !escapes_checkout(
        #[trigger] c.harness.clean_paths@[i]@,
        windows,
    ) by {
        assert(paths[i] == c.harness.clean_paths@[i]@);
    }
}


/// When no path of `paths` could leave the checkout, none has an error.
proof fn lemma_first_path_error_all_clean(paths: Seq<Seq<char>>, windows: bool)
    requires
        forall|i: int| 0 <= i < paths.len() ==> !escapes_checkout(#[trigger] paths[i], windows),
    ensures
        first_path_error(paths, windows) is None,
    decreases paths.len(),
{
    if paths.len() > 0 {
        assert(!escapes_checkout(paths[0], windows));
        assert forall|i: int| 0 <= i < paths.drop_first().len() implies !escapes_checkout(
            #[trigger] paths.drop_first()[i],
            windows,
        ) by {
            assert(paths.drop_first()[i] == paths[i + 1]);
        }
        lemma_first_path_error_all_clean(paths.drop_first(), windows);
    }
}

/// A configuration is valid exactly when every one of its checks passes:
/// the source directory, the repository address, the port, the start,
/// install and build commands, the branch and remote names, every clean
/// path and the LM Studio address. So a valid configuration has a port
/// other than 0, an LM Studio address that begins with `http://` or
/// `https://` and holds no `@`, whitespace or NUL, a repository address
/// that begins with `https://`, `http://`, `ssh://` or `git@` and holds no
/// whitespace or NUL, commands with a program and no NUL, a branch and a
/// remote that are not blank, and clean paths that stay inside the
/// checkout.
pub proof fn law_valid_config_passes_every_check(c: AppConfig, windows: bool)
    ensures
        config_error(c, windows) is None <==> {
            &&& source_dir_error(c.harness.source_dir@, windows) is None
            &&& repo_url_error(c.harness.repo_url@) is None
            &&& port_error(c.harness.port) is None
            &&& command_error(c.harness.start_command.program@, string_views(c.harness.start_command.args@)) is None
            &&& command_error(c.harness.install_command.program@, string_views(c.harness.install_command.args@)) is None
            &&& command_error(c.harness.build_command.program@, string_views(c.harness.build_command.args@)) is None
            &&& trim(c.harness.branch@).len() > 0
            &&& trim(c.update.remote_name@).len() > 0
            &&& forall|i: int|
                0 <= i < c.harness.clean_paths@.len() ==> !escapes_checkout(
                    #[trigger] c.harness.clean_paths@[i]@,
                    windows,
                )
            &&& lm_url_error(c.lm_studio.api_url@) is None
        },
        config_error(c, windows) is None ==> {
            let api = trim(c.lm_studio.api_url@);
            &&& c.harness.port != 0
            &&& starts_with(api, "http://"@) || starts_with(api, "https://"@)
            &&& !api.contains('@')
            &&& !has_ws_or_nul(api)
            &&& trim(c.harness.start_command.program@).len() > 0
            &&& trim(c.harness.install_command.program@).len() > 0
            &&& trim(c.harness.build_command.program@).len() > 0
            &&& !c.harness.start_command.program@.contains('\0')
            &&& !c.harness.install_command.program@.contains('\0')
            &&& !c.harness.build_command.program@.contains('\0')
            &&& starts_with(trim(c.harness.repo_url@), "https://"@) || starts_with(trim(c.harness.repo_url@), "http://"@)
                || starts_with(trim(c.harness.repo_url@), "ssh://"@) || starts_with(trim(c.harness.repo_url@), "git@"@)
            &&& !has_ws_or_nul(trim(c.harness.repo_url@))
        },
        config_error(c, windows) matches Some(e) ==> (source_dir_error(c.harness.source_dir@, windows) == Some(e)
            || e == repo_url_message() || e == port_message() || e == program_message() || e
            == args_message() || e == branch_message() || e == lm_url_message() || (exists|i: int|
            0 <= i < c.harness.clean_paths@.len() && e == relative_path_prefix()
                + #[trigger] c.harness.clean_paths@[i]@)),
{
    let paths = string_views(c.harness.clean_paths@);
    if first_path_error(paths, windows) is None {
        lemma_first_path_error_none(paths, windows);
        assert forall|i: int| 0 <= i < c.harness.clean_paths@.len() implies !escapes_checkout(
            #[trigger] c.harness.clean_paths@[i]@,
            windows,
        ) by {
            assert(paths[i] == c.harness.clean_paths@[i]@);
        }
    }
    if forall|i: int|
        0 <= i < c.harness.clean_paths@.len() ==> !escapes_checkout(
            #[trigger] c.harness.clean_paths@[i]@,
            windows,
        ) {
        assert forall|i: int| 0 <= i < paths.len() implies !escapes_checkout(#[trigger] paths[i], windows) by {
            assert(paths[i] == c.harness.clean_paths@[i]@);
        }
        lemma_first_path_error_all_clean(paths, windows);
    }
    if first_path_error(paths, windows) is Some {
        lemma_first_path_error_names_a_path(paths, windows);
        let i = choose|i: int| 0 <= i < paths.len() && first_path_error(paths, windows) == Some(relative_path_prefix() + #[trigger] paths[i]);
        assert(paths[i] == c.harness.clean_paths@[i]@);
    }
}

/// The error of the first path with one names that path.
proof fn lemma_first_path_error_names_a_path(paths: Seq<Seq<char>>, windows: bool)
    requires
        first_path_error(paths, windows) is Some,
    ensures
        exists|i: int| 0 <= i < paths.len() && first_path_error(paths, windows) == Some(relative_path_prefix() + #[trigger] paths[i]),
    decreases paths.len(),
{
    if relative_path_error(paths[0], windows) is Some {
        assert(first_path_error(paths, windows) == Some(relative_path_prefix() + paths[0]));
    } else {
        lemma_first_path_error_names_a_path(paths.drop_first(), windows);
        let i = choose|i: int| 0 <= i < paths.drop_first().len() && first_path_error(paths.drop_first(), windows) == Some(relative_path_prefix() + #[trigger] paths.drop_first()[i]);
        assert(paths.drop_first()[i] == paths[i + 1]);
    }
}

} // verus!
