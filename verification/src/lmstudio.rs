//! LM Studio: reading the configured endpoint URL into host, port and
//! path, the HTTP request sent to it, and what its answer means.
use vstd::prelude::*;
use crate::models::{LmStudioStatus, string_views};
use crate::text::{
    chars_of, concat2, find, find_from, lemma_find, parse_number, parse_unsigned, push_chars,
    slice_vec, starts_with, str_equals, str_starts_with, string_of,
};
use crate::validation::{lm_url_error, validate_lm_url};

verus! {

/// The position of the last `c` in `s`.
pub open spec fn rfind_char(s: Seq<char>, c: char) -> Option<nat>
    decreases s.len(),
{
    if s.len() == 0 {
        None
    } else if s.last() == c {
        Some((s.len() - 1) as nat)
    } else {
        rfind_char(s.drop_last(), c)
    }
}

/// Where `rfind_char` points: at a `c` within `s`.
pub proof fn lemma_rfind_char(s: Seq<char>, c: char)
    ensures
        match rfind_char(s, c) {
            Some(i) => i < s.len() && s[i as int] == c,
            None => true,
        },
    decreases s.len(),
{
    if s.len() > 0 && s.last() != c {
        lemma_rfind_char(s.drop_last(), c);
    }
}

/// The last `c` of `a + b`, when `b` holds none, is the last `c` of `a`.
pub proof fn lemma_rfind_char_skip(a: Seq<char>, b: Seq<char>, c: char)
    requires
        !b.contains(c),
    ensures
        rfind_char(a + b, c) == rfind_char(a, c),
    decreases b.len(),
{
    if b.len() == 0 {
        assert(a + b =~= a);
    } else {
        assert((a + b).last() == b.last());
        assert(b.last() != c) by {
            assert(b[b.len() - 1] == b.last());
        }
        assert((a + b).drop_last() =~= a + b.drop_last());
        assert(!b.drop_last().contains(c)) by {
            if b.drop_last().contains(c) {
                let i = choose|i: int| 0 <= i < b.drop_last().len() && b.drop_last()[i] == c;
                assert(b[i] == c);
            }
        }
        lemma_rfind_char_skip(a, b.drop_last(), c);
    }
}

/// The position of the last `c` in `s`.
pub fn rfind_char_exec(s: &Vec<char>, c: char) -> (r: Option<usize>)
    ensures
        match rfind_char(s@, c) {
            Some(i) => r == Some(i as usize),
            None => r is None,
        },
{
    let mut k = s.len();
    assert(s@.take(k as int) =~= s@);
    while k > 0
        invariant
            k <= s.len(),
            rfind_char(s@, c) == rfind_char(s@.take(k as int), c),
        decreases k,
    {
        assert(s@.take(k as int).drop_last() =~= s@.take(k - 1));
        if s[k - 1] == c {
            return Some(k - 1);
        }
        k = k - 1;
    }
    None
}

/// Where an LM Studio URL points: host, port and path.
pub open spec fn lm_target(url: Seq<char>) -> Result<(Seq<char>, u16, Seq<char>), Seq<char>> {
    if lm_url_error(url) is Some {
        Err(lm_url_error(url)->0)
    } else {
        match find(url, "://"@) {
            None => Err("LM Studio URL 缺少协议"@),
            Some(i) => {
                let rest = url.subrange(i + 3int, url.len() as int);
                let (authority, path) = match find(rest, seq!['/']) {
                    Some(j) => (rest.subrange(0, j as int), rest.subrange(j + 1int, rest.len() as int)),
                    None => (rest, Seq::empty()),
                };
                let hp: Result<(Seq<char>, u16), Seq<char>> = match rfind_char(authority, ':') {
                    Some(k) => match parse_unsigned(
                        authority.subrange(k + 1int, authority.len() as int),
                        u16::MAX as nat,
                    ) {
                        Some(p) => Ok((authority.subrange(0, k as int), p as u16)),
                        None => Err("LM Studio URL 端口无效"@),
                    },
                    None => Ok((authority, 80u16)),
                };
                match hp {
                    Err(e) => Err(e),
                    Ok((host, port)) => if host.len() == 0 || path.len() == 0 {
                        Err("LM Studio URL 缺少主机或路径"@)
                    } else {
                        Ok((host, port, seq!['/'] + path))
                    },
                }
            },
        }
    }
}

/// Host, port and path of an LM Studio URL, or why it cannot be used. The
/// port is 80 when the URL names none.
pub fn parse_lm_url(url: &str) -> (r: Result<(String, u16, String), String>)
    ensures
        match lm_target(url@) {
            Ok((h, p, path)) => r matches Ok((h2, p2, path2)) && h2@ == h && p2 == p && path2@
                == path,
            Err(e) => r matches Err(e2) && e2@ == e,
        },
{
    match validate_lm_url(url) {
        Err(e) => return Err(e),
        Ok(()) => {},
    }
    let u = chars_of(url);
    let sep = chars_of("://");
    proof {
        reveal_strlit("://");
        lemma_find(u@, sep@);
    }
    assert(sep@.len() == 3);
    assert(u@.subrange(0, u@.len() as int) =~= u@);
    let i = match find_from(&u, &sep, 0) {
        None => return Err(String::from_str("LM Studio URL 缺少协议")),
        Some(i) => i,
    };
    assert(crate::text::occurs_at(u@, sep@, i as int));
    assert(i + 3 <= u.len());
    let rest = slice_vec(&u, i + 3, u.len());
    let slash = vec!['/'];
    assert(slash@ =~= seq!['/']);
    proof {
        lemma_find(rest@, slash@);
    }
    assert(rest@.subrange(0, rest@.len() as int) =~= rest@);
    let (authority, path) = match find_from(&rest, &slash, 0) {
        Some(j) => (slice_vec(&rest, 0, j), slice_vec(&rest, j + 1, rest.len())),
        None => (slice_vec(&rest, 0, rest.len()), Vec::new()),
    };
    proof {
        lemma_rfind_char(authority@, ':');
    }
    let (host, port) = match rfind_char_exec(&authority, ':') {
        Some(k) => {
            let port_text = slice_vec(&authority, k + 1, authority.len());
            match parse_number(&port_text, 0xffff) {
                Some(p) => (slice_vec(&authority, 0, k), p as u16),
                None => return Err(String::from_str("LM Studio URL 端口无效")),
            }
        },
        None => (slice_vec(&authority, 0, authority.len()), 80u16),
    };
    if host.len() == 0 || path.len() == 0 {
        return Err(String::from_str("LM Studio URL 缺少主机或路径"));
    }
    let mut p = String::new();
    p.push('/');
    push_chars(&mut p, &path);
    assert(p@ =~= seq!['/'] + path@);
    Ok((string_of(&host), port, p))
}

/// The HTTP request for the model list.
pub open spec fn lm_request(host: Seq<char>, path: Seq<char>) -> Seq<char> {
    "GET "@ + path + " HTTP/1.1\r\nHost: "@ + host + "\r\nConnection: close\r\n\r\n"@
}

/// The HTTP request for the model list at `path` on `host`.
pub fn lm_request_text(host: &str, path: &str) -> (r: String)
    ensures
        r@ == lm_request(host@, path@),
{
    let mut r = String::from_str("GET ");
    r.append(path);
    r.append(" HTTP/1.1\r\nHost: ");
    r.append(host);
    r.append("\r\nConnection: close\r\n\r\n");
    r
}

// ---------------------------------------------------------------------
// The answer
// ---------------------------------------------------------------------

/// The header and body of an HTTP response: the text before and after the
/// first blank line, or no header at all.
pub open spec fn response_parts(response: Seq<char>) -> (Seq<char>, Seq<char>) {
    match find(response, "\r\n\r\n"@) {
        Some(i) => (response.subrange(0, i as int), response.subrange(i + 4int, response.len() as int)),
        None => (Seq::empty(), response),
    }
}

/// Whether the status line in `headers` reports success.
pub open spec fn status_ok(headers: Seq<char>) -> bool {
    starts_with(headers, "HTTP/1.1 2"@) || starts_with(headers, "HTTP/2 2"@)
}

/// The first line of `h`, as `str::lines` gives it.
pub open spec fn first_line(h: Seq<char>) -> Option<Seq<char>> {
    if h.len() == 0 {
        None
    } else {
        match find(h, seq!['\n']) {
            Some(i) => {
                let l = h.subrange(0, i as int);
                Some(
                    if l.len() > 0 && l.last() == '\r' {
                        l.drop_last()
                    } else {
                        l
                    },
                )
            },
            None => Some(h),
        }
    }
}

/// The error reported for a response whose status is not a success.
pub open spec fn bad_status_message(headers: Seq<char>) -> Seq<char> {
    "LM Studio 返回异常状态: "@ + match first_line(headers) {
        Some(l) => l,
        None => "未知"@,
    }
}

/// The status of an endpoint that could not be reached or used.
pub open spec fn is_failure_status(s: LmStudioStatus, url: Seq<char>, error: Seq<char>, checked_at: Seq<char>) -> bool {
    &&& !s.reachable
    &&& s.api_url@ == url
    &&& s.models.len() == 0
    &&& s.error matches Some(e) && e@ == error
    &&& s.checked_at@ == checked_at
}

/// The status of an endpoint that could not be reached or used, with the
/// error that says why.
pub fn lm_failure_status(url: &str, error: String, checked_at: String) -> (s: LmStudioStatus)
    ensures
        is_failure_status(s, url@, error@, checked_at@),
{
    LmStudioStatus {
        reachable: false,
        api_url: String::from_str(url),
        models: Vec::new(),
        error: Some(error),
        checked_at,
    }
}

/// The error reported when the endpoint cannot be reached.
pub fn unreachable_message(error: &str) -> (m: String)
    ensures
        m@ == "LM Studio API 不可达: "@ + error@,
{
    concat2("LM Studio API 不可达: ", error)
}

/// A JSON value, held as plain values: numbers as `serde_json` prints
/// them, objects as their fields in the order `serde_json` keeps them.
#[derive(Debug)]
pub enum JsonTree {
    Null,
    Bool(bool),
    Number(String),
    Text(String),
    Array(Vec<JsonTree>),
    Object(Vec<(String, JsonTree)>),
}

/// A JSON value, as `serde_json` reads it.
#[verifier::external_type_specification]
#[verifier::external_body]
pub struct ExJsonValue(serde_json::Value);

/// The JSON value that `text` holds, as `serde_json::from_str` reads it,
/// or none when it holds none.
pub uninterp spec fn json_tree(text: Seq<char>) -> Option<JsonTree>;

/// `serde_json::from_str::<Value>`, its value converted into a `JsonTree`.
/// What it reads depends on `text` alone.
#[verifier::external_body]
fn parse_json_tree(text: &str) -> (r: Option<JsonTree>)
    ensures
        r == json_tree(text@),
{
    serde_json::from_str::<serde_json::Value>(text).ok().map(tree_of)
}

/// A `serde_json::Value` as a `JsonTree`, variant for variant.
#[verifier::external_body]
fn tree_of(value: serde_json::Value) -> JsonTree {
    match value {
        serde_json::Value::Null => JsonTree::Null,
        serde_json::Value::Bool(b) => JsonTree::Bool(b),
        serde_json::Value::Number(n) => JsonTree::Number(n.to_string()),
        serde_json::Value::String(t) => JsonTree::Text(t),
        serde_json::Value::Array(items) => JsonTree::Array(items.into_iter().map(tree_of).collect()),
        serde_json::Value::Object(fields) => {
            JsonTree::Object(fields.into_iter().map(|(k, v)| (k, tree_of(v))).collect())
        },
    }
}

/// The value of the field `key` among `fields`, as `Value::get` finds it.
pub open spec fn field_of(fields: Seq<(String, JsonTree)>, key: Seq<char>) -> Option<JsonTree>
    decreases fields.len(),
{
    if fields.len() == 0 {
        None
    } else if fields[0].0@ == key {
        Some(fields[0].1)
    } else {
        field_of(fields.drop_first(), key)
    }
}

/// The field `key` of `t`, when `t` is an object that has one.
pub open spec fn get_field(t: JsonTree, key: Seq<char>) -> Option<JsonTree> {
    match t {
        JsonTree::Object(fields) => field_of(fields@, key),
        _ => None,
    }
}

/// The `id` of a model entry, when it is a string.
pub open spec fn item_id(t: JsonTree) -> Option<Seq<char>> {
    match get_field(t, "id"@) {
        Some(JsonTree::Text(s)) => Some(s@),
        _ => None,
    }
}

/// The string `id`s of `items`, in order; items without one are skipped.
pub open spec fn ids_of(items: Seq<JsonTree>) -> Seq<Seq<char>>
    decreases items.len(),
{
    if items.len() == 0 {
        Seq::empty()
    } else {
        let rest = ids_of(items.drop_last());
        match item_id(items.last()) {
            Some(s) => rest.push(s),
            None => rest,
        }
    }
}

/// The model ids of a model-list answer: the string `id`s of the items of
/// its `data` array, in order; none when it is no JSON or has no such
/// array.
pub open spec fn data_ids(t: Option<JsonTree>) -> Seq<Seq<char>> {
    match t {
        Some(v) => match get_field(v, "data"@) {
            Some(JsonTree::Array(items)) => ids_of(items@),
            _ => Seq::empty(),
        },
        None => Seq::empty(),
    }
}

/// The field `key` of `t`, when `t` is an object that has one.
fn field_ref<'a>(t: &'a JsonTree, key: &str) -> (r: Option<&'a JsonTree>)
    ensures
        match r {
            Some(x) => get_field(*t, key@) == Some(*x),
            None => get_field(*t, key@) is None,
        },
{
    match t {
        JsonTree::Object(fields) => {
            let n = fields.len();
            let mut i: usize = 0;
            assert(fields@.skip(0) =~= fields@);
            while i < n
                invariant
                    n == fields.len(),
                    i <= n,
                    get_field(*t, key@) == field_of(fields@, key@),
                    field_of(fields@, key@) == field_of(fields@.skip(i as int), key@),
                decreases n - i,
            {
                assert(fields@.skip(i as int).drop_first() =~= fields@.skip(i + 1));
                assert(fields@.skip(i as int)[0] == fields@[i as int]);
                if str_equals(fields[i].0.as_str(), key) {
                    assert(fields@.skip(i as int)[0].0@ == key@);
                    assert(field_of(fields@.skip(i as int), key@) == Some(fields@[i as int].1));
                    let found = &fields[i].1;
                    assert(*found == fields@[i as int].1);
                    return Some(found);
                }
                i = i + 1;
            }
            assert(fields@.skip(n as int) =~= Seq::<(String, JsonTree)>::empty());
            None
        },
        _ => None,
    }
}

/// The model ids of a parsed model-list answer: the string `id`s of the
/// items of its `data` array, in order, items without one skipped; none when
/// there is no tree or it has no such array.
pub fn models_of_tree(tree: &Option<JsonTree>) -> (models: Vec<String>)
    ensures
        string_views(models@) == data_ids(*tree),
{
    let top = match tree {
        Some(t) => t,
        None => return Vec::new(),
    };
    let items = match field_ref(top, "data") {
        Some(JsonTree::Array(items)) => items,
        _ => return Vec::new(),
    };
    let n = items.len();
    let mut models: Vec<String> = Vec::new();
    for i in 0..n
        invariant
            n == items.len(),
            string_views(models@) == ids_of(items@.take(i as int)),
    {
        assert(items@.take(i + 1).drop_last() =~= items@.take(i as int));
        assert(items@.take(i + 1).last() == items@[i as int]);
        match field_ref(&items[i], "id") {
            Some(JsonTree::Text(s)) => {
                let ghost before = string_views(models@);
                models.push(String::from_str(s.as_str()));
                assert(string_views(models@) =~= before.push(s@));
            },
            _ => {},
        }
    }
    assert(items@.take(n as int) =~= items@);
    models
}

/// The model ids in the body of a model-list response: the string `id`s of
/// the items of its `data` array, in order, items without one skipped; none
/// when the body is no JSON or has no such array.
pub fn response_models(body: &str) -> (models: Vec<String>)
    ensures
        string_views(models@) == data_ids(json_tree(body@)),
{
    let tree = parse_json_tree(body);
    models_of_tree(&tree)
}

/// The header check and the status that a response with this header and
/// body gives.
pub open spec fn response_status(s: LmStudioStatus, url: Seq<char>, response: Seq<char>, checked_at: Seq<char>) -> bool {
    let (headers, body) = response_parts(response);
    if status_ok(headers) {
        &&& s.reachable
        &&& s.api_url@ == url
        &&& s.error is None
        &&& s.checked_at@ == checked_at
        &&& string_views(s.models@) == data_ids(json_tree(body))
    } else {
        is_failure_status(s, url, bad_status_message(headers), checked_at)
    }
}

/// The status that the raw HTTP `response` of the endpoint `url` gives.
pub fn interpret_lm_response(url: &str, response: &str, checked_at: String) -> (s: LmStudioStatus)
    ensures
        response_status(s, url@, response@, checked_at@),
{
    let r = chars_of(response);
    let sep = chars_of("\r\n\r\n");
    proof {
        reveal_strlit("\r\n\r\n");
        lemma_find(r@, sep@);
    }
    assert(r@.subrange(0, r@.len() as int) =~= r@);
    let (headers, body) = match find_from(&r, &sep, 0) {
        Some(i) => (slice_vec(&r, 0, i), slice_vec(&r, i + 4, r.len())),
        None => (Vec::new(), slice_vec(&r, 0, r.len())),
    };
    assert(headers@ == response_parts(response@).0 && body@ == response_parts(response@).1);
    if str_starts_with(&headers, "HTTP/1.1 2") || str_starts_with(&headers, "HTTP/2 2") {
        let body_text = string_of(&body);
        let models = response_models(body_text.as_str());
        return LmStudioStatus {
            reachable: true,
            api_url: String::from_str(url),
            models,
            error: None,
            checked_at,
        };
    }
    let mut m = String::from_str("LM Studio 返回异常状态: ");
    if headers.len() == 0 {
        m.append("未知");
    } else {
        let nl = vec!['\n'];
        assert(nl@ =~= seq!['\n']);
        assert(headers@.subrange(0, headers@.len() as int) =~= headers@);
        proof {
            lemma_find(headers@, nl@);
        }
        match find_from(&headers, &nl, 0) {
            Some(i) => {
                let l = if i > 0 && headers[i - 1] == '\r' {
                    slice_vec(&headers, 0, i - 1)
                } else {
                    slice_vec(&headers, 0, i)
                };
                assert(l@ =~= first_line(headers@)->0);
                push_chars(&mut m, &l);
            },
            None => push_chars(&mut m, &headers),
        }
    }
    assert(m@ =~= bad_status_message(headers@));
    lm_failure_status(url, m, checked_at)
}


/// Only a success answer counts: the endpoint is reported reachable exactly
/// when the status line of the response (the text before its first blank
/// line) begins with `HTTP/1.1 2` or `HTTP/2 2`, and then without an error.
/// Any other answer (a 4xx or 5xx status, or no status line at all) is
/// reported unreachable, with no models and the error that names the status
/// line.
pub proof fn law_only_success_is_reachable(s: LmStudioStatus, url: Seq<char>, response: Seq<char>, checked_at: Seq<char>)
    requires
        response_status(s, url, response, checked_at),
    ensures
        s.reachable <==> (starts_with(response_parts(response).0, "HTTP/1.1 2"@) || starts_with(
            response_parts(response).0,
            "HTTP/2 2"@,
        )),
        s.reachable ==> s.error is None,
        !s.reachable ==> s.models.len() == 0,
        !s.reachable ==> (s.error matches Some(e) && e@ == "LM Studio 返回异常状态: "@ + match first_line(
            response_parts(response).0,
        ) {
            Some(l) => l,
            None => "未知"@,
        }),
        s.api_url@ == url,
{
}

} // verus!
