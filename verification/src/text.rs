//! Character-level text operations: the Unicode whitespace set, trimming,
//! prefix tests, substring search, splitting and decimal numbers.
//!
//! Every operation works on the characters of a string (its view, a
//! `Seq<char>`), and each comes with the spec function it computes.
use vstd::prelude::*;

verus! {

// ---------------------------------------------------------------------
// Conversions between strings and character vectors
// ---------------------------------------------------------------------

/// `String::push` appends one character.
pub assume_specification[ String::push ](s: &mut String, ch: char)
    ensures
        final(s)@ == old(s)@.push(ch),
;

/// The characters of `s`, in order.
pub fn chars_of(s: &str) -> (v: Vec<char>)
    ensures
        v@ == s@,
{
    let mut v: Vec<char> = Vec::new();
    for c in it: s.chars()
        invariant
            v@ == it.seq().take(it.index() as int),
    {
        v.push(c);
    }
    v
}

/// Appends the characters of `v` to `out`.
pub fn push_chars(out: &mut String, v: &Vec<char>)
    ensures
        final(out)@ == old(out)@ + v@,
{
    let n = v.len();
    let ghost start = out@;
    for i in 0..n
        invariant
            n == v.len(),
            out@ == start + v@.take(i as int),
    {
        out.push(v[i]);
        assert(v@.take(i + 1) =~= v@.take(i as int).push(v@[i as int]));
    }
    assert(v@.take(n as int) =~= v@);
}

/// A string holding the characters of `v`.
pub fn string_of(v: &Vec<char>) -> (s: String)
    ensures
        s@ == v@,
{
    let mut s = String::new();
    push_chars(&mut s, v);
    assert(s@ =~= v@);
    s
}

/// A string holding `a` followed by `b`.
pub fn concat2(a: &str, b: &str) -> (s: String)
    ensures
        s@ == a@ + b@,
{
    let mut s = String::from_str(a);
    s.append(b);
    s
}

/// A string holding `a`, `b` and `c`, in that order.
pub fn concat3(a: &str, b: &str, c: &str) -> (s: String)
    ensures
        s@ == a@ + b@ + c@,
{
    let mut s = String::from_str(a);
    s.append(b);
    s.append(c);
    s
}

// ---------------------------------------------------------------------
// Whitespace and trimming
// ---------------------------------------------------------------------

/// The characters with the Unicode `White_Space` property, the set that
/// `char::is_whitespace` tests.
pub open spec fn is_ws(c: char) -> bool {
    let n = c as u32;
    ||| 0x09 <= n <= 0x0d
    ||| n == 0x20
    ||| n == 0x85
    ||| n == 0xa0
    ||| n == 0x1680
    ||| 0x2000 <= n <= 0x200a
    ||| n == 0x2028
    ||| n == 0x2029
    ||| n == 0x202f
    ||| n == 0x205f
    ||| n == 0x3000
}

/// Whether `c` is Unicode whitespace.
pub fn is_whitespace(c: char) -> (b: bool)
    ensures
        b == is_ws(c),
{
    let n = c as u32;
    (0x09 <= n && n <= 0x0d) || n == 0x20 || n == 0x85 || n == 0xa0 || n == 0x1680 || (0x2000
        <= n && n <= 0x200a) || n == 0x2028 || n == 0x2029 || n == 0x202f || n == 0x205f || n
        == 0x3000
}

/// `s` without its leading whitespace.
pub open spec fn trim_start(s: Seq<char>) -> Seq<char>
    decreases s.len(),
{
    if s.len() > 0 && is_ws(s[0]) {
        trim_start(s.drop_first())
    } else {
        s
    }
}

/// `s` without its trailing whitespace.
pub open spec fn trim_end(s: Seq<char>) -> Seq<char>
    decreases s.len(),
{
    if s.len() > 0 && is_ws(s.last()) {
        trim_end(s.drop_last())
    } else {
        s
    }
}

/// `s` without leading and trailing whitespace, as `str::trim` gives it.
pub open spec fn trim(s: Seq<char>) -> Seq<char> {
    trim_end(trim_start(s))
}

/// Leading whitespace in front of a part that starts without any is taken
/// from the front part alone.
pub proof fn lemma_trim_start_concat(a: Seq<char>, b: Seq<char>)
    requires
        b.len() > 0,
        !is_ws(b[0]),
    ensures
        trim_start(a + b) == trim_start(a) + b,
    decreases a.len(),
{
    if a.len() == 0 {
        assert(a + b =~= b);
        assert(trim_start(a) =~= a);
    } else {
        assert((a + b)[0] == a[0]);
        if is_ws(a[0]) {
            assert((a + b).drop_first() =~= a.drop_first() + b);
            lemma_trim_start_concat(a.drop_first(), b);
        }
    }
}

/// What `trim_start` keeps is the end of `s`.
pub proof fn lemma_trim_start_suffix(s: Seq<char>) -> (k: int)
    ensures
        0 <= k <= s.len(),
        trim_start(s) == s.subrange(k, s.len() as int),
        forall|i: int| 0 <= i < k ==> is_ws(#[trigger] s[i]),
    decreases s.len(),
{
    if s.len() > 0 && is_ws(s[0]) {
        let k1 = lemma_trim_start_suffix(s.drop_first());
        assert(s.drop_first().subrange(k1, s.drop_first().len() as int) =~= s.subrange(k1 + 1, s.len() as int));
        assert forall|i: int| 0 <= i < k1 + 1 implies is_ws(#[trigger] s[i]) by {
            if i > 0 {
                assert(s[i] == s.drop_first()[i - 1]);
            }
        }
        k1 + 1
    } else {
        assert(s.subrange(0, s.len() as int) =~= s);
        0
    }
}

/// A text with no whitespace at either end is its own trimmed form.
pub proof fn lemma_trim_plain(s: Seq<char>)
    requires
        s.len() > 0,
        !is_ws(s[0]),
        !is_ws(s.last()),
    ensures
        trim(s) == s,
{
}

/// The positions `[start, end)` of `s` that `trim` keeps.
pub fn trim_bounds(s: &Vec<char>) -> (r: (usize, usize))
    ensures
        r.0 <= r.1 <= s.len(),
        s@.subrange(r.0 as int, r.1 as int) == trim(s@),
{
    let n = s.len();
    let mut a: usize = 0;
    assert(s@.subrange(0, n as int) =~= s@);
    while a < n && is_whitespace(s[a])
        invariant
            a <= n == s.len(),
            trim_start(s@) == trim_start(s@.subrange(a as int, n as int)),
        decreases n - a,
    {
        assert(s@.subrange(a as int, n as int).drop_first() =~= s@.subrange(a + 1, n as int));
        a = a + 1;
    }
    assert(trim_start(s@.subrange(a as int, n as int)) == s@.subrange(a as int, n as int));
    let mut b: usize = n;
    while b > a && is_whitespace(s[b - 1])
        invariant
            a <= b <= n == s.len(),
            trim(s@) == trim_end(s@.subrange(a as int, b as int)),
        decreases b,
    {
        assert(s@.subrange(a as int, b as int).drop_last() =~= s@.subrange(a as int, b - 1));
        b = b - 1;
    }
    (a, b)
}

/// The characters of `s` without leading and trailing whitespace.
pub fn trimmed(s: &Vec<char>) -> (t: Vec<char>)
    ensures
        t@ == trim(s@),
{
    let (a, b) = trim_bounds(s);
    slice_vec(s, a, b)
}

/// The characters of `s` in positions `[a, b)`.
pub fn slice_vec(s: &Vec<char>, a: usize, b: usize) -> (t: Vec<char>)
    requires
        a <= b <= s.len(),
    ensures
        t@ == s@.subrange(a as int, b as int),
{
    let mut t: Vec<char> = Vec::new();
    let mut i = a;
    while i < b
        invariant
            a <= i <= b <= s.len(),
            t@ == s@.subrange(a as int, i as int),
        decreases b - i,
    {
        t.push(s[i]);
        assert(s@.subrange(a as int, i + 1) =~= s@.subrange(a as int, i as int).push(s@[i as int]));
        i = i + 1;
    }
    t
}

// ---------------------------------------------------------------------
// Prefixes, characters and substrings
// ---------------------------------------------------------------------

/// Whether `s` begins with `p`.
pub open spec fn starts_with(s: Seq<char>, p: Seq<char>) -> bool {
    p.len() <= s.len() && s.subrange(0, p.len() as int) == p
}

/// Whether `a` and `b` hold the same characters.
pub fn str_equals(a: &str, b: &str) -> (r: bool)
    ensures
        r == (a@ == b@),
{
    let x = chars_of(a);
    let y = chars_of(b);
    if x.len() != y.len() {
        return false;
    }
    let n = x.len();
    for i in 0..n
        invariant
            n == x.len() == y.len(),
            x@ == a@,
            y@ == b@,
            forall|j: int| 0 <= j < i ==> x@[j] == y@[j],
    {
        if x[i] != y[i] {
            assert(x@[i as int] != y@[i as int]);
            return false;
        }
    }
    assert(x@ =~= y@);
    true
}

/// Whether `p` stands in `t` at position `i`.
pub open spec fn occurs_at(t: Seq<char>, p: Seq<char>, i: int) -> bool {
    0 <= i && i + p.len() <= t.len() && t.subrange(i, i + p.len()) == p
}

/// The position of the first occurrence of `p` in `t`, as `str::find`
/// gives it.
pub open spec fn find(t: Seq<char>, p: Seq<char>) -> Option<nat>
    decreases t.len(),
{
    if starts_with(t, p) {
        Some(0)
    } else if t.len() == 0 {
        None
    } else {
        match find(t.drop_first(), p) {
            Some(i) => Some(i + 1),
            None => None,
        }
    }
}

/// Whether `p` occurs anywhere in `t`.
pub open spec fn contains_seq(t: Seq<char>, p: Seq<char>) -> bool {
    exists|i: int| occurs_at(t, p, i)
}

/// What `find` gives: the first occurrence, or none at all.
pub proof fn lemma_find(t: Seq<char>, p: Seq<char>)
    ensures
        match find(t, p) {
            Some(i) => occurs_at(t, p, i as int) && forall|j: int| 0 <= j < i ==> !occurs_at(t, p, j),
            None => forall|j: int| !occurs_at(t, p, j),
        },
    decreases t.len(),
{
    if starts_with(t, p) {
        assert(t.subrange(0, p.len() as int) =~= t.subrange(0, 0 + p.len() as int));
    } else if t.len() == 0 {
        assert forall|j: int| !occurs_at(t, p, j) by {
            if occurs_at(t, p, j) {
                assert(j == 0 && p.len() == 0);
                assert(t.subrange(0, p.len() as int) =~= p);
            }
        }
    } else {
        lemma_find(t.drop_first(), p);
        assert forall|j: int| 0 <= j && occurs_at(t, p, j + 1) implies occurs_at(
            t.drop_first(),
            p,
            j,
        ) by {
            assert(t.drop_first().subrange(j, j + p.len()) =~= t.subrange(j + 1, j + 1 + p.len()));
        }
        assert forall|j: int| occurs_at(t.drop_first(), p, j) implies occurs_at(t, p, j + 1) by {
            assert(t.drop_first().subrange(j, j + p.len()) =~= t.subrange(j + 1, j + 1 + p.len()));
        }
        assert(!occurs_at(t, p, 0)) by {
            if occurs_at(t, p, 0) {
                assert(t.subrange(0, 0 + p.len() as int) =~= t.subrange(0, p.len() as int));
            }
        }
        match find(t.drop_first(), p) {
            Some(i) => {
                assert forall|j: int| 0 <= j < i + 1 implies !occurs_at(t, p, j) by {
                    if j > 0 {
                        if occurs_at(t, p, j) {
                            assert(occurs_at(t.drop_first(), p, j - 1));
                        }
                    }
                }
            },
            None => {
                assert forall|j: int| !occurs_at(t, p, j) by {
                    if j > 0 && occurs_at(t, p, j) {
                        assert(occurs_at(t.drop_first(), p, j - 1));
                    }
                }
            },
        }
    }
}

/// Whether `p` stands in `t` at position `i`.
pub fn matches_at(t: &Vec<char>, p: &Vec<char>, i: usize) -> (b: bool)
    ensures
        b == occurs_at(t@, p@, i as int),
{
    if i > t.len() || p.len() > t.len() - i {
        return false;
    }
    let m = p.len();
    let mut k: usize = 0;
    while k < m
        invariant
            m == p.len(),
            i + m <= t.len(),
            k <= m,
            forall|j: int| 0 <= j < k ==> t@[i + j] == p@[j],
        decreases m - k,
    {
        if t[i + k] != p[k] {
            assert(t@.subrange(i as int, i + m)[k as int] != p@[k as int]);
            return false;
        }
        k = k + 1;
    }
    assert(t@.subrange(i as int, i + m) =~= p@);
    true
}

/// Whether `s` begins with `p`.
pub fn has_prefix(s: &Vec<char>, p: &Vec<char>) -> (b: bool)
    ensures
        b == starts_with(s@, p@),
{
    let b = matches_at(s, p, 0);
    proof {
        if b {
            assert(s@.subrange(0, 0 + p@.len() as int) =~= s@.subrange(0, p@.len() as int));
        }
        if starts_with(s@, p@) {
            assert(s@.subrange(0, 0 + p@.len() as int) =~= s@.subrange(0, p@.len() as int));
        }
    }
    b
}

/// Whether the string `s` begins with the string `p`.
pub fn str_starts_with(s: &Vec<char>, p: &str) -> (b: bool)
    ensures
        b == starts_with(s@, p@),
{
    let pv = chars_of(p);
    has_prefix(s, &pv)
}

/// The first position at or after `from` where `p` stands in `t`.
pub fn find_from(t: &Vec<char>, p: &Vec<char>, from: usize) -> (r: Option<usize>)
    requires
        from <= t.len(),
    ensures
        match find(t@.subrange(from as int, t@.len() as int), p@) {
            Some(k) => r is Some && r->0 == from + k,
            None => r is None,
        },
{
    let n = t.len();
    let ghost whole = t@.subrange(from as int, n as int);
    let mut i = from;
    loop
        invariant
            from <= i <= n == t.len(),
            whole == t@.subrange(from as int, n as int),
            match find(whole, p@) {
                Some(k) => match find(t@.subrange(i as int, n as int), p@) {
                    Some(k2) => k == k2 + (i - from),
                    None => false,
                },
                None => find(t@.subrange(i as int, n as int), p@) is None,
            },
        decreases n - i,
    {
        let ghost rest = t@.subrange(i as int, n as int);
        if matches_at(t, p, i) {
            assert(rest.subrange(0, p@.len() as int) =~= t@.subrange(i as int, i + p@.len()));
            assert(find(rest, p@) == Some(0nat));
            return Some(i);
        }
        if i == n {
            assert(rest.len() == 0);
            proof {
                if starts_with(rest, p@) {
                    assert(rest.subrange(0, p@.len() as int) =~= t@.subrange(i as int, i + p@.len()));
                }
            }
            return None;
        }
        proof {
            if starts_with(rest, p@) {
                assert(rest.subrange(0, p@.len() as int) =~= t@.subrange(i as int, i + p@.len()));
            }
            assert(rest.drop_first() =~= t@.subrange(i + 1, n as int));
        }
        i = i + 1;
    }
}

/// Whether `c` occurs in `s`.
pub fn has_char(s: &Vec<char>, c: char) -> (b: bool)
    ensures
        b == s@.contains(c),
{
    let n = s.len();
    for i in 0..n
        invariant
            n == s.len(),
            forall|j: int| 0 <= j < i ==> s@[j] != c,
    {
        if s[i] == c {
            return true;
        }
    }
    false
}

/// Whether some character of `s` is whitespace or NUL.
pub open spec fn has_ws_or_nul(s: Seq<char>) -> bool {
    exists|i: int| 0 <= i < s.len() && (is_ws(#[trigger] s[i]) || s[i] == '\0')
}

/// Whether some character of `s` is whitespace or NUL.
pub fn any_ws_or_nul(s: &Vec<char>) -> (b: bool)
    ensures
        b == has_ws_or_nul(s@),
{
    let n = s.len();
    for i in 0..n
        invariant
            n == s.len(),
            forall|j: int| 0 <= j < i ==> !(is_ws(#[trigger] s@[j]) || s@[j] == '\0'),
    {
        if is_whitespace(s[i]) || s[i] == '\0' {
            return true;
        }
    }
    false
}

// ---------------------------------------------------------------------
// Splitting
// ---------------------------------------------------------------------

/// The character sequences that the vectors of `v` hold.
pub open spec fn views(v: Seq<Vec<char>>) -> Seq<Seq<char>> {
    v.map_values(|x: Vec<char>| x@)
}

/// The pieces of `s` between the characters `c`, as `str::split` gives
/// them: always at least one piece, empty pieces included.
pub open spec fn split_char(s: Seq<char>, c: char) -> Seq<Seq<char>>
    decreases s.len(),
{
    if s.len() == 0 {
        seq![Seq::empty()]
    } else {
        let p = split_char(s.drop_last(), c);
        if s.last() == c {
            p.push(Seq::empty())
        } else {
            p.update(p.len() - 1, p.last().push(s.last()))
        }
    }
}

/// `split_char` gives at least one piece.
pub proof fn lemma_split_char_len(s: Seq<char>, c: char)
    ensures
        split_char(s, c).len() >= 1,
    decreases s.len(),
{
    if s.len() > 0 {
        lemma_split_char_len(s.drop_last(), c);
    }
}

/// Splitting `s + w`, where `w` holds no `c`, extends the last piece of `s`
/// by `w`.
pub proof fn lemma_split_char_append(s: Seq<char>, w: Seq<char>, c: char)
    requires
        !w.contains(c),
    ensures
        split_char(s + w, c).len() == split_char(s, c).len(),
        split_char(s + w, c).last() == split_char(s, c).last() + w,
        split_char(s + w, c).drop_last() == split_char(s, c).drop_last(),
    decreases w.len(),
{
    lemma_split_char_len(s, c);
    if w.len() == 0 {
        assert(s + w =~= s);
        assert(split_char(s, c).last() + w =~= split_char(s, c).last());
    } else {
        let w0 = w.drop_last();
        assert(!w0.contains(c)) by {
            if w0.contains(c) {
                let i = choose|i: int| 0 <= i < w0.len() && w0[i] == c;
                assert(w[i] == c);
            }
        }
        lemma_split_char_append(s, w0, c);
        assert((s + w).drop_last() =~= s + w0);
        assert((s + w).last() == w.last());
        assert(w.last() != c) by {
            assert(w[w.len() - 1] == w.last());
        }
        lemma_split_char_len(s + w0, c);
        let p = split_char(s + w0, c);
        assert(split_char(s + w, c) == p.update(p.len() - 1, p.last().push(w.last())));
        assert(p.last().push(w.last()) =~= split_char(s, c).last() + w);
        assert(p.update(p.len() - 1, p.last().push(w.last())).drop_last() =~= p.drop_last());
    }
}

/// The pieces of `s` between the characters `c`.
pub fn split_on(s: &Vec<char>, c: char) -> (r: Vec<Vec<char>>)
    ensures
        views(r@) == split_char(s@, c),
{
    let n = s.len();
    let mut pieces: Vec<Vec<char>> = Vec::new();
    let mut cur: Vec<char> = Vec::new();
    for i in 0..n
        invariant
            n == s.len(),
            views(pieces@).push(cur@) == split_char(s@.take(i as int), c),
    {
        let ghost before = views(pieces@).push(cur@);
        assert(s@.take(i + 1).drop_last() =~= s@.take(i as int));
        assert(s@.take(i + 1).last() == s@[i as int]);
        proof {
            lemma_split_char_len(s@.take(i as int), c);
        }
        if s[i] == c {
            let done = cur;
            pieces.push(done);
            cur = Vec::new();
            assert(views(pieces@).push(cur@) =~= before.push(Seq::empty()));
        } else {
            cur.push(s[i]);
            assert(views(pieces@).push(cur@) =~= before.update(
                before.len() - 1,
                before.last().push(s@[i as int]),
            ));
        }
    }
    assert(s@.take(n as int) =~= s@);
    pieces.push(cur);
    pieces
}

/// The pieces of `s` between whitespace characters, empty pieces included.
pub open spec fn split_ws(s: Seq<char>) -> Seq<Seq<char>>
    decreases s.len(),
{
    if s.len() == 0 {
        seq![Seq::empty()]
    } else {
        let p = split_ws(s.drop_last());
        if is_ws(s.last()) {
            p.push(Seq::empty())
        } else {
            p.update(p.len() - 1, p.last().push(s.last()))
        }
    }
}

/// The non-empty pieces of `p`, in order.
pub open spec fn non_empty(p: Seq<Seq<char>>) -> Seq<Seq<char>>
    decreases p.len(),
{
    if p.len() == 0 {
        Seq::empty()
    } else if p.last().len() == 0 {
        non_empty(p.drop_last())
    } else {
        non_empty(p.drop_last()).push(p.last())
    }
}

/// The words of `s`, as `str::split_whitespace` gives them.
pub open spec fn words(s: Seq<char>) -> Seq<Seq<char>> {
    non_empty(split_ws(s))
}

proof fn lemma_split_ws_len(s: Seq<char>)
    ensures
        split_ws(s).len() >= 1,
    decreases s.len(),
{
    if s.len() > 0 {
        lemma_split_ws_len(s.drop_last());
    }
}

/// The words of `s`.
pub fn words_of(s: &Vec<char>) -> (r: Vec<Vec<char>>)
    ensures
        views(r@) == words(s@),
{
    let n = s.len();
    let mut pieces: Vec<Vec<char>> = Vec::new();
    let mut cur: Vec<char> = Vec::new();
    for i in 0..n
        invariant
            n == s.len(),
            views(pieces@).push(cur@) == split_ws(s@.take(i as int)),
    {
        let ghost before = views(pieces@).push(cur@);
        assert(s@.take(i + 1).drop_last() =~= s@.take(i as int));
        assert(s@.take(i + 1).last() == s@[i as int]);
        proof {
            lemma_split_ws_len(s@.take(i as int));
        }
        if is_whitespace(s[i]) {
            let done = cur;
            pieces.push(done);
            cur = Vec::new();
            assert(views(pieces@).push(cur@) =~= before.push(Seq::empty()));
        } else {
            cur.push(s[i]);
            assert(views(pieces@).push(cur@) =~= before.update(
                before.len() - 1,
                before.last().push(s@[i as int]),
            ));
        }
    }
    assert(s@.take(n as int) =~= s@);
    let ghost before_push = views(pieces@).push(cur@);
    pieces.push(cur);
    assert(views(pieces@) =~= before_push);
    let ghost all = views(pieces@);
    let m = pieces.len();
    let mut out: Vec<Vec<char>> = Vec::new();
    for k in 0..m
        invariant
            m == pieces.len(),
            all == views(pieces@),
            views(out@) == non_empty(all.take(k as int)),
    {
        assert(all.take(k + 1).drop_last() =~= all.take(k as int));
        assert(all.take(k + 1).last() == pieces[k as int]@);
        if pieces[k].len() > 0 {
            let w = slice_vec(&pieces[k], 0, pieces[k].len());
            assert(w@ =~= pieces[k as int]@);
            let ghost prev = views(out@);
            out.push(w);
            assert(views(out@) =~= prev.push(w@));
        }
    }
    assert(all.take(m as int) =~= all);
    out
}

// ---------------------------------------------------------------------
// Decimal numbers
// ---------------------------------------------------------------------

/// Whether `c` is an ASCII digit.
pub open spec fn is_digit(c: char) -> bool {
    '0' <= c && c <= '9'
}

/// The value of the digit `c`.
pub open spec fn digit_value(c: char) -> nat {
    (c as u32 - '0' as u32) as nat
}

/// The character of the digit `d`.
pub open spec fn digit_char(d: nat) -> char {
    ((d + 48) as u8) as char
}

/// Whether `s` is a non-empty run of ASCII digits.
pub open spec fn all_digits(s: Seq<char>) -> bool {
    s.len() > 0 && forall|i: int| 0 <= i < s.len() ==> is_digit(#[trigger] s[i])
}

/// The value of the decimal numeral `s`.
pub open spec fn numeral_value(s: Seq<char>) -> nat
    decreases s.len(),
{
    if s.len() == 0 {
        0
    } else {
        numeral_value(s.drop_last()) * 10 + digit_value(s.last())
    }
}

/// What `str::parse` gives for an unsigned type whose largest value is
/// `max`: an optional `+` sign, then one or more ASCII digits, whose value
/// must not exceed `max`.
pub open spec fn parse_unsigned(s: Seq<char>, max: nat) -> Option<nat> {
    let d = if s.len() > 0 && s[0] == '+' {
        s.drop_first()
    } else {
        s
    };
    if all_digits(d) && numeral_value(d) <= max {
        Some(numeral_value(d))
    } else {
        None
    }
}

proof fn lemma_numeral_prefix(s: Seq<char>, k: int)
    requires
        0 <= k <= s.len(),
        forall|i: int| 0 <= i < s.len() ==> is_digit(#[trigger] s[i]),
    ensures
        numeral_value(s.take(k)) <= numeral_value(s),
    decreases s.len() - k,
{
    if k < s.len() {
        lemma_numeral_prefix(s, k + 1);
        assert(s.take(k + 1).drop_last() =~= s.take(k));
    } else {
        assert(s.take(k) =~= s);
    }
}

/// The number that the digits `s[from..]` spell, if they are all digits and
/// their value is at most `max`.
fn parse_digits(s: &Vec<char>, from: usize, max: u64) -> (r: Option<u64>)
    requires
        from <= s.len(),
    ensures
        ({
            let d = s@.subrange(from as int, s@.len() as int);
            match r {
                Some(v) => all_digits(d) && numeral_value(d) <= max && v == numeral_value(d),
                None => !(all_digits(d) && numeral_value(d) <= max),
            }
        }),
{
    let n = s.len();
    let ghost d = s@.subrange(from as int, n as int);
    if from == n {
        return None;
    }
    let mut acc: u64 = 0;
    let mut i = from;
    while i < n
        invariant
            from <= i <= n == s.len(),
            d == s@.subrange(from as int, n as int),
            acc <= max,
            acc == numeral_value(d.take(i - from)),
            forall|j: int| 0 <= j < i - from ==> is_digit(#[trigger] d[j]),
        decreases n - i,
    {
        let c = s[i];
        if !('0' <= c && c <= '9') {
            assert(!is_digit(d[i - from]));
            return None;
        }
        let dv = (c as u32 - '0' as u32) as u64;
        assert(d.take(i + 1 - from).drop_last() =~= d.take(i - from));
        assert(d.take(i + 1 - from).last() == c);
        let next: u128 = acc as u128 * 10 + dv as u128;
        if next > max as u128 {
            proof {
                assert forall|j: int| 0 <= j < i + 1 - from implies is_digit(
                    #[trigger] d.take(i + 1 - from)[j],
                ) by {
                    assert(d.take(i + 1 - from)[j] == d[j]);
                }
                if all_digits(d) {
                    assert forall|j: int| 0 <= j < d.len() implies is_digit(#[trigger] d[j]) by {}
                    lemma_numeral_prefix(d, i + 1 - from);
                }
            }
            return None;
        }
        acc = next as u64;
        i = i + 1;
    }
    assert(d.take(n - from) =~= d);
    Some(acc)
}

/// `str::parse` into an unsigned number whose largest value is `max`.
pub fn parse_number(s: &Vec<char>, max: u64) -> (r: Option<u64>)
    ensures
        match parse_unsigned(s@, max as nat) {
            Some(v) => r == Some(v as u64),
            None => r is None,
        },
{
    if s.len() > 0 && s[0] == '+' {
        assert(s@.subrange(1, s@.len() as int) =~= s@.drop_first());
        parse_digits(s, 1, max)
    } else {
        assert(s@.subrange(0, s@.len() as int) =~= s@);
        parse_digits(s, 0, max)
    }
}

/// The decimal numeral of `n`, as `to_string` writes it.
pub open spec fn decimal(n: nat) -> Seq<char>
    decreases n,
{
    if n < 10 {
        seq![digit_char(n)]
    } else {
        decimal(n / 10).push(digit_char(n % 10))
    }
}

/// A digit below ten is written as an ASCII digit of that value.
proof fn lemma_digit_char(d: nat)
    requires
        d < 10,
    ensures
        is_digit(digit_char(d)),
        digit_value(digit_char(d)) == d,
{
    let x: u8 = (d + 48) as u8;
    assert(x == d + 48);
    assert(digit_char(d) == x as char);
    assert((x as char) as u32 == x);
}

/// The decimal numeral of `n` is a run of digits whose value is `n`.
pub proof fn lemma_decimal(n: nat)
    ensures
        all_digits(decimal(n)),
        numeral_value(decimal(n)) == n,
    decreases n,
{
    if n < 10 {
        lemma_digit_char(n);
        let s = decimal(n);
        assert(s.drop_last() =~= Seq::<char>::empty());
        assert(numeral_value(s.drop_last()) == 0);
        assert(s.last() == digit_char(n));
    } else {
        lemma_decimal(n / 10);
        lemma_digit_char(n % 10);
        let s = decimal(n);
        assert(s.drop_last() =~= decimal(n / 10));
        assert(s.last() == digit_char((n % 10) as nat));
        assert(n == (n / 10) * 10 + n % 10) by (nonlinear_arith);
        assert forall|i: int| 0 <= i < s.len() implies is_digit(#[trigger] s[i]) by {
            if i < s.len() - 1 {
                assert(s[i] == decimal(n / 10)[i]);
            }
        }
    }
}

/// Appends the decimal numeral of `n` to `out`.
pub fn push_decimal(out: &mut String, n: u64)
    ensures
        final(out)@ == old(out)@ + decimal(n as nat),
    decreases n,
{
    let ghost start = out@;
    if n >= 10 {
        push_decimal(out, n / 10);
    }
    let d: u8 = (n % 10) as u8;
    let ch = (d + 48u8) as char;
    assert(ch == digit_char((n % 10) as nat));
    out.push(ch);
    proof {
        if n >= 10 {
            assert(out@ =~= start + decimal(n as nat));
        } else {
            assert(out@ =~= start + decimal(n as nat));
        }
    }
}

} // verus!
