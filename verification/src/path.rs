//! A model of POSIX paths as `std::path` reads them: a path is the sequence
//! of its components, and the questions the library asks of paths (is it
//! absolute, has it a parent, what is its file name, does one path lie
//! under another, are two paths the same) are asked of that sequence.
use vstd::prelude::*;
use crate::text::{
    chars_of, lemma_split_char_len, push_chars, slice_vec, split_char, split_on, string_of, views,
};

verus! {

/// One component of a path.
pub enum Component {
    /// A Windows prefix (`C:`, `\\server\share`, `\\?\...`, `\\.\...`), by the
    /// value it stands for.
    Prefix(Seq<char>),
    /// The leading `/` of an absolute path.
    RootDir,
    /// A leading `.` of a relative path.
    CurDir,
    /// A `..` segment.
    ParentDir,
    /// Any other non-empty segment.
    Normal(Seq<char>),
}

/// One component of a path, held by the program.
pub enum PathComponent {
    Prefix(Vec<char>),
    RootDir,
    CurDir,
    ParentDir,
    Normal(Vec<char>),
}

impl PathComponent {
    /// The component this value stands for.
    pub open spec fn model(&self) -> Component {
        match self {
            PathComponent::Prefix(v) => Component::Prefix(v@),
            PathComponent::RootDir => Component::RootDir,
            PathComponent::CurDir => Component::CurDir,
            PathComponent::ParentDir => Component::ParentDir,
            PathComponent::Normal(v) => Component::Normal(v@),
        }
    }
}

/// The components that the values of `v` stand for.
pub open spec fn models(v: Seq<PathComponent>) -> Seq<Component> {
    v.map_values(|c: PathComponent| c.model())
}

/// Whether the path `s` begins at the root.
pub open spec fn has_root(s: Seq<char>) -> bool {
    s.len() > 0 && s[0] == '/'
}

/// The components that the `/`-separated segments `segs` give: empty and
/// `.` segments are left out, `..` is the parent directory.
pub open spec fn segment_components(segs: Seq<Seq<char>>) -> Seq<Component>
    decreases segs.len(),
{
    if segs.len() == 0 {
        Seq::empty()
    } else {
        let rest = segment_components(segs.drop_last());
        let g = segs.last();
        if g.len() == 0 || g == seq!['.'] {
            rest
        } else if g == seq!['.', '.'] {
            rest.push(Component::ParentDir)
        } else {
            rest.push(Component::Normal(g))
        }
    }
}

/// The components of the path `s`, as `Path::components` gives them on a
/// POSIX system.
pub open spec fn components(s: Seq<char>) -> Seq<Component> {
    let segs = split_char(s, '/');
    if has_root(s) {
        seq![Component::RootDir] + segment_components(segs.drop_first())
    } else if segs[0] == seq!['.'] {
        seq![Component::CurDir] + segment_components(segs.drop_first())
    } else {
        segment_components(segs)
    }
}

/// The components of a path without its last one, when the path has a
/// parent (`Path::parent`).
pub open spec fn parent_components(c: Seq<Component>) -> Option<Seq<Component>> {
    if c.len() > 0 && c.last() != Component::RootDir && !(c.last() is Prefix) {
        Some(c.drop_last())
    } else {
        None
    }
}

/// The last component of a path, when it is a name (`Path::file_name`).
pub open spec fn file_name_of(c: Seq<Component>) -> Option<Seq<char>> {
    if c.len() > 0 && c.last() is Normal {
        Some(c.last()->Normal_0)
    } else {
        None
    }
}

/// Whether the components `base` begin the components `c`
/// (`Path::starts_with`).
pub open spec fn components_start_with(c: Seq<Component>, base: Seq<Component>) -> bool {
    base.len() <= c.len() && c.subrange(0, base.len() as int) == base
}

fn segment_component(g: &Vec<char>) -> (r: Option<PathComponent>)
    ensures
        match r {
            Some(pc) => (g@.len() != 0 && g@ != seq!['.']) && pc.model() == (if g@ == seq!['.', '.'] {
                Component::ParentDir
            } else {
                Component::Normal(g@)
            }),
            None => g@.len() == 0 || g@ == seq!['.'],
        },
{
    if g.len() == 0 {
        return None;
    }
    if g.len() == 1 && g[0] == '.' {
        assert(g@ =~= seq!['.']);
        return None;
    }
    if g.len() == 2 && g[0] == '.' && g[1] == '.' {
        assert(g@ =~= seq!['.', '.']);
        return Some(PathComponent::ParentDir);
    }
    proof {
        if g@ == seq!['.'] {
            assert(g@[0] == '.');
        }
        if g@ == seq!['.', '.'] {
            assert(g@[0] == '.' && g@[1] == '.');
        }
    }
    let copy = slice_vec(g, 0, g.len());
    assert(copy@ =~= g@);
    Some(PathComponent::Normal(copy))
}

/// Appends to `out` the components of the segments `segs[from..]`.
fn push_segment_components(out: &mut Vec<PathComponent>, segs: &Vec<Vec<char>>, from: usize)
    requires
        from <= segs.len(),
    ensures
        models(final(out)@) == models(old(out)@) + segment_components(
            views(segs@).subrange(from as int, segs@.len() as int),
        ),
{
    let n = segs.len();
    let ghost start = models(out@);
    let ghost all = views(segs@).subrange(from as int, n as int);
    let mut i = from;
    while i < n
        invariant
            from <= i <= n == segs.len(),
            all == views(segs@).subrange(from as int, n as int),
            models(out@) == start + segment_components(all.take(i - from)),
        decreases n - i,
    {
        assert(all.take(i + 1 - from).drop_last() =~= all.take(i - from));
        assert(all.take(i + 1 - from).last() == segs@[i as int]@);
        let ghost before = models(out@);
        match segment_component(&segs[i]) {
            Some(pc) => {
                out.push(pc);
                assert(models(out@) =~= before.push(pc.model()));
            },
            None => {},
        }
        i = i + 1;
    }
    assert(all.take(n - from) =~= all);
}

/// The components of the path `s`.
pub fn components_of(s: &Vec<char>) -> (r: Vec<PathComponent>)
    ensures
        models(r@) == components(s@),
{
    let segs = split_on(s, '/');
    proof {
        lemma_split_char_len(s@, '/');
    }
    let mut out: Vec<PathComponent> = Vec::new();
    if s.len() > 0 && s[0] == '/' {
        out.push(PathComponent::RootDir);
        assert(models(out@) =~= seq![Component::RootDir]);
        push_segment_components(&mut out, &segs, 1);
        assert(views(segs@).subrange(1, segs@.len() as int) =~= split_char(s@, '/').drop_first());
    } else if segs[0].len() == 1 && segs[0][0] == '.' {
        assert(segs@[0]@ =~= seq!['.']);
        out.push(PathComponent::CurDir);
        assert(models(out@) =~= seq![Component::CurDir]);
        push_segment_components(&mut out, &segs, 1);
        assert(views(segs@).subrange(1, segs@.len() as int) =~= split_char(s@, '/').drop_first());
    } else {
        proof {
            if split_char(s@, '/')[0] == seq!['.'] {
                assert(segs@[0]@ == seq!['.']);
                assert(segs@[0]@[0] == '.');
            }
        }
        push_segment_components(&mut out, &segs, 0);
        assert(views(segs@).subrange(0, segs@.len() as int) =~= split_char(s@, '/'));
        assert(models(out@) =~= components(s@));
    }
    out
}

/// Whether `x` and `y` hold the same characters.
fn chars_equal(x: &Vec<char>, y: &Vec<char>) -> (r: bool)
    ensures
        r == (x@ == y@),
{
    if x.len() != y.len() {
        return false;
    }
    let n = x.len();
    for i in 0..n
        invariant
            n == x.len() == y.len(),
            forall|j: int| 0 <= j < i ==> x@[j] == y@[j],
    {
        if x[i] != y[i] {
            assert(x@[i as int] != y@[i as int]);
            return false;
        }
    }
    assert(x@ =~= y@);
    true
}

/// Whether two components are the same.
pub fn same_component(a: &PathComponent, b: &PathComponent) -> (r: bool)
    ensures
        r == (a.model() == b.model()),
{
    match (a, b) {
        (PathComponent::RootDir, PathComponent::RootDir) => true,
        (PathComponent::CurDir, PathComponent::CurDir) => true,
        (PathComponent::ParentDir, PathComponent::ParentDir) => true,
        (PathComponent::Prefix(x), PathComponent::Prefix(y)) => chars_equal(x, y),
        (PathComponent::Normal(x), PathComponent::Normal(y)) => chars_equal(x, y),
        _ => false,
    }
}

/// Whether the components `b` begin the components `a`.
pub fn components_prefix(a: &Vec<PathComponent>, b: &Vec<PathComponent>) -> (r: bool)
    ensures
        r == components_start_with(models(a@), models(b@)),
{
    if b.len() > a.len() {
        return false;
    }
    let n = b.len();
    for i in 0..n
        invariant
            n == b.len() <= a.len(),
            forall|j: int| 0 <= j < i ==> a@[j].model() == b@[j].model(),
    {
        if !same_component(&a[i], &b[i]) {
            assert(models(a@).subrange(0, n as int)[i as int] != models(b@)[i as int]);
            return false;
        }
    }
    assert(models(a@).subrange(0, n as int) =~= models(b@));
    true
}

/// Whether two component sequences are the same.
pub fn components_equal(a: &Vec<PathComponent>, b: &Vec<PathComponent>) -> (r: bool)
    ensures
        r == (models(a@) == models(b@)),
{
    if a.len() != b.len() {
        return false;
    }
    let r = components_prefix(a, b);
    assert(models(a@).subrange(0, models(b@).len() as int) =~= models(a@));
    r
}

/// Whether the path `path` lies at or under `base`, as `Path::starts_with`
/// decides it.
pub fn path_starts_with(path: &str, base: &str) -> (r: bool)
    ensures
        r == components_start_with(components(path@), components(base@)),
{
    let cp = components_of(&chars_of(path));
    let cb = components_of(&chars_of(base));
    components_prefix(&cp, &cb)
}


// ---------------------------------------------------------------------
// Windows paths
// ---------------------------------------------------------------------

/// Whether `c` separates components: `/`, on Windows also `\`; in a
/// verbatim (`\\?\`) Windows path only `\`.
pub open spec fn is_sep(c: char, windows: bool, verbatim: bool) -> bool {
    (windows && c == '\\') || (c == '/' && !verbatim)
}

fn is_sep_exec(c: char, windows: bool, verbatim: bool) -> (b: bool)
    ensures
        b == is_sep(c, windows, verbatim),
{
    (windows && c == '\\') || (c == '/' && !verbatim)
}

/// The kinds of Windows path prefix.
#[derive(Debug, Clone, Copy, PartialEq, Eq, Structural)]
pub enum PrefixKind {
    /// `\\?\name`
    Verbatim,
    /// `\\?\UNC\server\share`
    VerbatimUnc,
    /// `\\?\C:`
    VerbatimDisk,
    /// `\\.\name`
    DeviceNs,
    /// `\\server\share`
    Unc,
    /// `C:`
    Disk,
}

/// Whether paths with this prefix split on `\` only.
pub open spec fn is_verbatim(k: PrefixKind) -> bool {
    k == PrefixKind::Verbatim || k == PrefixKind::VerbatimUnc || k == PrefixKind::VerbatimDisk
}

/// Whether `c` is an ASCII letter.
pub open spec fn is_ascii_alpha(c: char) -> bool {
    ('a' <= c && c <= 'z') || ('A' <= c && c <= 'Z')
}

/// Where the component that starts at `i` ends: at the next separator, or
/// at the end of `s`.
pub open spec fn comp_end(s: Seq<char>, i: int, verbatim: bool) -> int
    decreases s.len() - i,
{
    if i >= s.len() {
        s.len() as int
    } else if is_sep(s[i], true, verbatim) {
        i
    } else {
        comp_end(s, i + 1, verbatim)
    }
}

/// The byte length of `c` in UTF-8.
pub open spec fn utf8_width(c: char) -> int {
    if (c as u32) < 0x80 {
        1
    } else if (c as u32) < 0x800 {
        2
    } else if (c as u32) < 0x10000 {
        3
    } else {
        4
    }
}

/// Whether a `/` starts within the first `budget` bytes of `s[i..]`.
pub open spec fn slash_in_bytes(s: Seq<char>, i: int, budget: int) -> bool
    decreases s.len() - i,
{
    if i >= s.len() || budget <= 0 || i < 0 {
        false
    } else if s[i] == '/' {
        true
    } else {
        slash_in_bytes(s, i + 1, budget - utf8_width(s[i]))
    }
}

/// The Windows prefix of `s` and its length, as `std::path` parses it.
pub open spec fn win_prefix(s: Seq<char>) -> Option<(PrefixKind, int)> {
    if s.len() >= 2 && is_sep(s[0], true, false) && is_sep(s[1], true, false) {
        if s.len() >= 4 && s[2] == '?' && is_sep(s[3], true, false) && !slash_in_bytes(s, 0, 8) {
            if s.len() >= 8 && s[4] == 'U' && s[5] == 'N' && s[6] == 'C' && s[7] == '\\' {
                let e1 = comp_end(s, 8, true);
                let st = if e1 < s.len() { e1 + 1 } else { e1 };
                let e2 = comp_end(s, st, true);
                Some((PrefixKind::VerbatimUnc, if e2 > st { e2 } else { e1 }))
            } else if s.len() >= 6 && is_ascii_alpha(s[4]) && s[5] == ':' && (s.len() == 6 || s[6] == '\\') {
                Some((PrefixKind::VerbatimDisk, 6))
            } else {
                Some((PrefixKind::Verbatim, comp_end(s, 4, true)))
            }
        } else if s.len() >= 4 && s[2] == '.' && is_sep(s[3], true, false) {
            Some((PrefixKind::DeviceNs, comp_end(s, 4, false)))
        } else {
            let e1 = comp_end(s, 2, false);
            let st = if e1 < s.len() { e1 + 1 } else { e1 };
            let e2 = comp_end(s, st, false);
            if e1 > 2 && e2 > st {
                Some((PrefixKind::Unc, e2))
            } else {
                None
            }
        }
    } else if s.len() >= 2 && is_ascii_alpha(s[0]) && s[1] == ':' {
        Some((PrefixKind::Disk, 2))
    } else {
        None
    }
}

/// `c` in upper case, when it is an ASCII lower-case letter.
pub open spec fn ascii_upper(c: char) -> char {
    if 'a' <= c && c <= 'z' {
        (((c as u32) - 32) as u8) as char
    } else {
        c
    }
}

/// `c` with `/` written as `\`.
pub open spec fn backslashed(c: char) -> char {
    if c == '/' {
        '\\'
    } else {
        c
    }
}

/// What a prefix stands for, as `std::path` compares prefixes: the drive
/// letter in upper case, separators as `\`.
pub open spec fn prefix_key(s: Seq<char>, k: PrefixKind, len: int) -> Seq<char> {
    match k {
        PrefixKind::Disk => seq![ascii_upper(s[0]), ':'],
        PrefixKind::VerbatimDisk => seq!['\\', '\\', '?', '\\', ascii_upper(s[4]), ':'],
        _ => s.subrange(0, len).map_values(|c: char| backslashed(c)),
    }
}

/// The pieces of `s` between separators.
pub open spec fn split_seps(s: Seq<char>, verbatim: bool) -> Seq<Seq<char>>
    decreases s.len(),
{
    if s.len() == 0 {
        seq![Seq::empty()]
    } else {
        let p = split_seps(s.drop_last(), verbatim);
        if is_sep(s.last(), true, verbatim) {
            p.push(Seq::empty())
        } else {
            p.update(p.len() - 1, p.last().push(s.last()))
        }
    }
}

proof fn lemma_split_seps_len(s: Seq<char>, verbatim: bool)
    ensures
        split_seps(s, verbatim).len() >= 1,
    decreases s.len(),
{
    if s.len() > 0 {
        lemma_split_seps_len(s.drop_last(), verbatim);
    }
}

/// The component of a piece of a Windows path: none for an empty piece or
/// (outside verbatim paths) `.`.
pub open spec fn piece_component(g: Seq<char>, verbatim: bool) -> Option<Component> {
    if g.len() == 0 {
        None
    } else if g == seq!['.'] {
        if verbatim {
            Some(Component::CurDir)
        } else {
            None
        }
    } else if g == seq!['.', '.'] {
        Some(Component::ParentDir)
    } else {
        Some(Component::Normal(g))
    }
}

/// The components of the pieces `segs`.
pub open spec fn piece_components(segs: Seq<Seq<char>>, verbatim: bool) -> Seq<Component>
    decreases segs.len(),
{
    if segs.len() == 0 {
        Seq::empty()
    } else {
        let rest = piece_components(segs.drop_last(), verbatim);
        match piece_component(segs.last(), verbatim) {
            Some(c) => rest.push(c),
            None => rest,
        }
    }
}

/// The length of the prefix of `s`, 0 when it has none.
pub open spec fn prefix_len(s: Seq<char>) -> int {
    match win_prefix(s) {
        Some((_, l)) => l,
        None => 0,
    }
}

/// Whether `s` has a verbatim prefix.
pub open spec fn win_verbatim(s: Seq<char>) -> bool {
    match win_prefix(s) {
        Some((k, _)) => is_verbatim(k),
        None => false,
    }
}

/// Whether the prefix of `s` implies a root (all but a plain drive `C:`
/// do).
pub open spec fn implicit_root(s: Seq<char>) -> bool {
    match win_prefix(s) {
        Some((k, _)) => k != PrefixKind::Disk,
        None => false,
    }
}

/// Whether a separator follows the prefix of `s`.
pub open spec fn physical_root(s: Seq<char>) -> bool {
    let l = prefix_len(s);
    l < s.len() && is_sep(s[l], true, win_verbatim(s))
}

/// Whether the Windows path `s` has a root.
pub open spec fn win_has_root(s: Seq<char>) -> bool {
    physical_root(s) || implicit_root(s)
}

/// The components of the Windows path `s`, as `Path::components` gives
/// them on Windows.
pub open spec fn win_components(s: Seq<char>) -> Seq<Component> {
    let l = prefix_len(s);
    let v = win_verbatim(s);
    let rest = s.subrange(l, s.len() as int);
    let head0 = match win_prefix(s) {
        Some((k, n)) => seq![Component::Prefix(prefix_key(s, k, n))],
        None => Seq::empty(),
    };
    let head1 = if physical_root(s) || (implicit_root(s) && !v) {
        head0.push(Component::RootDir)
    } else {
        head0
    };
    let cur = !win_has_root(s) && rest.len() > 0 && rest[0] == '.' && (rest.len() == 1 || is_sep(
        rest[1],
        true,
        v,
    ));
    let head = if cur {
        head1.push(Component::CurDir)
    } else {
        head1
    };
    head + piece_components(split_seps(rest, v), v)
}

/// The components of the path `s` on Windows (`windows`) or elsewhere.
pub open spec fn path_components(s: Seq<char>, windows: bool) -> Seq<Component> {
    if windows {
        win_components(s)
    } else {
        components(s)
    }
}

/// Whether the path `s` is absolute (`Path::is_absolute`): on Windows it
/// needs a prefix and a root.
pub open spec fn path_is_absolute(s: Seq<char>, windows: bool) -> bool {
    if windows {
        win_prefix(s) is Some && win_has_root(s)
    } else {
        has_root(s)
    }
}


fn comp_end_exec(s: &Vec<char>, i: usize, verbatim: bool) -> (r: usize)
    ensures
        r == comp_end(s@, i as int, verbatim),
        i <= s.len() ==> i <= r <= s.len(),
{
    let n = s.len();
    let mut j = i;
    if j >= n {
        return n;
    }
    while j < n
        invariant
            i <= j <= n == s.len(),
            comp_end(s@, i as int, verbatim) == comp_end(s@, j as int, verbatim),
        decreases n - j,
    {
        if is_sep_exec(s[j], true, verbatim) {
            return j;
        }
        j = j + 1;
    }
    j
}

fn utf8_width_exec(c: char) -> (w: i32)
    ensures
        w == utf8_width(c),
{
    let n = c as u32;
    if n < 0x80 {
        1
    } else if n < 0x800 {
        2
    } else if n < 0x10000 {
        3
    } else {
        4
    }
}

fn slash_in_first_bytes(s: &Vec<char>) -> (b: bool)
    ensures
        b == slash_in_bytes(s@, 0, 8),
{
    let n = s.len();
    let mut i: usize = 0;
    let mut budget: i32 = 8;
    while i < n && budget > 0
        invariant
            i <= n == s.len(),
            -4 <= budget <= 8,
            slash_in_bytes(s@, 0, 8) == slash_in_bytes(s@, i as int, budget as int),
        decreases n - i,
    {
        if s[i] == '/' {
            return true;
        }
        budget = budget - utf8_width_exec(s[i]);
        i = i + 1;
    }
    false
}

fn is_ascii_alpha_exec(c: char) -> (b: bool)
    ensures
        b == is_ascii_alpha(c),
{
    ('a' <= c && c <= 'z') || ('A' <= c && c <= 'Z')
}

pub fn win_prefix_exec(s: &Vec<char>) -> (r: Option<(PrefixKind, usize)>)
    ensures
        match win_prefix(s@) {
            Some((k, l)) => r == Some((k, l as usize)) && 0 <= l <= s.len(),
            None => r is None,
        },
{
    let n = s.len();
    if n >= 2 && is_sep_exec(s[0], true, false) && is_sep_exec(s[1], true, false) {
        if n >= 4 && s[2] == '?' && is_sep_exec(s[3], true, false) && !slash_in_first_bytes(s) {
            if n >= 8 && s[4] == 'U' && s[5] == 'N' && s[6] == 'C' && s[7] == '\\' {
                let e1 = comp_end_exec(s, 8, true);
                let st = if e1 < n { e1 + 1 } else { e1 };
                let e2 = comp_end_exec(s, st, true);
                Some((PrefixKind::VerbatimUnc, if e2 > st { e2 } else { e1 }))
            } else if n >= 6 && is_ascii_alpha_exec(s[4]) && s[5] == ':' && (n == 6 || s[6] == '\\') {
                Some((PrefixKind::VerbatimDisk, 6))
            } else {
                Some((PrefixKind::Verbatim, comp_end_exec(s, 4, true)))
            }
        } else if n >= 4 && s[2] == '.' && is_sep_exec(s[3], true, false) {
            Some((PrefixKind::DeviceNs, comp_end_exec(s, 4, false)))
        } else {
            let e1 = comp_end_exec(s, 2, false);
            let st = if e1 < n { e1 + 1 } else { e1 };
            let e2 = comp_end_exec(s, st, false);
            if e1 > 2 && e2 > st {
                Some((PrefixKind::Unc, e2))
            } else {
                None
            }
        }
    } else if n >= 2 && is_ascii_alpha_exec(s[0]) && s[1] == ':' {
        Some((PrefixKind::Disk, 2))
    } else {
        None
    }
}

fn ascii_upper_exec(c: char) -> (u: char)
    ensures
        u == ascii_upper(c),
{
    if 'a' <= c && c <= 'z' {
        (((c as u32) - 32) as u8) as char
    } else {
        c
    }
}

fn prefix_key_exec(s: &Vec<char>, k: PrefixKind, len: usize) -> (r: Vec<char>)
    requires
        len <= s.len(),
        k == PrefixKind::Disk ==> s.len() >= 2,
        k == PrefixKind::VerbatimDisk ==> s.len() >= 6,
    ensures
        r@ == prefix_key(s@, k, len as int),
{
    match k {
        PrefixKind::Disk => {
            let r = vec![ascii_upper_exec(s[0]), ':'];
            assert(r@ =~= seq![ascii_upper(s@[0]), ':']);
            r
        },
        PrefixKind::VerbatimDisk => {
            let r = vec!['\\', '\\', '?', '\\', ascii_upper_exec(s[4]), ':'];
            assert(r@ =~= seq!['\\', '\\', '?', '\\', ascii_upper(s@[4]), ':']);
            r
        },
        _ => {
            let mut r: Vec<char> = Vec::new();
            for i in 0..len
                invariant
                    len <= s.len(),
                    r@ == s@.subrange(0, i as int).map_values(|c: char| backslashed(c)),
            {
                let c = if s[i] == '/' {
                    '\\'
                } else {
                    s[i]
                };
                r.push(c);
                assert(r@ =~= s@.subrange(0, i + 1).map_values(|c: char| backslashed(c)));
            }
            r
        },
    }
}

fn split_on_seps(s: &Vec<char>, verbatim: bool) -> (r: Vec<Vec<char>>)
    ensures
        views(r@) == split_seps(s@, verbatim),
{
    let n = s.len();
    let mut pieces: Vec<Vec<char>> = Vec::new();
    let mut cur: Vec<char> = Vec::new();
    for i in 0..n
        invariant
            n == s.len(),
            views(pieces@).push(cur@) == split_seps(s@.take(i as int), verbatim),
    {
        let ghost before = views(pieces@).push(cur@);
        assert(s@.take(i + 1).drop_last() =~= s@.take(i as int));
        assert(s@.take(i + 1).last() == s@[i as int]);
        proof {
            lemma_split_seps_len(s@.take(i as int), verbatim);
        }
        if is_sep_exec(s[i], true, verbatim) {
            let done = cur;
            pieces.push(done);
            cur = Vec::new();
            assert(views(pieces@).push(cur@) =~= before.push(Seq::empty()));
        } else {
            cur.push(s[i]);
            assert(views(pieces@).push(cur@) =~= before.update(
                before.len() - 1,
                before.last().push(s@[i as int]),
            ));
        }
    }
    assert(s@.take(n as int) =~= s@);
    pieces.push(cur);
    pieces
}

fn piece_component_exec(g: &Vec<char>, verbatim: bool) -> (r: Option<PathComponent>)
    ensures
        match piece_component(g@, verbatim) {
            Some(c) => r matches Some(pc) && pc.model() == c,
            None => r is None,
        },
{
    if g.len() == 0 {
        return None;
    }
    if g.len() == 1 && g[0] == '.' {
        assert(g@ =~= seq!['.']);
        return if verbatim {
            Some(PathComponent::CurDir)
        } else {
            None
        };
    }
    if g.len() == 2 && g[0] == '.' && g[1] == '.' {
        assert(g@ =~= seq!['.', '.']);
        return Some(PathComponent::ParentDir);
    }
    proof {
        if g@ == seq!['.'] {
            assert(g@[0] == '.');
        }
        if g@ == seq!['.', '.'] {
            assert(g@[0] == '.' && g@[1] == '.');
        }
    }
    let copy = slice_vec(g, 0, g.len());
    assert(copy@ =~= g@);
    Some(PathComponent::Normal(copy))
}

/// The components of the Windows path `s`.
fn win_components_of(s: &Vec<char>) -> (r: Vec<PathComponent>)
    ensures
        models(r@) == win_components(s@),
{
    let n = s.len();
    let pre = win_prefix_exec(s);
    let (l, v, implicit) = match pre {
        Some((k, l)) => (
            l,
            k == PrefixKind::Verbatim || k == PrefixKind::VerbatimUnc || k == PrefixKind::VerbatimDisk,
            k != PrefixKind::Disk,
        ),
        None => (0, false, false),
    };
    assert(l as int == prefix_len(s@) && v == win_verbatim(s@) && implicit == implicit_root(s@));
    let rest = slice_vec(s, l, n);
    let physical = l < n && is_sep_exec(s[l], true, v);
    let mut out: Vec<PathComponent> = Vec::new();
    match pre {
        Some((k, len)) => {
            let key = prefix_key_exec(s, k, len);
            out.push(PathComponent::Prefix(key));
        },
        None => {},
    }
    if physical || (implicit && !v) {
        out.push(PathComponent::RootDir);
    }
    let has_root = physical || implicit;
    let cur = !has_root && rest.len() > 0 && rest[0] == '.' && (rest.len() == 1 || is_sep_exec(
        rest[1],
        true,
        v,
    ));
    if cur {
        out.push(PathComponent::CurDir);
    }
    let ghost head = models(out@);
    assert(head =~= {
        let head0 = match win_prefix(s@) {
            Some((k, m)) => seq![Component::Prefix(prefix_key(s@, k, m))],
            None => Seq::empty(),
        };
        let head1 = if physical_root(s@) || (implicit_root(s@) && !v) {
            head0.push(Component::RootDir)
        } else {
            head0
        };
        if cur {
            head1.push(Component::CurDir)
        } else {
            head1
        }
    });
    let segs = split_on_seps(&rest, v);
    let m = segs.len();
    let ghost all = views(segs@);
    let mut i: usize = 0;
    while i < m
        invariant
            i <= m == segs.len(),
            all == views(segs@),
            models(out@) == head + piece_components(all.take(i as int), v),
        decreases m - i,
    {
        assert(all.take(i + 1).drop_last() =~= all.take(i as int));
        assert(all.take(i + 1).last() == segs@[i as int]@);
        let ghost before = models(out@);
        match piece_component_exec(&segs[i], v) {
            Some(pc) => {
                out.push(pc);
                assert(models(out@) =~= before.push(pc.model()));
            },
            None => {},
        }
        i = i + 1;
    }
    assert(all.take(m as int) =~= all);
    out
}

/// The components of the path `s` on Windows (`windows`) or elsewhere.
pub fn path_components_of(s: &Vec<char>, windows: bool) -> (r: Vec<PathComponent>)
    ensures
        models(r@) == path_components(s@, windows),
{
    if windows {
        win_components_of(s)
    } else {
        components_of(s)
    }
}

/// Whether the path `s` is absolute on Windows (`windows`) or elsewhere.
pub fn path_is_absolute_exec(s: &Vec<char>, windows: bool) -> (b: bool)
    ensures
        b == path_is_absolute(s@, windows),
{
    if windows {
        match win_prefix_exec(s) {
            Some((k, l)) => {
                let v = k == PrefixKind::Verbatim || k == PrefixKind::VerbatimUnc || k
                    == PrefixKind::VerbatimDisk;
                let implicit = k != PrefixKind::Disk;
                (l < s.len() && is_sep_exec(s[l], true, v)) || implicit
            },
            None => false,
        }
    } else {
        s.len() > 0 && s[0] == '/'
    }
}


// ---------------------------------------------------------------------
// Joining onto a verbatim Windows path
// ---------------------------------------------------------------------

/// The text of a component after a prefix, as `Component::as_os_str` gives
/// it on Windows.
pub open spec fn component_text(c: Component) -> Seq<char> {
    match c {
        Component::Prefix(p) => p,
        Component::RootDir => seq!['\\'],
        Component::CurDir => seq!['.'],
        Component::ParentDir => seq!['.', '.'],
        Component::Normal(g) => g,
    }
}

/// The components after the prefix of a verbatim path once the component
/// `c` of a joined path is added: a root leaves only the root, `.` is
/// dropped, `..` takes away a last normal component.
pub open spec fn push_verbatim(buf: Seq<Component>, c: Component) -> Seq<Component> {
    match c {
        Component::RootDir => seq![Component::RootDir],
        Component::CurDir => buf,
        Component::ParentDir => if buf.len() > 0 && buf.last() is Normal {
            buf.drop_last()
        } else {
            buf
        },
        _ => buf.push(c),
    }
}

/// `buf` once each of `cs` is added in turn.
pub open spec fn push_all_verbatim(buf: Seq<Component>, cs: Seq<Component>) -> Seq<Component>
    decreases cs.len(),
{
    if cs.len() == 0 {
        buf
    } else {
        push_verbatim(push_all_verbatim(buf, cs.drop_last()), cs.last())
    }
}

/// Components that follow a verbatim prefix, written out: `\` before each
/// but a root and what directly follows a root.
pub open spec fn render_after_prefix(cs: Seq<Component>) -> Seq<char>
    decreases cs.len(),
{
    if cs.len() == 0 {
        Seq::empty()
    } else {
        let last = cs.last();
        let sep = last != Component::RootDir && (cs.len() == 1 || cs[cs.len() - 2]
            != Component::RootDir);
        render_after_prefix(cs.drop_last()) + (if sep {
            seq!['\\']
        } else {
            Seq::empty()
        }) + component_text(last)
    }
}

/// The verbatim Windows path `base` joined with the relative path `name`
/// as `Path::join` does it: the path is written anew from its prefix and its
/// components, with those of `name` added.
pub open spec fn verbatim_join(base: Seq<char>, name: Seq<char>) -> Seq<char> {
    base.subrange(0, prefix_len(base)) + render_after_prefix(
        push_all_verbatim(win_components(base).drop_first(), win_components(name)),
    )
}

/// A copy of the component `c`.
fn copy_component(c: &PathComponent) -> (r: PathComponent)
    ensures
        r.model() == c.model(),
{
    match c {
        PathComponent::Prefix(v) => {
            let g = slice_vec(v, 0, v.len());
            assert(g@ =~= v@);
            PathComponent::Prefix(g)
        },
        PathComponent::RootDir => PathComponent::RootDir,
        PathComponent::CurDir => PathComponent::CurDir,
        PathComponent::ParentDir => PathComponent::ParentDir,
        PathComponent::Normal(v) => {
            let g = slice_vec(v, 0, v.len());
            assert(g@ =~= v@);
            PathComponent::Normal(g)
        },
    }
}

/// Adds the component `c` to `buf` as `push_verbatim` says.
fn push_verbatim_exec(buf: &mut Vec<PathComponent>, c: &PathComponent)
    ensures
        models(final(buf)@) == push_verbatim(models(old(buf)@), c.model()),
{
    let ghost before = models(buf@);
    match c {
        PathComponent::RootDir => {
            buf.clear();
            buf.push(PathComponent::RootDir);
            assert(models(buf@) =~= seq![Component::RootDir]);
        },
        PathComponent::CurDir => {},
        PathComponent::ParentDir => {
            let n = buf.len();
            if n > 0 && matches!(buf[n - 1], PathComponent::Normal(_)) {
                buf.pop();
                assert(models(buf@) =~= before.drop_last());
            }
        },
        _ => {
            buf.push(copy_component(c));
            assert(models(buf@) =~= before.push(c.model()));
        },
    }
}

/// The verbatim Windows path `base` joined with the relative path `name`.
pub fn verbatim_join_of(base: &Vec<char>, name: &Vec<char>) -> (r: String)
    requires
        win_verbatim(base@),
    ensures
        r@ == verbatim_join(base@, name@),
{
    let l = match win_prefix_exec(base) {
        Some((_, l)) => l,
        None => 0,
    };
    let bc = win_components_of(base);
    let nc = win_components_of(name);
    let ghost bm = models(bc@);
    let ghost nm = models(nc@);
    assert(bm.len() >= 1);
    let mut buf: Vec<PathComponent> = Vec::new();
    let bn = bc.len();
    for i in 1..bn
        invariant
            bn == bc.len(),
            bm == models(bc@),
            bm.len() >= 1,
            models(buf@) == bm.subrange(1, i as int),
    {
        let ghost before = models(buf@);
        buf.push(copy_component(&bc[i]));
        assert(models(buf@) =~= before.push(bm[i as int]));
        assert(bm.subrange(1, i + 1) =~= bm.subrange(1, i as int).push(bm[i as int]));
    }
    assert(bm.subrange(1, bn as int) =~= bm.drop_first());
    let nn = nc.len();
    for j in 0..nn
        invariant
            nn == nc.len(),
            nm == models(nc@),
            models(buf@) == push_all_verbatim(bm.drop_first(), nm.take(j as int)),
    {
        assert(nm.take(j + 1).drop_last() =~= nm.take(j as int));
        push_verbatim_exec(&mut buf, &nc[j]);
    }
    assert(nm.take(nn as int) =~= nm);
    let ghost all = models(buf@);
    let mut out = string_of(&slice_vec(base, 0, l));
    let m = buf.len();
    for k in 0..m
        invariant
            m == buf.len(),
            all == models(buf@),
            out@ == base@.subrange(0, prefix_len(base@)) + render_after_prefix(all.take(k as int)),
    {
        let ghost t = all.take(k + 1);
        assert(t.drop_last() =~= all.take(k as int));
        let root_here = matches!(buf[k], PathComponent::RootDir);
        let after_root = k > 0 && matches!(buf[k - 1], PathComponent::RootDir);
        assert(root_here == (t.last() == Component::RootDir));
        assert(k > 0 ==> t[t.len() - 2] == all[k - 1]);
        assert(after_root == (t.len() != 1 && t[t.len() - 2] == Component::RootDir));
        if !root_here && !after_root {
            out.push('\\');
        }
        let ghost mid = out@;
        match &buf[k] {
            PathComponent::Prefix(v) => push_chars(&mut out, v),
            PathComponent::RootDir => out.push('\\'),
            PathComponent::CurDir => out.push('.'),
            PathComponent::ParentDir => {
                out.push('.');
                out.push('.');
            },
            PathComponent::Normal(v) => push_chars(&mut out, v),
        }
        assert(out@ =~= mid + component_text(all[k as int]));
    }
    assert(all.take(m as int) =~= all);
    out
}

} // verus!
