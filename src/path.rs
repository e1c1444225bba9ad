//! Paths as text: from a request path to a local path under the root
//! directory, the containment test, and the parts of a path that the
//! extensions look at.

use vstd::prelude::*;
use crate::error::Error;
use crate::text::chars_of;
use crate::text::{percent_decode, percent_decoded, string_of};

verus! {

/// The index of the first `c` in `s`, or the length of `s` if there is none.
pub open spec fn first_index_of(s: Seq<char>, c: char) -> int
    decreases s.len(),
{
    if s.len() == 0 {
        0
    } else if s[0] == c {
        0
    } else {
        1 + first_index_of(s.drop_first(), c)
    }
}

/// The index of the last `c` in `s`, or -1 if there is none.
pub open spec fn last_index_of(s: Seq<char>, c: char) -> int
    decreases s.len(),
{
    if s.len() == 0 {
        -1
    } else if s.last() == c {
        s.len() - 1
    } else {
        last_index_of(s.drop_last(), c)
    }
}

/// What follows the last `c` in `s`; all of `s` if it holds no `c`.
pub open spec fn after_last(s: Seq<char>, c: char) -> Seq<char> {
    s.subrange(last_index_of(s, c) + 1, s.len() as int)
}

/// A request path without its query: what comes before the first `?`.
pub open spec fn before_query(p: Seq<char>) -> Seq<char> {
    p.take(first_index_of(p, '?'))
}

/// `rel` appended to `base` as a path component. An absolute `rel` replaces
/// `base`; otherwise one `/` stands between the two.
pub open spec fn join(base: Seq<char>, rel: Seq<char>) -> Seq<char> {
    if rel.len() > 0 && rel[0] == '/' {
        rel
    } else if base.len() > 0 && base.last() == '/' {
        base + rel
    } else {
        base + seq!['/'] + rel
    }
}

/// The kind of the path component read so far: 0 empty, 1 `.`, 2 `..`,
/// 3 a name.
pub open spec fn extend_segment(kind: u8, c: char) -> u8 {
    if c == '.' && kind < 3 {
        (kind + 1) as u8
    } else {
        3
    }
}

/// The depth below the start after a component of this kind: `..` climbs
/// one level, a name descends one, `.` and an empty component stay.
pub open spec fn close_segment(kind: u8, depth: int) -> int {
    if kind == 2 {
        depth - 1
    } else if kind == 3 {
        depth + 1
    } else {
        depth
    }
}

/// Reading `rel` from `depth` levels below the start, with a component of
/// this kind begun, some `..` climbs above the start.
pub open spec fn climbs_from(rel: Seq<char>, depth: int, kind: u8) -> bool
    decreases rel.len(),
{
    if rel.len() == 0 {
        close_segment(kind, depth) < 0
    } else if rel[0] == '/' {
        close_segment(kind, depth) < 0 || climbs_from(rel.drop_first(), close_segment(kind, depth), 0)
    } else {
        climbs_from(rel.drop_first(), depth, extend_segment(kind, rel[0]))
    }
}

/// A relative path leaves the directory it is joined onto: it is absolute
/// (and so replaces that directory), or its `..` components climb above it.
pub open spec fn leaves_base(rel: Seq<char>) -> bool {
    (rel.len() > 0 && rel[0] == '/') || climbs_from(rel, 0, 0)
}

/// The local path that a request path names under `root`, or why there is
/// none: the query is dropped, the rest percent-decoded, and what follows
/// its leading `/` joined onto the root. Where that climbs out of the root
/// by its text alone, it is `EntityNotInRoot` unless escaping is allowed.
pub open spec fn local_path_spec(request_path: Seq<char>, root: Seq<char>, allow_escape: bool) -> Result<Seq<char>, Error> {
    match percent_decoded(before_query(request_path)) {
        None => Err(Error::UriNotUtf8),
        Some(d) => if d.len() > 0 && d[0] == '/' {
            if !allow_escape && leaves_base(d.drop_first()) {
                Err(Error::EntityNotInRoot)
            } else {
                Ok(join(root, d.drop_first()))
            }
        } else {
            Err(Error::UriNotAbsolute)
        },
    }
}

/// Whether `rel` leaves the directory it is joined onto.
pub fn leaves(rel: &Vec<char>) -> (r: bool)
    ensures
        r == leaves_base(rel@),
{
    if rel.len() > 0 && rel[0] == '/' {
        return true;
    }
    let mut depth: usize = 0;
    let mut kind: u8 = 0;
    let mut i: usize = 0;
    assert(rel@.subrange(0, rel@.len() as int) =~= rel@);
    while i < rel.len()
        invariant
            0 <= i <= rel@.len(),
            depth <= i,
            kind <= 3,
            climbs_from(rel@, 0, 0) == climbs_from(rel@.subrange(i as int, rel@.len() as int), depth as int, kind),
        decreases rel@.len() - i,
    {
        let c = rel[i];
        assert(rel@.subrange(i as int, rel@.len() as int).drop_first() =~= rel@.subrange(i + 1, rel@.len() as int));
        if c == '/' {
            if kind == 2 {
                if depth == 0 {
                    return true;
                }
                depth = depth - 1;
            } else if kind == 3 {
                depth = depth + 1;
            }
            kind = 0;
        } else if c == '.' && kind < 3 {
            kind = kind + 1;
        } else {
            kind = 3;
        }
        i = i + 1;
    }
    kind == 2 && depth == 0
}

/// `path` is `root` or lies below it, component by component. Both are
/// canonical: absolute, with no `.` or `..` and no trailing `/` but for `/`
/// itself.
pub open spec fn within(path: Seq<char>, root: Seq<char>) -> bool {
    path == root || (root.len() < path.len() && path.take(root.len() as int) == root && (
    (root.len() > 0 && root.last() == '/') || path[root.len() as int] == '/'))
}

/// `s` with every trailing `/` removed.
pub open spec fn trim_trailing_slashes(s: Seq<char>) -> Seq<char>
    decreases s.len(),
{
    if s.len() > 0 && s.last() == '/' {
        trim_trailing_slashes(s.drop_last())
    } else {
        s
    }
}

/// The last component of a path.
pub open spec fn file_name_of(p: Seq<char>) -> Seq<char> {
    after_last(trim_trailing_slashes(p), '/')
}

/// The path's last component has the extension `md`: it ends with `.md` and
/// something stands before that dot.
pub open spec fn is_markdown_path(p: Seq<char>) -> bool {
    let name = file_name_of(p);
    name.len() > 3 && name.subrange(name.len() - 3, name.len() as int) == ".md"@
}

/// The index of the first `c` in `v`, or its length.
pub fn find_first(v: &Vec<char>, c: char) -> (r: usize)
    ensures
        r as int == first_index_of(v@, c),
        r <= v@.len(),
{
    let mut i: usize = 0;
    while i < v.len() && v[i] != c
        invariant
            0 <= i <= v@.len(),
            forall|j| 0 <= j < i ==> v@[j] != c,
        decreases v@.len() - i,
    {
        i = i + 1;
    }
    proof {
        lemma_first_index(v@, c, i as int);
    }
    i
}

proof fn lemma_first_index(s: Seq<char>, c: char, i: int)
    requires
        0 <= i <= s.len(),
        forall|j| 0 <= j < i ==> s[j] != c,
        i == s.len() || s[i] == c,
    ensures
        first_index_of(s, c) == i,
    decreases s.len(),
{
    if s.len() > 0 && i > 0 {
        lemma_first_index(s.drop_first(), c, i - 1);
    }
}

/// One past the index of the last `c` in `v`, or 0 if there is none.
pub fn find_last(v: &Vec<char>, c: char) -> (r: usize)
    ensures
        r as int == last_index_of(v@, c) + 1,
{
    let mut i: usize = v.len();
    assert(v@.take(v@.len() as int) =~= v@);
    while i > 0
        invariant
            0 <= i <= v@.len(),
            last_index_of(v@, c) == last_index_of(v@.take(i as int), c),
        decreases i,
    {
        if v[i - 1] == c {
            assert(v@.take(i as int).last() == c);
            return i;
        }
        assert(v@.take(i as int).drop_last() =~= v@.take(i - 1));
        i = i - 1;
    }
    0
}

/// The characters of `v` from `from` to its end.
pub fn tail_from(v: &Vec<char>, from: usize) -> (r: Vec<char>)
    requires
        from <= v@.len(),
    ensures
        r@ == v@.subrange(from as int, v@.len() as int),
{
    let mut out: Vec<char> = Vec::new();
    let mut i: usize = from;
    while i < v.len()
        invariant
            from <= i <= v@.len(),
            out@ == v@.subrange(from as int, i as int),
        decreases v@.len() - i,
    {
        out.push(v[i]);
        assert(out@ =~= v@.subrange(from as int, i + 1));
        i = i + 1;
    }
    out
}

/// The first `n` characters of `v`.
pub fn head(v: &Vec<char>, n: usize) -> (r: Vec<char>)
    requires
        n <= v@.len(),
    ensures
        r@ == v@.take(n as int),
{
    let mut out: Vec<char> = Vec::new();
    let mut i: usize = 0;
    while i < n
        invariant
            0 <= i <= n <= v@.len(),
            out@ == v@.take(i as int),
        decreases n - i,
    {
        out.push(v[i]);
        assert(out@ =~= v@.take(i + 1));
        i = i + 1;
    }
    out
}

/// The two texts hold the same characters.
pub fn same_chars(a: &Vec<char>, b: &Vec<char>) -> (r: bool)
    ensures
        r == (a@ == b@),
{
    if a.len() != b.len() {
        return false;
    }
    let mut i: usize = 0;
    while i < a.len()
        invariant
            a@.len() == b@.len(),
            0 <= i <= a@.len(),
            forall|j| 0 <= j < i ==> a@[j] == b@[j],
        decreases a@.len() - i,
    {
        if a[i] != b[i] {
            return false;
        }
        i = i + 1;
    }
    assert(a@ =~= b@);
    true
}

/// `a` followed by `b`.
pub fn concat(a: &Vec<char>, b: &Vec<char>) -> (r: Vec<char>)
    ensures
        r@ == a@ + b@,
{
    let mut out = a.clone();
    let mut i: usize = 0;
    while i < b.len()
        invariant
            0 <= i <= b@.len(),
            out@ == a@ + b@.take(i as int),
        decreases b@.len() - i,
    {
        out.push(b[i]);
        assert(out@ =~= a@ + b@.take(i + 1));
        i = i + 1;
    }
    assert(b@.take(b@.len() as int) =~= b@);
    out
}

/// The request path without its query.
pub fn strip_query(p: &str) -> (r: String)
    ensures
        r@ == before_query(p@),
{
    let v = chars_of(p);
    let end = find_first(&v, '?');
    string_of(&head(&v, end))
}

/// `rel` appended to `base` as a path component.
pub fn join_path(base: &str, rel: &str) -> (r: String)
    ensures
        r@ == join(base@, rel@),
{
    let b = chars_of(base);
    let x = chars_of(rel);
    if x.len() > 0 && x[0] == '/' {
        string_of(&x)
    } else if b.len() > 0 && b[b.len() - 1] == '/' {
        string_of(&concat(&b, &x))
    } else {
        let mut sep: Vec<char> = Vec::new();
        sep.push('/');
        string_of(&concat(&concat(&b, &sep), &x))
    }
}

/// Maps a request path to a local path under `root_dir`: the query is
/// dropped, the rest percent-decoded (`UriNotUtf8` where that is not UTF-8),
/// and what follows the leading `/` joined onto the root (`UriNotAbsolute`
/// where there is no leading `/`). Where that is absolute or its `..`
/// components climb above the root, the answer is `EntityNotInRoot` unless
/// escaping the root is allowed.
pub fn local_path_for_request(request_path: &str, root_dir: &str, allow_escape_root: bool) -> (r: Result<String, Error>)
    ensures
        match local_path_spec(request_path@, root_dir@, allow_escape_root) {
            Ok(p) => r is Ok && r->Ok_0@ == p,
            Err(e) => r is Err && r->Err_0 == e,
        },
{
    let path = strip_query(request_path);
    match percent_decode(path.as_str()) {
        None => Err(Error::UriNotUtf8),
        Some(decoded) => {
            let d = chars_of(decoded.as_str());
            if d.len() > 0 && d[0] == '/' {
                let rel_chars = tail_from(&d, 1);
                if !allow_escape_root && leaves(&rel_chars) {
                    return Err(Error::EntityNotInRoot);
                }
                let rel = string_of(&rel_chars);
                assert(rel@ == decoded@.drop_first());
                Ok(join_path(root_dir, rel.as_str()))
            } else {
                Err(Error::UriNotAbsolute)
            }
        },
    }
}

/// `path` is `root` or lies below it, component by component; both are
/// canonical paths.
pub fn is_within(path: &str, root: &str) -> (r: bool)
    ensures
        r == within(path@, root@),
{
    let p = chars_of(path);
    let rt = chars_of(root);
    if same_chars(&p, &rt) {
        return true;
    }
    if rt.len() >= p.len() {
        return false;
    }
    let prefix = head(&p, rt.len());
    if !same_chars(&prefix, &rt) {
        return false;
    }
    (rt.len() > 0 && rt[rt.len() - 1] == '/') || p[rt.len()] == '/'
}

/// `v` with every trailing `/` removed.
pub fn trim_slashes(v: &Vec<char>) -> (r: Vec<char>)
    ensures
        r@ == trim_trailing_slashes(v@),
{
    let mut n: usize = v.len();
    assert(v@.take(v@.len() as int) =~= v@);
    while n > 0 && v[n - 1] == '/'
        invariant
            0 <= n <= v@.len(),
            trim_trailing_slashes(v@) == trim_trailing_slashes(v@.take(n as int)),
        decreases n,
    {
        assert(v@.take(n as int).drop_last() =~= v@.take(n - 1));
        n = n - 1;
    }
    let r = head(v, n);
    assert(r@.len() > 0 ==> r@.last() != '/');
    r
}

/// What follows the last `c` in `v`; all of `v` if it holds no `c`.
pub fn after_last_char(v: &Vec<char>, c: char) -> (r: Vec<char>)
    ensures
        r@ == after_last(v@, c),
        r@.len() <= v@.len(),
{
    proof {
        lemma_last_index_bounds(v@, c);
    }
    let k = find_last(v, c);
    tail_from(v, k)
}

proof fn lemma_last_index_bounds(s: Seq<char>, c: char)
    ensures
        -1 <= last_index_of(s, c) < s.len(),
    decreases s.len(),
{
    if s.len() > 0 {
        lemma_last_index_bounds(s.drop_last(), c);
    }
}

/// The last component of a path.
pub fn file_name(p: &str) -> (r: Vec<char>)
    ensures
        r@ == file_name_of(p@),
{
    let v = chars_of(p);
    proof {
        lemma_trim_shorter(v@);
    }
    after_last_char(&trim_slashes(&v), '/')
}

proof fn lemma_trim_shorter(s: Seq<char>)
    ensures
        trim_trailing_slashes(s).len() <= s.len(),
    decreases s.len(),
{
    if s.len() > 0 && s.last() == '/' {
        lemma_trim_shorter(s.drop_last());
    }
}

/// The path's last component has the extension `md`.
pub fn is_markdown(p: &str) -> (r: bool)
    ensures
        r == is_markdown_path(p@),
{
    let name = file_name(p);
    let n = name.len();
    if n <= 3 {
        return false;
    }
    let tail = tail_from(&name, n - 3);
    let md = chars_of(".md");
    proof {
        reveal_strlit(".md");
    }
    same_chars(&tail, &md)
}

} // verus!
