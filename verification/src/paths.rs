//! The parts of `std::path` that the file operations read. How a path splits
//! into components differs between operating systems (`\` separates and `:`
//! ends a drive prefix on Windows only), so these give no named result.
//! What they state exactly is confined to portable paths: those that every
//! platform splits the same way.
use vstd::prelude::*;
use crate::epub::last_index_before;
use crate::text::opt_chars;

verus! {

/// A path that every platform splits the same way: either `/` itself, or
/// names separated by single `/` (with or without a leading `/`), with no
/// empty name (no doubled or trailing `/`), no name `.` or `..`, and no
/// `\` or `:` anywhere.
pub open spec fn portable_path(p: Seq<char>) -> bool {
    &&& p.len() > 0
    &&& !p.contains('\\')
    &&& !p.contains(':')
    &&& (p == seq!['/'] || (p.last() != '/' && forall|i: int|
        0 <= i < p.len() && (i == 0 || p[i - 1] == '/') ==> #[trigger] name_ok_at(p, i)))
}

/// The name that starts at `i` (at the start of `p` or after a `/`) is not
/// empty, `.` or `..`.
pub open spec fn name_ok_at(p: Seq<char>, i: int) -> bool {
    &&& (i > 0 ==> p[i] != '/')
    &&& !(p[i] == '.' && (i + 1 == p.len() || p[i + 1] == '/'))
    &&& !(p[i] == '.' && i + 1 < p.len() && p[i + 1] == '.' && (i + 2 == p.len() || p[i + 2]
        == '/'))
}

/// Where the final name of `p` starts: after its last `/`, or at 0.
pub open spec fn final_name_start(p: Seq<char>) -> int {
    match last_index_before(p, '/', p.len() as int) {
        Some(k) => k + 1,
        None => 0,
    }
}

/// The parent of a portable path: `None` for `/`; else what precedes the
/// last `/` (that `/` itself where it is the first character), or the empty
/// path where there is no `/`.
pub open spec fn portable_parent(p: Seq<char>) -> Option<Seq<char>> {
    if p == seq!['/'] {
        None
    } else {
        match last_index_before(p, '/', p.len() as int) {
            None => Some(Seq::empty()),
            Some(k) => if k == 0 {
                Some(seq!['/'])
            } else {
                Some(p.subrange(0, k))
            },
        }
    }
}

/// The final name of a portable path: `None` for `/`; else what follows
/// its last `/`.
pub open spec fn portable_name(p: Seq<char>) -> Option<Seq<char>> {
    if p == seq!['/'] {
        None
    } else {
        Some(p.subrange(final_name_start(p), p.len() as int))
    }
}

/// The extension of a file name as `Path::extension` documents it: none
/// without a name, without a `.`, or where the only `.` begins the name;
/// else what follows the last `.`.
pub open spec fn name_extension(name: Option<Seq<char>>) -> Option<Seq<char>> {
    match name {
        None => None,
        Some(n) => match last_index_before(n, '.', n.len() as int) {
            None => None,
            Some(k) => if k == 0 {
                None
            } else {
                Some(n.subrange(k + 1, n.len() as int))
            },
        },
    }
}

/// `p` lies strictly below the portable path `base`, name by name.
pub open spec fn portable_below(p: Seq<char>, base: Seq<char>) -> bool {
    if base == seq!['/'] {
        p.len() > 1 && p[0] == '/'
    } else {
        p.len() > base.len() && p.subrange(0, base.len() as int) == base && p[base.len() as int] == '/'
    }
}

/// `c` separates path components on some platform.
pub open spec fn is_sep(c: char) -> bool {
    c == '/' || c == '\\'
}

/// A path that can be joined to without a prefix taking effect on any
/// platform: no `:` (no drive), no leading `\` and no two leading
/// separators (no root-only or network prefix), and no trailing `\`.
pub open spec fn plain_base(base: Seq<char>) -> bool {
    &&& !base.contains(':')
    &&& (base.len() > 0 ==> base[0] != '\\' && base.last() != '\\')
    &&& !(base.len() > 1 && is_sep(base[0]) && is_sep(base[1]))
}

/// A relative path that joining appends as it is: not empty, not starting
/// with a separator, not ending with `\`, and with no `:`.
pub open spec fn relative_tail(t: Seq<char>) -> bool {
    &&& t.len() > 0
    &&& !is_sep(t[0])
    &&& !t.contains(':')
    &&& t.last() != '\\'
}

/// A single name: no separator and no `:`.
pub open spec fn plain_name(n: Seq<char>) -> bool {
    !n.contains('/') && !n.contains('\\') && !n.contains(':')
}

/// `tail` appended to `base` with separator `sep`: no separator after an
/// empty base or one that ends in `/`.
pub open spec fn joined_with(base: Seq<char>, tail: Seq<char>, sep: char) -> Seq<char> {
    if base.len() == 0 {
        tail
    } else if base.last() == '/' {
        base + tail
    } else {
        base + seq![sep] + tail
    }
}

/// `r` is `tail` appended to `base` with the platform's separator, `/` or `\`.
pub open spec fn joined(base: Seq<char>, tail: Seq<char>, r: Seq<char>) -> bool {
    r == joined_with(base, tail, '/') || r == joined_with(base, tail, '\\')
}

/// A plain name followed by a non-empty plain suffix is a relative tail.
pub proof fn lemma_named_tail(n: Seq<char>, x: Seq<char>)
    requires
        plain_name(n),
        plain_name(x),
        x.len() > 0,
    ensures
        relative_tail(n + x),
{
    let t = n + x;
    if n.len() > 0 {
        assert(t[0] == n[0]);
        assert(n.contains(n[0]));
    } else {
        assert(t[0] == x[0]);
        assert(x.contains(x[0]));
    }
    assert(t.last() == x.last());
    assert(x.contains(x.last()));
    if t.contains(':') {
        let k = choose|k: int| 0 <= k < t.len() && t[k] == ':';
        if k < n.len() {
            assert(n[k] == ':');
            assert(n.contains(':'));
        } else {
            assert(x[k - n.len()] == ':');
            assert(x.contains(':'));
        }
    }
}

/// A text none of whose characters is a separator or `:` is a plain name.
pub proof fn lemma_plain_chars(x: Seq<char>)
    requires
        forall|i: int| 0 <= i < x.len() ==> !is_sep(#[trigger] x[i]) && x[i] != ':',
    ensures
        plain_name(x),
{
}

/// Joining a relative tail to a plain base gives a plain base again, never
/// empty.
pub proof fn lemma_joined_plain(b: Seq<char>, t: Seq<char>, r: Seq<char>)
    requires
        plain_base(b),
        relative_tail(t),
        joined(b, t, r),
    ensures
        plain_base(r),
        r.len() > 0,
{
    let sep = if r == joined_with(b, t, '/') {
        '/'
    } else {
        '\\'
    };
    assert(r == joined_with(b, t, sep));
    assert(r.last() == t.last());
    if r.contains(':') {
        let k = choose|k: int| 0 <= k < r.len() && r[k] == ':';
        if b.len() == 0 {
            assert(t.contains(':'));
        } else if b.last() == '/' {
            if k < b.len() {
                assert(b[k] == ':');
                assert(b.contains(':'));
            } else {
                assert(t[k - b.len()] == ':');
                assert(t.contains(':'));
            }
        } else {
            if k < b.len() {
                assert(b[k] == ':');
                assert(b.contains(':'));
            } else if k == b.len() {
                assert(r[k] == sep);
            } else {
                assert(t[k - b.len() - 1] == ':');
                assert(t.contains(':'));
            }
        }
    }
    if b.len() == 0 {
        assert(r == t);
    } else if b.len() == 1 {
        assert(r[0] == b[0]);
        if b.last() == '/' {
            assert(r[1] == t[0]);
        } else {
            assert(!is_sep(b[0]));
        }
    } else {
        assert(r[0] == b[0]);
        assert(r[1] == b[1]);
    }
}

/// Where `last_index_before` finds `c`, and that `c` occurs nowhere after it.
pub proof fn lemma_last_index(s: Seq<char>, c: char, i: int)
    requires
        0 <= i <= s.len(),
    ensures
        match last_index_before(s, c, i) {
            Some(k) => 0 <= k < i && s[k] == c && forall|j: int| k < j < i ==> s[j] != c,
            None => forall|j: int| 0 <= j < i ==> s[j] != c,
        },
    decreases i,
{
    if i > 0 && s[i - 1] != c {
        lemma_last_index(s, c, i - 1);
    }
}

/// The final name of a portable path other than `/` is not empty and holds
/// no `/`, `\` or `:`; its parent holds no `\` or `:`.
pub proof fn lemma_portable_parts(p: Seq<char>)
    requires
        portable_path(p),
        p != seq!['/'],
    ensures
        relative_tail(portable_name(p)->Some_0),
        !portable_name(p)->Some_0.contains('/'),
        plain_base(portable_parent(p)->Some_0),
{
    lemma_last_index(p, '/', p.len() as int);
    let s = final_name_start(p);
    let n = p.subrange(s, p.len() as int);
    assert(s < p.len()) by {
        if s == p.len() {
            assert(p[s - 1] == '/');
        }
    }
    assert forall|j: int| 0 <= j < n.len() implies n[j] != '/' && n[j] != ':' && n[j] != '\\' by {
        assert(n[j] == p[s + j]);
        assert(!(p[s + j] == ':')) by {
            if p[s + j] == ':' {
                assert(p.contains(':'));
            }
        }
        assert(!(p[s + j] == '\\')) by {
            if p[s + j] == '\\' {
                assert(p.contains('\\'));
            }
        }
    }
    assert(!n.contains(':'));
    assert(!n.contains('/'));
    match last_index_before(p, '/', p.len() as int) {
        None => {},
        Some(k) => {
            if k > 0 {
                let q = p.subrange(0, k);
                assert forall|j: int| 0 <= j < q.len() implies q[j] != ':' && q[j] != '\\' by {
                    assert(q[j] == p[j]);
                    if p[j] == ':' {
                        assert(p.contains(':'));
                    }
                    if p[j] == '\\' {
                        assert(p.contains('\\'));
                    }
                }
                assert(!q.contains(':'));
                assert(!q.contains('\\'));
                if q.len() > 1 && p[0] == '/' {
                    assert(name_ok_at(p, 1));
                }
            }
        },
    }
}

/// The path without its final component (`Path::parent`).
///
/// Trusted: calls `std::path::Path::parent`. Stated, as its documentation
/// gives it: the empty path has no parent, and a portable path's parent is
/// the path without its final name (`portable_parent`). Other paths split
/// differently from one platform to another; nothing is stated of them.
#[verifier::external_body]
pub(crate) fn path_parent(p: &str) -> (r: Option<String>)
    ensures
        p@.len() == 0 ==> r is None,
        portable_path(p@) ==> opt_chars(r) == portable_parent(p@),
{
    std::path::Path::new(p).parent().map(|q| q.to_string_lossy().into_owned())
}

/// The final component of the path (`Path::file_name`).
///
/// Trusted: calls `std::path::Path::file_name`. Stated, as its
/// documentation gives it: a portable path's file name is its final name
/// (`portable_name`), none for `/`. Nothing is stated of other paths.
#[verifier::external_body]
pub(crate) fn path_file_name(p: &str) -> (r: Option<String>)
    ensures
        portable_path(p@) ==> opt_chars(r) == portable_name(p@),
{
    std::path::Path::new(p).file_name().map(|q| q.to_string_lossy().into_owned())
}

/// The extension of the final component (`Path::extension`).
///
/// Trusted: calls `std::path::Path::extension`, which yields the part after
/// the last `.` of the file name, never containing a `.` itself; for a
/// portable path that is `name_extension` of its final name, as the
/// documentation describes. Nothing more is stated of other paths.
#[verifier::external_body]
pub(crate) fn path_extension(p: &str) -> (r: Option<String>)
    ensures
        r.is_some() ==> !r.unwrap()@.contains('.'),
        portable_path(p@) ==> opt_chars(r) == name_extension(portable_name(p@)),
{
    std::path::Path::new(p).extension().map(|q| q.to_string_lossy().into_owned())
}

/// `base` with `tail` adjoined (`Path::join`).
///
/// Trusted: calls `std::path::Path::join`. Stated: a relative `tail`
/// without a drive prefix is appended to a `base` without one, after the
/// platform's separator (`/`, or `\` on Windows) unless `base` is empty or
/// already ends in `/`. Which separator is not stated, nor what joining
/// other paths gives.
#[verifier::external_body]
pub(crate) fn path_join(base: &str, tail: &str) -> (r: String)
    ensures
        plain_base(base@) && relative_tail(tail@) ==> joined(base@, tail@, r@),
{
    std::path::Path::new(base).join(tail).to_string_lossy().into_owned()
}

/// Whether `base` is a leading run of whole components of `p`
/// (`Path::starts_with`).
///
/// Trusted: calls `std::path::Path::starts_with`. Stated: every path starts
/// with itself, and between portable paths the answer is whether `p` is
/// `base` or lies below it name by name. Nothing is stated of other paths.
#[verifier::external_body]
pub(crate) fn path_starts_with(p: &str, base: &str) -> (r: bool)
    ensures
        p@ == base@ ==> r,
        portable_path(p@) && portable_path(base@) ==> r == (p@ == base@ || portable_below(
            p@,
            base@,
        )),
{
    std::path::Path::new(p).starts_with(base)
}

/// Whether two paths have the same components (`PartialEq` for `Path`).
///
/// Trusted: calls `<Path as PartialEq>::eq`. Stated: equal texts are equal
/// paths, and two portable paths are equal exactly when their texts are
/// (each portable path has one way of writing its components). Nothing is
/// stated of other paths.
#[verifier::external_body]
pub(crate) fn path_eq(a: &str, b: &str) -> (r: bool)
    ensures
        a@ == b@ ==> r,
        portable_path(a@) && portable_path(b@) ==> r == (a@ == b@),
{
    std::path::Path::new(a) == std::path::Path::new(b)
}

} // verus!
