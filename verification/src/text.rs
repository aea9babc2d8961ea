//! Character-level helpers over `str` and `String`: the specifications that
//! the parsers of this crate are stated in, and their executable forms.
use vstd::prelude::*;

verus! {

/// ASCII whitespace as `u8::is_ascii_whitespace` and `char::is_ascii_whitespace`
/// define it: space, tab, line feed, form feed and carriage return.
pub open spec fn is_ascii_ws(c: char) -> bool {
    c == ' ' || c == '\t' || c == '\n' || c == '\x0C' || c == '\r'
}

/// Executable form of `is_ascii_ws`.
pub fn ascii_ws(c: char) -> (r: bool)
    ensures
        r == is_ascii_ws(c),
{
    c == ' ' || c == '\t' || c == '\n' || c == '\x0C' || c == '\r'
}

/// `pat` occurs in `x` starting at index `i`.
pub open spec fn occurs_at(x: Seq<char>, pat: Seq<char>, i: int) -> bool {
    0 <= i && i + pat.len() <= x.len() && x.subrange(i, i + pat.len()) == pat
}

/// The first index at or after `i` where `pat` occurs in `x`.
pub open spec fn find_from(x: Seq<char>, pat: Seq<char>, i: int) -> Option<int>
    decreases x.len() - i,
{
    if i < 0 || i + pat.len() > x.len() {
        None
    } else if occurs_at(x, pat, i) {
        Some(i)
    } else if i >= x.len() {
        None
    } else {
        find_from(x, pat, i + 1)
    }
}

/// `x` contains `pat` as a contiguous part.
pub open spec fn contains_seq(x: Seq<char>, pat: Seq<char>) -> bool {
    find_from(x, pat, 0) is Some
}

/// `x` begins with `p`.
pub open spec fn starts_with_seq(x: Seq<char>, p: Seq<char>) -> bool {
    p.len() <= x.len() && x.subrange(0, p.len() as int) == p
}

/// `x` ends with `p`.
pub open spec fn ends_with_seq(x: Seq<char>, p: Seq<char>) -> bool {
    p.len() <= x.len() && x.subrange(x.len() - p.len(), x.len() as int) == p
}

/// The first index at or after `i` that holds `c`.
pub open spec fn index_of_from(x: Seq<char>, c: char, i: int) -> Option<int>
    decreases x.len() - i,
{
    if i < 0 || i >= x.len() {
        None
    } else if x[i] == c {
        Some(i)
    } else {
        index_of_from(x, c, i + 1)
    }
}

/// A found occurrence lies at or after `i`, within `x`, and is where `pat` occurs.
pub proof fn lemma_find_from(x: Seq<char>, pat: Seq<char>, i: int)
    requires
        0 <= i,
    ensures
        find_from(x, pat, i) matches Some(k) ==> i <= k && k + pat.len() <= x.len() && occurs_at(
            x,
            pat,
            k,
        ),
        find_from(x, pat, i) is None ==> forall|k: int|
            i <= k && k + pat.len() <= x.len() ==> !occurs_at(x, pat, k),
    decreases x.len() - i,
{
    if i < 0 || i + pat.len() > x.len() {
    } else if occurs_at(x, pat, i) {
    } else if i >= x.len() {
    } else {
        lemma_find_from(x, pat, i + 1);
    }
}

/// A found index lies at or after `i`, within `x`, and holds `c`.
pub proof fn lemma_index_of_from(x: Seq<char>, c: char, i: int)
    requires
        0 <= i,
    ensures
        index_of_from(x, c, i) matches Some(k) ==> i <= k < x.len() && x[k] == c && forall|j: int|
            i <= j < k ==> x[j] != c,
        index_of_from(x, c, i) is None ==> forall|k: int| i <= k < x.len() ==> x[k] != c,
    decreases x.len() - i,
{
    if i < 0 || i >= x.len() {
    } else if x[i] == c {
    } else {
        lemma_index_of_from(x, c, i + 1);
    }
}

/// An `Option<usize>` read as an `Option<int>`.
pub open spec fn opt_int(o: Option<usize>) -> Option<int> {
    match o {
        Some(k) => Some(k as int),
        None => None,
    }
}

/// An `Option<String>` read by its characters.
pub open spec fn opt_chars(o: Option<String>) -> Option<Seq<char>> {
    match o {
        Some(s) => Some(s@),
        None => None,
    }
}

/// The characters of `s`, in order.
pub fn chars_of(s: &str) -> (r: Vec<char>)
    ensures
        r@ == s@,
{
    let mut out: Vec<char> = Vec::new();
    for c in it: s.chars()
        invariant
            out@ == it.seq().take(it.index() as int),
    {
        out.push(c);
    }
    out
}

/// A `String` holding exactly the characters of `cs`.
///
/// Trusted: calls `FromIterator<char>` for `String` (std), which collects the
/// characters in order.
#[verifier::external_body]
pub(crate) fn string_from_chars(cs: &[char]) -> (r: String)
    ensures
        r@ == cs@,
{
    cs.iter().collect()
}

/// The lower-case form of a string as `str::to_lowercase` computes it
/// (full Unicode case mapping).
pub uninterp spec fn lowercase(s: Seq<char>) -> Seq<char>;

/// Trusted: calls `str::to_lowercase` (std), whose result depends on its
/// argument alone; the Unicode tables it follows are not restated here.
#[verifier::external_body]
pub(crate) fn to_lowercase(s: &str) -> (r: String)
    ensures
        r@ == lowercase(s@),
{
    s.to_lowercase()
}

/// Whether `pat` occurs in `x` at index `i`.
pub fn matches_at(x: &Vec<char>, pat: &Vec<char>, i: usize) -> (r: bool)
    ensures
        r == occurs_at(x@, pat@, i as int),
{
    if pat.len() > x.len() || i > x.len() - pat.len() {
        return false;
    }
    let mut k: usize = 0;
    while k < pat.len()
        invariant
            i + pat.len() <= x.len(),
            k <= pat.len(),
            forall|j: int| 0 <= j < k ==> x@[i + j] == pat@[j],
        decreases pat.len() - k,
    {
        if x[i + k] != pat[k] {
            assert(x@.subrange(i as int, i + pat.len())[k as int] != pat@[k as int]);
            return false;
        }
        k = k + 1;
    }
    assert(x@.subrange(i as int, i + pat.len()) =~= pat@);
    true
}

/// The first index at or after `i` where `pat` occurs in `x`.
pub fn find_chars(x: &Vec<char>, pat: &Vec<char>, i: usize) -> (r: Option<usize>)
    ensures
        opt_int(r) == find_from(x@, pat@, i as int),
        r matches Some(k) ==> i <= k && k + pat.len() <= x.len(),
{
    let mut k = i;
    while k <= x.len() && pat.len() <= x.len() - k
        invariant
            i <= k,
            find_from(x@, pat@, i as int) == find_from(x@, pat@, k as int),
        decreases x.len() + 1 - k,
    {
        if matches_at(x, pat, k) {
            return Some(k);
        }
        if k == x.len() {
            return None;
        }
        k = k + 1;
    }
    None
}

/// The first index at or after `i` that holds `c`.
pub fn index_of_char(x: &Vec<char>, c: char, i: usize) -> (r: Option<usize>)
    ensures
        opt_int(r) == index_of_from(x@, c, i as int),
        r matches Some(k) ==> i <= k < x.len(),
{
    let mut k = i;
    while k < x.len()
        invariant
            i <= k,
            index_of_from(x@, c, i as int) == index_of_from(x@, c, k as int),
        decreases x.len() - k,
    {
        if x[k] == c {
            return Some(k);
        }
        k = k + 1;
    }
    None
}

/// Whether `x` begins with `p`.
pub fn starts_with_chars(x: &Vec<char>, p: &Vec<char>) -> (r: bool)
    ensures
        r == starts_with_seq(x@, p@),
{
    matches_at(x, p, 0)
}

/// Whether `x` ends with `p`.
pub fn ends_with_chars(x: &Vec<char>, p: &Vec<char>) -> (r: bool)
    ensures
        r == ends_with_seq(x@, p@),
{
    if p.len() > x.len() {
        return false;
    }
    matches_at(x, p, x.len() - p.len())
}

/// Whether `x` contains `pat`.
pub fn contains_chars(x: &Vec<char>, pat: &Vec<char>) -> (r: bool)
    ensures
        r == contains_seq(x@, pat@),
{
    find_chars(x, pat, 0).is_some()
}

/// Whether two character sequences are equal.
pub fn chars_eq(a: &Vec<char>, b: &Vec<char>) -> (r: bool)
    ensures
        r == (a@ == b@),
{
    if a.len() != b.len() {
        return false;
    }
    let r = matches_at(a, b, 0);
    proof {
        if r {
            assert(a@.subrange(0, a@.len() as int) =~= a@);
        } else {
            if a@ == b@ {
                assert(a@.subrange(0, a@.len() as int) =~= a@);
            }
        }
    }
    r
}

/// Whether two strings are equal.
pub fn str_eq(a: &str, b: &str) -> (r: bool)
    ensures
        r == (a@ == b@),
{
    chars_eq(&chars_of(a), &chars_of(b))
}

/// `t` stands in `s` at index `i` as a whole token of ASCII-whitespace
/// separated text.
pub open spec fn token_at(s: Seq<char>, t: Seq<char>, i: int) -> bool {
    &&& occurs_at(s, t, i)
    &&& (i == 0 || is_ascii_ws(s[i - 1]))
    &&& (i + t.len() == s.len() || is_ascii_ws(s[i + t.len()]))
}

/// `t` is one of the tokens that splitting `s` at runs of ASCII whitespace
/// yields (`t` being non-empty and free of whitespace).
pub open spec fn has_ascii_token(s: Seq<char>, t: Seq<char>) -> bool {
    exists|i: int| token_at(s, t, i)
}

/// Whether `t` is one of the ASCII-whitespace separated tokens of `s`.
pub fn has_token(s: &Vec<char>, t: &Vec<char>) -> (r: bool)
    ensures
        r == has_ascii_token(s@, t@),
{
    let mut i: usize = 0;
    loop
        invariant
            i <= s.len(),
            forall|j: int| 0 <= j < i ==> !token_at(s@, t@, j),
        ensures
            forall|j: int| 0 <= j <= s.len() ==> !token_at(s@, t@, j),
        decreases s.len() + 1 - i,
    {
        if matches_at(s, t, i) && (i == 0 || ascii_ws(s[i - 1])) && (i + t.len() == s.len()
            || ascii_ws(s[i + t.len()])) {
            assert(token_at(s@, t@, i as int));
            return true;
        }
        if i == s.len() {
            break;
        }
        i = i + 1;
    }
    assert forall|j: int| !token_at(s@, t@, j) by {
        if 0 <= j <= s.len() {
        }
    }
    false
}

/// `a` comes before `b` in the lexicographic order of code points (the order
/// of `String`s, whose UTF-8 bytes compare as their code points do).
pub open spec fn lex_lt(a: Seq<char>, b: Seq<char>) -> bool
    decreases a.len(),
{
    if a.len() == 0 {
        b.len() > 0
    } else if b.len() == 0 {
        false
    } else if a[0] != b[0] {
        (a[0] as u32) < (b[0] as u32)
    } else {
        lex_lt(a.drop_first(), b.drop_first())
    }
}

/// Nothing comes before itself.
pub proof fn lemma_lex_irreflexive(a: Seq<char>)
    ensures
        !lex_lt(a, a),
    decreases a.len(),
{
    if a.len() > 0 {
        lemma_lex_irreflexive(a.drop_first());
    }
}

/// The order is transitive.
pub proof fn lemma_lex_transitive(a: Seq<char>, b: Seq<char>, c: Seq<char>)
    requires
        lex_lt(a, b),
        lex_lt(b, c),
    ensures
        lex_lt(a, c),
    decreases a.len(),
{
    if a.len() > 0 && b.len() > 0 && c.len() > 0 {
        if a[0] == b[0] && b[0] == c[0] {
            lemma_lex_transitive(a.drop_first(), b.drop_first(), c.drop_first());
        }
    }
}

/// Any two sequences are equal or ordered one way or the other.
pub proof fn lemma_lex_total(a: Seq<char>, b: Seq<char>)
    ensures
        a == b || lex_lt(a, b) || lex_lt(b, a),
    decreases a.len(),
{
    if a.len() > 0 && b.len() > 0 {
        if a[0] != b[0] {
            vstd::utf8::char_u32_cast(a[0], a[0] as u32);
            vstd::utf8::char_u32_cast(b[0], b[0] as u32);
            assert((a[0] as u32) != (b[0] as u32));
        } else {
            lemma_lex_total(a.drop_first(), b.drop_first());
            if a.drop_first() == b.drop_first() {
                assert(a =~= seq![a[0]] + a.drop_first());
                assert(b =~= seq![b[0]] + b.drop_first());
            }
        }
    } else if a.len() == 0 && b.len() == 0 {
        assert(a =~= b);
    }
}

/// Whether `a` comes before `b` in the lexicographic order of code points.
pub fn lex_less(a: &Vec<char>, b: &Vec<char>) -> (r: bool)
    ensures
        r == lex_lt(a@, b@),
{
    let mut i: usize = 0;
    assert(a@.skip(0) =~= a@);
    assert(b@.skip(0) =~= b@);
    while i < a.len() && i < b.len() && a[i] == b[i]
        invariant
            i <= a.len(),
            i <= b.len(),
            lex_lt(a@, b@) == lex_lt(a@.skip(i as int), b@.skip(i as int)),
        decreases a.len() - i,
    {
        assert(a@.skip(i as int).drop_first() =~= a@.skip(i + 1));
        assert(b@.skip(i as int).drop_first() =~= b@.skip(i + 1));
        i = i + 1;
    }
    if i == a.len() {
        return i < b.len();
    }
    if i == b.len() {
        return false;
    }
    assert(a@.skip(i as int)[0] == a@[i as int]);
    assert(b@.skip(i as int)[0] == b@[i as int]);
    (a[i] as u32) < (b[i] as u32)
}

} // verus!
