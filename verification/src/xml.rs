//! A small reader for the start tags of XML documents: enough to find an
//! attribute of an element, as the EPUB container and package files need.
use vstd::prelude::*;
use crate::text::{
    ascii_ws, chars_eq, chars_of, ends_with_chars, ends_with_seq, find_chars, find_from, index_of_char,
    index_of_from, is_ascii_ws, lemma_find_from, lemma_index_of_from, opt_chars, string_from_chars,
};

verus! {

/// The first index at or after `i` whose character fails `p` (or the end).
pub open spec fn scan_while(c: Seq<char>, i: int, p: spec_fn(char) -> bool) -> int
    decreases c.len() - i,
{
    if 0 <= i < c.len() && p(c[i]) {
        scan_while(c, i + 1, p)
    } else {
        i
    }
}

/// `scan_while` stays within `[i, c.len()]`, passes only characters that hold
/// `p`, and stops at the end or at a character that fails `p`.
pub proof fn lemma_scan_while(c: Seq<char>, i: int, p: spec_fn(char) -> bool)
    requires
        0 <= i <= c.len(),
    ensures
        i <= scan_while(c, i, p) <= c.len(),
        forall|k: int| i <= k < scan_while(c, i, p) ==> p(c[k]),
        scan_while(c, i, p) < c.len() ==> !p(c[scan_while(c, i, p)]),
    decreases c.len() - i,
{
    if i < c.len() && p(c[i]) {
        lemma_scan_while(c, i + 1, p);
    }
}

/// ASCII whitespace or `/`.
pub open spec fn ws_or_slash() -> spec_fn(char) -> bool {
    |ch: char| is_ascii_ws(ch) || ch == '/'
}

/// A character that may stand in an attribute name.
pub open spec fn name_char() -> spec_fn(char) -> bool {
    |ch: char| ch != '=' && !is_ascii_ws(ch) && ch != '/'
}

/// ASCII whitespace.
pub open spec fn ws_char() -> spec_fn(char) -> bool {
    |ch: char| is_ascii_ws(ch)
}

/// Any character but `q`.
pub open spec fn other_than(q: char) -> spec_fn(char) -> bool {
    |ch: char| ch != q
}

/// Characters skipped before an attribute name: ASCII whitespace and `/`.
pub open spec fn skip_ws_slash(c: Seq<char>, i: int) -> int {
    scan_while(c, i, ws_or_slash())
}

/// The end of an attribute name: it runs up to `=`, ASCII whitespace or `/`.
pub open spec fn name_end(c: Seq<char>, i: int) -> int {
    scan_while(c, i, name_char())
}

/// The end of a run of ASCII whitespace.
pub open spec fn skip_ws(c: Seq<char>, i: int) -> int {
    scan_while(c, i, ws_char())
}

/// The end of a quoted value: the next `q` (or the end).
pub open spec fn value_end(c: Seq<char>, i: int, q: char) -> int {
    scan_while(c, i, other_than(q))
}

/// `value_end` stays within `[i, c.len()]` and stops at `q` or at the end.
pub proof fn lemma_value_end(c: Seq<char>, i: int, q: char)
    requires
        0 <= i <= c.len(),
    ensures
        i <= value_end(c, i, q) <= c.len(),
        forall|k: int| i <= k < value_end(c, i, q) ==> c[k] != q,
        value_end(c, i, q) < c.len() ==> c[value_end(c, i, q)] == q,
{
    let p = other_than(q);
    lemma_scan_while(c, i, p);
    assert forall|k: int| i <= k < value_end(c, i, q) implies c[k] != q by {
        assert(p(c[k]));
    }
}

/// The attributes, in order, of the inside of a start tag read from index `i`:
/// names run up to `=`, whitespace or `/`; a name without `=` is skipped; a
/// value is quoted with `"` or `'`; reading stops at a missing name, a
/// missing value or an unquoted value, and an unterminated value runs to the end.
pub open spec fn attrs_from(c: Seq<char>, i: int) -> Seq<(Seq<char>, Seq<char>)>
    decreases c.len() - i,
{
    if !(0 <= i < c.len()) {
        Seq::empty()
    } else {
        let j = skip_ws_slash(c, i);
        let k = name_end(c, j);
        let m = skip_ws(c, k);
        proof {
            lemma_scan_while(c, i, ws_or_slash());
            lemma_scan_while(c, j, name_char());
            lemma_scan_while(c, k, ws_char());
        }
        if k == j {
            Seq::empty()
        } else if m >= c.len() || c[m] != '=' {
            attrs_from(c, m)
        } else {
            let n = skip_ws(c, m + 1);
            proof {
                lemma_scan_while(c, m + 1, ws_char());
            }
            if n >= c.len() || (c[n] != '"' && c[n] != '\'') {
                Seq::empty()
            } else {
                let e = value_end(c, n + 1, c[n]);
                proof {
                    lemma_value_end(c, n + 1, c[n]);
                }
                let next = if e < c.len() { e + 1 } else { e };
                seq![(c.subrange(j, k), c.subrange(n + 1, e))] + attrs_from(c, next)
            }
        }
    }
}

/// Where each attribute that `attrs_from` reads lies in `c`: the start and
/// end of its name, then of its value.
pub open spec fn attr_spans(c: Seq<char>, i: int) -> Seq<(int, int, int, int)>
    decreases c.len() - i,
{
    if !(0 <= i < c.len()) {
        Seq::empty()
    } else {
        let j = skip_ws_slash(c, i);
        let k = name_end(c, j);
        let m = skip_ws(c, k);
        proof {
            lemma_scan_while(c, i, ws_or_slash());
            lemma_scan_while(c, j, name_char());
            lemma_scan_while(c, k, ws_char());
        }
        if k == j {
            Seq::empty()
        } else if m >= c.len() || c[m] != '=' {
            attr_spans(c, m)
        } else {
            let n = skip_ws(c, m + 1);
            proof {
                lemma_scan_while(c, m + 1, ws_char());
            }
            if n >= c.len() || (c[n] != '"' && c[n] != '\'') {
                Seq::empty()
            } else {
                let e = value_end(c, n + 1, c[n]);
                proof {
                    lemma_value_end(c, n + 1, c[n]);
                }
                let next = if e < c.len() {
                    e + 1
                } else {
                    e
                };
                seq![(j, k, n + 1, e)] + attr_spans(c, next)
            }
        }
    }
}

/// The number of `=` signs in `c` at index `i` or later.
pub open spec fn eq_signs_from(c: Seq<char>, i: int) -> nat
    decreases c.len() - i,
{
    if !(0 <= i < c.len()) {
        0
    } else {
        (if c[i] == '=' {
            1nat
        } else {
            0nat
        }) + eq_signs_from(c, i + 1)
    }
}

/// Fewer or as many `=` signs lie further on.
pub proof fn lemma_eq_signs_fewer(c: Seq<char>, i: int, x: int)
    requires
        0 <= i <= x,
    ensures
        eq_signs_from(c, x) <= eq_signs_from(c, i),
    decreases x - i,
{
    if i < x {
        lemma_eq_signs_fewer(c, i + 1, x);
    }
}

/// A character that may stand in an attribute name, as a plain predicate.
pub open spec fn is_name_char(ch: char) -> bool {
    ch != '=' && !is_ascii_ws(ch) && ch != '/'
}

/// What `attrs_from` reads from index `i` on lies there, in order: each
/// name and value is the text between its span's bounds, names are made of
/// name characters and are not empty, each attribute ends before the next
/// begins, and there are no more attributes than `=` signs.
pub proof fn lemma_attrs_spans(c: Seq<char>, i: int)
    requires
        0 <= i,
    ensures
        attr_spans(c, i).len() == attrs_from(c, i).len(),
        attrs_from(c, i).len() <= eq_signs_from(c, i),
        forall|t: int|
            0 <= t < attr_spans(c, i).len() ==> {
                let s = #[trigger] attr_spans(c, i)[t];
                &&& i <= s.0 < s.1 <= s.2 <= s.3 <= c.len()
                &&& attrs_from(c, i)[t] == (c.subrange(s.0, s.1), c.subrange(s.2, s.3))
                &&& forall|q: int| s.0 <= q < s.1 ==> is_name_char(#[trigger] c[q])
            },
        forall|t: int, u: int|
            0 <= t < u < attr_spans(c, i).len() ==> (#[trigger] attr_spans(c, i)[t]).3 < (
            #[trigger] attr_spans(c, i)[u]).0,
    decreases c.len() - i,
{
    if !(0 <= i < c.len()) {
        return;
    }
    let j = skip_ws_slash(c, i);
    let k = name_end(c, j);
    let m = skip_ws(c, k);
    lemma_scan_while(c, i, ws_or_slash());
    lemma_scan_while(c, j, name_char());
    lemma_scan_while(c, k, ws_char());
    if k == j {
        return;
    }
    if m >= c.len() || c[m] != '=' {
        lemma_attrs_spans(c, m);
        lemma_eq_signs_fewer(c, i, m);
        return;
    }
    let n = skip_ws(c, m + 1);
    lemma_scan_while(c, m + 1, ws_char());
    if n >= c.len() || (c[n] != '"' && c[n] != '\'') {
        return;
    }
    let e = value_end(c, n + 1, c[n]);
    lemma_value_end(c, n + 1, c[n]);
    let next = if e < c.len() {
        e + 1
    } else {
        e
    };
    lemma_attrs_spans(c, next);
    lemma_eq_signs_fewer(c, i, m);
    lemma_eq_signs_fewer(c, m + 1, next);
    assert(eq_signs_from(c, m) == 1 + eq_signs_from(c, m + 1));
    let rest = attr_spans(c, next);
    let sp = attr_spans(c, i);
    let at = attrs_from(c, i);
    assert(sp == seq![(j, k, n + 1, e)] + rest);
    assert(at == seq![(c.subrange(j, k), c.subrange(n + 1, e))] + attrs_from(c, next));
    assert forall|q: int| j <= q < k implies is_name_char(c[q]) by {
        assert(name_char()(c[q]));
    }
    assert forall|t: int|
        0 <= t < sp.len() implies {
            let s = #[trigger] sp[t];
            &&& i <= s.0 < s.1 <= s.2 <= s.3 <= c.len()
            &&& at[t] == (c.subrange(s.0, s.1), c.subrange(s.2, s.3))
            &&& forall|q: int| s.0 <= q < s.1 ==> is_name_char(#[trigger] c[q])
        } by {
        if t > 0 {
            assert(sp[t] == rest[t - 1]);
            assert(at[t] == attrs_from(c, next)[t - 1]);
        }
    }
    assert forall|t: int, u: int| 0 <= t < u < sp.len() implies (#[trigger] sp[t]).3 < (
    #[trigger] sp[u]).0 by {
        assert(sp[u] == rest[u - 1]);
        if t > 0 {
            assert(sp[t] == rest[t - 1]);
        } else {
            assert(rest.len() > 0);
            assert(e < c.len());
        }
    }
}

/// The attribute reader keeps to the text: it reads no more attributes than
/// there are `=` signs; every name is a non-empty run of characters other
/// than `=`, ASCII whitespace and `/`; and every name and value is a piece
/// of the text, in the order the attributes are written, none overlapping.
pub proof fn law_attrs_within_text(c: Seq<char>)
    ensures
        attrs_from(c, 0).len() <= eq_signs_from(c, 0),
        forall|t: int|
            0 <= t < attrs_from(c, 0).len() ==> (#[trigger] attrs_from(c, 0)[t]).0.len() > 0 && forall|
                q: int,
            |
                0 <= q < attrs_from(c, 0)[t].0.len() ==> is_name_char(
                    #[trigger] attrs_from(c, 0)[t].0[q],
                ),
        exists|spans: Seq<(int, int, int, int)>|
            #![trigger spans.len()]
            spans.len() == attrs_from(c, 0).len() && (forall|t: int|
                0 <= t < spans.len() ==> {
                    let s = #[trigger] spans[t];
                    &&& 0 <= s.0 < s.1 <= s.2 <= s.3 <= c.len()
                    &&& attrs_from(c, 0)[t] == (c.subrange(s.0, s.1), c.subrange(s.2, s.3))
                }) && (forall|t: int, u: int|
                0 <= t < u < spans.len() ==> (#[trigger] spans[t]).3 < (#[trigger] spans[u]).0),
{
    lemma_attrs_spans(c, 0);
    let sp = attr_spans(c, 0);
    let at = attrs_from(c, 0);
    assert forall|t: int| 0 <= t < at.len() implies (#[trigger] at[t]).0.len() > 0 && forall|q: int|
        0 <= q < at[t].0.len() ==> is_name_char(#[trigger] at[t].0[q]) by {
        let s = sp[t];
        assert forall|q: int| 0 <= q < at[t].0.len() implies is_name_char(#[trigger] at[t].0[q]) by {
            assert(at[t].0[q] == c[s.0 + q]);
        }
    }
    assert(sp.len() == at.len());
}

/// A list of string pairs read by their characters.
pub open spec fn pairs_view(v: Seq<(String, String)>) -> Seq<(Seq<char>, Seq<char>)> {
    v.map_values(|p: (String, String)| (p.0@, p.1@))
}

fn skip_ws_slash_at(c: &Vec<char>, i: usize) -> (r: usize)
    requires
        i <= c.len(),
    ensures
        r == skip_ws_slash(c@, i as int),
        i <= r <= c.len(),
{
    let mut k = i;
    while k < c.len() && (ascii_ws(c[k]) || c[k] == '/')
        invariant
            i <= k <= c.len(),
            skip_ws_slash(c@, i as int) == skip_ws_slash(c@, k as int),
        decreases c.len() - k,
    {
        k = k + 1;
    }
    k
}

fn name_end_at(c: &Vec<char>, i: usize) -> (r: usize)
    requires
        i <= c.len(),
    ensures
        r == name_end(c@, i as int),
        i <= r <= c.len(),
{
    let mut k = i;
    while k < c.len() && c[k] != '=' && !ascii_ws(c[k]) && c[k] != '/'
        invariant
            i <= k <= c.len(),
            name_end(c@, i as int) == name_end(c@, k as int),
        decreases c.len() - k,
    {
        k = k + 1;
    }
    k
}

fn skip_ws_at(c: &Vec<char>, i: usize) -> (r: usize)
    requires
        i <= c.len(),
    ensures
        r == skip_ws(c@, i as int),
        i <= r <= c.len(),
{
    let mut k = i;
    while k < c.len() && ascii_ws(c[k])
        invariant
            i <= k <= c.len(),
            skip_ws(c@, i as int) == skip_ws(c@, k as int),
        decreases c.len() - k,
    {
        k = k + 1;
    }
    k
}

fn value_end_at(c: &Vec<char>, i: usize, q: char) -> (r: usize)
    requires
        i <= c.len(),
    ensures
        r == value_end(c@, i as int, q),
        i <= r <= c.len(),
{
    let mut k = i;
    while k < c.len() && c[k] != q
        invariant
            i <= k <= c.len(),
            value_end(c@, i as int, q) == value_end(c@, k as int, q),
        decreases c.len() - k,
    {
        k = k + 1;
    }
    k
}

/// The attributes of the inside of a start tag (between `<tag` and `>`, a
/// trailing `/` allowed), as (name, value) pairs in order.
pub fn parse_xml_attrs(tag_inner: &str) -> (r: Vec<(String, String)>)
    ensures
        pairs_view(r@) == attrs_from(tag_inner@, 0),
{
    let c = chars_of(tag_inner);
    parse_attr_chars(&c)
}

/// `parse_xml_attrs` on a sequence of characters.
pub fn parse_attr_chars(c: &Vec<char>) -> (r: Vec<(String, String)>)
    ensures
        pairs_view(r@) == attrs_from(c@, 0),
{
    let mut attrs: Vec<(String, String)> = Vec::new();
    let mut i: usize = 0;
    loop
        invariant
            i <= c.len(),
            pairs_view(attrs@) + attrs_from(c@, i as int) == attrs_from(c@, 0),
        ensures
            pairs_view(attrs@) == attrs_from(c@, 0),
        decreases c.len() - i,
    {
        if i >= c.len() {
            assert(attrs_from(c@, i as int) =~= Seq::empty());
            assert(pairs_view(attrs@) + attrs_from(c@, i as int) =~= pairs_view(attrs@));
            break;
        }
        let ghost gi = i as int;
        let j = skip_ws_slash_at(c, i);
        let k = name_end_at(c, j);
        proof {
            lemma_scan_while(c@, gi, ws_or_slash());
            lemma_scan_while(c@, j as int, name_char());
        }
        if k == j {
            assert(attrs_from(c@, gi) =~= Seq::empty());
            assert(pairs_view(attrs@) + attrs_from(c@, gi) =~= pairs_view(attrs@));
            break;
        }
        let m = skip_ws_at(c, k);
        proof {
            lemma_scan_while(c@, k as int, ws_char());
        }
        if m >= c.len() || c[m] != '=' {
            assert(attrs_from(c@, gi) == attrs_from(c@, m as int));
            i = m;
            continue;
        }
        let n = skip_ws_at(c, m + 1);
        proof {
            lemma_scan_while(c@, m + 1, ws_char());
        }
        if n >= c.len() || (c[n] != '"' && c[n] != '\'') {
            assert(attrs_from(c@, gi) =~= Seq::empty());
            assert(pairs_view(attrs@) + attrs_from(c@, gi) =~= pairs_view(attrs@));
            break;
        }
        let q = c[n];
        let e = value_end_at(c, n + 1, q);
        proof {
            lemma_value_end(c@, n + 1, q);
        }
        let next = if e < c.len() { e + 1 } else { e };
        let name = string_from_chars(&c.as_slice()[j..k]);
        let val = string_from_chars(&c.as_slice()[n + 1..e]);
        let ghost before = attrs@;
        attrs.push((name, val));
        proof {
            assert(attrs_from(c@, gi) == seq![(c@.subrange(j as int, k as int), c@.subrange(n + 1, e as int))] + attrs_from(c@, next as int));
            assert(pairs_view(attrs@) =~= pairs_view(before) + seq![(c@.subrange(j as int, k as int), c@.subrange(n + 1, e as int))]);
            assert(pairs_view(attrs@) + attrs_from(c@, next as int) =~= pairs_view(before) + attrs_from(c@, gi));
        }
        i = next;
    }
    attrs
}

/// A character that may follow a tag name in a start tag.
pub open spec fn is_tag_boundary(ch: char) -> bool {
    is_ascii_ws(ch) || ch == '/' || ch == '>'
}

/// The insides (between `needle` and the next `>`) of the start tags that
/// `needle` opens, read from index `i` on: an occurrence of `needle` that is
/// not followed by whitespace, `/` or `>` is passed over, and reading stops at
/// a start tag that is never closed.
pub open spec fn open_tags_from(x: Seq<char>, needle: Seq<char>, i: int) -> Seq<Seq<char>>
    decreases x.len() - i,
{
    if needle.len() == 0 || i < 0 {
        Seq::empty()
    } else {
        match find_from(x, needle, i) {
            None => Seq::empty(),
            Some(s) => {
                let a = s + needle.len();
                proof {
                    lemma_find_from(x, needle, i);
                }
                if !(a < x.len() && is_tag_boundary(x[a])) {
                    open_tags_from(x, needle, a)
                } else {
                    match index_of_from(x, '>', a) {
                        None => Seq::empty(),
                        Some(e) => {
                            proof {
                                lemma_index_of_from(x, '>', a);
                            }
                            seq![x.subrange(a, e)] + open_tags_from(x, needle, e + 1)
                        },
                    }
                }
            },
        }
    }
}

/// The insides of the start tags named `tag` in `xml`, in order.
pub open spec fn open_tags(xml: Seq<char>, tag: Seq<char>) -> Seq<Seq<char>> {
    open_tags_from(xml, seq!['<'] + tag, 0)
}

/// A list of strings read by their characters.
pub open spec fn strings_view(v: Seq<String>) -> Seq<Seq<char>> {
    v.map_values(|s: String| s@)
}

/// The insides (between `<tag` and `>`) of every start tag named `tag` in
/// `xml`, in document order.
pub fn iter_open_tags(xml: &str, tag: &str) -> (r: Vec<String>)
    ensures
        strings_view(r@) == open_tags(xml@, tag@),
{
    let x = chars_of(xml);
    let t = chars_of(tag);
    let mut needle: Vec<char> = Vec::new();
    needle.push('<');
    let mut q: usize = 0;
    while q < t.len()
        invariant
            q <= t.len(),
            needle@ == seq!['<'] + t@.take(q as int),
        decreases t.len() - q,
    {
        needle.push(t[q]);
        q = q + 1;
        assert(needle@ =~= seq!['<'] + t@.take(q as int));
    }
    assert(t@.take(t.len() as int) =~= t@);
    let ghost nd = needle@;
    let mut out: Vec<String> = Vec::new();
    let mut i: usize = 0;
    loop
        invariant
            i <= x.len(),
            nd == needle@,
            nd.len() >= 1,
            strings_view(out@) + open_tags_from(x@, nd, i as int) == open_tags_from(x@, nd, 0),
        ensures
            strings_view(out@) == open_tags_from(x@, nd, 0),
        decreases x.len() - i,
    {
        let found = find_chars(&x, &needle, i);
        proof {
            lemma_find_from(x@, nd, i as int);
        }
        match found {
            None => {
                assert(strings_view(out@) + open_tags_from(x@, nd, i as int) =~= strings_view(out@));
                break;
            },
            Some(s) => {
                let a = s + needle.len();
                if !(a < x.len() && (ascii_ws(x[a]) || x[a] == '/' || x[a] == '>')) {
                    assert(open_tags_from(x@, nd, i as int) == open_tags_from(x@, nd, a as int));
                    i = a;
                    continue;
                }
                let close = index_of_char(&x, '>', a);
                proof {
                    lemma_index_of_from(x@, '>', a as int);
                }
                match close {
                    None => {
                        assert(strings_view(out@) + open_tags_from(x@, nd, i as int) =~= strings_view(
                            out@,
                        ));
                        break;
                    },
                    Some(e) => {
                        let inner = string_from_chars(&x.as_slice()[a..e]);
                        let ghost before = out@;
                        out.push(inner);
                        proof {
                            assert(open_tags_from(x@, nd, i as int) == seq![x@.subrange(a as int, e as int)]
                                + open_tags_from(x@, nd, e + 1));
                            assert(strings_view(out@) =~= strings_view(before) + seq![
                                x@.subrange(a as int, e as int),
                            ]);
                            assert(strings_view(out@) + open_tags_from(x@, nd, e + 1) =~= strings_view(
                                before,
                            ) + open_tags_from(x@, nd, i as int));
                        }
                        i = e + 1;
                    },
                }
            },
        }
    }
    out
}

/// A name given in an attribute matches `name` when it is `name` itself or
/// ends in `:name` (a namespace prefix).
pub open spec fn attr_name_matches(k: Seq<char>, name: Seq<char>) -> bool {
    k == name || ends_with_seq(k, seq![':'] + name)
}

/// The value of the first attribute at index `i` or later whose name matches `name`.
pub open spec fn attr_value_from(
    attrs: Seq<(Seq<char>, Seq<char>)>,
    name: Seq<char>,
    i: int,
) -> Option<Seq<char>>
    decreases attrs.len() - i,
{
    if i < 0 || i >= attrs.len() {
        None
    } else if attr_name_matches(attrs[i].0, name) {
        Some(attrs[i].1)
    } else {
        attr_value_from(attrs, name, i + 1)
    }
}

/// The value of the first attribute whose name matches `name`.
pub open spec fn attr_lookup(attrs: Seq<(Seq<char>, Seq<char>)>, name: Seq<char>) -> Option<Seq<char>> {
    attr_value_from(attrs, name, 0)
}

/// The value of the first attribute named `name` (or `prefix:name`).
pub fn attr_value(attrs: &[(String, String)], name: &str) -> (r: Option<String>)
    ensures
        opt_chars(r) == attr_lookup(pairs_view(attrs@), name@),
{
    let n = chars_of(name);
    let mut suffix: Vec<char> = Vec::new();
    suffix.push(':');
    let mut q: usize = 0;
    while q < n.len()
        invariant
            q <= n.len(),
            suffix@ == seq![':'] + n@.take(q as int),
        decreases n.len() - q,
    {
        suffix.push(n[q]);
        q = q + 1;
        assert(suffix@ =~= seq![':'] + n@.take(q as int));
    }
    assert(n@.take(n.len() as int) =~= n@);
    let ghost pv = pairs_view(attrs@);
    let mut i: usize = 0;
    while i < attrs.len()
        invariant
            i <= attrs.len(),
            pv == pairs_view(attrs@),
            pv.len() == attrs@.len(),
            suffix@ == seq![':'] + name@,
            n@ == name@,
            attr_value_from(pv, name@, 0) == attr_value_from(pv, name@, i as int),
        decreases attrs.len() - i,
    {
        let k = chars_of(attrs[i].0.as_str());
        assert(pv[i as int] == (attrs@[i as int].0@, attrs@[i as int].1@));
        if chars_eq(&k, &n) || ends_with_chars(&k, &suffix) {
            return Some(attrs[i].1.clone());
        }
        i = i + 1;
    }
    None
}

/// The attributes of each start tag in `tags`.
pub open spec fn tags_attrs(tags: Seq<Seq<char>>) -> Seq<Seq<(Seq<char>, Seq<char>)>> {
    tags.map_values(|t: Seq<char>| attrs_from(t, 0))
}

/// The first value of `attr` found in the tags at index `i` or later.
pub open spec fn first_attr_from(
    items: Seq<Seq<(Seq<char>, Seq<char>)>>,
    attr: Seq<char>,
    i: int,
) -> Option<Seq<char>>
    decreases items.len() - i,
{
    if i < 0 || i >= items.len() {
        None
    } else {
        match attr_lookup(items[i], attr) {
            Some(v) => Some(v),
            None => first_attr_from(items, attr, i + 1),
        }
    }
}

/// The value of `attr` in the first start tag named `tag` that has it.
pub open spec fn extract_attr_spec(xml: Seq<char>, tag: Seq<char>, attr: Seq<char>) -> Option<
    Seq<char>,
> {
    first_attr_from(tags_attrs(open_tags(xml, tag)), attr, 0)
}

/// The value of attribute `attr` in the first start tag named `tag` of `xml`
/// that carries it.
pub fn extract_attr(xml: &str, tag: &str, attr: &str) -> (r: Option<String>)
    ensures
        opt_chars(r) == extract_attr_spec(xml@, tag@, attr@),
{
    let tags = iter_open_tags(xml, tag);
    let ghost items = tags_attrs(strings_view(tags@));
    let mut i: usize = 0;
    while i < tags.len()
        invariant
            i <= tags.len(),
            items == tags_attrs(strings_view(tags@)),
            items.len() == tags.len(),
            strings_view(tags@) == open_tags(xml@, tag@),
            first_attr_from(items, attr@, 0) == first_attr_from(items, attr@, i as int),
        decreases tags.len() - i,
    {
        let attrs = parse_xml_attrs(tags[i].as_str());
        assert(items[i as int] == pairs_view(attrs@));
        if let Some(v) = attr_value(attrs.as_slice(), attr) {
            return Some(v);
        }
        i = i + 1;
    }
    None
}

} // verus!
