//! Finding the cover image of an EPUB book from its container and package
//! documents, and naming the places involved.
use vstd::prelude::*;
use crate::text::{
    chars_eq, chars_of, index_of_char, index_of_from, lemma_index_of_from, string_from_chars, contains_chars, contains_seq, has_ascii_token, has_token, lowercase, opt_chars,
    starts_with_chars, starts_with_seq, str_eq, to_lowercase,
};
use crate::preview::{PreviewPayload, PreviewView};
use crate::xml::{
    attr_lookup, extract_attr, extract_attr_spec, attr_value, iter_open_tags, open_tags, pairs_view, parse_xml_attrs, strings_view,
    tags_attrs,
};

verus! {

/// The value of an optional attribute, or the empty string.
pub open spec fn or_empty(o: Option<Seq<char>>) -> Seq<char> {
    match o {
        Some(v) => v,
        None => Seq::empty(),
    }
}

/// From index `i` on, the `content` of the first `meta` tag whose `name` is
/// `cover` and that has a `content`.
pub open spec fn meta_cover_from(metas: Seq<Seq<(Seq<char>, Seq<char>)>>, i: int) -> Option<
    Seq<char>,
>
    decreases metas.len() - i,
{
    if i < 0 || i >= metas.len() {
        None
    } else if attr_lookup(metas[i], "name"@) == Some("cover"@) && attr_lookup(
        metas[i],
        "content"@,
    ) is Some {
        attr_lookup(metas[i], "content"@)
    } else {
        meta_cover_from(metas, i + 1)
    }
}

/// The id that `<meta name="cover" content="...">` names as the cover (EPUB 2).
pub open spec fn meta_cover_id(opf: Seq<char>) -> Option<Seq<char>> {
    meta_cover_from(tags_attrs(open_tags(opf, "meta"@)), 0)
}

/// The id of the cover item as an EPUB 2 `meta` element names it.
pub fn find_meta_cover_id(opf: &str) -> (r: Option<String>)
    ensures
        opt_chars(r) == meta_cover_id(opf@),
{
    let tags = iter_open_tags(opf, "meta");
    let ghost metas = tags_attrs(strings_view(tags@));
    let mut i: usize = 0;
    while i < tags.len()
        invariant
            i <= tags.len(),
            metas == tags_attrs(strings_view(tags@)),
            metas.len() == tags.len(),
            strings_view(tags@) == open_tags(opf@, "meta"@),
            meta_cover_from(metas, 0) == meta_cover_from(metas, i as int),
        decreases tags.len() - i,
    {
        let attrs = parse_xml_attrs(tags[i].as_str());
        assert(metas[i as int] == pairs_view(attrs@));
        let name = attr_value(attrs.as_slice(), "name");
        let is_cover = match &name {
            Some(n) => str_eq(n.as_str(), "cover"),
            None => false,
        };
        if is_cover {
            let content = attr_value(attrs.as_slice(), "content");
            if content.is_some() {
                return content;
            }
        }
        i = i + 1;
    }
    None
}

/// The item declared as the cover image by its `properties` (EPUB 3).
pub open spec fn is_cover_image_item(a: Seq<(Seq<char>, Seq<char>)>) -> bool {
    has_ascii_token(or_empty(attr_lookup(a, "properties"@)), "cover-image"@) && attr_lookup(
        a,
        "href"@,
    ) is Some
}

/// The item with id `id` that has an `href`.
pub open spec fn is_item_with_id(a: Seq<(Seq<char>, Seq<char>)>, id: Seq<char>) -> bool {
    attr_lookup(a, "id"@) == Some(id) && attr_lookup(a, "href"@) is Some
}

/// An image item whose id or href mentions `cover`, in any case.
pub open spec fn is_cover_named_image(a: Seq<(Seq<char>, Seq<char>)>) -> bool {
    starts_with_seq(or_empty(attr_lookup(a, "media-type"@)), "image/"@) && (contains_seq(
        lowercase(or_empty(attr_lookup(a, "id"@))),
        "cover"@,
    ) || contains_seq(lowercase(or_empty(attr_lookup(a, "href"@))), "cover"@))
}

/// The `href` of the first item at index `i` or later declared as the cover image.
pub open spec fn cover_by_property(items: Seq<Seq<(Seq<char>, Seq<char>)>>, i: int) -> Option<
    Seq<char>,
>
    decreases items.len() - i,
{
    if i < 0 || i >= items.len() {
        None
    } else if is_cover_image_item(items[i]) {
        attr_lookup(items[i], "href"@)
    } else {
        cover_by_property(items, i + 1)
    }
}

/// The `href` of the first item at index `i` or later with id `id`.
pub open spec fn cover_by_id(items: Seq<Seq<(Seq<char>, Seq<char>)>>, id: Seq<char>, i: int) -> Option<
    Seq<char>,
>
    decreases items.len() - i,
{
    if i < 0 || i >= items.len() {
        None
    } else if is_item_with_id(items[i], id) {
        attr_lookup(items[i], "href"@)
    } else {
        cover_by_id(items, id, i + 1)
    }
}

/// The `href` (possibly empty) of the first image item at index `i` or later
/// whose id or href mentions `cover`.
pub open spec fn cover_by_name(items: Seq<Seq<(Seq<char>, Seq<char>)>>, i: int) -> Option<
    Seq<char>,
>
    decreases items.len() - i,
{
    if i < 0 || i >= items.len() {
        None
    } else if is_cover_named_image(items[i]) {
        Some(or_empty(attr_lookup(items[i], "href"@)))
    } else {
        cover_by_name(items, i + 1)
    }
}

/// The attribute lists of the `item` elements of a package document.
pub open spec fn manifest_items(opf: Seq<char>) -> Seq<Seq<(Seq<char>, Seq<char>)>> {
    tags_attrs(open_tags(opf, "item"@))
}

/// The media type of an item declares an image.
pub open spec fn declares_image(a: Seq<(Seq<char>, Seq<char>)>) -> bool {
    starts_with_seq(or_empty(attr_lookup(a, "media-type"@)), "image/"@)
}

/// The items before `t` are not images, so the fallback search passes them.
proof fn lemma_cover_by_name_skips(items: Seq<Seq<(Seq<char>, Seq<char>)>>, i: int, t: int)
    requires
        0 <= i <= t < items.len(),
        forall|u: int| 0 <= u < t ==> !declares_image(#[trigger] items[u]),
    ensures
        cover_by_name(items, i) == cover_by_name(items, t),
    decreases t - i,
{
    if i < t {
        assert(!declares_image(items[i]));
        lemma_cover_by_name_skips(items, i + 1, t);
    }
}

/// The cover's `href` in a package document: first an item whose
/// `properties` holds `cover-image`; else the item that the EPUB 2 cover
/// `meta` names; else an image item whose id or href mentions `cover`.
pub open spec fn cover_href(opf: Seq<char>) -> Option<Seq<char>> {
    let items = tags_attrs(open_tags(opf, "item"@));
    match cover_by_property(items, 0) {
        Some(h) => Some(h),
        None => {
            let by_id = match meta_cover_id(opf) {
                Some(id) => cover_by_id(items, id, 0),
                None => None,
            };
            match by_id {
                Some(h) => Some(h),
                None => cover_by_name(items, 0),
            }
        },
    }
}

/// Without a declared cover (no `cover-image` item and no EPUB 2 cover
/// `meta` that names an item), the first image item is the cover when its
/// id or its href mentions `cover` in any case: its `href` is returned.
pub proof fn law_cover_named_image_found(opf: Seq<char>, t: int)
    requires
        cover_by_property(manifest_items(opf), 0) is None,
        meta_cover_id(opf) matches Some(id) ==> cover_by_id(manifest_items(opf), id, 0) is None,
        0 <= t < manifest_items(opf).len(),
        forall|u: int| 0 <= u < t ==> !declares_image(#[trigger] manifest_items(opf)[u]),
        declares_image(manifest_items(opf)[t]),
        contains_seq(lowercase(or_empty(attr_lookup(manifest_items(opf)[t], "id"@))), "cover"@)
            || contains_seq(lowercase(or_empty(attr_lookup(manifest_items(opf)[t], "href"@))), "cover"@),
    ensures
        cover_href(opf) == Some(or_empty(attr_lookup(manifest_items(opf)[t], "href"@))),
{
    lemma_cover_by_name_skips(manifest_items(opf), 0, t);
}

fn attr_or_empty(attrs: &Vec<(String, String)>, name: &str) -> (r: String)
    ensures
        r@ == or_empty(attr_lookup(pairs_view(attrs@), name@)),
{
    match attr_value(attrs.as_slice(), name) {
        Some(v) => v,
        None => String::new(),
    }
}

/// The `href` of the cover image that a package document (OPF) declares.
pub fn find_cover_href(opf: &str) -> (r: Option<String>)
    ensures
        opt_chars(r) == cover_href(opf@),
{
    let tags = iter_open_tags(opf, "item");
    let mut items: Vec<Vec<(String, String)>> = Vec::new();
    let mut t: usize = 0;
    while t < tags.len()
        invariant
            t <= tags.len(),
            items.len() == t,
            forall|j: int| 0 <= j < t ==> pairs_view(#[trigger] items@[j]@) == attrs_from_tag(tags@[j]),
        decreases tags.len() - t,
    {
        items.push(parse_xml_attrs(tags[t].as_str()));
        t = t + 1;
    }
    let ghost its = tags_attrs(strings_view(tags@));
    assert(its.len() == items.len());
    assert forall|j: int| 0 <= j < items.len() implies its[j] == pairs_view(#[trigger] items@[j]@) by {
    }
    let token = chars_of("cover-image");
    let mut i: usize = 0;
    while i < items.len()
        invariant
            i <= items.len(),
            its.len() == items.len(),
            forall|j: int| 0 <= j < items.len() ==> its[j] == pairs_view(#[trigger] items@[j]@),
            token@ == "cover-image"@,
            its == tags_attrs(open_tags(opf@, "item"@)),
            cover_by_property(its, 0) == cover_by_property(its, i as int),
        decreases items.len() - i,
    {
        let props = chars_of(attr_or_empty(&items[i], "properties").as_str());
        if has_token(&props, &token) {
            let href = attr_value(items[i].as_slice(), "href");
            if href.is_some() {
                return href;
            }
        }
        i = i + 1;
    }
    let meta_id = find_meta_cover_id(opf);
    if let Some(cover_id) = meta_id {
        let mut i: usize = 0;
        while i < items.len()
            invariant
                i <= items.len(),
                its == tags_attrs(open_tags(opf@, "item"@)),
                cover_by_property(its, 0) is None,
                meta_cover_id(opf@) == Some(cover_id@),
                its.len() == items.len(),
                forall|j: int| 0 <= j < items.len() ==> its[j] == pairs_view(#[trigger] items@[j]@),
                cover_by_id(its, cover_id@, 0) == cover_by_id(its, cover_id@, i as int),
            decreases items.len() - i,
        {
            let id = attr_value(items[i].as_slice(), "id");
            let same = match &id {
                Some(v) => str_eq(v.as_str(), cover_id.as_str()),
                None => false,
            };
            if same {
                let href = attr_value(items[i].as_slice(), "href");
                if href.is_some() {
                    return href;
                }
            }
            i = i + 1;
        }
    }
    assert(match meta_cover_id(opf@) {
        Some(id) => cover_by_id(its, id, 0) is None,
        None => true,
    });
    let image_prefix = chars_of("image/");
    let cover = chars_of("cover");
    let mut i: usize = 0;
    while i < items.len()
        invariant
            i <= items.len(),
            its.len() == items.len(),
            forall|j: int| 0 <= j < items.len() ==> its[j] == pairs_view(#[trigger] items@[j]@),
            image_prefix@ == "image/"@,
            cover@ == "cover"@,
            its == tags_attrs(open_tags(opf@, "item"@)),
            cover_by_property(its, 0) is None,
            match meta_cover_id(opf@) {
                Some(id) => cover_by_id(its, id, 0) is None,
                None => true,
            },
            cover_by_name(its, 0) == cover_by_name(its, i as int),
        decreases items.len() - i,
    {
        let mt = chars_of(attr_or_empty(&items[i], "media-type").as_str());
        if starts_with_chars(&mt, &image_prefix) {
            let id = chars_of(to_lowercase(attr_or_empty(&items[i], "id").as_str()).as_str());
            let href = attr_or_empty(&items[i], "href");
            let href_lower = chars_of(to_lowercase(href.as_str()).as_str());
            if contains_chars(&id, &cover) || contains_chars(&href_lower, &cover) {
                return Some(href);
            }
        }
        i = i + 1;
    }
    None
}

/// The attributes of one start tag's inside.
pub open spec fn attrs_from_tag(t: String) -> Seq<(Seq<char>, Seq<char>)> {
    crate::xml::attrs_from(t@, 0)
}

/// The parts of `s` from index `i` on, cut at each `/` (as `str::split('/')`
/// yields them, empty parts included).
pub open spec fn split_from(s: Seq<char>, i: int) -> Seq<Seq<char>>
    decreases s.len() - i,
{
    if i < 0 || i > s.len() {
        Seq::empty()
    } else {
        match index_of_from(s, '/', i) {
            None => seq![s.subrange(i, s.len() as int)],
            Some(k) => {
                proof {
                    lemma_index_of_from(s, '/', i);
                }
                seq![s.subrange(i, k)] + split_from(s, k + 1)
            },
        }
    }
}

/// The parts of `s` between its `/` separators.
pub open spec fn split_slash(s: Seq<char>) -> Seq<Seq<char>> {
    split_from(s, 0)
}

/// The part `.`.
pub open spec fn dot() -> Seq<char> {
    seq!['.']
}

/// The part `..`.
pub open spec fn dot_dot() -> Seq<char> {
    seq!['.', '.']
}

/// The parts that remain of `segs` read left to right: empty parts and `.`
/// are dropped, `..` removes the part before it (if any), and any other part
/// is kept.
pub open spec fn resolve_segments(segs: Seq<Seq<char>>) -> Seq<Seq<char>>
    decreases segs.len(),
{
    if segs.len() == 0 {
        Seq::empty()
    } else {
        let st = resolve_segments(segs.drop_last());
        let seg = segs.last();
        if seg.len() == 0 || seg == dot() {
            st
        } else if seg == dot_dot() {
            if st.len() > 0 {
                st.drop_last()
            } else {
                st
            }
        } else {
            st.push(seg)
        }
    }
}

/// `parts` joined with `/` between them.
pub open spec fn join_slash(parts: Seq<Seq<char>>) -> Seq<char>
    decreases parts.len(),
{
    if parts.len() == 0 {
        Seq::empty()
    } else if parts.len() == 1 {
        parts[0]
    } else {
        join_slash(parts.drop_last()) + seq!['/'] + parts.last()
    }
}

/// A path inside a ZIP archive with `.` and empty parts removed and `..`
/// applied, parts joined by `/`.
pub open spec fn resolved_zip_path(p: Seq<char>) -> Seq<char> {
    join_slash(resolve_segments(split_slash(p)))
}

/// A list of character vectors read as sequences.
pub open spec fn parts_view(v: Seq<Vec<char>>) -> Seq<Seq<char>> {
    v.map_values(|x: Vec<char>| x@)
}

/// Normalizes a relative path inside a ZIP archive: drops `.` and empty
/// parts, applies `..`, and keeps `/` as the separator.
pub fn resolve_zip_path(p: &str) -> (r: String)
    ensures
        r@ == resolved_zip_path(p@),
{
    let c = chars_of(p);
    let dotv = chars_of(".");
    let dotdotv = chars_of("..");
    proof {
        reveal_strlit(".");
        reveal_strlit("..");
        assert(dotv@ =~= dot());
        assert(dotdotv@ =~= dot_dot());
    }
    let mut parts: Vec<Vec<char>> = Vec::new();
    let mut i: usize = 0;
    let ghost mut done: Seq<Seq<char>> = Seq::empty();
    loop
        invariant_except_break
            split_from(c@, 0) == done + split_from(c@, i as int),
        invariant
            i <= c.len(),
            dotv@ == dot(),
            dotdotv@ == dot_dot(),
            parts_view(parts@) == resolve_segments(done),
        ensures
            parts_view(parts@) == resolve_segments(split_from(c@, 0)),
        decreases c.len() - i,
    {
        let next = index_of_char(&c, '/', i);
        proof {
            lemma_index_of_from(c@, '/', i as int);
        }
        let end = match next {
            Some(k) => k,
            None => c.len(),
        };
        let seg: Vec<char> = vstd::slice::slice_to_vec(&c.as_slice()[i..end]);
        let ghost before = parts_view(parts@);
        let ghost d2 = done.push(seg@);
        assert(d2.drop_last() =~= done);
        assert(d2.last() == seg@);
        if seg.len() == 0 || chars_eq(&seg, &dotv) {
        } else if chars_eq(&seg, &dotdotv) {
            if parts.len() > 0 {
                parts.pop();
                assert(parts_view(parts@) =~= before.drop_last());
            }
        } else {
            parts.push(seg);
            assert(parts_view(parts@) =~= before.push(seg@));
        }
        proof {
            done = d2;
        }
        match next {
            None => {
                assert(split_from(c@, i as int) == seq![seg@]);
                assert(split_from(c@, 0) =~= done);
                break;
            },
            Some(k) => {
                assert(split_from(c@, i as int) == seq![seg@] + split_from(c@, k + 1));
                assert(split_from(c@, 0) =~= done + split_from(c@, k + 1));
                i = k + 1;
            },
        }
    }
    let ghost pv = parts_view(parts@);
    let mut out: Vec<char> = Vec::new();
    let mut j: usize = 0;
    while j < parts.len()
        invariant
            j <= parts.len(),
            pv == parts_view(parts@),
            pv.len() == parts.len(),
            out@ == join_slash(pv.take(j as int)),
        decreases parts.len() - j,
    {
        let ghost old_out = out@;
        if j > 0 {
            out.push('/');
        }
        let mut q: usize = 0;
        while q < parts[j].len()
            invariant
                j < parts.len(),
                q <= parts@[j as int].len(),
                out@ == (if j > 0 { old_out + seq!['/'] } else { old_out }) + parts@[j as int]@.take(
                    q as int,
                ),
            decreases parts@[j as int].len() - q,
        {
            out.push(parts[j][q]);
            q = q + 1;
            assert(out@ =~= (if j > 0 { old_out + seq!['/'] } else { old_out }) + parts@[j as int]@.take(
                q as int,
            ));
        }
        assert(parts@[j as int]@.take(q as int) =~= parts@[j as int]@);
        assert(pv.take(j + 1).drop_last() =~= pv.take(j as int));
        assert(pv[j as int] == parts@[j as int]@);
        if j == 0 {
            assert(old_out =~= Seq::<char>::empty());
            assert(out@ =~= join_slash(pv.take(1)));
        }
        j = j + 1;
    }
    assert(pv.take(parts.len() as int) =~= pv);
    string_from_chars(out.as_slice())
}

/// Where the package document is, as `META-INF/container.xml` gives it in
/// the `full-path` attribute of its first `rootfile` element.
pub open spec fn opf_location(container: Seq<char>) -> Result<Seq<char>, Seq<char>> {
    match extract_attr_spec(container, "rootfile"@, "full-path"@) {
        Some(p) => Ok(p),
        None => Err("container.xml 中缺少 rootfile/full-path"@),
    }
}

/// The path of the package document named in the container document.
pub fn opf_path_of(container: &str) -> (r: Result<String, String>)
    ensures
        match r {
            Ok(p) => opf_location(container@) == Ok::<Seq<char>, Seq<char>>(p@),
            Err(e) => opf_location(container@) == Err::<Seq<char>, Seq<char>>(e@),
        },
{
    match extract_attr(container, "rootfile", "full-path") {
        Some(p) => Ok(p),
        None => Err(String::from_str("container.xml 中缺少 rootfile/full-path")),
    }
}

/// The last index before `i` that holds `c`.
pub open spec fn last_index_before(s: Seq<char>, c: char, i: int) -> Option<int>
    decreases i,
{
    if i <= 0 || i > s.len() {
        None
    } else if s[i - 1] == c {
        Some(i - 1)
    } else {
        last_index_before(s, c, i - 1)
    }
}

/// The directory of the package document: what precedes its last `/`
/// (empty where there is none).
pub open spec fn opf_dir(opf_path: Seq<char>) -> Seq<char> {
    match last_index_before(opf_path, '/', opf_path.len() as int) {
        Some(k) => opf_path.subrange(0, k),
        None => Seq::empty(),
    }
}

/// The directory part of the package document's path.
pub fn opf_dir_of(opf_path: &str) -> (r: String)
    ensures
        r@ == opf_dir(opf_path@),
{
    let c = chars_of(opf_path);
    let mut i = c.len();
    while i > 0 && c[i - 1] != '/'
        invariant
            i <= c.len(),
            last_index_before(c@, '/', c@.len() as int) == last_index_before(c@, '/', i as int),
        decreases i,
    {
        i = i - 1;
    }
    if i == 0 {
        String::new()
    } else {
        string_from_chars(&c.as_slice()[0..i - 1])
    }
}

/// The archive entry of the cover: its `href` taken relative to the package
/// document's directory, normalized.
pub open spec fn cover_entry(opf_dir: Seq<char>, href: Seq<char>) -> Seq<char> {
    resolved_zip_path(
        if opf_dir.len() == 0 {
            href
        } else {
            opf_dir + seq!['/'] + href
        },
    )
}

/// The archive entry of the cover image.
pub fn cover_entry_name(opf_dir: &str, href: &str) -> (r: String)
    ensures
        r@ == cover_entry(opf_dir@, href@),
{
    if opf_dir.is_empty() {
        resolve_zip_path(href)
    } else {
        let full = String::from_str(opf_dir).concat("/").concat(href);
        proof {
            reveal_strlit("/");
            assert("/"@ =~= seq!['/']);
        }
        resolve_zip_path(full.as_str())
    }
}

/// The extensions under which an extracted cover may be cached.
pub open spec fn cover_exts() -> Seq<Seq<char>> {
    seq!["jpg"@, "jpeg"@, "png"@, "gif"@, "webp"@, "svg"@]
}

/// The name of a cached cover: `<key>.cover.<ext>`.
pub open spec fn cover_file(key: Seq<char>, ext: Seq<char>) -> Seq<char> {
    key + ".cover."@ + ext
}

/// The names under which a cached cover of the book with `key` is looked
/// for, in order.
pub fn cached_cover_names(key: &str) -> (r: Vec<String>)
    ensures
        r@.len() == 6,
        forall|i: int| 0 <= i < 6 ==> (#[trigger] r@[i])@ == cover_file(key@, cover_exts()[i]),
{
    let exts = vec!["jpg", "jpeg", "png", "gif", "webp", "svg"];
    let mut out: Vec<String> = Vec::new();
    let mut i: usize = 0;
    while i < 6
        invariant
            i <= 6,
            exts@.len() == 6,
            forall|k: int| 0 <= k < 6 ==> exts@[k]@ == cover_exts()[k],
            out@.len() == i,
            forall|k: int| 0 <= k < i ==> (#[trigger] out@[k])@ == cover_file(key@, cover_exts()[k]),
        decreases 6 - i,
    {
        out.push(String::from_str(key).concat(".cover.").concat(exts[i]));
        i = i + 1;
    }
    out
}

/// The name under which an extracted cover is cached: its extension in
/// lower case, or `img`.
pub open spec fn cover_cache_file(key: Seq<char>, ext: Option<Seq<char>>) -> Seq<char> {
    cover_file(
        key,
        match ext {
            Some(e) => lowercase(e),
            None => "img"@,
        },
    )
}

/// The cache name of an extracted cover whose archive entry has extension
/// `ext` (as `Path::extension` gives it).
pub fn cover_cache_name(key: &str, ext: Option<String>) -> (r: String)
    ensures
        r@ == cover_cache_file(key@, opt_chars(ext)),
{
    let e = match ext {
        Some(x) => to_lowercase(x.as_str()),
        None => String::from_str("img"),
    };
    String::from_str(key).concat(".cover.").concat(e.as_str())
}

/// The error of an archive entry that cannot be read.
pub fn zip_entry_unreadable(name: &str, err: &str) -> (r: String)
    ensures
        r@ == "读取 ZIP 条目 "@ + name@ + " 失败："@ + err@,
{
    String::from_str("读取 ZIP 条目 ").concat(name).concat(" 失败：").concat(err)
}

/// The error of a cover entry missing from the archive.
pub fn zip_entry_missing(name: &str, err: &str) -> (r: String)
    ensures
        r@ == "ZIP 中找不到 "@ + name@ + "："@ + err@,
{
    String::from_str("ZIP 中找不到 ").concat(name).concat("：").concat(err)
}

/// The preview of a book from its cover's extraction: the cached image, no
/// cover, or the error met.
pub open spec fn epub_view(extracted: Result<Option<Seq<char>>, Seq<char>>, size: u64) -> PreviewView {
    match extracted {
        Ok(Some(p)) => PreviewView::OfficeImage { image_path: p, size, engine: "EPUB Cover"@ },
        Ok(None) => PreviewView::Unsupported { reason: "未在 EPUB 中找到封面图片"@, size },
        Err(e) => PreviewView::Unsupported { reason: "解析 EPUB 失败："@ + e, size },
    }
}

/// The preview of a book of `size` bytes from its cover's extraction
/// (a cached cover found counts as `Ok(Some(path))`).
pub fn epub_payload(extracted: Result<Option<String>, String>, size: u64) -> (r: PreviewPayload)
    ensures
        r@ == epub_view(
            match extracted {
                Ok(Some(p)) => Ok(Some(p@)),
                Ok(None) => Ok(None),
                Err(e) => Err(e@),
            },
            size,
        ),
{
    match extracted {
        Ok(Some(p)) => PreviewPayload::OfficeImage {
            image_path: p,
            size,
            engine: String::from_str("EPUB Cover"),
        },
        Ok(None) => PreviewPayload::Unsupported {
            reason: String::from_str("未在 EPUB 中找到封面图片"),
            size,
        },
        Err(e) => PreviewPayload::Unsupported {
            reason: String::from_str("解析 EPUB 失败：").concat(e.as_str()),
            size,
        },
    }
}

/// A part that normalization keeps: not empty, not `.`, not `..`, and free of `/`.
pub open spec fn normal_part(part: Seq<char>) -> bool {
    part.len() > 0 && part != dot() && part != dot_dot() && !part.contains('/')
}

proof fn lemma_index_shift(w: Seq<char>, y: Seq<char>, c: char, j: int)
    requires
        0 <= j,
    ensures
        index_of_from(w + y, c, w.len() + j) == (match index_of_from(y, c, j) {
            Some(k) => Some(k + w.len()),
            None => None,
        }),
    decreases y.len() - j,
{
    if j < y.len() {
        assert((w + y)[w.len() + j] == y[j]);
        if y[j] != c {
            lemma_index_shift(w, y, c, j + 1);
        }
    }
}

proof fn lemma_index_prefix(x: Seq<char>, t: Seq<char>, c: char, i: int)
    requires
        0 <= i <= x.len(),
    ensures
        index_of_from(x + t, c, i) == (match index_of_from(x, c, i) {
            Some(k) => Some(k),
            None => index_of_from(x + t, c, x.len() as int),
        }),
    decreases x.len() - i,
{
    if i < x.len() {
        assert((x + t)[i] == x[i]);
        if x[i] != c {
            lemma_index_prefix(x, t, c, i + 1);
        }
    }
}

proof fn lemma_split_shift(w: Seq<char>, y: Seq<char>, j: int)
    requires
        0 <= j <= y.len(),
    ensures
        split_from(w + y, w.len() + j) == split_from(y, j),
    decreases y.len() - j,
{
    let z = w + y;
    lemma_index_shift(w, y, '/', j);
    lemma_index_of_from(y, '/', j);
    match index_of_from(y, '/', j) {
        None => {
            assert(z.subrange(w.len() + j, z.len() as int) =~= y.subrange(j, y.len() as int));
        },
        Some(k) => {
            assert(z.subrange(w.len() + j, k + w.len()) =~= y.subrange(j, k));
            lemma_split_shift(w, y, k + 1);
        },
    }
}

proof fn lemma_split_concat(x: Seq<char>, y: Seq<char>, i: int)
    requires
        0 <= i <= x.len(),
    ensures
        split_from(x + seq!['/'] + y, i) == split_from(x, i) + split_from(y, 0),
    decreases x.len() - i,
{
    let t = seq!['/'] + y;
    let z = x + t;
    assert(x + seq!['/'] + y =~= z);
    lemma_index_prefix(x, t, '/', i);
    lemma_index_of_from(x, '/', i);
    match index_of_from(x, '/', i) {
        Some(k) => {
            assert(z.subrange(i, k) =~= x.subrange(i, k));
            lemma_split_concat(x, y, k + 1);
            assert(split_from(z, i) =~= seq![x.subrange(i, k)] + split_from(z, k + 1));
            assert(split_from(x, i) + split_from(y, 0) =~= seq![x.subrange(i, k)] + (split_from(x, k + 1)
                + split_from(y, 0)));
        },
        None => {
            assert(z[x.len() as int] == '/');
            assert(index_of_from(z, '/', x.len() as int) == Some(x.len() as int));
            assert(z.subrange(i, x.len() as int) =~= x.subrange(i, x.len() as int));
            let w = x + seq!['/'];
            assert(z =~= w + y);
            lemma_split_shift(w, y, 0);
            assert(split_from(z, i) =~= seq![x.subrange(i, x.len() as int)] + split_from(z, x.len() as int + 1));
        },
    }
}

proof fn lemma_split_no_slash(y: Seq<char>)
    requires
        !y.contains('/'),
    ensures
        split_from(y, 0) == seq![y],
{
    lemma_index_of_from(y, '/', 0);
    if index_of_from(y, '/', 0) is Some {
        let k = index_of_from(y, '/', 0)->Some_0;
        assert(y[k] == '/');
    }
    assert(y.subrange(0, y.len() as int) =~= y);
}

proof fn lemma_split_parts_no_slash(s: Seq<char>, i: int)
    requires
        0 <= i,
    ensures
        forall|k: int| 0 <= k < split_from(s, i).len() ==> !(#[trigger] split_from(s, i)[k]).contains('/'),
    decreases s.len() - i,
{
    if i <= s.len() {
        lemma_index_of_from(s, '/', i);
        match index_of_from(s, '/', i) {
            None => {
                let part = s.subrange(i, s.len() as int);
                assert forall|q: int| 0 <= q < part.len() implies part[q] != '/' by {
                    assert(part[q] == s[i + q]);
                    assert(i <= i + q < s.len());
                    assert(s[i + q] != '/');
                }
                assert(split_from(s, i) == seq![part]);
            },
            Some(k) => {
                lemma_split_parts_no_slash(s, k + 1);
                let part = s.subrange(i, k);
                assert forall|q: int| 0 <= q < part.len() implies part[q] != '/' by {
                    assert(part[q] == s[i + q]);
                    assert(i <= i + q < k);
                }
                let rest = split_from(s, k + 1);
                assert forall|m: int| 0 <= m < split_from(s, i).len() implies !(#[trigger] split_from(
                    s,
                    i,
                )[m]).contains('/') by {
                    if m > 0 {
                        assert(split_from(s, i)[m] == rest[m - 1]);
                    }
                }
            },
        }
    }
}

proof fn lemma_resolve_normal(segs: Seq<Seq<char>>)
    requires
        forall|k: int| 0 <= k < segs.len() ==> !(#[trigger] segs[k]).contains('/'),
    ensures
        forall|k: int| 0 <= k < resolve_segments(segs).len() ==> normal_part(
            #[trigger] resolve_segments(segs)[k],
        ),
    decreases segs.len(),
{
    if segs.len() > 0 {
        let init = segs.drop_last();
        assert forall|k: int| 0 <= k < init.len() implies !(#[trigger] init[k]).contains('/') by {
            assert(init[k] == segs[k]);
        }
        lemma_resolve_normal(init);
        let st = resolve_segments(init);
        let seg = segs.last();
        assert(!seg.contains('/'));
        let r = resolve_segments(segs);
        if seg.len() == 0 || seg == dot() {
            assert(r == st);
        } else if seg == dot_dot() {
            assert forall|k: int| 0 <= k < r.len() implies normal_part(#[trigger] r[k]) by {
                if st.len() > 0 {
                    assert(r[k] == st[k]);
                }
            }
        } else {
            assert(r == st.push(seg));
            assert forall|k: int| 0 <= k < r.len() implies normal_part(#[trigger] r[k]) by {
                if k < st.len() {
                    assert(r[k] == st[k]);
                }
            }
        }
    }
}

proof fn lemma_resolve_of_normal(parts: Seq<Seq<char>>)
    requires
        forall|k: int| 0 <= k < parts.len() ==> normal_part(#[trigger] parts[k]),
    ensures
        resolve_segments(parts) == parts,
    decreases parts.len(),
{
    if parts.len() > 0 {
        let init = parts.drop_last();
        assert forall|k: int| 0 <= k < init.len() implies normal_part(#[trigger] init[k]) by {
            assert(init[k] == parts[k]);
        }
        lemma_resolve_of_normal(init);
        assert(normal_part(parts.last()));
        assert(init.push(parts.last()) =~= parts);
    }
}

proof fn lemma_split_join(parts: Seq<Seq<char>>)
    requires
        parts.len() >= 1,
        forall|k: int| 0 <= k < parts.len() ==> !(#[trigger] parts[k]).contains('/'),
    ensures
        split_slash(join_slash(parts)) == parts,
    decreases parts.len(),
{
    if parts.len() == 1 {
        lemma_split_no_slash(parts[0]);
        assert(seq![parts[0]] =~= parts);
    } else {
        let init = parts.drop_last();
        assert forall|k: int| 0 <= k < init.len() implies !(#[trigger] init[k]).contains('/') by {
            assert(init[k] == parts[k]);
        }
        lemma_split_join(init);
        lemma_split_concat(join_slash(init), parts.last(), 0);
        lemma_split_no_slash(parts.last());
        assert(init + seq![parts.last()] =~= parts);
    }
}

/// Normalizing a ZIP path twice changes nothing more than normalizing it
/// once, and a normalized path holds no `.`, `..` or empty parts (it never
/// climbs above the archive's root).
pub proof fn law_resolve_idempotent(p: Seq<char>)
    ensures
        resolved_zip_path(resolved_zip_path(p)) == resolved_zip_path(p),
        resolved_zip_path(p).len() > 0 ==> forall|k: int|
            0 <= k < split_slash(resolved_zip_path(p)).len() ==> normal_part(
                #[trigger] split_slash(resolved_zip_path(p))[k],
            ),
{
    let parts = resolve_segments(split_slash(p));
    lemma_split_parts_no_slash(p, 0);
    lemma_resolve_normal(split_slash(p));
    if parts.len() == 0 {
        let e = Seq::<char>::empty();
        assert(join_slash(parts) == e);
        lemma_split_no_slash(e);
        let segs = seq![e];
        assert(segs.drop_last() =~= Seq::<Seq<char>>::empty());
        assert(resolve_segments(segs) == resolve_segments(Seq::<Seq<char>>::empty()));
    } else {
        assert forall|k: int| 0 <= k < parts.len() implies !(#[trigger] parts[k]).contains('/') by {
            assert(normal_part(parts[k]));
        }
        lemma_split_join(parts);
        lemma_resolve_of_normal(parts);
    }
}

} // verus!
