use qfinder::epub::{
    cached_cover_names, cover_cache_name, cover_entry_name, epub_payload, find_cover_href,
    find_meta_cover_id, opf_dir_of, opf_path_of, resolve_zip_path, zip_entry_missing,
    zip_entry_unreadable,
};
use qfinder::preview::PreviewPayload;
use qfinder::xml::{attr_value, extract_attr, iter_open_tags, parse_xml_attrs};

fn pairs(v: &[(&str, &str)]) -> Vec<(String, String)> {
    v.iter().map(|(a, b)| (a.to_string(), b.to_string())).collect()
}

#[test]
fn attrs_with_both_quotes_and_self_closing_slash() {
    let got = parse_xml_attrs(r#" full-path="OEBPS/content.opf" media-type='application/oebps-package+xml'/"#);
    assert_eq!(
        got,
        pairs(&[("full-path", "OEBPS/content.opf"), ("media-type", "application/oebps-package+xml")])
    );
}

#[test]
fn attrs_allow_spaces_around_equals() {
    let got = parse_xml_attrs("  id = \"a b\"\n\thref\t=\t'x.png' ");
    assert_eq!(got, pairs(&[("id", "a b"), ("href", "x.png")]));
}

#[test]
fn attrs_skip_a_name_without_value() {
    let got = parse_xml_attrs("checked id=\"x\"");
    assert_eq!(got, pairs(&[("id", "x")]));
}

#[test]
fn attrs_stop_at_an_unquoted_value() {
    let got = parse_xml_attrs("a=\"1\" b=2 c=\"3\"");
    assert_eq!(got, pairs(&[("a", "1")]));
}

#[test]
fn attrs_unterminated_value_runs_to_the_end() {
    let got = parse_xml_attrs("a=\"1\" b=\"unterminated");
    assert_eq!(got, pairs(&[("a", "1"), ("b", "unterminated")]));
}

#[test]
fn attrs_of_empty_and_non_ascii_text() {
    assert!(parse_xml_attrs("").is_empty());
    assert!(parse_xml_attrs("  / ").is_empty());
    let got = parse_xml_attrs("名前=\"値\"");
    assert_eq!(got, pairs(&[("名前", "値")]));
}

#[test]
fn attr_value_matches_namespace_prefix() {
    let attrs = pairs(&[("opf:name", "cover"), ("content", "img1"), ("name", "later")]);
    assert_eq!(attr_value(&attrs, "name"), Some("cover".to_string()));
    assert_eq!(attr_value(&attrs, "content"), Some("img1".to_string()));
    assert_eq!(attr_value(&attrs, "missing"), None);
    let attrs2 = pairs(&[("xname", "no")]);
    assert_eq!(attr_value(&attrs2, "name"), None);
}

#[test]
fn open_tags_need_a_boundary_after_the_name() {
    let xml = "<item id='a'/><itemref idref='x'/><item\nhref='b'><item>";
    assert_eq!(iter_open_tags(xml, "item"), vec![" id='a'/".to_string(), "\nhref='b'".to_string(), "".to_string()]);
}

#[test]
fn open_tags_stop_at_an_unclosed_tag() {
    assert_eq!(iter_open_tags("<a x='1'><a y='2'", "a"), vec![" x='1'".to_string()]);
    assert!(iter_open_tags("no tags", "a").is_empty());
}

const CONTAINER: &str = r#"<?xml version="1.0"?>
<container version="1.0" xmlns="urn:oasis:names:tc:opendocument:xmlns:container">
  <rootfiles>
    <rootfile full-path="OEBPS/content.opf" media-type="application/oebps-package+xml"/>
  </rootfiles>
</container>"#;

#[test]
fn extract_attr_reads_the_rootfile() {
    assert_eq!(extract_attr(CONTAINER, "rootfile", "full-path"), Some("OEBPS/content.opf".to_string()));
    assert_eq!(extract_attr(CONTAINER, "rootfiles", "full-path"), None);
    assert_eq!(opf_path_of(CONTAINER), Ok("OEBPS/content.opf".to_string()));
    assert_eq!(
        opf_path_of("<container/>"),
        Err("container.xml 中缺少 rootfile/full-path".to_string())
    );
}

#[test]
fn cover_from_epub3_properties() {
    let opf = r#"<manifest>
      <item id="c1" href="text/ch1.xhtml" media-type="application/xhtml+xml"/>
      <item id="img" href="images/front.png" media-type="image/png" properties="nav cover-image"/>
    </manifest>"#;
    assert_eq!(find_cover_href(opf), Some("images/front.png".to_string()));
}

#[test]
fn cover_property_must_be_a_whole_token() {
    let opf = r#"<item id="x" href="a.png" media-type="image/png" properties="cover-images"/>"#;
    assert_eq!(find_cover_href(opf), None);
}

#[test]
fn cover_from_epub2_meta() {
    let opf = r#"<metadata><meta name="cover" content="cov"/></metadata>
      <manifest><item id="other" href="o.jpg" media-type="image/jpeg"/>
      <item id="cov" href="pics/c.jpg" media-type="image/jpeg"/></manifest>"#;
    assert_eq!(find_meta_cover_id(opf), Some("cov".to_string()));
    assert_eq!(find_cover_href(opf), Some("pics/c.jpg".to_string()));
}

#[test]
fn cover_from_name_ignores_case() {
    let opf = r#"<item id="a" href="x.jpg" media-type="text/plain"/>
      <item id="pic" href="Images/COVER.JPG" media-type="image/jpeg"/>"#;
    assert_eq!(find_cover_href(opf), Some("Images/COVER.JPG".to_string()));
    let none = r#"<item id="pic" href="a.jpg" media-type="image/jpeg"/>"#;
    assert_eq!(find_cover_href(none), None);
}

#[test]
fn zip_paths_are_normalized() {
    assert_eq!(resolve_zip_path("OEBPS/../images/./cover.jpg"), "images/cover.jpg");
    assert_eq!(resolve_zip_path("a//b/"), "a/b");
    assert_eq!(resolve_zip_path("../../x"), "x");
    assert_eq!(resolve_zip_path(""), "");
    assert_eq!(resolve_zip_path("./."), "");
    assert_eq!(resolve_zip_path("a/b/../../c"), "c");
}

#[test]
fn zip_path_normalization_is_idempotent() {
    for p in ["OEBPS/../images/./cover.jpg", "a//b/", "../x/./y/..", "", "/", "x/../../y/z"] {
        let once = resolve_zip_path(p);
        assert_eq!(resolve_zip_path(&once), once);
        assert!(!once.split('/').any(|s| s == ".." || s == "."));
    }
}

#[test]
fn cover_entry_is_relative_to_the_package() {
    assert_eq!(opf_dir_of("OEBPS/content.opf"), "OEBPS");
    assert_eq!(opf_dir_of("content.opf"), "");
    assert_eq!(opf_dir_of("a/b/c.opf"), "a/b");
    assert_eq!(cover_entry_name("OEBPS", "../images/c.jpg"), "images/c.jpg");
    assert_eq!(cover_entry_name("", "./c.jpg"), "c.jpg");
}

#[test]
fn cover_cache_names() {
    assert_eq!(cover_cache_name("k", Some("JPG".to_string())), "k.cover.jpg");
    assert_eq!(cover_cache_name("k", None), "k.cover.img");
    let names = cached_cover_names("key");
    assert_eq!(
        names,
        vec!["key.cover.jpg", "key.cover.jpeg", "key.cover.png", "key.cover.gif", "key.cover.webp", "key.cover.svg"]
            .into_iter()
            .map(String::from)
            .collect::<Vec<_>>()
    );
}

#[test]
fn epub_outcomes() {
    match epub_payload(Ok(Some("/c/k.cover.jpg".to_string())), 10) {
        PreviewPayload::OfficeImage { image_path, size, engine } => {
            assert_eq!(image_path, "/c/k.cover.jpg");
            assert_eq!(size, 10);
            assert_eq!(engine, "EPUB Cover");
        }
        other => panic!("unexpected {:?}", other),
    }
    match epub_payload(Ok(None), 3) {
        PreviewPayload::Unsupported { reason, size } => {
            assert_eq!(reason, "未在 EPUB 中找到封面图片");
            assert_eq!(size, 3);
        }
        other => panic!("unexpected {:?}", other),
    }
    match epub_payload(Err("bad zip".to_string()), 3) {
        PreviewPayload::Unsupported { reason, .. } => assert_eq!(reason, "解析 EPUB 失败：bad zip"),
        other => panic!("unexpected {:?}", other),
    }
    assert_eq!(zip_entry_unreadable("a.xml", "e"), "读取 ZIP 条目 a.xml 失败：e");
    assert_eq!(zip_entry_missing("b.jpg", "e"), "ZIP 中找不到 b.jpg：e");
}

#[test]
fn attributes_stay_within_the_text() {
    let inner = " a=\"1\" flag b='x=y' c=\"3\"/";
    let got = parse_xml_attrs(inner);
    assert!(got.len() <= inner.matches('=').count());
    let mut from = 0;
    for (k, v) in &got {
        assert!(!k.is_empty());
        assert!(!k.chars().any(|ch| ch == '=' || ch == '/' || ch.is_ascii_whitespace()));
        let at = inner[from..].find(k.as_str()).unwrap() + from;
        assert!(inner[at..].contains(v.as_str()));
        from = at + k.len();
    }
    assert_eq!(got, pairs(&[("a", "1"), ("b", "x=y"), ("c", "3")]));
}
