//! What the preview pane shows for a file or directory: the payload types,
//! the size limits, and the decisions between them.
use vstd::prelude::*;
use crate::error::AppResult;
use crate::numfmt::{decimal, decimal_chars};
use crate::text::{chars_eq, chars_of, lowercase, opt_chars, string_from_chars, to_lowercase};
use crate::paths::{name_extension, portable_name, portable_path};

verus! {

/// Text files are previewed up to this many bytes.
pub const TEXT_PREVIEW_LIMIT: u64 = 10 * 1024;

/// The encoding of a text file is judged on up to this many bytes.
pub const TEXT_SNIFF_LIMIT: u64 = 64 * 1024;

/// Images above this size are not rendered.
pub const IMAGE_PREVIEW_LIMIT: u64 = 20 * 1024 * 1024;

/// Size limit of spreadsheets.
pub const XLSX_LIMIT: u64 = 50 * 1024 * 1024;

/// Size limit of PDF documents.
pub const PDF_LIMIT: u64 = 100 * 1024 * 1024;

/// Size limit of word-processor documents.
pub const DOCX_LIMIT: u64 = 20 * 1024 * 1024;

/// Size limit of presentations.
pub const PPTX_LIMIT: u64 = 50 * 1024 * 1024;

/// Size limit of EPUB books.
pub const EPUB_LIMIT: u64 = 200 * 1024 * 1024;

/// Rows of a spreadsheet shown, the header row included.
pub const SPREADSHEET_MAX_ROWS: usize = 100;

/// Columns of a spreadsheet shown.
pub const SPREADSHEET_MAX_COLS: usize = 20;

/// The extensions (lower case) of files previewed as text.
pub open spec fn text_extensions() -> Seq<Seq<char>> {
    seq![
        "txt"@, "md"@, "markdown"@, "html"@, "htm"@, "css"@, "js"@, "mjs"@, "cjs"@, "ts"@, "tsx"@,
        "jsx"@, "json"@, "xml"@, "yaml"@, "yml"@, "toml"@, "ini"@, "conf"@, "cfg"@, "log"@, "csv"@,
        "tsv"@, "rs"@, "py"@, "rb"@, "go"@, "java"@, "kt"@, "swift"@, "c"@, "cpp"@, "cc"@, "cxx"@,
        "h"@, "hpp"@, "hh"@, "sh"@, "bash"@, "zsh"@, "fish"@, "bat"@, "ps1"@, "psm1"@, "sql"@,
        "lua"@, "pl"@, "php"@, "vue"@, "svelte"@, "scss"@, "sass"@, "less"@, "env"@, "gitignore"@,
        "gitattributes"@, "lock"@, "tex"@, "diff"@, "patch"@,
    ]
}

/// The extensions (lower case) of files previewed as images.
pub open spec fn image_extensions() -> Seq<Seq<char>> {
    seq!["png"@, "jpg"@, "jpeg"@, "gif"@, "bmp"@, "webp"@, "svg"@, "ico"@, "tiff"@, "tif"@]
}

fn text_extension_list() -> (r: Vec<&'static str>)
    ensures
        r@.map_values(|s: &str| s@) == text_extensions(),
{
    let r = vec![
        "txt", "md", "markdown", "html", "htm", "css", "js", "mjs", "cjs", "ts", "tsx", "jsx",
        "json", "xml", "yaml", "yml", "toml", "ini", "conf", "cfg", "log", "csv", "tsv", "rs",
        "py", "rb", "go", "java", "kt", "swift", "c", "cpp", "cc", "cxx", "h", "hpp", "hh", "sh",
        "bash", "zsh", "fish", "bat", "ps1", "psm1", "sql", "lua", "pl", "php", "vue", "svelte",
        "scss", "sass", "less", "env", "gitignore", "gitattributes", "lock", "tex", "diff",
        "patch",
    ];
    assert(r@.map_values(|s: &str| s@) =~= text_extensions());
    r
}

fn image_extension_list() -> (r: Vec<&'static str>)
    ensures
        r@.map_values(|s: &str| s@) == image_extensions(),
{
    let r = vec!["png", "jpg", "jpeg", "gif", "bmp", "webp", "svg", "ico", "tiff", "tif"];
    assert(r@.map_values(|s: &str| s@) =~= image_extensions());
    r
}

/// Whether `e` is one of `list`.
fn listed(list: &Vec<&'static str>, e: &str) -> (r: bool)
    ensures
        r == list@.map_values(|s: &str| s@).contains(e@),
{
    let ghost lv = list@.map_values(|s: &str| s@);
    let ev = chars_of(e);
    let mut i: usize = 0;
    while i < list.len()
        invariant
            i <= list.len(),
            lv == list@.map_values(|s: &str| s@),
            ev@ == e@,
            forall|j: int| 0 <= j < i ==> lv[j] != e@,
        decreases list.len() - i,
    {
        let lc = chars_of(list[i]);
        if chars_eq(&lc, &ev) {
            assert(lv[i as int] == e@);
            return true;
        }
        i = i + 1;
    }
    false
}

/// An optional extension, lower-cased.
pub open spec fn lower_ext(ext: Option<Seq<char>>) -> Option<Seq<char>> {
    match ext {
        Some(e) => Some(lowercase(e)),
        None => None,
    }
}

/// The extension of `path` in lower case.
///
/// The extension comes from `std::path::Path::extension`: for a portable
/// path it is `name_extension` of the final name; other paths split
/// differently from one platform to another, and of them only the lower
/// case is stated.
pub fn ext_lower(path: &str) -> (r: Option<String>)
    ensures
        r.is_some() ==> exists|x: Seq<char>| r.unwrap()@ == lowercase(x),
        portable_path(path@) ==> opt_chars(r) == lower_ext(name_extension(portable_name(path@))),
{
    lowercase_ext(crate::paths::path_extension(path))
}

/// An extension, as `Path::extension` gives it, in lower case.
pub fn lowercase_ext(ext: Option<String>) -> (r: Option<String>)
    ensures
        opt_chars(r) == lower_ext(opt_chars(ext)),
{
    match ext {
        Some(e) => Some(to_lowercase(e.as_str())),
        None => None,
    }
}

/// The extension (lower case) names an image type that is previewed.
pub open spec fn is_image_ext(ext: Option<Seq<char>>) -> bool {
    match ext {
        Some(e) => image_extensions().contains(e),
        None => false,
    }
}

/// The extension (lower case) names a text type.
pub open spec fn is_text_ext(ext: Option<Seq<char>>) -> bool {
    match ext {
        Some(e) => text_extensions().contains(e),
        None => false,
    }
}

/// Whether a lower-case extension names an image type that is previewed.
pub fn image_ext(ext: &Option<String>) -> (r: bool)
    ensures
        r == is_image_ext(opt_chars(*ext)),
{
    match ext {
        Some(e) => listed(&image_extension_list(), e.as_str()),
        None => false,
    }
}

/// Whether a lower-case extension names a text type.
pub fn text_ext(ext: &Option<String>) -> (r: bool)
    ensures
        r == is_text_ext(opt_chars(*ext)),
{
    match ext {
        Some(e) => listed(&text_extension_list(), e.as_str()),
        None => false,
    }
}

/// Whether the file at `path` is an image by its extension.
///
/// The extension comes from `std::path::Path::extension` (see `ext_lower`):
/// exact for a portable path; `image_ext` states the rest.
pub fn is_image(path: &str) -> (r: bool)
    ensures
        r ==> exists|x: Seq<char>| image_extensions().contains(lowercase(x)),
        portable_path(path@) ==> r == is_image_ext(lower_ext(name_extension(portable_name(path@)))),
{
    let e = ext_lower(path);
    image_ext(&e)
}

/// What the preview pane shows.
#[derive(Debug)]
#[allow(inconsistent_fields)]
pub enum PreviewPayload {
    Directory { sub_dirs: u64, sub_files: u64, total_size: Option<u64> },
    Text { content: String, truncated: bool, total_size: u64 },
    Image { path: String, size: u64 },
    ImageTooLarge { size: u64 },
    Spreadsheet {
        sheet_name: String,
        headers: Vec<String>,
        rows: Vec<Vec<String>>,
        total_rows: u32,
        total_cols: u32,
        truncated_rows: bool,
        truncated_cols: bool,
        other_sheets: Vec<String>,
        size: u64,
    },
    Pdf { path: String, size: u64 },
    Docx { path: String, size: u64 },
    Pptx { pdf_path: String, size: u64 },
    OfficeImage { image_path: String, size: u64, engine: String },
    Unsupported { reason: String, size: u64 },
    Other { size: u64 },
}

/// A `PreviewPayload` with its texts read as character sequences.
#[allow(inconsistent_fields)]
pub enum PreviewView {
    Directory { sub_dirs: u64, sub_files: u64, total_size: Option<u64> },
    Text { content: Seq<char>, truncated: bool, total_size: u64 },
    Image { path: Seq<char>, size: u64 },
    ImageTooLarge { size: u64 },
    Spreadsheet {
        sheet_name: Seq<char>,
        headers: Seq<Seq<char>>,
        rows: Seq<Seq<Seq<char>>>,
        total_rows: u32,
        total_cols: u32,
        truncated_rows: bool,
        truncated_cols: bool,
        other_sheets: Seq<Seq<char>>,
        size: u64,
    },
    Pdf { path: Seq<char>, size: u64 },
    Docx { path: Seq<char>, size: u64 },
    Pptx { pdf_path: Seq<char>, size: u64 },
    OfficeImage { image_path: Seq<char>, size: u64, engine: Seq<char> },
    Unsupported { reason: Seq<char>, size: u64 },
    Other { size: u64 },
}

/// A list of strings read by their characters.
pub open spec fn texts(v: Seq<String>) -> Seq<Seq<char>> {
    v.map_values(|s: String| s@)
}

/// Rows of strings read by their characters.
pub open spec fn text_rows(v: Seq<Vec<String>>) -> Seq<Seq<Seq<char>>> {
    v.map_values(|r: Vec<String>| texts(r@))
}

impl View for PreviewPayload {
    type V = PreviewView;

    open spec fn view(&self) -> PreviewView {
        match self {
            PreviewPayload::Directory { sub_dirs, sub_files, total_size } => PreviewView::Directory {
                sub_dirs: *sub_dirs,
                sub_files: *sub_files,
                total_size: *total_size,
            },
            PreviewPayload::Text { content, truncated, total_size } => PreviewView::Text {
                content: content@,
                truncated: *truncated,
                total_size: *total_size,
            },
            PreviewPayload::Image { path, size } => PreviewView::Image { path: path@, size: *size },
            PreviewPayload::ImageTooLarge { size } => PreviewView::ImageTooLarge { size: *size },
            PreviewPayload::Spreadsheet {
                sheet_name,
                headers,
                rows,
                total_rows,
                total_cols,
                truncated_rows,
                truncated_cols,
                other_sheets,
                size,
            } => PreviewView::Spreadsheet {
                sheet_name: sheet_name@,
                headers: texts(headers@),
                rows: text_rows(rows@),
                total_rows: *total_rows,
                total_cols: *total_cols,
                truncated_rows: *truncated_rows,
                truncated_cols: *truncated_cols,
                other_sheets: texts(other_sheets@),
                size: *size,
            },
            PreviewPayload::Pdf { path, size } => PreviewView::Pdf { path: path@, size: *size },
            PreviewPayload::Docx { path, size } => PreviewView::Docx { path: path@, size: *size },
            PreviewPayload::Pptx { pdf_path, size } => PreviewView::Pptx {
                pdf_path: pdf_path@,
                size: *size,
            },
            PreviewPayload::OfficeImage { image_path, size, engine } => PreviewView::OfficeImage {
                image_path: image_path@,
                size: *size,
                engine: engine@,
            },
            PreviewPayload::Unsupported { reason, size } => PreviewView::Unsupported {
                reason: reason@,
                size: *size,
            },
            PreviewPayload::Other { size } => PreviewView::Other { size: *size },
        }
    }
}

/// The reason given when a file of `size` bytes exceeds its size limit:
/// the size in bytes, and that the preview is skipped.
pub open spec fn too_large_reason(size: u64) -> Seq<char> {
    "文件过大（"@ + decimal(size as nat) + "），跳过预览"@
}

/// The preview of a file of kind `kind` whose size exceeds `limit`: refused,
/// naming its size in bytes (the same text for every kind and limit).
pub fn too_large(size: u64, limit: u64, kind: &str) -> (r: PreviewPayload)
    ensures
        r@ == (PreviewView::Unsupported { reason: too_large_reason(size), size }),
{
    let mut text = chars_of("文件过大（");
    let mut digits = decimal_chars(size);
    text.append(&mut digits);
    let mut tail = chars_of("），跳过预览");
    text.append(&mut tail);
    let reason = string_from_chars(text.as_slice());
    PreviewPayload::Unsupported { reason, size }
}

/// The preview of a PDF document: refused above `PDF_LIMIT`, else the path
/// that the viewer renders.
pub fn preview_pdf(path: &str, size: u64) -> (r: AppResult<PreviewPayload>)
    ensures
        r is Ok,
        r.is_ok() ==> r.unwrap()@ == (if size > PDF_LIMIT {
            PreviewView::Unsupported { reason: too_large_reason(size), size }
        } else {
            PreviewView::Pdf { path: path@, size }
        }),
{
    if size > PDF_LIMIT {
        return Ok(too_large(size, PDF_LIMIT, "PDF"));
    }
    Ok(PreviewPayload::Pdf { path: String::from_str(path), size })
}

/// The preview of a word-processor document: refused above `DOCX_LIMIT`,
/// else the path that the viewer converts.
pub fn preview_docx(path: &str, size: u64) -> (r: AppResult<PreviewPayload>)
    ensures
        r is Ok,
        r.is_ok() ==> r.unwrap()@ == (if size > DOCX_LIMIT {
            PreviewView::Unsupported { reason: too_large_reason(size), size }
        } else {
            PreviewView::Docx { path: path@, size }
        }),
{
    if size > DOCX_LIMIT {
        return Ok(too_large(size, DOCX_LIMIT, "DOCX"));
    }
    Ok(PreviewPayload::Docx { path: String::from_str(path), size })
}

/// The document kinds with a preview of their own.
#[derive(Debug, Clone, Copy, PartialEq, Eq, Structural)]
pub enum OfficeKind {
    Xlsx,
    Pdf,
    Docx,
    Pptx,
}

/// The size limit of each document kind.
pub open spec fn office_limit_of(kind: OfficeKind) -> u64 {
    match kind {
        OfficeKind::Xlsx => XLSX_LIMIT,
        OfficeKind::Pdf => PDF_LIMIT,
        OfficeKind::Docx => DOCX_LIMIT,
        OfficeKind::Pptx => PPTX_LIMIT,
    }
}

/// The size limit of a document kind.
pub fn office_limit(kind: OfficeKind) -> (r: u64)
    ensures
        r == office_limit_of(kind),
{
    match kind {
        OfficeKind::Xlsx => XLSX_LIMIT,
        OfficeKind::Pdf => PDF_LIMIT,
        OfficeKind::Docx => DOCX_LIMIT,
        OfficeKind::Pptx => PPTX_LIMIT,
    }
}

/// The kind of document that a lower-case extension names.
pub open spec fn office_kind_of(ext: Seq<char>) -> Option<OfficeKind> {
    if ext == "xlsx"@ {
        Some(OfficeKind::Xlsx)
    } else if ext == "pdf"@ {
        Some(OfficeKind::Pdf)
    } else if ext == "docx"@ {
        Some(OfficeKind::Docx)
    } else if ext == "pptx"@ {
        Some(OfficeKind::Pptx)
    } else {
        None
    }
}

/// How a file or directory is previewed.
#[derive(Debug, Clone, Copy, PartialEq, Eq, Structural)]
pub enum PreviewRoute {
    /// Count the entries (and the disk usage, away from the roots).
    Directory,
    /// Show the image.
    Image,
    /// Name the image's size only.
    ImageTooLarge,
    /// A document; on a platform with Quick Look and within the kind's limit,
    /// a Quick Look thumbnail is tried first.
    Office { kind: OfficeKind, quick_look_first: bool },
    /// An EPUB book: show its cover.
    Epub,
    /// Show the text.
    Text,
    /// Ask `file --mime` whether it is text; show the text if so.
    ProbeText,
}

/// The route of a preview: directories first; then images by extension
/// (refused above `IMAGE_PREVIEW_LIMIT`); then documents and books by
/// extension; then text by extension; then a probe of the content.
pub open spec fn preview_route_of(
    is_dir: bool,
    size: u64,
    ext: Option<Seq<char>>,
    quick_look_platform: bool,
) -> PreviewRoute {
    if is_dir {
        PreviewRoute::Directory
    } else if is_image_ext(ext) {
        if size > IMAGE_PREVIEW_LIMIT {
            PreviewRoute::ImageTooLarge
        } else {
            PreviewRoute::Image
        }
    } else if ext is Some && office_kind_of(ext->Some_0) is Some {
        let kind = office_kind_of(ext->Some_0)->Some_0;
        PreviewRoute::Office {
            kind,
            quick_look_first: quick_look_platform && size <= office_limit_of(kind),
        }
    } else if ext == Some("epub"@) {
        PreviewRoute::Epub
    } else if is_text_ext(ext) {
        PreviewRoute::Text
    } else {
        PreviewRoute::ProbeText
    }
}

/// An EPUB book is previewed by its cover on every platform and at every
/// size: the route never depends on the platform's Quick Look except in
/// whether a document tries it first, and only a platform with Quick Look
/// tries it.
pub proof fn law_epub_cover_everywhere(
    is_dir: bool,
    size: u64,
    ext: Option<Seq<char>>,
    q1: bool,
    q2: bool,
)
    ensures
        preview_route_of(false, size, Some("epub"@), q1) == PreviewRoute::Epub,
        ({
            let r1 = preview_route_of(is_dir, size, ext, q1);
            let r2 = preview_route_of(is_dir, size, ext, q2);
            match (r1, r2) {
                (
                    PreviewRoute::Office { kind: k1, .. },
                    PreviewRoute::Office { kind: k2, .. },
                ) => k1 == k2,
                _ => r1 == r2,
            }
        }),
        preview_route_of(is_dir, size, ext, false) matches PreviewRoute::Office { quick_look_first, .. }
            ==> !quick_look_first,
{
    reveal_strlit("epub");
    reveal_strlit("png");
    reveal_strlit("jpg");
    reveal_strlit("jpeg");
    reveal_strlit("gif");
    reveal_strlit("bmp");
    reveal_strlit("webp");
    reveal_strlit("svg");
    reveal_strlit("ico");
    reveal_strlit("tiff");
    reveal_strlit("tif");
    reveal_strlit("xlsx");
    reveal_strlit("pdf");
    reveal_strlit("docx");
    reveal_strlit("pptx");
    let e = "epub"@;
    assert forall|i: int| 0 <= i < image_extensions().len() implies image_extensions()[i] != e by {
        assert(image_extensions()[i][0] != e[0] || image_extensions()[i].len() != e.len()
            || image_extensions()[i][1] != e[1]);
    }
    assert(!image_extensions().contains(e));
    assert(e != "xlsx"@ && e != "pdf"@ && e != "docx"@ && e != "pptx"@) by {
        assert(e[0] != "xlsx"@[0] && e[0] != "pdf"@[0] && e[0] != "docx"@[0] && e[0]
            != "pptx"@[0]);
    }
}

/// A directory is always previewed as a directory; an image by its
/// extension is shown within `IMAGE_PREVIEW_LIMIT` and only named above it;
/// a file with a text extension that is neither an image nor a document nor
/// a book is shown as text.
pub proof fn law_routes_by_kind(size: u64, ext: Option<Seq<char>>, q: bool)
    ensures
        preview_route_of(true, size, ext, q) == PreviewRoute::Directory,
        is_image_ext(ext) ==> preview_route_of(false, size, ext, q) == (if size
            <= IMAGE_PREVIEW_LIMIT {
            PreviewRoute::Image
        } else {
            PreviewRoute::ImageTooLarge
        }),
        is_text_ext(ext) && !is_image_ext(ext) && office_kind_of(ext->Some_0) is None && ext != Some(
            "epub"@,
        ) ==> preview_route_of(false, size, ext, q) == PreviewRoute::Text,
        ext is None ==> preview_route_of(false, size, ext, q) == PreviewRoute::ProbeText,
{
}

/// How the entry at hand is previewed, from whether it is a directory, its
/// size, its lower-case extension, and whether the platform has Quick Look.
pub fn preview_route(is_dir: bool, size: u64, ext: &Option<String>, quick_look_platform: bool) -> (r:
    PreviewRoute)
    ensures
        r == preview_route_of(is_dir, size, opt_chars(*ext), quick_look_platform),
{
    if is_dir {
        return PreviewRoute::Directory;
    }
    if image_ext(ext) {
        if size > IMAGE_PREVIEW_LIMIT {
            return PreviewRoute::ImageTooLarge;
        }
        return PreviewRoute::Image;
    }
    if let Some(e) = ext {
        let ev = chars_of(e.as_str());
        let kind = if chars_eq(&ev, &chars_of("xlsx")) {
            Some(OfficeKind::Xlsx)
        } else if chars_eq(&ev, &chars_of("pdf")) {
            Some(OfficeKind::Pdf)
        } else if chars_eq(&ev, &chars_of("docx")) {
            Some(OfficeKind::Docx)
        } else if chars_eq(&ev, &chars_of("pptx")) {
            Some(OfficeKind::Pptx)
        } else {
            None
        };
        if let Some(k) = kind {
            return PreviewRoute::Office {
                kind: k,
                quick_look_first: quick_look_platform && size <= office_limit(k),
            };
        }
        if chars_eq(&ev, &chars_of("epub")) {
            return PreviewRoute::Epub;
        }
    }
    if text_ext(ext) {
        return PreviewRoute::Text;
    }
    PreviewRoute::ProbeText
}

/// Whether the output of `file --mime` names a text type: `text/...`,
/// JSON or XML.
pub open spec fn mime_names_text(out: Seq<char>) -> bool {
    crate::text::contains_seq(out, "text/"@) || crate::text::contains_seq(out, "application/json"@)
        || crate::text::contains_seq(out, "application/xml"@)
}

/// Whether the output of `file --mime` names a text type.
pub fn mime_is_text(out: &str) -> (r: bool)
    ensures
        r == mime_names_text(out@),
{
    let o = chars_of(out);
    crate::text::contains_chars(&o, &chars_of("text/")) || crate::text::contains_chars(
        &o,
        &chars_of("application/json"),
    ) || crate::text::contains_chars(&o, &chars_of("application/xml"))
}

/// How many bytes of a text file of `size` bytes are read: the encoding
/// sample, at most `TEXT_SNIFF_LIMIT`.
pub fn text_sniff_len(size: u64) -> (r: u64)
    ensures
        r == if size < TEXT_SNIFF_LIMIT {
            size
        } else {
            TEXT_SNIFF_LIMIT
        },
{
    if size < TEXT_SNIFF_LIMIT {
        size
    } else {
        TEXT_SNIFF_LIMIT
    }
}

/// The text preview of a file of `size` bytes whose first bytes are
/// `sniff` (at most `TEXT_SNIFF_LIMIT` of them): the first
/// `TEXT_PREVIEW_LIMIT` bytes decoded with the encoding judged on all of
/// `sniff`, marked truncated when the file is longer than that.
pub fn preview_text(sniff: &[u8], size: u64) -> (r: PreviewPayload)
    requires
        sniff@.len() <= TEXT_SNIFF_LIMIT,
    ensures
        ({
            let shown = if size < TEXT_PREVIEW_LIMIT {
                size as int
            } else {
                TEXT_PREVIEW_LIMIT as int
            };
            let n = if shown < sniff@.len() {
                shown
            } else {
                sniff@.len() as int
            };
            r@ == PreviewView::Text {
                content: crate::encoding::decoded_text(sniff@.subrange(0, n), sniff@),
                truncated: size > TEXT_PREVIEW_LIMIT,
                total_size: size,
            }
        }),
{
    let shown: u64 = if size < TEXT_PREVIEW_LIMIT {
        size
    } else {
        TEXT_PREVIEW_LIMIT
    };
    let n: usize = if (shown as usize) < sniff.len() {
        shown as usize
    } else {
        sniff.len()
    };
    let buf = &sniff[0..n];
    let content = crate::encoding::decode_text(buf, sniff);
    PreviewPayload::Text { content, truncated: size > TEXT_PREVIEW_LIMIT, total_size: size }
}

/// The preview of a directory with the given numbers of subdirectories and
/// other entries: the disk usage `du` is shown except at a root.
pub fn preview_directory(sub_dirs: u64, sub_files: u64, is_root: bool, du: Option<u64>) -> (r:
    PreviewPayload)
    ensures
        r@ == (PreviewView::Directory {
            sub_dirs,
            sub_files,
            total_size: if is_root {
                None
            } else {
                du
            },
        }),
{
    PreviewPayload::Directory { sub_dirs, sub_files, total_size: if is_root {
        None
    } else {
        du
    } }
}

/// Whitespace as `char::is_whitespace` defines it: the characters with the
/// Unicode `White_Space` property.
pub open spec fn is_unicode_ws(c: char) -> bool {
    let u = c as u32;
    (0x09 <= u <= 0x0D) || u == 0x20 || u == 0x85 || u == 0xA0 || u == 0x1680 || (0x2000 <= u
        <= 0x200A) || u == 0x2028 || u == 0x2029 || u == 0x202F || u == 0x205F || u == 0x3000
}

fn unicode_ws(c: char) -> (r: bool)
    ensures
        r == is_unicode_ws(c),
{
    let u = c as u32;
    (0x09 <= u && u <= 0x0D) || u == 0x20 || u == 0x85 || u == 0xA0 || u == 0x1680 || (0x2000 <= u
        && u <= 0x200A) || u == 0x2028 || u == 0x2029 || u == 0x202F || u == 0x205F || u == 0x3000
}

/// The first whitespace-separated token of `s`, if any.
pub open spec fn first_token(s: Seq<char>) -> Option<Seq<char>> {
    let a = crate::xml::scan_while(s, 0, |c: char| is_unicode_ws(c));
    let b = crate::xml::scan_while(s, a, |c: char| !is_unicode_ws(c));
    if a >= s.len() {
        None
    } else {
        Some(s.subrange(a, b))
    }
}

/// The value of a run of ASCII digits.
pub open spec fn digits_value(d: Seq<char>) -> nat
    decreases d.len(),
{
    if d.len() == 0 {
        0
    } else {
        digits_value(d.drop_last()) * 10 + ((d.last() as u32) - 48) as nat
    }
}

/// All characters are ASCII digits.
pub open spec fn all_digits(d: Seq<char>) -> bool {
    forall|i: int| 0 <= i < d.len() ==> '0' <= #[trigger] d[i] <= '9'
}

/// The value that `str::parse::<u64>` gives `t`: an optional `+`, then one
/// or more ASCII digits, the value fitting in 64 bits.
pub open spec fn parse_u64_spec(t: Seq<char>) -> Option<nat> {
    let d = if t.len() > 0 && t[0] == '+' {
        t.subrange(1, t.len() as int)
    } else {
        t
    };
    if d.len() > 0 && all_digits(d) && digits_value(d) <= u64::MAX {
        Some(digits_value(d))
    } else {
        None
    }
}

/// The disk usage in bytes that the output of `du -sk` reports: its first
/// token read as kibibytes, times 1024 (saturating).
pub open spec fn du_bytes(out: Seq<char>) -> Option<u64> {
    match first_token(out) {
        None => None,
        Some(t) => match parse_u64_spec(t) {
            None => None,
            Some(kb) => Some(
                if kb * 1024 > u64::MAX {
                    u64::MAX
                } else {
                    (kb * 1024) as u64
                },
            ),
        },
    }
}

fn parse_u64_chars(t: &Vec<char>, from: usize, to: usize) -> (r: Option<u64>)
    requires
        from <= to <= t.len(),
    ensures
        r.is_some() == parse_u64_spec(t@.subrange(from as int, to as int)).is_some(),
        r.is_some() ==> r.unwrap() as nat == parse_u64_spec(t@.subrange(from as int, to as int)).unwrap(),
{
    let ghost tok = t@.subrange(from as int, to as int);
    let mut i = from;
    if i < to && t[i] == '+' {
        i = i + 1;
    }
    let ghost d = t@.subrange(i as int, to as int);
    assert(d == (if tok.len() > 0 && tok[0] == '+' {
        tok.subrange(1, tok.len() as int)
    } else {
        tok
    }));
    if i == to {
        return None;
    }
    let start = i;
    let mut v: u64 = 0;
    while i < to
        invariant
            start <= i <= to <= t.len(),
            d == t@.subrange(start as int, to as int),
            tok == t@.subrange(from as int, to as int),
            d.len() > 0,
            d == (if tok.len() > 0 && tok[0] == '+' {
                tok.subrange(1, tok.len() as int)
            } else {
                tok
            }),
            all_digits(t@.subrange(start as int, i as int)),
            v as nat == digits_value(t@.subrange(start as int, i as int)),
        decreases to - i,
    {
        let c = t[i];
        if !('0' <= c && c <= '9') {
            assert(d[i - start] == c);
            assert(!all_digits(d));
            return None;
        }
        let dv = (c as u32 - 48) as u64;
        assert(t@.subrange(start as int, i + 1).drop_last() =~= t@.subrange(start as int, i as int));
        if v > (u64::MAX - dv) / 10 {
            proof {
                assert(v * 10 + dv > u64::MAX) by (nonlinear_arith)
                    requires
                        v > (u64::MAX - dv) / 10,
                        dv <= 9,
                ;
                if all_digits(d) {
                    lemma_digits_value_grows(d, (i + 1 - start) as int);
                    assert(d.subrange(0, (i + 1 - start) as int) =~= t@.subrange(start as int, i + 1));
                }
            }
            return None;
        }
        v = v * 10 + dv;
        i = i + 1;
        assert(all_digits(t@.subrange(start as int, i as int)));
    }
    Some(v)
}

/// The value of a prefix of a digit run is at most the value of the run.
pub proof fn lemma_digits_value_grows(d: Seq<char>, k: int)
    requires
        0 <= k <= d.len(),
        all_digits(d),
    ensures
        digits_value(d.subrange(0, k)) <= digits_value(d),
    decreases d.len(),
{
    if k < d.len() {
        let p = d.drop_last();
        assert(all_digits(p));
        lemma_digits_value_grows(p, k);
        assert(p.subrange(0, k) =~= d.subrange(0, k));
    } else {
        assert(d.subrange(0, k) =~= d);
    }
}

/// The disk usage in bytes that the output of `du -sk` reports.
pub fn parse_du_output(out: &str) -> (r: Option<u64>)
    ensures
        r == du_bytes(out@),
{
    let s = chars_of(out);
    let mut a: usize = 0;
    while a < s.len() && unicode_ws(s[a])
        invariant
            a <= s.len(),
            crate::xml::scan_while(s@, 0, |c: char| is_unicode_ws(c)) == crate::xml::scan_while(
                s@,
                a as int,
                |c: char| is_unicode_ws(c),
            ),
        decreases s.len() - a,
    {
        a = a + 1;
    }
    if a >= s.len() {
        return None;
    }
    let mut b: usize = a;
    while b < s.len() && !unicode_ws(s[b])
        invariant
            a <= b <= s.len(),
            crate::xml::scan_while(s@, a as int, |c: char| !is_unicode_ws(c)) == crate::xml::scan_while(
                s@,
                b as int,
                |c: char| !is_unicode_ws(c),
            ),
        decreases s.len() - b,
    {
        b = b + 1;
    }
    match parse_u64_chars(&s, a, b) {
        None => None,
        Some(kb) => Some(
            if kb > u64::MAX / 1024 {
                u64::MAX
            } else {
                kb * 1024
            },
        ),
    }
}

/// The cells of a row that are shown: its first `SPREADSHEET_MAX_COLS`.
pub open spec fn shown_cells(row: Seq<Seq<char>>) -> Seq<Seq<char>> {
    if row.len() <= SPREADSHEET_MAX_COLS {
        row
    } else {
        row.take(SPREADSHEET_MAX_COLS as int)
    }
}

/// Rows cut to the shown cells.
pub open spec fn shown_rows(rows: Seq<Seq<Seq<char>>>) -> Seq<Seq<Seq<char>>> {
    rows.map_values(|r: Seq<Seq<char>>| shown_cells(r))
}

/// The spreadsheet preview of the first sheet: of its rows (cells rendered
/// as text) the first is the header and the next up to 99 follow, each cut
/// to `SPREADSHEET_MAX_COLS` cells, except that a sheet of at most one row
/// has no header and shows that row among the rows; the sheet's full height and width are
/// given (as 32-bit numbers) and whether either exceeds what is shown.
pub open spec fn spreadsheet_view(
    names: Seq<Seq<char>>,
    height: usize,
    width: usize,
    rows: Seq<Seq<Seq<char>>>,
    size: u64,
) -> PreviewView {
    let shown = if rows.len() <= SPREADSHEET_MAX_ROWS {
        rows.len() as int
    } else {
        SPREADSHEET_MAX_ROWS as int
    };
    PreviewView::Spreadsheet {
        sheet_name: names[0],
        headers: if height > 1 && rows.len() > 0 {
            shown_cells(rows[0])
        } else {
            Seq::empty()
        },
        rows: if height <= 1 {
            shown_rows(rows.subrange(0, shown))
        } else if shown > 1 {
            shown_rows(rows.subrange(1, shown))
        } else {
            Seq::empty()
        },
        total_rows: height as u32,
        total_cols: width as u32,
        truncated_rows: height > SPREADSHEET_MAX_ROWS,
        truncated_cols: width > SPREADSHEET_MAX_COLS,
        other_sheets: names.subrange(1, names.len() as int),
        size,
    }
}

fn shown_row(row: &Vec<String>) -> (r: Vec<String>)
    ensures
        texts(r@) == shown_cells(texts(row@)),
{
    let n = if row.len() <= SPREADSHEET_MAX_COLS {
        row.len()
    } else {
        SPREADSHEET_MAX_COLS
    };
    let mut out: Vec<String> = Vec::new();
    let mut j: usize = 0;
    assert(texts(out@) =~= texts(row@).take(0));
    while j < n
        invariant
            j <= n <= row.len(),
            n == if row.len() <= SPREADSHEET_MAX_COLS {
                row.len()
            } else {
                SPREADSHEET_MAX_COLS
            },
            texts(out@) == texts(row@).take(j as int),
            out@.len() == j,
        decreases n - j,
    {
        out.push(String::from_str(row[j].as_str()));
        j = j + 1;
        assert(texts(out@) =~= texts(row@).take(j as int));
    }
    assert(texts(row@).take(n as int) =~= shown_cells(texts(row@)));
    out
}

/// The spreadsheet preview of a workbook with the given sheet names whose
/// first sheet has the given height and width and leading rows (cells as
/// text); `rows` may hold just the rows and cells within the shown limits.
pub fn spreadsheet_payload(
    sheet_names: &Vec<String>,
    height: usize,
    width: usize,
    rows: &Vec<Vec<String>>,
    size: u64,
) -> (r: PreviewPayload)
    requires
        sheet_names.len() > 0,
    ensures
        r@ == spreadsheet_view(texts(sheet_names@), height, width, text_rows(rows@), size),
{
    let shown = if rows.len() <= SPREADSHEET_MAX_ROWS {
        rows.len()
    } else {
        SPREADSHEET_MAX_ROWS
    };
    let headers = if height > 1 && rows.len() > 0 {
        shown_row(&rows[0])
    } else {
        Vec::new()
    };
    let first: usize = if height <= 1 {
        0
    } else {
        1
    };
    let mut body: Vec<Vec<String>> = Vec::new();
    let mut i: usize = first;
    while i < shown
        invariant
            first <= i,
            first <= 1,
            i <= shown || i == first,
            shown <= rows.len(),
            i > first ==> text_rows(body@) == shown_rows(text_rows(rows@).subrange(first as int, i as int)),
            body@.len() == i - first,
        decreases shown - i,
    {
        let ghost old_body = body@;
        let row = shown_row(&rows[i]);
        body.push(row);
        proof {
            let want = shown_rows(text_rows(rows@).subrange(first as int, i + 1));
            assert(text_rows(body@).len() == want.len());
            assert forall|q: int| 0 <= q < want.len() implies text_rows(body@)[q] == want[q] by {
                if q < i - first {
                    assert(text_rows(body@)[q] == text_rows(old_body)[q]);
                } else {
                    assert(text_rows(body@)[q] == texts(row@));
                }
            }
            assert(text_rows(body@) =~= want);
        }
        i = i + 1;
    }
    let mut others: Vec<String> = Vec::new();
    let mut k: usize = 1;
    assert(texts(others@) =~= texts(sheet_names@).subrange(1, 1));
    while k < sheet_names.len()
        invariant
            1 <= k <= sheet_names.len(),
            texts(others@) == texts(sheet_names@).subrange(1, k as int),
            others@.len() == k - 1,
        decreases sheet_names.len() - k,
    {
        others.push(String::from_str(sheet_names[k].as_str()));
        k = k + 1;
        assert(texts(others@) =~= texts(sheet_names@).subrange(1, k as int));
    }
    let r = PreviewPayload::Spreadsheet {
        sheet_name: String::from_str(sheet_names[0].as_str()),
        headers,
        rows: body,
        total_rows: #[verifier::truncate] (height as u32),
        total_cols: #[verifier::truncate] (width as u32),
        truncated_rows: height > SPREADSHEET_MAX_ROWS,
        truncated_cols: width > SPREADSHEET_MAX_COLS,
        other_sheets: others,
        size,
    };
    proof {
        if i == first {
            assert(text_rows(body@) =~= Seq::empty());
            if first as int <= shown as int {
                assert(text_rows(rows@).subrange(first as int, shown as int).len() == 0);
                assert(shown_rows(text_rows(rows@).subrange(first as int, shown as int)) =~= Seq::empty());
            }
        } else {
            assert(i == shown);
        }
        let names = texts(sheet_names@);
        assert(texts(others@) == names.subrange(1, names.len() as int));
        if height > 1 && rows.len() > 0 {
            assert(text_rows(rows@)[0] == texts(rows@[0]@));
            assert(texts(headers@) == shown_cells(text_rows(rows@)[0]));
        } else {
            assert(texts(headers@) =~= Seq::empty());
        }
        assert(r@ == spreadsheet_view(names, height, width, text_rows(rows@), size));
    }
    r
}

/// The preview when a workbook cannot be opened.
pub fn xlsx_unreadable(err: &str, size: u64) -> (r: PreviewPayload)
    ensures
        r@ == (PreviewView::Unsupported { reason: "无法解析 xlsx："@ + err@, size }),
{
    PreviewPayload::Unsupported { reason: String::from_str("无法解析 xlsx：").concat(err), size }
}

/// The preview of a workbook without sheets.
pub fn xlsx_without_sheets(size: u64) -> (r: PreviewPayload)
    ensures
        r@ == (PreviewView::Unsupported { reason: "XLSX 文件不包含任何工作表"@, size }),
{
    PreviewPayload::Unsupported { reason: String::from_str("XLSX 文件不包含任何工作表"), size }
}

/// The preview when the first sheet cannot be read.
pub fn sheet_unreadable(sheet_name: &str, err: &str, size: u64) -> (r: PreviewPayload)
    ensures
        r@ == (PreviewView::Unsupported {
            reason: "无法读取工作表「"@ + sheet_name@ + "」："@ + err@,
            size,
        }),
{
    PreviewPayload::Unsupported {
        reason: String::from_str("无法读取工作表「").concat(sheet_name).concat("」：").concat(err),
        size,
    }
}

/// Whether the portable path `p` is a root of the file tree: `/`, the home
/// directory, or one of the listed roots.
pub open spec fn root_of(p: Seq<char>, home: Option<Seq<char>>, roots: Seq<Seq<char>>) -> bool {
    p == seq!['/'] || home == Some(p) || roots.contains(p)
}

/// Whether `p` is a root of the file tree, whose disk usage is never
/// computed: a path without a parent (`/`, a drive root), the home
/// directory, or one of the listed roots (`roots`, as `list_roots` gives them).
///
/// The comparisons come from `std::path`: a path always equals itself, the
/// empty path has no parent, and between portable paths the answer is
/// exact (`root_of`); of other paths, which split differently from one
/// platform to another, nothing more is stated.
pub fn is_root_path(p: &str, home: &Option<String>, roots: &Vec<String>) -> (r: bool)
    ensures
        p@.len() == 0 ==> r,
        (home matches Some(h) && h@ == p@) ==> r,
        (exists|i: int| 0 <= i < roots@.len() && (#[trigger] roots@[i])@ == p@) ==> r,
        portable_path(p@) && (home matches Some(h) ==> portable_path(h@)) && (forall|i: int|
            0 <= i < roots@.len() ==> portable_path((#[trigger] roots@[i])@)) ==> r == root_of(
            p@,
            opt_chars(*home),
            roots@.map_values(|s: String| s@),
        ),
{
    if crate::paths::path_parent(p).is_none() {
        return true;
    }
    if let Some(h) = home {
        if crate::paths::path_eq(p, h.as_str()) {
            return true;
        }
    }
    let mut i: usize = 0;
    while i < roots.len()
        invariant
            i <= roots.len(),
            p@.len() > 0,
            portable_path(p@) ==> p@ != seq!['/'],
            !(home matches Some(h) && h@ == p@),
            forall|j: int| 0 <= j < i ==> (#[trigger] roots@[j])@ != p@,
        decreases roots.len() - i,
    {
        if crate::paths::path_eq(roots[i].as_str(), p) {
            proof {
                let names = roots@.map_values(|s: String| s@);
                if portable_path(p@) && portable_path(roots@[i as int]@) {
                    assert(names[i as int] == p@);
                    assert(names.contains(p@));
                }
            }
            return true;
        }
        i = i + 1;
    }
    assert(roots@.map_values(|s: String| s@).len() == roots@.len());
    false
}

/// The preview of a file of kind `kind` over its size limit, or `None`
/// within it.
pub fn over_limit(size: u64, limit: u64, kind: &str) -> (r: Option<PreviewPayload>)
    ensures
        size > limit ==> (r matches Some(p) && p@ == PreviewView::Unsupported {
            reason: too_large_reason(size),
            size,
        }),
        size <= limit ==> r is None,
{
    if size > limit {
        Some(too_large(size, limit, kind))
    } else {
        None
    }
}

/// The preview when the cache directory cannot be created.
pub fn cache_dir_unavailable(err: &str, size: u64) -> (r: PreviewPayload)
    ensures
        r@ == (PreviewView::Unsupported { reason: "无法创建缓存目录："@ + err@, size }),
{
    PreviewPayload::Unsupported { reason: String::from_str("无法创建缓存目录：").concat(err), size }
}

/// The preview of an image within its size limit.
pub fn image_payload(path: &str, size: u64) -> (r: PreviewPayload)
    ensures
        r@ == (PreviewView::Image { path: path@, size }),
{
    PreviewPayload::Image { path: String::from_str(path), size }
}

} // verus!
