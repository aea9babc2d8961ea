use qfinder::preview::{
    cache_dir_unavailable, ext_lower, is_root_path, image_ext, image_payload, is_image, lowercase_ext, mime_is_text,
    office_limit, parse_du_output, preview_directory, preview_docx, preview_pdf, preview_route,
    sheet_unreadable, spreadsheet_payload, text_ext, xlsx_unreadable, xlsx_without_sheets, OfficeKind,
    PreviewPayload, PreviewRoute, DOCX_LIMIT, IMAGE_PREVIEW_LIMIT, PDF_LIMIT, PPTX_LIMIT, XLSX_LIMIT,
};

fn some(s: &str) -> Option<String> {
    Some(s.to_string())
}

#[test]
fn extensions_are_lowered() {
    assert_eq!(ext_lower("/a/B.PNG"), some("png"));
    assert_eq!(ext_lower("/a/archive.tar.GZ"), some("gz"));
    assert_eq!(ext_lower("/a/README"), None);
    assert_eq!(ext_lower("/a/.gitignore"), None);
    assert_eq!(lowercase_ext(some("ÉPUB")), some("épub"));
    assert_eq!(lowercase_ext(None), None);
}

#[test]
fn image_and_text_lists() {
    for e in ["png", "jpg", "jpeg", "gif", "bmp", "webp", "svg", "ico", "tiff", "tif"] {
        assert!(image_ext(&some(e)), "{}", e);
    }
    assert!(!image_ext(&some("PNG")));
    assert!(!image_ext(&None));
    for e in ["txt", "md", "rs", "json", "gitignore", "patch", "tsx", "ps1"] {
        assert!(text_ext(&some(e)), "{}", e);
    }
    assert!(!text_ext(&some("docx")));
    assert!(is_image("/x/photo.JPG"));
    assert!(!is_image("/x/notes.txt"));
}

#[test]
fn routes_in_order() {
    assert_eq!(preview_route(true, 0, &some("png"), false), PreviewRoute::Directory);
    assert_eq!(preview_route(false, 10, &some("png"), false), PreviewRoute::Image);
    assert_eq!(preview_route(false, IMAGE_PREVIEW_LIMIT, &some("svg"), false), PreviewRoute::Image);
    assert_eq!(
        preview_route(false, IMAGE_PREVIEW_LIMIT + 1, &some("svg"), false),
        PreviewRoute::ImageTooLarge
    );
    assert_eq!(
        preview_route(false, 10, &some("xlsx"), false),
        PreviewRoute::Office { kind: OfficeKind::Xlsx, quick_look_first: false }
    );
    assert_eq!(
        preview_route(false, 10, &some("pptx"), true),
        PreviewRoute::Office { kind: OfficeKind::Pptx, quick_look_first: true }
    );
    assert_eq!(
        preview_route(false, PDF_LIMIT + 1, &some("pdf"), true),
        PreviewRoute::Office { kind: OfficeKind::Pdf, quick_look_first: false }
    );
    assert_eq!(
        preview_route(false, DOCX_LIMIT, &some("docx"), true),
        PreviewRoute::Office { kind: OfficeKind::Docx, quick_look_first: true }
    );
    assert_eq!(preview_route(false, 10, &some("epub"), true), PreviewRoute::Epub);
    assert_eq!(preview_route(false, 10, &some("md"), false), PreviewRoute::Text);
    assert_eq!(preview_route(false, 10, &some("bin"), false), PreviewRoute::ProbeText);
    assert_eq!(preview_route(false, 10, &None, false), PreviewRoute::ProbeText);
}

#[test]
fn office_limits() {
    assert_eq!(office_limit(OfficeKind::Xlsx), XLSX_LIMIT);
    assert_eq!(office_limit(OfficeKind::Pdf), 100 * 1024 * 1024);
    assert_eq!(office_limit(OfficeKind::Docx), 20 * 1024 * 1024);
    assert_eq!(office_limit(OfficeKind::Pptx), PPTX_LIMIT);
}

#[test]
fn mime_probe() {
    assert!(mime_is_text("/a/b: text/plain; charset=us-ascii\n"));
    assert!(mime_is_text("x: application/json; charset=utf-8"));
    assert!(mime_is_text("x: application/xml"));
    assert!(!mime_is_text("x: application/octet-stream; charset=binary"));
    assert!(!mime_is_text(""));
}

#[test]
fn du_output() {
    assert_eq!(parse_du_output("12\t/some/dir\n"), Some(12 * 1024));
    assert_eq!(parse_du_output("  \n 7 x"), Some(7 * 1024));
    assert_eq!(parse_du_output("+3\tdir"), Some(3 * 1024));
    assert_eq!(parse_du_output(""), None);
    assert_eq!(parse_du_output("   "), None);
    assert_eq!(parse_du_output("du: cannot read"), None);
    assert_eq!(parse_du_output("-5 x"), None);
    assert_eq!(parse_du_output("18446744073709551615\tbig"), Some(u64::MAX));
    assert_eq!(parse_du_output("18446744073709551616\tbig"), None);
    assert_eq!(parse_du_output("\u{3000}42\u{3000}x"), Some(42 * 1024));
}

#[test]
fn directory_previews() {
    match preview_directory(2, 3, false, Some(4096)) {
        PreviewPayload::Directory { sub_dirs, sub_files, total_size } => {
            assert_eq!((sub_dirs, sub_files, total_size), (2, 3, Some(4096)));
        }
        other => panic!("unexpected {:?}", other),
    }
    match preview_directory(0, 0, true, Some(4096)) {
        PreviewPayload::Directory { total_size, .. } => assert_eq!(total_size, None),
        other => panic!("unexpected {:?}", other),
    }
}

#[test]
fn documents_within_and_over_limits() {
    match preview_pdf("/d/a.pdf", 10).unwrap() {
        PreviewPayload::Pdf { path, size } => assert_eq!((path.as_str(), size), ("/d/a.pdf", 10)),
        other => panic!("unexpected {:?}", other),
    }
    match preview_docx("/d/a.docx", DOCX_LIMIT + 1).unwrap() {
        PreviewPayload::Unsupported { reason, .. } => {
            assert_eq!(reason, "文件过大（20971521），跳过预览")
        }
        other => panic!("unexpected {:?}", other),
    }
    match image_payload("/p.png", 3) {
        PreviewPayload::Image { path, size } => assert_eq!((path.as_str(), size), ("/p.png", 3)),
        other => panic!("unexpected {:?}", other),
    }
    match cache_dir_unavailable("denied", 3) {
        PreviewPayload::Unsupported { reason, .. } => assert_eq!(reason, "无法创建缓存目录：denied"),
        other => panic!("unexpected {:?}", other),
    }
}

fn row(cells: &[&str]) -> Vec<String> {
    cells.iter().map(|c| c.to_string()).collect()
}

#[test]
fn spreadsheet_shows_header_and_rows() {
    let names = row(&["Sheet1", "Other", "Third"]);
    let rows = vec![row(&["a", "b"]), row(&["1", "2"]), row(&["3", "4"])];
    match spreadsheet_payload(&names, 3, 2, &rows, 99) {
        PreviewPayload::Spreadsheet {
            sheet_name,
            headers,
            rows,
            total_rows,
            total_cols,
            truncated_rows,
            truncated_cols,
            other_sheets,
            size,
        } => {
            assert_eq!(sheet_name, "Sheet1");
            assert_eq!(headers, row(&["a", "b"]));
            assert_eq!(rows, vec![row(&["1", "2"]), row(&["3", "4"])]);
            assert_eq!((total_rows, total_cols), (3, 2));
            assert!(!truncated_rows && !truncated_cols);
            assert_eq!(other_sheets, row(&["Other", "Third"]));
            assert_eq!(size, 99);
        }
        other => panic!("unexpected {:?}", other),
    }
}

#[test]
fn spreadsheet_is_cut_to_the_limits() {
    let wide: Vec<String> = (0..30).map(|i| i.to_string()).collect();
    let rows: Vec<Vec<String>> = (0..150).map(|_| wide.clone()).collect();
    match spreadsheet_payload(&row(&["S"]), 150, 30, &rows, 1) {
        PreviewPayload::Spreadsheet { headers, rows, truncated_rows, truncated_cols, other_sheets, .. } => {
            assert_eq!(headers.len(), 20);
            assert_eq!(rows.len(), 99);
            assert!(rows.iter().all(|r| r.len() == 20));
            assert!(truncated_rows && truncated_cols);
            assert!(other_sheets.is_empty());
        }
        other => panic!("unexpected {:?}", other),
    }
    match spreadsheet_payload(&row(&["Empty"]), 0, 0, &vec![], 1) {
        PreviewPayload::Spreadsheet { headers, rows, total_rows, .. } => {
            assert!(headers.is_empty() && rows.is_empty());
            assert_eq!(total_rows, 0);
        }
        other => panic!("unexpected {:?}", other),
    }
}

#[test]
fn a_one_row_sheet_has_no_header() {
    let wide: Vec<String> = (0..25).map(|i| i.to_string()).collect();
    match spreadsheet_payload(&row(&["Only"]), 1, 25, &vec![wide.clone()], 4) {
        PreviewPayload::Spreadsheet { headers, rows, total_rows, truncated_cols, .. } => {
            assert!(headers.is_empty());
            assert_eq!(rows, vec![wide[..20].to_vec()]);
            assert_eq!(total_rows, 1);
            assert!(truncated_cols);
        }
        other => panic!("unexpected {:?}", other),
    }
}

#[test]
fn spreadsheet_failures() {
    match xlsx_unreadable("bad", 1) {
        PreviewPayload::Unsupported { reason, .. } => assert_eq!(reason, "无法解析 xlsx：bad"),
        other => panic!("unexpected {:?}", other),
    }
    match xlsx_without_sheets(1) {
        PreviewPayload::Unsupported { reason, .. } => assert_eq!(reason, "XLSX 文件不包含任何工作表"),
        other => panic!("unexpected {:?}", other),
    }
    match sheet_unreadable("S", "e", 1) {
        PreviewPayload::Unsupported { reason, .. } => assert_eq!(reason, "无法读取工作表「S」：e"),
        other => panic!("unexpected {:?}", other),
    }
}

#[test]
fn roots_skip_disk_usage() {
    let home = Some("/home/me".to_string());
    let roots = vec!["/media/me/usb".to_string()];
    assert!(is_root_path("/", &home, &roots));
    assert!(is_root_path("", &home, &roots));
    assert!(is_root_path("/home/me", &home, &roots));
    assert!(is_root_path("/media/me/usb", &home, &roots));
    assert!(!is_root_path("/media/me/usb/docs", &home, &roots));
    assert!(!is_root_path("/home", &home, &roots));
    assert!(!is_root_path("/tmp", &None, &vec![]));
}
