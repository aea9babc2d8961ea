use qfinder::encoding::{decode_text, decodes_cleanly};
use qfinder::preview::{preview_text, text_sniff_len, PreviewPayload, TEXT_PREVIEW_LIMIT, TEXT_SNIFF_LIMIT};

#[test]
fn utf8_bom_is_skipped() {
    let mut b = vec![0xEF, 0xBB, 0xBF];
    b.extend_from_slice("héllo".as_bytes());
    assert_eq!(decode_text(&b, &b), "héllo");
    // The buffer need not carry the mark that the sample has.
    assert_eq!(decode_text("abc".as_bytes(), &b), "abc");
}

#[test]
fn utf16_boms_pick_the_byte_order() {
    let le: Vec<u8> = vec![0xFF, 0xFE, b'h', 0, b'i', 0, 0x2D, 0x4E];
    assert_eq!(decode_text(&le, &le), "hi中");
    let be: Vec<u8> = vec![0xFE, 0xFF, 0, b'h', 0, b'i', 0x4E, 0x2D];
    assert_eq!(decode_text(&be, &be), "hi中");
}

#[test]
fn plain_utf8_is_taken_first() {
    let s = "纯文本 plain text";
    assert_eq!(decode_text(s.as_bytes(), s.as_bytes()), s);
    assert_eq!(decode_text(b"", b""), "");
}

#[test]
fn a_character_cut_at_the_end_of_the_sample_is_forgiven() {
    let s = "中文内容";
    let bytes = s.as_bytes();
    let cut = &bytes[..bytes.len() - 1];
    assert!(decodes_cleanly("UTF-8", cut));
    // The shown part is decoded as UTF-8 too; its own cut byte becomes U+FFFD.
    assert_eq!(decode_text(cut, cut), "中文内\u{FFFD}");
}

#[test]
fn gb18030_text_is_recognized() {
    let (enc, _, _) = encoding_rs::GB18030.encode("这是一段简体中文文本，用于测试编码识别。");
    let bytes = enc.into_owned();
    assert!(!decodes_cleanly("UTF-8", &bytes));
    assert!(decodes_cleanly("GB18030", &bytes));
    assert_eq!(decode_text(&bytes, &bytes), "这是一段简体中文文本，用于测试编码识别。");
}

#[test]
fn unknown_labels_never_decode_cleanly() {
    assert!(!decodes_cleanly("no-such-encoding", b"abc"));
    assert!(decodes_cleanly("Shift_JIS", b"abc"));
}

#[test]
fn the_statistical_guess_comes_last() {
    // 0xFF starts no character in UTF-8, GB18030, Big5, Shift_JIS or
    // EUC-KR, and trimming the end does not remove it: every candidate
    // fails and the guess decides.
    let bytes: Vec<u8> = vec![0xFF, b'T', b'e', b'x', b't', 0xE9, b' ', b'a', b'b', b'c'];
    let mut candidates_fail = true;
    for enc in [
        encoding_rs::UTF_8,
        encoding_rs::GB18030,
        encoding_rs::BIG5,
        encoding_rs::SHIFT_JIS,
        encoding_rs::EUC_KR,
    ] {
        let max_trim = 4.min(bytes.len());
        for trim in 0..=max_trim {
            if !enc.decode_without_bom_handling(&bytes[..bytes.len() - trim]).1 {
                candidates_fail = false;
            }
        }
    }
    assert!(candidates_fail);
    let mut det = chardetng::EncodingDetector::new();
    det.feed(&bytes, true);
    let guess = det.guess(None, true);
    let expected = guess.decode_without_bom_handling(&bytes).0.into_owned();
    assert_eq!(decode_text(&bytes, &bytes), expected);
}

#[test]
fn sniff_length_is_capped() {
    assert_eq!(text_sniff_len(0), 0);
    assert_eq!(text_sniff_len(500), 500);
    assert_eq!(text_sniff_len(TEXT_SNIFF_LIMIT), TEXT_SNIFF_LIMIT);
    assert_eq!(text_sniff_len(u64::MAX), TEXT_SNIFF_LIMIT);
}

#[test]
fn text_preview_shows_the_first_part() {
    let body = "x".repeat(20_000);
    match preview_text(body.as_bytes(), 20_000) {
        PreviewPayload::Text { content, truncated, total_size } => {
            assert_eq!(content.len(), TEXT_PREVIEW_LIMIT as usize);
            assert!(truncated);
            assert_eq!(total_size, 20_000);
        }
        other => panic!("unexpected {:?}", other),
    }
    match preview_text(b"short", 5) {
        PreviewPayload::Text { content, truncated, total_size } => {
            assert_eq!(content, "short");
            assert!(!truncated);
            assert_eq!(total_size, 5);
        }
        other => panic!("unexpected {:?}", other),
    }
    // A file that grew after its size was read: only what was read is shown.
    match preview_text(b"abc", 10) {
        PreviewPayload::Text { content, truncated, .. } => {
            assert_eq!(content, "abc");
            assert!(!truncated);
        }
        other => panic!("unexpected {:?}", other),
    }
}

#[test]
fn a_sample_of_at_most_four_bytes_is_always_clean() {
    assert!(decodes_cleanly("UTF-8", &[0xFF]));
    assert!(decodes_cleanly("EUC-KR", &[0xFF, 0xFF, 0xFF, 0xFF]));
    assert!(decodes_cleanly("UTF-8", &[]));
    assert!(!decodes_cleanly("UTF-8", &[0xFF, 0xFF, 0xFF, 0xFF, 0xFF]));
}
