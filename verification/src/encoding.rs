//! Turning the first bytes of a text file into text: byte-order marks first,
//! then UTF-8 and the common CJK encodings in turn, then a statistical guess.
use vstd::prelude::*;

verus! {

/// What `encoding_rs` yields when the encoding with the given label decodes
/// `bytes` without BOM handling: the text (malformed sequences replaced by
/// U+FFFD) and whether any sequence was malformed.
pub uninterp spec fn decode_without_bom(label: Seq<char>, bytes: Seq<u8>) -> (Seq<char>, bool);

/// Whether `encoding_rs::Encoding::for_label` knows `label`.
pub uninterp spec fn label_known(label: Seq<char>) -> bool;

/// The name of the encoding that `chardetng` guesses for `sniff` (fed whole,
/// no top-level domain, UTF-8 allowed).
pub uninterp spec fn guessed_encoding(sniff: Seq<u8>) -> Seq<char>;

/// The labels that this module decodes with by name.
pub open spec fn is_fixed_label(label: Seq<char>) -> bool {
    label == "UTF-8"@ || label == "UTF-16LE"@ || label == "UTF-16BE"@ || label == "GB18030"@
        || label == "Big5"@ || label == "Shift_JIS"@ || label == "EUC-KR"@
}

/// Decodes `bytes` with the encoding that `label` names.
///
/// Trusted: looks the label up with `encoding_rs::Encoding::for_label` and
/// decodes with `Encoding::decode_without_bom_handling`. Stated: the result
/// is the named decoding; the fixed labels of this module are known; and, as
/// the documentation of the UTF-8 decoder gives, UTF-8 input has malformed
/// sequences exactly when it is not valid UTF-8, and valid input decodes to
/// the characters it encodes; and no input decodes to no text without error
/// (every decoder of `encoding_rs` reports errors only for bytes it read or
/// a sequence left open at the end). Decoding panics only where a buffer size
/// overflows `usize`; the length bound keeps clear of that.
#[verifier::external_body]
fn decode_with_label(label: &str, bytes: &[u8]) -> (r: Option<(String, bool)>)
    requires
        bytes@.len() <= 0x1000_0000,
    ensures
        r.is_some() == label_known(label@),
        is_fixed_label(label@) ==> r.is_some(),
        r.is_some() ==> (r.unwrap().0@, r.unwrap().1) == decode_without_bom(label@, bytes@),
        label@ == "UTF-8"@ ==> r.is_some() && r.unwrap().1 == !vstd::utf8::valid_utf8(bytes@),
        label@ == "UTF-8"@ && vstd::utf8::valid_utf8(bytes@) ==> r.is_some() && r.unwrap().0@
            == vstd::utf8::decode_utf8(bytes@),
        bytes@.len() == 0 && r.is_some() ==> !r.unwrap().1 && r.unwrap().0@.len() == 0,
{
    encoding_rs::Encoding::for_label(label.as_bytes()).map(
        |e| {
            let (text, had_errors) = e.decode_without_bom_handling(bytes);
            (text.into_owned(), had_errors)
        },
    )
}

/// The name of the encoding that `chardetng` guesses for `sniff`.
///
/// Trusted: feeds `sniff` whole to a new `chardetng::EncodingDetector` and
/// calls `guess(None, true)`, taking the encoding's name. Stated: the result
/// is the named guess, and `encoding_rs` knows it as a label (every encoding
/// that chardetng can guess has its name among its labels).
#[verifier::external_body]
fn guess_encoding_name(sniff: &[u8]) -> (r: String)
    ensures
        r@ == guessed_encoding(sniff@),
        label_known(r@),
{
    let mut detector = chardetng::EncodingDetector::new();
    detector.feed(sniff, true);
    detector.guess(None, true).name().to_string()
}

/// `b` begins with `p`.
pub open spec fn bytes_start_with(b: Seq<u8>, p: Seq<u8>) -> bool {
    p.len() <= b.len() && b.subrange(0, p.len() as int) == p
}

/// The UTF-8 byte-order mark.
pub open spec fn bom_utf8() -> Seq<u8> {
    seq![0xEFu8, 0xBBu8, 0xBFu8]
}

/// The UTF-16 little-endian byte-order mark.
pub open spec fn bom_utf16le() -> Seq<u8> {
    seq![0xFFu8, 0xFEu8]
}

/// The UTF-16 big-endian byte-order mark.
pub open spec fn bom_utf16be() -> Seq<u8> {
    seq![0xFEu8, 0xFFu8]
}

/// `buf` decoded with `label`, after its copy of the mark `bom` if it has one.
pub open spec fn decode_after_bom(label: Seq<char>, bom: Seq<u8>, buf: Seq<u8>) -> Seq<char> {
    let start = if bytes_start_with(buf, bom) {
        bom.len() as int
    } else {
        0
    };
    decode_without_bom(label, buf.subrange(start, buf.len() as int)).0
}

/// Decoding with `label` is clean on `sniff` or on `sniff` without up to
/// four of its last bytes (a character cut at the end is forgiven).
pub open spec fn decodes_cleanly_spec(label: Seq<char>, sniff: Seq<u8>) -> bool {
    exists|trim: int|
        0 <= trim <= 4 && trim <= sniff.len() && !(#[trigger] decode_without_bom(
            label,
            sniff.subrange(0, sniff.len() - trim),
        )).1
}

/// The encodings tried in turn when there is no byte-order mark.
pub open spec fn candidate_labels() -> Seq<Seq<char>> {
    seq!["UTF-8"@, "GB18030"@, "Big5"@, "Shift_JIS"@, "EUC-KR"@]
}

/// The first candidate at index `i` or later that decodes `sniff` cleanly.
pub open spec fn first_clean_from(sniff: Seq<u8>, i: int) -> Option<Seq<char>>
    decreases 5 - i,
{
    if i < 0 || i >= 5 {
        None
    } else if decodes_cleanly_spec(candidate_labels()[i], sniff) {
        Some(candidate_labels()[i])
    } else {
        first_clean_from(sniff, i + 1)
    }
}

/// The text of `buf`, the encoding being chosen from `sniff` (the longer
/// sample that `buf` begins): a byte-order mark of UTF-8, UTF-16LE or
/// UTF-16BE decides (and is dropped from `buf`); else the first of UTF-8,
/// GB18030, Big5, Shift_JIS and EUC-KR that decodes `sniff` cleanly; else the
/// encoding that chardetng guesses from `sniff`.
pub open spec fn decoded_text(buf: Seq<u8>, sniff: Seq<u8>) -> Seq<char> {
    if bytes_start_with(sniff, bom_utf8()) {
        decode_after_bom("UTF-8"@, bom_utf8(), buf)
    } else if bytes_start_with(sniff, bom_utf16le()) {
        decode_after_bom("UTF-16LE"@, bom_utf16le(), buf)
    } else if bytes_start_with(sniff, bom_utf16be()) {
        decode_after_bom("UTF-16BE"@, bom_utf16be(), buf)
    } else {
        match first_clean_from(sniff, 0) {
            Some(label) => decode_without_bom(label, buf).0,
            None => decode_without_bom(guessed_encoding(sniff), buf).0,
        }
    }
}

fn starts_with_bytes(b: &[u8], p: &[u8]) -> (r: bool)
    ensures
        r == bytes_start_with(b@, p@),
{
    if p.len() > b.len() {
        return false;
    }
    let mut i: usize = 0;
    while i < p.len()
        invariant
            p.len() <= b.len(),
            i <= p.len(),
            forall|j: int| 0 <= j < i ==> b@[j] == p@[j],
        decreases p.len() - i,
    {
        if b[i] != p[i] {
            assert(b@.subrange(0, p.len() as int)[i as int] != p@[i as int]);
            return false;
        }
        i = i + 1;
    }
    assert(b@.subrange(0, p.len() as int) =~= p@);
    true
}

/// Whether decoding `sniff` with `label` is clean, forgiving up to four cut
/// bytes at its end.
pub fn decodes_cleanly(label: &str, sniff: &[u8]) -> (r: bool)
    requires
        sniff@.len() <= 0x1000_0000,
    ensures
        r == (label_known(label@) && decodes_cleanly_spec(label@, sniff@)),
        is_fixed_label(label@) ==> label_known(label@),
        label_known(label@) && sniff@.len() <= 4 ==> r,
{
    let max_trim: usize = if sniff.len() < 4 {
        sniff.len()
    } else {
        4
    };
    let mut trim: usize = 0;
    while trim <= max_trim
        invariant
            sniff@.len() <= 0x1000_0000,
            trim > 0 ==> label_known(label@),
            label_known(label@) && sniff@.len() <= 4 ==> trim <= sniff@.len(),
            is_fixed_label(label@) && trim > 0 ==> label_known(label@),
            max_trim <= 4,
            max_trim <= sniff.len(),
            max_trim == 4 || max_trim == sniff.len(),
            forall|t: int|
                0 <= t < trim ==> (#[trigger] decode_without_bom(
                    label@,
                    sniff@.subrange(0, sniff@.len() - t),
                )).1,
        decreases max_trim + 1 - trim,
    {
        let slice = &sniff[0..sniff.len() - trim];
        assert(slice@ == sniff@.subrange(0, sniff@.len() - trim));
        match decode_with_label(label, slice) {
            Some((_, had_errors)) => {
                if !had_errors {
                    assert(!decode_without_bom(label@, sniff@.subrange(0, sniff@.len() - trim)).1);
                    return true;
                }
            },
            None => {
                return false;
            },
        }
        trim = trim + 1;
    }
    assert forall|t: int| 0 <= t <= 4 && t <= sniff@.len() implies (#[trigger] decode_without_bom(
        label@,
        sniff@.subrange(0, sniff@.len() - t),
    )).1 by {
        assert(t < trim);
    }
    false
}

fn candidate_label(i: usize) -> (r: &'static str)
    requires
        i < 5,
    ensures
        r@ == candidate_labels()[i as int],
        is_fixed_label(r@),
{
    if i == 0 {
        "UTF-8"
    } else if i == 1 {
        "GB18030"
    } else if i == 2 {
        "Big5"
    } else if i == 3 {
        "Shift_JIS"
    } else {
        "EUC-KR"
    }
}

/// `buf` decoded with `label`, after its copy of the mark `bom` if it has one.
fn decode_skipping_bom(label: &str, bom: &[u8], buf: &[u8]) -> (r: String)
    requires
        is_fixed_label(label@),
        buf@.len() <= 0x1000_0000,
    ensures
        r@ == decode_after_bom(label@, bom@, buf@),
{
    let start: usize = if starts_with_bytes(buf, bom) {
        bom.len()
    } else {
        0
    };
    let rest = &buf[start..buf.len()];
    assert(rest@ == buf@.subrange(start as int, buf@.len() as int));
    match decode_with_label(label, rest) {
        Some((text, _)) => text,
        None => {
            assert(false);
            String::new()
        },
    }
}

/// The text of the previewed bytes `buf`, with the encoding chosen from the
/// sample `sniff` that `buf` begins (see `decoded_text`).
pub fn decode_text(buf: &[u8], sniff: &[u8]) -> (r: String)
    requires
        buf@.len() <= 0x1000_0000,
        sniff@.len() <= 0x1000_0000,
    ensures
        r@ == decoded_text(buf@, sniff@),
{
    let utf8_bom: [u8; 3] = [0xEF, 0xBB, 0xBF];
    let le_bom: [u8; 2] = [0xFF, 0xFE];
    let be_bom: [u8; 2] = [0xFE, 0xFF];
    assert(utf8_bom@ =~= bom_utf8());
    assert(le_bom@ =~= bom_utf16le());
    assert(be_bom@ =~= bom_utf16be());
    if starts_with_bytes(sniff, &utf8_bom) {
        return decode_skipping_bom("UTF-8", &utf8_bom, buf);
    }
    if starts_with_bytes(sniff, &le_bom) {
        return decode_skipping_bom("UTF-16LE", &le_bom, buf);
    }
    if starts_with_bytes(sniff, &be_bom) {
        return decode_skipping_bom("UTF-16BE", &be_bom, buf);
    }
    let mut i: usize = 0;
    while i < 5
        invariant
            i <= 5,
            buf@.len() <= 0x1000_0000,
            sniff@.len() <= 0x1000_0000,
            !bytes_start_with(sniff@, bom_utf8()),
            !bytes_start_with(sniff@, bom_utf16le()),
            !bytes_start_with(sniff@, bom_utf16be()),
            first_clean_from(sniff@, 0) == first_clean_from(sniff@, i as int),
        decreases 5 - i,
    {
        let label = candidate_label(i);
        if decodes_cleanly(label, sniff) {
            match decode_with_label(label, buf) {
                Some((text, _)) => {
                    return text;
                },
                None => {
                    assert(false);
                },
            }
        }
        i = i + 1;
    }
    let guess = guess_encoding_name(sniff);
    match decode_with_label(guess.as_str(), buf) {
        Some((text, _)) => text,
        None => {
            assert(false);
            String::new()
        },
    }
}

} // verus!
