use gridscan::aztec_writer::{
    AztecCode, AztecWriter, BarcodeFormat, CharacterSet, EncodeHints, WriterError, encode,
    renderRXingResult,
};
use gridscan::matrix::Matrix;
use gridscan::smtp::{ParsedClientResult, RXingResult, ResultParser, parse};
use gridscan::text::{eq_ignore_ascii_case, find_char, has_prefix, parse_u32_decimal};

/// A 10x10 module grid with one black module at (0, 0) and one at (4, 7).
fn sample_code() -> AztecCode {
    let mut m = Matrix::new(10, 10);
    m.set(0, 0, 1);
    m.set(4, 7, 1);
    AztecCode::new(m)
}

#[test]
fn renderer_scale_and_padding_for_10_to_95() {
    // Requested 95x95 for a 10x10 grid: multiple 9, padding floor((95-90)/2) = 2.
    let out = renderRXingResult(&sample_code(), 95, 95, None).unwrap();
    assert_eq!(out.width(), 95);
    assert_eq!(out.height(), 95);
    // Module (0,0) becomes the 9x9 block at (2,2)..(10,10).
    assert_eq!(out.get(1, 5), Some(0));
    assert_eq!(out.get(2, 2), Some(1));
    assert_eq!(out.get(10, 10), Some(1));
    assert_eq!(out.get(11, 10), Some(0));
    // Module (4,7) becomes the block at (2+36, 2+63).
    assert_eq!(out.get(38, 65), Some(1));
    assert_eq!(out.get(46, 71), Some(1));
    assert_eq!(out.get(47, 71), Some(0));
    // The padding rows stay white.
    assert_eq!(out.get(0, 0), Some(0));
    assert_eq!(out.get(94, 94), Some(0));
}

#[test]
fn renderer_output_grows_to_hold_the_grid() {
    // A requested size smaller than the grid is grown to one cell per module.
    let out = renderRXingResult(&sample_code(), 4, 4, None).unwrap();
    assert_eq!(out.width(), 10);
    assert_eq!(out.height(), 10);
    assert_eq!(out.get(0, 0), Some(1));
    assert_eq!(out.get(1, 0), Some(0));
    assert_eq!(out.get(4, 7), Some(1));
}

#[test]
fn renderer_dotsize_overrides_requested_size() {
    let out = renderRXingResult(&sample_code(), 95, 95, Some(3)).unwrap();
    assert_eq!(out.width(), 30);
    assert_eq!(out.height(), 30);
    assert_eq!(out.get(0, 0), Some(1));
    assert_eq!(out.get(2, 2), Some(1));
    assert_eq!(out.get(3, 0), Some(0));
}

#[test]
fn encode_rejects_other_formats() {
    let r = encode(&sample_code(), BarcodeFormat::QR_CODE, 95, 95, None);
    assert!(matches!(r, Err(WriterError::IllegalFormat)));
    let writer = AztecWriter::default();
    let r2 = writer.encode(&sample_code(), BarcodeFormat::DATA_MATRIX, 95, 95);
    assert!(r2.is_err());
    let ok = writer.encode(&sample_code(), BarcodeFormat::AZTEC, 95, 95);
    assert_eq!(ok.unwrap().width(), 95);
}

#[test]
fn encode_with_hints_uses_dot_size() {
    let writer = AztecWriter::default();
    let mut hints = EncodeHints::new();
    hints.dot_size_pixels = Some(2);
    let out = writer
        .encode_with_hints(&sample_code(), BarcodeFormat::AZTEC, 95, 95, &hints)
        .unwrap();
    assert_eq!(out.width(), 20);
    assert_eq!(out.height(), 20);
}

#[test]
fn resolve_options_follows_the_hints() {
    let mut hints = EncodeHints::new();
    let defaults = AztecWriter::resolve_options(&hints);
    assert_eq!(defaults.charset, None);
    assert_eq!(defaults.ecc_percent, 33);
    assert_eq!(defaults.layers, 0);
    assert_eq!(defaults.dotsize, None);

    hints.character_set = Some("UTF-8".to_string());
    hints.error_correction = Some("45".to_string());
    hints.aztec_layers = Some(4);
    hints.dot_size_pixels = Some(5);
    let opts = AztecWriter::resolve_options(&hints);
    assert_eq!(opts.charset, Some(CharacterSet::Utf8));
    assert_eq!(opts.ecc_percent, 45);
    assert_eq!(opts.layers, 4);
    assert_eq!(opts.dotsize, Some(5));

    // The default charset name adds no ECI marker.
    hints.character_set = Some("ISO-8859-1".to_string());
    assert_eq!(AztecWriter::resolve_options(&hints).charset, None);
    // A leading plus sign is accepted, as the original hint parsing did.
    hints.error_correction = Some("+45".to_string());
    assert_eq!(AztecWriter::resolve_options(&hints).ecc_percent, 45);
    // Malformed error-correction text falls back to 23.
    hints.error_correction = Some("high".to_string());
    assert_eq!(AztecWriter::resolve_options(&hints).ecc_percent, 23);
}

#[test]
fn charset_lookup_ignores_case() {
    assert_eq!(
        CharacterSet::get_character_set_by_name("Utf-8"),
        Some(CharacterSet::Utf8)
    );
    assert_eq!(
        CharacterSet::get_character_set_by_name("US-ASCII"),
        Some(CharacterSet::Ascii)
    );
    assert_eq!(
        CharacterSet::get_character_set_by_name("iso-8859-1"),
        Some(CharacterSet::Iso8859_1)
    );
    assert_eq!(CharacterSet::get_character_set_by_name("klingon"), None);
}

#[test]
fn text_helpers() {
    assert!(eq_ignore_ascii_case("UTF-8", "utf-8"));
    assert!(!eq_ignore_ascii_case("utf-8", "utf8"));
    assert!(has_prefix("smtp:joe", "smtp:"));
    assert!(!has_prefix("smt", "smtp:"));
    assert_eq!(find_char("a:b:c", ':', 0), Some(1));
    assert_eq!(find_char("a:b:c", ':', 2), Some(3));
    assert_eq!(find_char("abc", ':', 0), None);
    assert_eq!(parse_u32_decimal("23"), Some(23));
    assert_eq!(parse_u32_decimal("0"), Some(0));
    assert_eq!(parse_u32_decimal(""), None);
    assert_eq!(parse_u32_decimal("12a"), None);
    assert_eq!(parse_u32_decimal("4294967295"), Some(4294967295));
    assert_eq!(parse_u32_decimal("4294967296"), None);
    assert_eq!(parse_u32_decimal("+45"), Some(45));
    assert_eq!(parse_u32_decimal("+"), None);
    assert_eq!(parse_u32_decimal("++4"), None);
}

fn email_of(r: Option<ParsedClientResult>) -> (String, String, String) {
    match r.expect("expected an email result") {
        ParsedClientResult::EmailResult(e) => {
            assert_eq!(e.ccs.len(), 0);
            assert_eq!(e.bccs.len(), 0);
            assert_eq!(e.tos.len(), 1);
            (e.tos[0].clone(), e.subject, e.body)
        }
    }
}

#[test]
fn smtp_parse_address_subject_body() {
    let r = parse(&RXingResult::new("smtp:joe@example.com:Hello:See you".to_string()));
    let (to, subject, body) = email_of(r);
    assert_eq!(to, "joe@example.com");
    assert_eq!(subject, "Hello");
    assert_eq!(body, "See you");
}

#[test]
fn smtp_parse_address_only_and_upper_case_scheme() {
    let (to, subject, body) = email_of(parse(&RXingResult::new("smtp:joe".to_string())));
    assert_eq!(to, "joe");
    assert_eq!(subject, "");
    assert_eq!(body, "");
    let (to2, subject2, body2) = email_of(parse(&RXingResult::new("SMTP:a:b".to_string())));
    assert_eq!(to2, "a");
    assert_eq!(subject2, "b");
    assert_eq!(body2, "");
}

#[test]
fn smtp_parse_rejects_other_schemes() {
    assert!(parse(&RXingResult::new("mailto:joe@example.com".to_string())).is_none());
    assert!(parse(&RXingResult::new("smt".to_string())).is_none());
    assert!(parse(&RXingResult::new("".to_string())).is_none());
}

#[test]
fn smtp_parse_strips_byte_order_mark() {
    let text = "\u{feff}smtp:joe@example.com".to_string();
    assert_eq!(
        ResultParser::getMassagedText(&RXingResult::new(text.clone())),
        "smtp:joe@example.com"
    );
    let (to, _, _) = email_of(parse(&RXingResult::new(text)));
    assert_eq!(to, "joe@example.com");
}
