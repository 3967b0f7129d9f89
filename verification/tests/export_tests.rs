use tts_tool::export::{export_content, format_timestamp, to_srt, to_vtt, ExportFormat};
use tts_tool::text::{chars_of, push_decimal, push_padded, to_hex_lower, trim};
use tts_tool::transcript::TranscriptSegment;

fn seg(start_ms: i128, end_ms: i128, text: &str) -> TranscriptSegment {
    TranscriptSegment { start_ms, end_ms, text: text.to_string() }
}

#[test]
fn timestamps() {
    assert_eq!(format_timestamp(0, ','), "00:00:00,000");
    assert_eq!(format_timestamp(3_723_456, ','), "01:02:03,456");
    assert_eq!(format_timestamp(3_723_456, '.'), "01:02:03.456");
    assert_eq!(format_timestamp(59_999, '.'), "00:00:59.999");
    assert_eq!(format_timestamp(360_000_000, ','), "100:00:00,000");
}

#[test]
fn negative_timestamps_sign_each_field() {
    assert_eq!(format_timestamp(-1500, ','), "00:00:-1,-500");
    assert_eq!(format_timestamp(-5, ','), "00:00:00,-05");
    assert_eq!(
        format_timestamp(-1500, ','),
        format!("{:02}:{:02}:{:02}{}{:03}", 0, 0, -1, ',', -500)
    );
    assert_eq!(
        format_timestamp(i64::MIN as i128, ','),
        format!(
            "{:02}:{:02}:{:02}{}{:03}",
            i64::MIN / 3_600_000,
            (i64::MIN % 3_600_000) / 60_000,
            (i64::MIN % 60_000) / 1000,
            ',',
            i64::MIN % 1000
        )
    );
}

#[test]
fn srt_document() {
    let segs = vec![seg(0, 1500, "  Hola mundo \n"), seg(1500, 3_723_456, "Adios")];
    assert_eq!(
        to_srt(&segs),
        "1\n00:00:00,000 --> 00:00:01,500\nHola mundo\n\n2\n00:00:01,500 --> 01:02:03,456\nAdios\n\n"
    );
    assert_eq!(to_srt(&[]), "");
}

#[test]
fn vtt_document() {
    let segs = vec![seg(0, 1500, "  Hola mundo \n"), seg(1500, 2000, "\tAdios")];
    assert_eq!(
        to_vtt(&segs),
        "WEBVTT\n\n00:00:00.000 --> 00:00:01.500\nHola mundo\n\n00:00:01.500 --> 00:00:02.000\nAdios\n\n"
    );
    assert_eq!(to_vtt(&[]), "WEBVTT\n\n");
}

#[test]
fn export_formats() {
    let segs = vec![seg(0, 1000, " a ")];
    assert_eq!(export_content(ExportFormat::Txt, " a b ".to_string(), &segs), " a b ");
    assert_eq!(
        export_content(ExportFormat::Srt, String::new(), &segs),
        "1\n00:00:00,000 --> 00:00:01,000\na\n\n"
    );
    assert_eq!(
        export_content(ExportFormat::Vtt, String::new(), &segs),
        "WEBVTT\n\n00:00:00.000 --> 00:00:01.000\na\n\n"
    );
}

#[test]
fn trimming_follows_unicode_whitespace() {
    assert_eq!(trim("\u{3000} hi there \n\u{a0}"), "hi there");
    assert_eq!(trim("   "), "");
    assert_eq!(trim(""), "");
    assert_eq!(trim("x"), "x");
    let s = "\u{2028}\u{85}\u{200a} é ü\t\r";
    assert_eq!(trim(s), s.trim());
    assert_eq!(trim(&trim(s)), trim(s));
}

#[test]
fn number_rendering() {
    let mut s = String::new();
    push_decimal(&mut s, 0);
    s.push(' ');
    push_decimal(&mut s, 18_446_744_073_709_551_615);
    assert_eq!(s, "0 18446744073709551615");
    let mut p = String::new();
    push_padded(&mut p, true, 5, 3);
    p.push(' ');
    push_padded(&mut p, false, 7, 2);
    p.push(' ');
    push_padded(&mut p, true, 0, 2);
    p.push(' ');
    push_padded(&mut p, false, 12345, 2);
    assert_eq!(p, "-05 07 00 12345");
    let mut w = String::new();
    push_decimal(&mut w, u128::MAX);
    assert_eq!(w, u128::MAX.to_string());
    let mut q = String::new();
    push_padded(&mut q, true, 1u128 << 127, 2);
    assert_eq!(q, format!("{:02}", i128::MIN));
    assert_eq!(
        format_timestamp(i128::MIN, '.'),
        format!(
            "{:02}:{:02}:{:02}{}{:03}",
            i128::MIN / 3_600_000,
            (i128::MIN % 3_600_000) / 60_000,
            (i128::MIN % 60_000) / 1000,
            '.',
            i128::MIN % 1000
        )
    );
    assert_eq!(to_hex_lower(&[0x00, 0x0f, 0xab, 0xff]), "000fabff");
    assert_eq!(chars_of("aé"), vec!['a', 'é']);
}
