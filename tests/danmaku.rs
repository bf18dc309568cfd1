use lumina_browser::danmaku::{cid_from_reply, decode_danmaku_payload, parse_u64_field, scan_danmaku, DanmakuRecord};
use lumina_browser::encoding::encode_base64;

fn rec(time: &str, content: &str, timestamp: u64) -> DanmakuRecord {
    DanmakuRecord { time_text: time.to_string(), content: content.to_string(), timestamp }
}

#[test]
fn scans_elements_in_order() {
    let xml = r#"<i><d p="12.5,1,25,16777215,1700000000,0,abc,1">hello</d><d p="3.25,1,25,0,1600000000,0,x,2">世界</d></i>"#;
    let found = scan_danmaku(&xml.as_bytes().to_vec());
    assert_eq!(found, vec![rec("12.5", "hello", 1700000000), rec("3.25", "世界", 1600000000)]);
}

#[test]
fn skips_elements_with_few_fields() {
    let xml = r#"<d p="1,2,3,4">short</d><d p="9,1,1,1,42">ok</d>"#;
    assert_eq!(scan_danmaku(&xml.as_bytes().to_vec()), vec![rec("9", "ok", 42)]);
}

#[test]
fn bad_timestamp_reads_as_zero() {
    let xml = r#"<d p="1,2,3,4,abc">x</d><d p="1,2,3,4,+7">y</d><d p="1,2,3,4,99999999999999999999">z</d>"#;
    assert_eq!(scan_danmaku(&xml.as_bytes().to_vec()), vec![rec("1", "x", 0), rec("1", "y", 7), rec("1", "z", 0)]);
}

#[test]
fn unclosed_element_is_passed_over() {
    let xml = r#"<d p="1,2,3,4,5">never closed <d p="2,2,3,4,6">b</d>"#;
    // The first tag's text runs to the only closing tag.
    let found = scan_danmaku(&xml.as_bytes().to_vec());
    assert_eq!(found, vec![rec("1", r#"never closed <d p="2,2,3,4,6">b"#, 5)]);
    assert!(scan_danmaku(&br#"<d p="1,2,3,4,5"#.to_vec()).is_empty());
    assert!(scan_danmaku(&Vec::new()).is_empty());
}

#[test]
fn parses_u64_fields_like_str_parse() {
    assert_eq!(parse_u64_field(b"0"), Some(0));
    assert_eq!(parse_u64_field(b"18446744073709551615"), Some(u64::MAX));
    assert_eq!(parse_u64_field(b"18446744073709551616"), None);
    assert_eq!(parse_u64_field(b"+12"), Some(12));
    assert_eq!(parse_u64_field(b"+"), None);
    assert_eq!(parse_u64_field(b"-1"), None);
    assert_eq!(parse_u64_field(b""), None);
    assert_eq!(parse_u64_field(b"1a"), None);
}

#[test]
fn plain_payload_is_kept() {
    let body = br#"<?xml version="1.0"?><i><d p="1,1,1,1,1">a</d></i>"#.to_vec();
    assert_eq!(decode_danmaku_payload(&body), body);
}

#[test]
fn deflated_payload_is_inflated() {
    // "hi" as a raw deflate stream with one stored block.
    let deflated = vec![0x01, 0x02, 0x00, 0xfd, 0xff, b'h', b'i'];
    assert_eq!(decode_danmaku_payload(&deflated), b"hi".to_vec());
}

#[test]
fn base64_of_file_data() {
    assert_eq!(encode_base64(&b"hi".to_vec()), "aGk=");
    assert_eq!(encode_base64(&b"Man".to_vec()), "TWFu");
    assert_eq!(encode_base64(&Vec::new()), "");
}

#[test]
fn cid_only_from_successful_reply() {
    assert_eq!(cid_from_reply(Some(0), Some(123)), Some(123));
    assert_eq!(cid_from_reply(Some(0), None), None);
    assert_eq!(cid_from_reply(Some(-400), Some(123)), None);
    assert_eq!(cid_from_reply(None, Some(123)), None);
}
