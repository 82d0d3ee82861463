use api_sample::bytes::{read_literal, same_bytes, write_bytes};
use api_sample::decimal::{read_int, write_int};
use api_sample::escape::{read_text, write_escaped};
use api_sample::jwt::{ApiClaims, UserDto};
use api_sample::payload::{read_payload, write_payload};

fn user(user_id: &str, user_name: &str) -> UserDto {
    UserDto { user_id: user_id.to_string(), user_name: user_name.to_string() }
}

fn int_text(n: i64) -> Vec<u8> {
    let mut out = Vec::new();
    write_int(&mut out, n);
    out
}

fn escaped(bytes: &[u8]) -> Vec<u8> {
    let mut out = Vec::new();
    write_escaped(&mut out, bytes);
    out
}

#[test]
fn payload_is_the_compact_object() {
    let claims = ApiClaims::issue_at(1_700_000_000, &user("u-001", "Taro Yamada"));
    assert_eq!(
        write_payload(&claims),
        b"{\"iat\":1700000000,\"exp\":1700000300,\"sub\":\"M.Furukawa\",\"user_id\":\"u-001\",\"user_name\":\"Taro Yamada\"}"
    );
}

#[test]
fn payload_is_what_serde_json_writes() {
    let users = [
        user("u-001", "山田 太郎"),
        user("", "a\"b\\c\n\t\r\u{8}\u{c}\u{0}\u{1f}\u{7f}/"),
        user("\u{10ffff}", "\u{2028}\u{2029}"),
    ];
    for u in &users {
        for now in [0_i64, -300, 1_700_000_000, i64::MIN, i64::MAX - 300] {
            let claims = ApiClaims::issue_at(now, u);
            let expected = format!(
                "{{\"iat\":{},\"exp\":{},\"sub\":{},\"user_id\":{},\"user_name\":{}}}",
                serde_json::to_string(&now).unwrap(),
                serde_json::to_string(&(now + 300)).unwrap(),
                serde_json::to_string("M.Furukawa").unwrap(),
                serde_json::to_string(&u.user_id).unwrap(),
                serde_json::to_string(&u.user_name).unwrap(),
            );
            assert_eq!(write_payload(&claims), expected.as_bytes());
        }
    }
}

#[test]
fn payload_reads_back() {
    let claims = read_payload(
        b"{\"iat\":-5,\"exp\":0,\"sub\":\"s\",\"user_id\":\"\",\"user_name\":\"a\\\"b\\\\c\\n\\t\\r\\u0001\"}",
    )
    .unwrap();
    assert_eq!(claims.issued_at(), -5);
    assert_eq!(claims.expires_at(), 0);
    assert_eq!(claims.subject(), "s");
    assert_eq!(claims.user_id(), "");
    assert_eq!(claims.user_name(), "a\"b\\c\n\t\r\u{1}");
}

#[test]
fn payload_is_read_in_one_form_only() {
    let refused: [&[u8]; 22] = [
        b"",
        b"{}",
        b"{\"iat\":1,\"exp\":2,\"sub\":\"s\",\"user_id\":\"i\",\"user_name\":\"n\"} ",
        b" {\"iat\":1,\"exp\":2,\"sub\":\"s\",\"user_id\":\"i\",\"user_name\":\"n\"}",
        b"{\"iat\": 1,\"exp\":2,\"sub\":\"s\",\"user_id\":\"i\",\"user_name\":\"n\"}",
        b"{\"exp\":2,\"iat\":1,\"sub\":\"s\",\"user_id\":\"i\",\"user_name\":\"n\"}",
        b"{\"iat\":1,\"exp\":2,\"sub\":\"s\",\"user_id\":\"i\"}",
        b"{\"iat\":1,\"exp\":2,\"sub\":\"s\",\"user_id\":\"i\",\"user_name\":\"n\",\"x\":1}",
        b"{\"iat\":01,\"exp\":2,\"sub\":\"s\",\"user_id\":\"i\",\"user_name\":\"n\"}",
        b"{\"iat\":-0,\"exp\":2,\"sub\":\"s\",\"user_id\":\"i\",\"user_name\":\"n\"}",
        b"{\"iat\":+1,\"exp\":2,\"sub\":\"s\",\"user_id\":\"i\",\"user_name\":\"n\"}",
        b"{\"iat\":1.0,\"exp\":2,\"sub\":\"s\",\"user_id\":\"i\",\"user_name\":\"n\"}",
        b"{\"iat\":,\"exp\":2,\"sub\":\"s\",\"user_id\":\"i\",\"user_name\":\"n\"}",
        b"{\"iat\":\"1\",\"exp\":2,\"sub\":\"s\",\"user_id\":\"i\",\"user_name\":\"n\"}",
        b"{\"iat\":1,\"exp\":9223372036854775808,\"sub\":\"s\",\"user_id\":\"i\",\"user_name\":\"n\"}",
        b"{\"iat\":-9223372036854775809,\"exp\":2,\"sub\":\"s\",\"user_id\":\"i\",\"user_name\":\"n\"}",
        b"{\"iat\":1,\"exp\":2,\"sub\":\"\\u0073\",\"user_id\":\"i\",\"user_name\":\"n\"}",
        b"{\"iat\":1,\"exp\":2,\"sub\":\"\\/\",\"user_id\":\"i\",\"user_name\":\"n\"}",
        b"{\"iat\":1,\"exp\":2,\"sub\":\"\\u000A\",\"user_id\":\"i\",\"user_name\":\"n\"}",
        b"{\"iat\":1,\"exp\":2,\"sub\":\"\n\",\"user_id\":\"i\",\"user_name\":\"n\"}",
        b"{\"iat\":1,\"exp\":2,\"sub\":\"s\",\"user_id\":\"i\",\"user_name\":\"n}",
        b"{\"iat\":1,\"exp\":2,\"sub\":\"s\",\"user_id\":\"i\",\"user_name\":\"\xff\"}",
    ];
    for bytes in refused {
        assert!(read_payload(bytes).is_none(), "accepted {:?}", String::from_utf8_lossy(bytes));
    }
    assert!(read_payload(b"{\"iat\":1,\"exp\":2,\"sub\":\"s\",\"user_id\":\"i\",\"user_name\":\"n\"}")
        .is_some());
}

#[test]
fn payload_needs_an_expiry_after_the_issue() {
    assert!(read_payload(b"{\"iat\":2,\"exp\":2,\"sub\":\"s\",\"user_id\":\"i\",\"user_name\":\"n\"}")
        .is_none());
    assert!(read_payload(b"{\"iat\":3,\"exp\":2,\"sub\":\"s\",\"user_id\":\"i\",\"user_name\":\"n\"}")
        .is_none());
    let widest = read_payload(
        b"{\"iat\":-9223372036854775808,\"exp\":9223372036854775807,\"sub\":\"\",\"user_id\":\"\",\"user_name\":\"\"}",
    )
    .unwrap();
    assert_eq!(widest.issued_at(), i64::MIN);
    assert_eq!(widest.expires_at(), i64::MAX);
}

#[test]
fn payload_needs_well_formed_text() {
    // an overlong encoding, a lone continuation byte, a surrogate, a cut sequence
    let bad: [&[u8]; 4] = [b"\xc0\x80", b"\x80", b"\xed\xa0\x80", b"\xe5\xb1"];
    for text in bad {
        let mut bytes = b"{\"iat\":1,\"exp\":2,\"sub\":\"".to_vec();
        bytes.extend_from_slice(text);
        bytes.extend_from_slice(b"\",\"user_id\":\"i\",\"user_name\":\"n\"}");
        assert!(read_payload(&bytes).is_none());
    }
    let mut good = b"{\"iat\":1,\"exp\":2,\"sub\":\"".to_vec();
    good.extend_from_slice("山田".as_bytes());
    good.extend_from_slice(b"\",\"user_id\":\"i\",\"user_name\":\"n\"}");
    assert_eq!(read_payload(&good).unwrap().subject(), "山田");
}

#[test]
fn numbers_are_written_in_decimal() {
    assert_eq!(int_text(0), b"0");
    assert_eq!(int_text(7), b"7");
    assert_eq!(int_text(10), b"10");
    assert_eq!(int_text(-1), b"-1");
    assert_eq!(int_text(1_700_000_300), b"1700000300");
    assert_eq!(int_text(i64::MAX), b"9223372036854775807");
    assert_eq!(int_text(i64::MIN), b"-9223372036854775808");
    for n in [-1000_i64, -99, -10, -9, 9, 99, 100, 101, 12345678901234] {
        assert_eq!(int_text(n), n.to_string().as_bytes());
    }
}

#[test]
fn numbers_are_appended() {
    let mut out = b"x=".to_vec();
    write_int(&mut out, -42);
    assert_eq!(out, b"x=-42");
}

#[test]
fn numbers_are_read_up_to_the_last_digit() {
    assert_eq!(read_int(b"0", 0), Some((0, 1)));
    assert_eq!(read_int(b"x123,", 1), Some((123, 4)));
    assert_eq!(read_int(b"-123", 0), Some((-123, 4)));
    assert_eq!(read_int(b"007", 0), Some((7, 3)));
    assert_eq!(read_int(b"12a", 0), Some((12, 2)));
    assert_eq!(read_int(b"9223372036854775807", 0), Some((i64::MAX, 19)));
    assert_eq!(read_int(b"-9223372036854775808", 0), Some((i64::MIN, 20)));
    assert_eq!(read_int(b"00000000000000000000000000001", 0), Some((1, 29)));
}

#[test]
fn numbers_out_of_range_are_not_read() {
    assert_eq!(read_int(b"9223372036854775808", 0), None);
    assert_eq!(read_int(b"-9223372036854775809", 0), None);
    assert_eq!(read_int(b"99999999999999999999999999", 0), None);
    assert_eq!(read_int(b"18446744073709551616", 0), None);
}

#[test]
fn what_is_no_number_is_not_read() {
    assert_eq!(read_int(b"", 0), None);
    assert_eq!(read_int(b"1", 1), None);
    assert_eq!(read_int(b"1", 5), None);
    assert_eq!(read_int(b"-", 0), None);
    assert_eq!(read_int(b"a", 0), None);
    assert_eq!(read_int(b"+1", 0), None);
    assert_eq!(read_int(b"--1", 0), None);
    assert_eq!(read_int(b" 1", 0), None);
}

#[test]
fn bytes_are_escaped_as_in_json() {
    assert_eq!(escaped(b""), b"");
    assert_eq!(escaped(b"plain text"), b"plain text");
    assert_eq!(escaped(b"\"\\"), b"\\\"\\\\");
    assert_eq!(escaped(b"\x08\x09\x0a\x0c\x0d"), b"\\b\\t\\n\\f\\r");
    assert_eq!(escaped(b"\x00\x01\x0b\x0e\x1f"), b"\\u0000\\u0001\\u000b\\u000e\\u001f");
    assert_eq!(escaped(b"\x20\x7f/\xe5\xb1\xb1"), b"\x20\x7f/\xe5\xb1\xb1");
}

#[test]
fn every_byte_is_escaped_as_serde_json_does() {
    for b in 0..=0x7f_u8 {
        let c = b as char;
        let quoted = serde_json::to_string(&c.to_string()).unwrap();
        let inner = &quoted.as_bytes()[1..quoted.len() - 1];
        assert_eq!(escaped(&[b]), inner);
    }
    for b in 0x80..=0xff_u8 {
        assert_eq!(escaped(&[b]), [b]);
    }
}

#[test]
fn escaped_text_reads_back() {
    for b in 0..=0xff_u8 {
        let mut text = escaped(&[b'a', b, b'z']);
        text.push(b'"');
        text.extend_from_slice(b"rest");
        let end = text.len() - 4;
        assert_eq!(read_text(&text, 0), Some((vec![b'a', b, b'z'], end)));
    }
}

#[test]
fn text_is_read_up_to_its_quote() {
    assert_eq!(read_text(b"\"", 0), Some((vec![], 1)));
    assert_eq!(read_text(b"ab\"cd\"", 0), Some((b"ab".to_vec(), 3)));
    assert_eq!(read_text(b"ab\"cd\"", 3), Some((b"cd".to_vec(), 6)));
    assert_eq!(read_text(b"a\\\"b\"", 0), Some((b"a\"b".to_vec(), 5)));
    assert_eq!(read_text(b"\\u0041\\u001f\"", 0), Some((vec![0x41, 0x1f], 13)));
}

#[test]
fn unfinished_text_is_not_read() {
    assert_eq!(read_text(b"", 0), None);
    assert_eq!(read_text(b"abc", 0), None);
    assert_eq!(read_text(b"abc\"", 4), None);
    assert_eq!(read_text(b"abc\"", 9), None);
    assert_eq!(read_text(b"abc\\", 0), None);
    assert_eq!(read_text(b"abc\\\"", 0), None);
    assert_eq!(read_text(b"\\x\"", 0), None);
    assert_eq!(read_text(b"\\/\"", 0), None);
    assert_eq!(read_text(b"\\u00\"", 0), None);
    assert_eq!(read_text(b"\\u0100\"", 0), None);
    assert_eq!(read_text(b"\\u00G0\"", 0), None);
    assert_eq!(read_text(b"\\u000A\"", 0), None);
    assert_eq!(read_text(b"\\U0001\"", 0), None);
}

#[test]
fn literal_is_found_where_it_stands() {
    assert_eq!(read_literal(b"abcdef", 0, b"abc"), Some(3));
    assert_eq!(read_literal(b"abcdef", 2, b"cdef"), Some(6));
    assert_eq!(read_literal(b"abcdef", 6, b""), Some(6));
    assert_eq!(read_literal(b"abcdef", 0, b""), Some(0));
    assert_eq!(read_literal(b"abcdef", 1, b"abc"), None);
    assert_eq!(read_literal(b"abcdef", 4, b"efg"), None);
    assert_eq!(read_literal(b"abcdef", 7, b""), None);
    assert_eq!(read_literal(b"abcdef", usize::MAX, b"a"), None);
    assert_eq!(read_literal(b"", 0, b"a"), None);
}

#[test]
fn same_bytes_is_equality() {
    assert!(same_bytes(b"", b""));
    assert!(same_bytes(b"abc", b"abc"));
    assert!(!same_bytes(b"abc", b"abd"));
    assert!(!same_bytes(b"abc", b"bbc"));
    assert!(!same_bytes(b"abc", b"ab"));
    assert!(!same_bytes(b"", b"a"));
    assert!(!same_bytes(b"\x00", b"\x80"));
    for x in 0..=0xff_u8 {
        for y in [0_u8, 1, 0x7f, 0x80, 0xff] {
            assert_eq!(same_bytes(&[7, x], &[7, y]), x == y);
        }
    }
}

#[test]
fn bytes_are_appended() {
    let mut out = b"ab".to_vec();
    write_bytes(&mut out, b"");
    assert_eq!(out, b"ab");
    write_bytes(&mut out, b"cd");
    assert_eq!(out, b"abcd");
}
