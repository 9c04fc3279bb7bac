use difttt::bounded::BoundedBytes;
use difttt::difttt::feeds::{
    arh999_from_data, arh999_is_readable, create_oak_schedule_task_url, numbers_fit, parse_price,
    price_body_is_readable, price_from_response, publish_response, publish_task_url, text_from_response, HttpError,
};
use difttt::text::{bytes_eq, parse_u64, u64_to_decimal};

#[test]
fn price_in_cents_from_json() {
    assert_eq!(parse_price("{\"USD\":19670.47}"), Some(1967047));
    assert_eq!(parse_price("{\"USD\":19670.4712}"), Some(1967047));
    // A fraction written with one digit counts tens of cents.
    assert_eq!(parse_price("{\"USD\":19670.4}"), Some(1967040));
    assert_eq!(parse_price("{\"USD\":6.2}"), Some(620));
    assert_eq!(parse_price("{\"USD\":7}"), Some(700));
    assert_eq!(parse_price("{\"EUR\":1,\"USD\":2.5}"), Some(250));
}

#[test]
fn price_refusals() {
    assert_eq!(parse_price("{\"EUR\":1}"), None);
    assert_eq!(parse_price("[1, 2]"), None);
    assert_eq!(parse_price("{\"USD\":\"high\"}"), None);
    assert_eq!(parse_price("not json"), None);
}

#[test]
fn price_at_the_edge_of_64_bits() {
    assert_eq!(parse_price("{\"USD\":184467440737095516.15}"), Some(u64::MAX));
    assert_eq!(parse_price("{\"USD\":184467440737095516.16}"), None);
}

#[test]
fn price_responses() {
    assert_eq!(price_from_response(200, b"{\"USD\":1.5}"), Ok(150));
    assert_eq!(price_from_response(500, b"{\"USD\":1.5}"), Err(HttpError::Unknown));
    assert_eq!(price_from_response(200, &[0xff, 0xfe]), Err(HttpError::Unknown));
    assert_eq!(price_from_response(200, b"{}"), Err(HttpError::Unknown));
}

#[test]
fn arh999_indicator_in_hundredths() {
    assert!(arh999_is_readable(b"0.3143"));
    assert_eq!(arh999_from_data(b"0.3143"), Ok(31));
    assert_eq!(arh999_from_data(b"1.05"), Ok(105));
    assert_eq!(arh999_from_data(b"12.34.56"), Ok(1234));
    assert_eq!(arh999_from_data(b"x.31"), Err(HttpError::Unknown));
    assert_eq!(arh999_from_data(b"3.ab"), Err(HttpError::Unknown));
    assert_eq!(arh999_from_data(&[0xff, b'.', b'1', b'2']), Err(HttpError::Unknown));
}

#[test]
fn arh999_inputs_that_cannot_be_read() {
    // No fraction at all, or a fraction shorter than two bytes.
    assert!(!arh999_is_readable(b"3"));
    assert!(!arh999_is_readable(b"3.1"));
    // Texts that fail early are readable: they give an error.
    assert!(arh999_is_readable(b"x"));
    assert!(arh999_is_readable(&[0xff]));
    // The result would not fit in 64 bits.
    assert!(!arh999_is_readable(b"184467440737095516.16"));
    assert!(arh999_is_readable(b"184467440737095516.15"));
    assert_eq!(arh999_from_data(b"184467440737095516.15"), Ok(u64::MAX));
}

#[test]
fn task_urls() {
    assert_eq!(publish_task_url(b"img", b"opt", 3), b"http://127.0.0.1:8000/aW1n/b3B0/3".to_vec());
    assert_eq!(publish_task_url(b"", b"ab", 10), b"http://127.0.0.1:8000//YWI=/10".to_vec());
    assert_eq!(
        create_oak_schedule_task_url(1, 5, b"hi"),
        b"http://127.0.0.1:3001/notify/extrinsic/5/hi".to_vec()
    );
}

#[test]
fn service_answers() {
    assert_eq!(publish_response(200, b"ok"), Ok(0));
    assert_eq!(publish_response(200, b"ok "), Err(HttpError::Unknown));
    assert_eq!(publish_response(404, b"ok"), Err(HttpError::Unknown));
    assert_eq!(text_from_response(200, b"abc".to_vec()), Ok(b"abc".to_vec()));
    assert_eq!(text_from_response(200, vec![0xc3]), Err(HttpError::Unknown));
    assert_eq!(text_from_response(503, b"abc".to_vec()), Err(HttpError::Unknown));
}

#[test]
fn decimal_numbers() {
    assert_eq!(parse_u64(b"123"), Some(123));
    assert_eq!(parse_u64(b"+7"), Some(7));
    assert_eq!(parse_u64(b"007"), Some(7));
    assert_eq!(parse_u64(b""), None);
    assert_eq!(parse_u64(b"+"), None);
    assert_eq!(parse_u64(b"-1"), None);
    assert_eq!(parse_u64(b"1 2"), None);
    assert_eq!(parse_u64(b"18446744073709551615"), Some(u64::MAX));
    assert_eq!(parse_u64(b"18446744073709551616"), None);
    assert_eq!(u64_to_decimal(0), b"0".to_vec());
    assert_eq!(u64_to_decimal(1234), b"1234".to_vec());
    assert_eq!(u64_to_decimal(u64::MAX), b"18446744073709551615".to_vec());
    for n in [0u64, 9, 10, 99, 100, 65535, u64::MAX] {
        assert_eq!(parse_u64(&u64_to_decimal(n)), Some(n));
    }
    assert!(bytes_eq(b"abc", b"abc"));
    assert!(!bytes_eq(b"abc", b"abd"));
    assert!(!bytes_eq(b"ab", b"abc"));
}

#[test]
fn bounded_bytes() {
    assert!(BoundedBytes::<2>::try_from_vec(vec![1, 2, 3]).is_none());
    let mut b = BoundedBytes::<3>::try_from_vec(vec![1]).unwrap();
    assert!(b.try_push(2));
    b.try_extend(&[3, 4, 5]);
    assert_eq!(b.as_slice(), &[1, 2, 3]);
    assert!(!b.try_push(9));
    assert_eq!(b.len(), 3);
    assert_eq!(b.duplicate().to_vec(), vec![1, 2, 3]);
    assert_eq!(BoundedBytes::<4>::new().len(), 0);
}

#[test]
fn numbers_the_json_parser_can_add_up() {
    assert!(numbers_fit("{\"USD\":19670.47}"));
    assert!(!numbers_fit("{\"USD\":123456789012345678901}"));
    assert!(numbers_fit("{\"USD\":18446744073709551615}"));
    assert!(!numbers_fit("{\"USD\":18446744073709551616}"));
    assert!(!numbers_fit("{\"USD\":1.18446744073709551616}"));
    assert!(numbers_fit("{\"USD\":1e2147483647}"));
    assert!(!numbers_fit("{\"USD\":1e2147483648}"));
    assert!(!numbers_fit("{\"USD\":1E-2147483648}"));
    assert!(numbers_fit("{\"USD\":2147483648}"));
    // Digits inside strings are not added up.
    assert!(numbers_fit("{\"note\":\"123456789012345678901\",\"USD\":1}"));
    assert!(numbers_fit("{\"note\":\"\\\"123456789012345678901\",\"USD\":1}"));
    assert_eq!(parse_price("{\"note\":\"123456789012345678901\",\"USD\":1}"), Some(100));
    assert!(price_body_is_readable(200, b"{\"USD\":1}"));
    assert!(!price_body_is_readable(200, b"{\"USD\":123456789012345678901}"));
    assert!(price_body_is_readable(500, b"{\"USD\":123456789012345678901}"));
    assert!(price_body_is_readable(200, &[0xff]));
}
