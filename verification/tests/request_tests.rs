use telegram::error::Error;
use telegram::request::{message_id_from_time, HttpMethod, Request};

#[test]
fn message_id_puts_seconds_high_and_rounds_nanoseconds() {
    assert_eq!(message_id_from_time(1, 5), (1u64 << 32) | 4);
    assert_eq!(message_id_from_time(1_500_000_000, 999_999_999), (1_500_000_000u64 << 32) | 999_999_996);
    assert_eq!(message_id_from_time(0, 3), 0);
}

#[test]
fn new_request_id_is_divisible_by_four() {
    let req = Request::new(7u32);
    assert_eq!(req.message_id() % 4, 0);
    assert_eq!(*req.message_body(), 7u32);
}

#[test]
fn to_vec_frames_the_body() {
    let req = Request::new(0x60469778u32);
    let id = req.message_id();
    let bytes = req.to_vec().unwrap();
    let mut expected = vec![0u8; 8];
    expected.extend_from_slice(&id.to_le_bytes());
    expected.extend_from_slice(&[4, 0, 0, 0]);
    expected.extend_from_slice(&[0x78, 0x97, 0x46, 0x60]);
    assert_eq!(bytes, expected);
}

#[test]
fn to_vec_of_string_body() {
    let req = Request::new(String::from("hello"));
    let bytes = req.to_vec().unwrap();
    assert_eq!(bytes.len(), 20 + 8);
    assert_eq!(&bytes[16..20], &[8, 0, 0, 0]);
    assert_eq!(&bytes[20..], &[5, b'h', b'e', b'l', b'l', b'o', 0, 0]);
}

#[test]
fn to_vec_fails_when_body_cannot_be_encoded() {
    let req = Request::new("q".repeat(0x100_0000));
    assert_eq!(req.to_vec(), Err(Error::TooLong));
    assert_eq!(req.to_http_request().unwrap_err(), Error::TooLong);
}

#[test]
fn http_request_posts_the_frame() {
    let req = Request::new(1u64);
    let http = req.to_http_request().unwrap();
    assert_eq!(http.method, HttpMethod::Post);
    assert_eq!(http.uri, "http://149.154.167.50:443/api");
    assert!(http.keep_alive);
    assert_eq!(http.content_length, 28);
    assert_eq!(http.body, req.to_vec().unwrap());
}
