//! How much of a response is read.

use ceyrad::http::{declared_too_large, status_hresult, CappedBody, TooLarge, MAX_RESPONSE_BYTES};

#[test]
fn a_declared_length_over_the_cap_is_refused_up_front() {
    assert!(declared_too_large(Some(MAX_RESPONSE_BYTES + 1)));
    assert!(!declared_too_large(Some(MAX_RESPONSE_BYTES)));
    assert!(!declared_too_large(None));
}

#[test]
fn a_body_is_read_up_to_the_cap_and_no_further() {
    let mut body = CappedBody::new();
    let chunk = vec![7u8; 16 * 1024];
    for _ in 0..16 {
        assert_eq!(body.append(&chunk), Ok(()));
    }
    assert_eq!(body.append(&[1]), Err(TooLarge));
    let bytes = body.into_bytes();
    assert_eq!(bytes.len() as u64, MAX_RESPONSE_BYTES);
}

#[test]
fn chunks_are_kept_in_order() {
    let mut body = CappedBody::new();
    body.append(b"ab").unwrap();
    body.append(b"").unwrap();
    body.append(b"cd").unwrap();
    assert_eq!(body.into_bytes(), b"abcd".to_vec());
}

#[test]
fn a_refused_status_carries_its_number() {
    assert_eq!(status_hresult(403), 0x8019_0193);
    assert_eq!(status_hresult(404), 0x8019_0194);
}
