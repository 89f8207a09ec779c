use xodium::{pad, Serialize, SetupRequest, SetupRequestError};

#[test]
fn test_serialize_empty() {
    const EXPECTED_AUTHORIZATION_BUF: &[u8] = b"l\0\x0b\0\0\0\0\0\0\0\0\0";
    let mut write_buf: Vec<u8> = vec![];

    SetupRequest::new("", b"")
        .expect("Empty vecs always pass")
        .serialize(&mut write_buf);

    assert_eq!(write_buf, EXPECTED_AUTHORIZATION_BUF);
}

#[test]
fn test_serialize_auth_data() {
    const EXPECTED_AUTHORIZATION_BUF: &[u8] =
        b"l\0\x0b\0\0\0\t\0\t\0\0\0auth_name\0\0\0auth_data\0\0\0";
    let mut write_buf: Vec<u8> = vec![];

    SetupRequest::new("auth_name", b"auth_data")
        .expect("Specified values always pass")
        .serialize(&mut write_buf);

    assert_eq!(write_buf, EXPECTED_AUTHORIZATION_BUF);
}

#[test]
fn test_setup_request_rejects_oversized_fields() {
    let long = vec![0u8; 65536];
    assert_eq!(
        SetupRequest::new("", &long).unwrap_err(),
        SetupRequestError::OversizedField
    );
    let long_name = "x".repeat(65536);
    assert_eq!(
        SetupRequest::new(&long_name, b"").unwrap_err(),
        SetupRequestError::OversizedField
    );
    let edge = vec![0u8; 65535];
    assert!(SetupRequest::new("", &edge).is_ok());
}

#[test]
fn test_pad_alignment() {
    assert_eq!(pad(0), 0);
    assert_eq!(pad(1), 3);
    assert_eq!(pad(2), 2);
    assert_eq!(pad(3), 1);
    assert_eq!(pad(4), 0);
    assert_eq!(pad(9), 3);
    for n in 0..64usize {
        let p = pad(n);
        assert!(p <= 3);
        assert_eq!((n + p) % 4, 0);
    }
}
