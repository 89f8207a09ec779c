use xodium::{from_reader, ConnectionFamily, ParseError, XAuthEntry};

const XAUTH_FILE_MULTIPLE_ENTRIES_EXAMPLE: &[u8] =
    b"\x01\0\0\x08hostname\0\x010\0\x12MIT-MAGIC-COOKIE-1\0\x03\xab\xcd\xef\x01\0\0\x08hostname\0\x011\0\x12MIT-MAGIC-COOKIE-1\0\x03\xab\xcd\xef";
const XAUTH_FILE_SINGLE_ENTRY_EXAMPLE: &[u8] =
    b"\x01\0\0\x08hostname\0\x010\0\x12MIT-MAGIC-COOKIE-1\0\x03\xab\xcd\xef";

#[test]
fn test_read_from_string_single_entry() {
    assert_eq!(
        from_reader(XAUTH_FILE_SINGLE_ENTRY_EXAMPLE).unwrap()[0],
        XAuthEntry {
            connection_family: ConnectionFamily::Local,
            display_name: "hostname".into(),
            display_number: 0,
            protocol_name: "MIT-MAGIC-COOKIE-1".into(),
            protocol_data: b"\xAB\xCD\xEF".to_vec()
        }
    );
}

#[test]
fn test_read_from_string_multiple_entries() {
    assert_eq!(
        from_reader(XAUTH_FILE_MULTIPLE_ENTRIES_EXAMPLE).unwrap(),
        vec![
            XAuthEntry {
                connection_family: ConnectionFamily::Local,
                display_name: "hostname".into(),
                display_number: 0,
                protocol_name: "MIT-MAGIC-COOKIE-1".into(),
                protocol_data: b"\xAB\xCD\xEF".to_vec()
            },
            XAuthEntry {
                connection_family: ConnectionFamily::Local,
                display_name: "hostname".into(),
                display_number: 1,
                protocol_name: "MIT-MAGIC-COOKIE-1".into(),
                protocol_data: b"\xAB\xCD\xEF".to_vec()
            }
        ]
    );
}

#[test]
fn test_read_from_empty_string() {
    assert_eq!(from_reader(b"".as_ref()).unwrap(), vec![]);
}

#[test]
fn test_read_from_string_eof() {
    assert!(from_reader(b"\x01\0\0\x08hostname".as_ref()).is_err());
}

#[test]
fn test_truncation_is_eof_error() {
    assert_eq!(
        from_reader(b"\x01\0\0\x08hostname".as_ref()),
        Err(ParseError::UnexpectedEof)
    );
    // a single stray byte is an end inside a record, not a clean boundary
    assert_eq!(from_reader(b"\x01".as_ref()), Err(ParseError::UnexpectedEof));
    // the buffer ends inside the bytes of a length-prefixed string
    assert_eq!(
        from_reader(b"\x01\0\0\x08host".as_ref()),
        Err(ParseError::UnexpectedEof)
    );
}

#[test]
fn test_unknown_family_is_invalid_file() {
    assert_eq!(
        from_reader(b"\x00\x05\0\x08hostname\0\x010\0\x12MIT-MAGIC-COOKIE-1\0\x03\xab\xcd\xef".as_ref()),
        Err(ParseError::InvalidFile)
    );
}

#[test]
fn test_bad_display_number_is_invalid_file() {
    assert_eq!(
        from_reader(b"\x01\0\0\x08hostname\0\x02ab\0\x12MIT-MAGIC-COOKIE-1\0\x03\xab\xcd\xef".as_ref()),
        Err(ParseError::InvalidFile)
    );
    // 65536 does not fit an unsigned 16-bit number
    assert_eq!(
        from_reader(b"\x01\0\0\x08hostname\0\x0565536\0\x12MIT-MAGIC-COOKIE-1\0\x03\xab\xcd\xef".as_ref()),
        Err(ParseError::InvalidFile)
    );
}

#[test]
fn test_invalid_text_is_substituted_not_fatal() {
    // display-name bytes that are not UTF-8 decode to the replacement
    // character; the read still succeeds
    let entries =
        from_reader(b"\x01\0\0\x05\xFFhost\0\x010\0\x01p\0\0".as_ref()).unwrap();
    assert_eq!(entries.len(), 1);
    assert_eq!(entries[0].display_name, "\u{FFFD}host");
    assert_eq!(entries[0].display_number, 0);
    assert_eq!(entries[0].protocol_name, "p");
    assert_eq!(entries[0].protocol_data, Vec::<u8>::new());
}

#[test]
fn test_invalid_connection_family() {
    assert!(ConnectionFamily::try_from(0).is_none());
}

#[test]
fn test_convert_family_local_host() {
    assert_eq!(
        ConnectionFamily::try_from(252).unwrap(),
        ConnectionFamily::LocalHost
    );
}

#[test]
fn test_convert_family_krb5_principal() {
    assert_eq!(
        ConnectionFamily::try_from(253).unwrap(),
        ConnectionFamily::Krb5Principal
    );
}

#[test]
fn test_convert_family_net_name() {
    assert_eq!(
        ConnectionFamily::try_from(254).unwrap(),
        ConnectionFamily::Netname
    );
}

#[test]
fn test_convert_family_local() {
    assert_eq!(
        ConnectionFamily::try_from(256).unwrap(),
        ConnectionFamily::Local
    );
}

#[test]
fn test_convert_family_wild() {
    assert_eq!(
        ConnectionFamily::try_from(65535).unwrap(),
        ConnectionFamily::Wild
    );
}

#[test]
fn test_shortcuts() {
    assert!(ConnectionFamily::LocalHost.is_localhost());
    assert!(!ConnectionFamily::Krb5Principal.is_localhost());
    assert!(!ConnectionFamily::Netname.is_localhost());
    assert!(!ConnectionFamily::Local.is_localhost());
    assert!(!ConnectionFamily::Wild.is_localhost());

    assert!(!ConnectionFamily::LocalHost.is_krb5principal());
    assert!(ConnectionFamily::Krb5Principal.is_krb5principal());
    assert!(!ConnectionFamily::Netname.is_krb5principal());
    assert!(!ConnectionFamily::Local.is_krb5principal());
    assert!(!ConnectionFamily::Wild.is_krb5principal());

    assert!(!ConnectionFamily::LocalHost.is_netname());
    assert!(!ConnectionFamily::Krb5Principal.is_netname());
    assert!(ConnectionFamily::Netname.is_netname());
    assert!(!ConnectionFamily::Local.is_netname());
    assert!(!ConnectionFamily::Wild.is_netname());

    assert!(!ConnectionFamily::LocalHost.is_local());
    assert!(!ConnectionFamily::Krb5Principal.is_local());
    assert!(!ConnectionFamily::Netname.is_local());
    assert!(ConnectionFamily::Local.is_local());
    assert!(!ConnectionFamily::Wild.is_local());

    assert!(!ConnectionFamily::LocalHost.is_wild());
    assert!(!ConnectionFamily::Krb5Principal.is_wild());
    assert!(!ConnectionFamily::Netname.is_wild());
    assert!(!ConnectionFamily::Local.is_wild());
    assert!(ConnectionFamily::Wild.is_wild());
}
