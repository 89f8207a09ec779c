use xodium::{CapabilityError, Display, DisplayError};

#[test]
fn test_display_from_str() {
    const EXAMPLES: &[&str] = &[":10", ":10.20", "hostname:10", "hostname:10.20"];

    for example in EXAMPLES {
        assert_eq!(Display::from_str(*example).unwrap().format(), *example);
    }

    const BAD_EXAMPLES: &[&str] = &[
        "",
        " ",
        ":",
        ".",
        ":.",
        "hostname:",
        "hostname:10.",
        ":10.",
        "hostname::10.20",
        "hostname:10.20.30",
        "hostname:.10",
    ];

    for bad_example in BAD_EXAMPLES {
        match Display::from_str(*bad_example) {
            Ok(_) => panic!(
                "Display parsed invalid display string successfully!: {}",
                bad_example
            ),
            Err(DisplayError::InvalidDisplayFormat) => {}
            Err(_) => panic!("Display used invalid error for {}", bad_example),
        };
    }
}

#[test]
fn test_default_display() {
    assert_eq!(Display::default().format(), ":0");
}

#[test]
fn test_display_new_fields() {
    let d = Display::new(Some("host".to_string()), 7, Some(2));
    assert_eq!(d.hostname.as_deref(), Some("host"));
    assert_eq!(d.display, 7);
    assert_eq!(d.screen, Some(2));
    assert_eq!(d.format(), "host:7.2");
}

#[test]
fn test_display_no_screen_distinct_from_screen_zero() {
    let without = Display::from_str(":5").unwrap();
    let with_zero = Display::from_str(":5.0").unwrap();
    assert_eq!(without.screen, None);
    assert_eq!(with_zero.screen, Some(0));
    assert_eq!(without.format(), ":5");
    assert_eq!(with_zero.format(), ":5.0");
}

#[test]
fn test_display_rejects_numbers_over_u16() {
    assert!(Display::from_str(":65535").is_ok());
    assert!(Display::from_str(":65536").is_err());
    assert!(Display::from_str(":10.65536").is_err());
}

#[test]
fn test_local_display_capability_gaps() {
    assert_eq!(Display::from_str(":3").unwrap().local_display(), Ok(3));
    assert_eq!(
        Display::from_str("host:3").unwrap().local_display(),
        Err(CapabilityError::HostnameNotSupported)
    );
    assert_eq!(
        Display::from_str(":3.1").unwrap().local_display(),
        Err(CapabilityError::ScreenNotSupported)
    );
    assert_eq!(
        Display::from_str("host:3.1").unwrap().local_display(),
        Err(CapabilityError::HostnameNotSupported)
    );
}

#[test]
fn test_display_hostname_with_dot() {
    let d = Display::from_str("host.domain:1").unwrap();
    assert_eq!(d.hostname.as_deref(), Some("host.domain"));
    assert_eq!(d.display, 1);
    assert_eq!(d.format(), "host.domain:1");
}
