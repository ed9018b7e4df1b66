use hermes_desktop::desktop_misc::{fold_numeric_host, is_loopback_or_private_host, Ipv4};

#[test]
fn folds_windows_numeric_host_forms_onto_loopback() {
    assert!(is_loopback_or_private_host("127.1"));
    assert!(is_loopback_or_private_host("127.0.1"));
    assert!(is_loopback_or_private_host("0x7f000001"));
    assert!(is_loopback_or_private_host("0177.0.0.1"));
    assert!(is_loopback_or_private_host("2130706433"));
    assert!(is_loopback_or_private_host("127.65535"));
    assert!(is_loopback_or_private_host("::ffff:127.0.0.1"));
}

#[test]
fn rejects_loopback_and_private_hosts() {
    assert!(is_loopback_or_private_host("localhost"));
    assert!(is_loopback_or_private_host("127.0.0.1"));
    assert!(is_loopback_or_private_host("10.1.2.3"));
    assert!(is_loopback_or_private_host("192.168.1.1"));
    assert!(is_loopback_or_private_host("172.16.0.1"));
    assert!(is_loopback_or_private_host("169.254.0.1"));
    assert!(is_loopback_or_private_host("100.64.0.1"));
    assert!(is_loopback_or_private_host("0.0.0.0"));
}

#[test]
fn allows_public_hosts() {
    assert!(!is_loopback_or_private_host("8.8.8.8"));
    assert!(!is_loopback_or_private_host("1.1.1.1"));
    assert!(!is_loopback_or_private_host("example.com"));
    assert!(!is_loopback_or_private_host("2606:4700::1111"));
}

#[test]
fn fold_numeric_host_semantics() {
    assert_eq!(fold_numeric_host("127.1"), Some(Ipv4::new(127, 0, 0, 1)));
    assert_eq!(fold_numeric_host("127.0.1"), Some(Ipv4::new(127, 0, 0, 1)));
    assert_eq!(fold_numeric_host("0x7f000001"), Some(Ipv4::new(127, 0, 0, 1)));
    assert_eq!(fold_numeric_host("127.65535"), Some(Ipv4::new(127, 0, 255, 255)));
    assert_eq!(fold_numeric_host("8.8.8.8"), Some(Ipv4::new(8, 8, 8, 8)));
    assert_eq!(fold_numeric_host("example.com"), None);
}

#[test]
fn a_number_must_fit_its_place() {
    assert_eq!(fold_numeric_host("256.1"), None);
    assert_eq!(fold_numeric_host("127.16777216"), None);
    assert_eq!(fold_numeric_host("127.16777215"), Some(Ipv4::new(127, 255, 255, 255)));
    assert_eq!(fold_numeric_host("127.256.1"), None);
    assert_eq!(fold_numeric_host("127.0.65536"), None);
    assert_eq!(fold_numeric_host("127.0.65535"), Some(Ipv4::new(127, 0, 255, 255)));
    assert_eq!(fold_numeric_host("4294967295"), Some(Ipv4::new(255, 255, 255, 255)));
    assert_eq!(fold_numeric_host("4294967296"), None);
    assert_eq!(fold_numeric_host("1.2.3.256"), None);
}
