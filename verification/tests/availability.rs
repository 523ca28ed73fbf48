use mushroom::availability::{indicator_key, is_ipv6_enabled, ProtocolAvailabilityDetector};

#[test]
fn indicator_zero_means_ipv6() {
    assert!(is_ipv6_enabled(false, Some("0")));
}

#[test]
fn any_other_indicator_means_no_ipv6() {
    for text in ["1", "", "00", "0\n", " 0", "2", "false", "٠"] {
        assert!(!is_ipv6_enabled(false, Some(text)), "{text:?}");
    }
}

#[test]
fn failed_read_fails_safe() {
    assert!(!is_ipv6_enabled(false, None));
}

#[test]
fn override_wins_over_the_indicator() {
    assert!(!is_ipv6_enabled(true, Some("0")));
    assert!(!is_ipv6_enabled(true, Some("1")));
    assert!(!is_ipv6_enabled(true, None));
}

#[test]
fn indicator_key_names_the_host_setting() {
    assert_eq!(indicator_key(), "net.ipv6.conf.all.disable_ipv6");
}

#[test]
fn detector_remembers_its_first_answer() {
    let mut detector = ProtocolAvailabilityDetector::new(false);
    assert!(detector.needs_indicator());
    assert!(detector.ipv6_available(Some("0")));
    assert!(!detector.needs_indicator());
    assert_eq!(detector.cached, Some(true));
    assert!(detector.ipv6_available(Some("1")));
    assert!(detector.ipv6_available(None));

    let mut detector = ProtocolAvailabilityDetector::new(false);
    assert!(!detector.ipv6_available(None));
    assert_eq!(detector.cached, Some(false));
    assert!(!detector.ipv6_available(Some("0")));
}

#[test]
fn forced_detector_never_reads_and_never_says_yes() {
    let mut detector = ProtocolAvailabilityDetector::new(true);
    assert!(!detector.needs_indicator());
    assert!(!detector.ipv6_available(Some("0")));
    assert_eq!(detector.cached, None);
    assert!(detector.force_ipv4_only);
}

#[test]
fn reconfiguring_forgets_the_answer() {
    let mut detector = ProtocolAvailabilityDetector::new(false);
    assert!(detector.ipv6_available(Some("0")));
    detector.reconfigure(false);
    assert_eq!(detector.cached, None);
    assert!(detector.needs_indicator());
    assert!(!detector.ipv6_available(Some("1")));
    detector.reconfigure(true);
    assert!(!detector.ipv6_available(Some("0")));
    detector.reconfigure(false);
    assert!(detector.ipv6_available(Some("0")));
}
