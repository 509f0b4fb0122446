use whoami_service::counter::RequestCounter;
use whoami_service::error::ApiError;
use whoami_service::handlers::handle_whoami;
use whoami_service::origin::forwarded_for;
use whoami_service::origin::resolve_ip;
use whoami_service::utils::parse_browser;
use whoami_service::utils::parse_language;
use whoami_service::utils::parse_os;

#[test]
fn test_basic_request() {
    let mut counter = RequestCounter::new();
    let response = handle_whoami(
        &mut counter,
        "127.0.0.1",
        None,
        None,
        Some("test-browser"),
        Some("en-US"),
    )
    .unwrap();

    assert!(response.ipaddress.len() > 0);
    assert_eq!(response.software, Some("test-browser".to_string()));
    assert_eq!(response.language, Some("en-US".to_string()));
}

#[test]
fn test_missing_headers() {
    let mut counter = RequestCounter::new();
    let err = handle_whoami(&mut counter, "127.0.0.1", None, None, None, None).unwrap_err();

    assert_eq!(err.status, 400);
    assert_eq!(err.message, "Missing required header: User-Agent");
}

#[test]
fn test_browser_detection() {
    let test_cases = vec![
        (
            "Mozilla/5.0 (Windows NT 10.0; Win64; x64) Chrome/91.0.4472.124",
            ("Chrome", Some("91.0.4472.124".to_string())),
        ),
        (
            "Mozilla/5.0 (Macintosh; Intel Mac OS X 10.15) Firefox/89.0",
            ("Firefox", Some("89.0".to_string())),
        ),
    ];

    let mut counter = RequestCounter::new();
    for (user_agent, (expected_browser, expected_version)) in test_cases {
        let response = handle_whoami(
            &mut counter,
            "127.0.0.1",
            None,
            None,
            Some(user_agent),
            Some("en-US"),
        )
        .unwrap();

        assert_eq!(
            response.browser_name,
            Some(expected_browser.to_string())
        );
        assert_eq!(response.browser_version, expected_version);
    }
}

#[test]
fn language_first_tag_without_weight() {
    assert_eq!(parse_language("en-US,fr;q=0.9"), Some("en-US".to_string()));
}

#[test]
fn language_empty_input_gives_empty_tag() {
    assert_eq!(parse_language(""), Some("".to_string()));
}

#[test]
fn language_whitespace_only_gives_empty_tag() {
    assert_eq!(parse_language("   "), Some("".to_string()));
}

#[test]
fn language_weight_on_first_tag_dropped() {
    assert_eq!(parse_language("en;q=0.9,fr"), Some("en".to_string()));
}

#[test]
fn language_surrounding_whitespace_trimmed() {
    assert_eq!(parse_language("  de-CH , en"), Some("de-CH".to_string()));
}

#[test]
fn missing_accept_language_is_second_error() {
    let mut counter = RequestCounter::new();
    let err =
        handle_whoami(&mut counter, "127.0.0.1", None, None, Some("test-browser"), None)
            .unwrap_err();

    assert_eq!(err.status, 400);
    assert_eq!(err.message, "Missing required header: Accept-Language");
    assert_eq!(counter.total(), 0);
}

#[test]
fn browser_chrome_with_version() {
    let (name, version) = parse_browser("Mozilla/5.0 (Windows NT 10.0; Win64; x64) Chrome/91.0.4472.124");
    assert_eq!(name, Some("Chrome".to_string()));
    assert_eq!(version, Some("91.0.4472.124".to_string()));
}

#[test]
fn browser_firefox_with_version() {
    let (name, version) = parse_browser("Mozilla/5.0 (Macintosh; Intel Mac OS X 10.15) Firefox/89.0");
    assert_eq!(name, Some("Firefox".to_string()));
    assert_eq!(version, Some("89.0".to_string()));
}

#[test]
fn browser_unlisted_marker_is_other() {
    let (name, version) = parse_browser("curl/7.0");
    assert_eq!(name, Some("Other".to_string()));
    assert_eq!(version, None);
}

#[test]
fn browser_priority_order_beats_position() {
    let (name, version) = parse_browser("Chrome/1.0 Firefox/2.0");
    assert_eq!(name, Some("Firefox".to_string()));
    assert_eq!(version, Some("2.0".to_string()));
}

#[test]
fn browser_version_stops_at_slash() {
    let (name, version) = parse_browser("agent Edge/12.0/extra more");
    assert_eq!(name, Some("Edge".to_string()));
    assert_eq!(version, Some("12.0".to_string()));
}

#[test]
fn browser_marker_at_end_has_no_version() {
    let (name, version) = parse_browser("something Opera/");
    assert_eq!(name, Some("Opera".to_string()));
    assert_eq!(version, None);
}

#[test]
fn os_windows_marker() {
    assert_eq!(
        parse_os("Mozilla/5.0 (Windows NT 10.0; Win64; x64)"),
        Some("Windows".to_string())
    );
}

#[test]
fn os_mac_marker() {
    assert_eq!(
        parse_os("Mozilla/5.0 (Macintosh; Intel Mac OS X 10.15)"),
        Some("macOS".to_string())
    );
}

#[test]
fn os_linux_android_ios_markers() {
    assert_eq!(parse_os("pkg (X11; Linux x86_64)"), Some("Linux".to_string()));
    assert_eq!(parse_os("pkg (Android 11; Mobile)"), Some("Android".to_string()));
    assert_eq!(parse_os("pkg (iOS 15; Mobile)"), Some("iOS".to_string()));
}

#[test]
fn os_unrecognized_is_other() {
    assert_eq!(parse_os("test-browser"), Some("Other".to_string()));
}

#[test]
fn origin_x_forwarded_for_first_entry() {
    let ip = resolve_ip(Some("1.2.3.4, 5.6.7.8"), None, "9.9.9.9");
    assert_eq!(ip, "1.2.3.4");
}

#[test]
fn origin_x_forwarded_for_trimmed() {
    let ip = resolve_ip(Some("  1.2.3.4 , 5.6.7.8"), None, "9.9.9.9");
    assert_eq!(ip, "1.2.3.4");
}

#[test]
fn origin_forwarded_for_segment() {
    let ip = resolve_ip(None, Some("for=9.9.9.9;proto=https"), "1.1.1.1");
    assert_eq!(ip, "9.9.9.9");
}

#[test]
fn origin_forwarded_case_insensitive_and_later_segment() {
    let ip = resolve_ip(None, Some("proto=https; For=2.2.2.2"), "1.1.1.1");
    assert_eq!(ip, "2.2.2.2");
}

#[test]
fn origin_forwarded_without_for_falls_back() {
    let ip = resolve_ip(None, Some("proto=https;by=3.3.3.3"), "1.1.1.1");
    assert_eq!(ip, "1.1.1.1");
    assert_eq!(forwarded_for("proto=https;by=3.3.3.3"), None);
}

#[test]
fn origin_x_forwarded_for_wins_over_forwarded() {
    let ip = resolve_ip(Some("1.2.3.4"), Some("for=9.9.9.9"), "1.1.1.1");
    assert_eq!(ip, "1.2.3.4");
}

#[test]
fn origin_no_headers_uses_peer() {
    let ip = resolve_ip(None, None, "127.0.0.1");
    assert_eq!(ip, "127.0.0.1");
}

#[test]
fn tally_counts_one_two_three() {
    let mut counter = RequestCounter::new();
    assert_eq!(counter.total(), 0);
    assert_eq!(counter.next(), 1);
    assert_eq!(counter.next(), 2);
    assert_eq!(counter.next(), 3);
    assert_eq!(counter.total(), 3);
}

#[test]
fn tally_advances_only_on_success() {
    let mut counter = RequestCounter::new();
    let first = handle_whoami(
        &mut counter,
        "127.0.0.1",
        None,
        None,
        Some("agent"),
        Some("en"),
    )
    .unwrap();
    assert_eq!(first.total_requests, 1);

    assert!(handle_whoami(&mut counter, "127.0.0.1", None, None, None, None).is_err());
    assert_eq!(counter.total(), 1);

    let second = handle_whoami(
        &mut counter,
        "127.0.0.1",
        None,
        None,
        Some("agent"),
        Some("en"),
    )
    .unwrap();
    assert_eq!(second.total_requests, 2);
}

#[test]
fn api_error_carries_status_and_message() {
    let err = ApiError::new(400, "Missing required header: User-Agent");
    assert_eq!(err.status, 400);
    assert_eq!(err.message, "Missing required header: User-Agent");
}

#[test]
fn end_to_end_plain_request() {
    let mut counter = RequestCounter::new();
    let response = handle_whoami(
        &mut counter,
        "127.0.0.1",
        None,
        None,
        Some("test-browser"),
        Some("en-US"),
    )
    .unwrap();

    assert_eq!(response.total_requests, 1);
    assert_eq!(response.ipaddress, "127.0.0.1");
    assert_eq!(response.language, Some("en-US".to_string()));
    assert_eq!(response.software, Some("test-browser".to_string()));
    assert_eq!(response.os, Some("Other".to_string()));
    assert_eq!(response.browser_name, Some("Other".to_string()));
    assert_eq!(response.browser_version, None);
    assert_eq!(response.parsed_language, Some("en-US".to_string()));
}
