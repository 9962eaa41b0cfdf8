use speedtest::protocol::negotiation_request;
use speedtest::protocol::parse_direction;
use speedtest::protocol::parse_u64;
use speedtest::protocol::server_negotiate;
use speedtest::protocol::complement;
use speedtest::protocol::ServerDecision;
use speedtest::Direction;

#[test]
fn upload_line_parses_and_needs_no_second_line() {
    assert_eq!(parse_direction(b"upload\n"), Some(Direction::Upload));
    assert!(!Direction::Upload.needs_duration());
    // The whole decision is made from the first line alone.
    assert_eq!(
        server_negotiate(b"upload\n", None),
        ServerDecision::Run { local_dir: Direction::Download, deadline_secs: None }
    );
}

#[test]
fn download_with_duration_parses() {
    assert_eq!(parse_direction(b"download\n"), Some(Direction::Download));
    assert!(Direction::Download.needs_duration());
    assert_eq!(parse_u64(b"5\n"), Some(5));
    assert_eq!(
        server_negotiate(b"download\n", Some(b"5\n")),
        ServerDecision::Run { local_dir: Direction::Upload, deadline_secs: Some(5) }
    );
}

#[test]
fn bogus_line_abandons_connection() {
    assert_eq!(parse_direction(b"bogus\n"), None);
    assert_eq!(server_negotiate(b"bogus\n", None), ServerDecision::Abandon);
}

#[test]
fn unparsable_duration_abandons_connection() {
    assert_eq!(parse_u64(b"abc\n"), None);
    assert_eq!(server_negotiate(b"download\n", Some(b"abc\n")), ServerDecision::Abandon);
}

#[test]
fn missing_duration_line_abandons_connection() {
    assert_eq!(server_negotiate(b"download\n", None), ServerDecision::Abandon);
    assert_eq!(server_negotiate(b"bidirectional\n", None), ServerDecision::Abandon);
}

#[test]
fn quit_line_requests_shutdown() {
    assert_eq!(parse_direction(b"quit\n"), Some(Direction::Quit));
    assert_eq!(server_negotiate(b"quit\n", None), ServerDecision::ShutdownRequested);
}

#[test]
fn whitespace_only_line_is_unparsable() {
    assert_eq!(parse_direction(b"\n"), None);
    assert_eq!(parse_direction(b"  \r\n"), None);
    assert_eq!(parse_u64(b"\n"), None);
    assert_eq!(parse_u64(b" \t \r\n"), None);
}

#[test]
fn tokens_must_match_exactly() {
    assert_eq!(parse_direction(b"Upload\n"), None);
    assert_eq!(parse_direction(b"uploadx\n"), None);
    assert_eq!(parse_direction(b"up load\n"), None);
    assert_eq!(parse_direction(b"  upload  \r\n"), Some(Direction::Upload));
    assert_eq!(parse_direction(b"bidirectional\n"), Some(Direction::Bidirectional));
}

#[test]
fn duration_parsing_matches_u64_from_str() {
    assert_eq!(parse_u64(b"0\n"), Some(0));
    assert_eq!(parse_u64(b"+7\n"), Some(7));
    assert_eq!(parse_u64(b"  42  \n"), Some(42));
    assert_eq!(parse_u64(b"18446744073709551615\n"), Some(u64::MAX));
    assert_eq!(parse_u64(b"18446744073709551616\n"), None);
    assert_eq!(parse_u64(b"-1\n"), None);
    assert_eq!(parse_u64(b"4 2\n"), None);
    assert_eq!(parse_u64(b"++3\n"), None);
    // Same verdicts as the standard parser on the trimmed text.
    for line in [&b"0\n"[..], b"+7\n", b"  42  \n", b"-1\n", b"4 2\n", b"++3\n"] {
        let std_parse = std::str::from_utf8(line).unwrap().trim().parse::<u64>().ok();
        assert_eq!(parse_u64(line), std_parse);
    }
}

#[test]
fn requests_round_trip_through_the_parser() {
    assert_eq!(negotiation_request(Direction::Upload, 10), b"upload\n");
    assert_eq!(negotiation_request(Direction::Quit, 10), b"quit\n");
    assert_eq!(negotiation_request(Direction::Download, 5), b"download\n5\n");
    assert_eq!(negotiation_request(Direction::Bidirectional, 120), b"bidirectional\n120\n");

    let req = negotiation_request(Direction::Download, 31);
    let split = req.iter().position(|&b| b == b'\n').unwrap();
    assert_eq!(parse_direction(&req[..split + 1]), Some(Direction::Download));
    assert_eq!(parse_u64(&req[split + 1..]), Some(31));
}

#[test]
fn complement_swaps_upload_and_download() {
    assert_eq!(complement(Direction::Upload), Direction::Download);
    assert_eq!(complement(Direction::Download), Direction::Upload);
    assert_eq!(complement(Direction::Bidirectional), Direction::Bidirectional);
    assert_eq!(complement(Direction::Quit), Direction::Quit);
}
