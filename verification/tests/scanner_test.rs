use port_explorer::report::finish_report;
use port_explorer::scanner::{
    format_duration, format_duration_parts, probe_url, scan_port, Probe,
    ProbeAction, ProbeEvent, ProbeState, CONNECT_TIMEOUT_MILLIS, REQUEST_TIMEOUT_SECS, USER_AGENT,
};
use port_explorer::signatures::Signature;
use port_explorer::text::decimal_string;
use std::time::Duration;

fn signature(name: &str, pattern: &str) -> Signature {
    Signature { name: name.to_string(), match_: pattern.to_string() }
}

fn scan(ports: &[u16], signatures: &[Signature]) -> Vec<(u16, Option<String>)> {
    let mut results = Vec::new();
    for port in ports {
        if let Some(entry) = scan_port(*port, false, None, signatures) {
            results.push(entry);
        }
    }
    finish_report(results)
}

#[test]
fn test_format_duration() {
    // Test nanoseconds
    let duration = Duration::from_nanos(500);
    assert_eq!(format_duration(duration), "500ns");

    // Test milliseconds
    let duration = Duration::from_millis(250);
    assert_eq!(format_duration(duration), "250ms");

    // Test seconds
    let duration = Duration::from_secs(5) + Duration::from_millis(250);
    assert_eq!(format_duration(duration), "5s 250ms");

    // Test minutes
    let duration = Duration::from_secs(125); // 2 minutes 5 seconds
    assert_eq!(format_duration(duration), "2m 5s");

    // Test hours
    let duration = Duration::from_secs(3665); // 1 hour 1 minute 5 seconds
    assert_eq!(format_duration(duration), "1h 1m 5s");

    // Test zero duration
    let duration = Duration::from_nanos(0);
    assert_eq!(format_duration(duration), "0ns");
}

#[test]
fn test_scan_port_closed_port() {
    let signatures: Vec<Signature> = vec![];
    let port = 65534; // Usually closed

    let result = scan_port(port, false, None, &signatures);
    assert!(result.is_none(), "Port {} should be closed", port);
}

#[test]
fn test_scan_port_with_signatures() {
    // Test with some mock signatures
    let signatures = vec![Signature {
        name: "Test Service".to_string(),
        match_: "test".to_string(),
    }];
    let port = 65533; // Usually closed

    let result = scan_port(port, false, None, &signatures);
    assert!(result.is_none(), "Port {} should be closed", port);
}

#[test]
fn test_scan_ports_parallel_empty_ports() {
    let signatures: Vec<Signature> = vec![];
    let ports: Vec<u16> = vec![];

    let result = scan(&ports, &signatures);
    assert_eq!(result.len(), 0);
}

#[test]
fn scanner_test_test_scan_ports_parallel_closed_ports() {
    let signatures: Vec<Signature> = vec![];
    let ports = vec![65530, 65531, 65532]; // Usually closed ports

    // Since these ports are closed, we expect an empty result
    let open_ports = scan(&ports, &signatures);
    assert!(open_ports.is_empty(), "Expected no open ports, but found: {:?}", open_ports);
}

#[test]
fn test_scan_ports_parallel_with_signatures() {
    let signatures = vec![
        Signature {
            name: "HTTP Server".to_string(),
            match_: "HTTP".to_string(),
        },
        Signature {
            name: "SSH".to_string(),
            match_: "SSH".to_string(),
        },
    ];
    let ports = vec![65529]; // Usually closed port

    let open_ports = scan(&ports, &signatures);
    assert!(open_ports.is_empty(), "Expected no open ports, but found: {:?}", open_ports);
}

#[test]
fn test_scan_ports_parallel_single_thread() {
    let signatures: Vec<Signature> = vec![];
    let ports = vec![65528]; // Usually closed port

    let open_ports = scan(&ports, &signatures);
    assert!(open_ports.is_empty(), "Expected no open ports, but found: {:?}", open_ports);
}

#[test]
fn test_scan_ports_parallel_many_threads() {
    let signatures: Vec<Signature> = vec![];
    let ports = vec![65527, 65526]; // Usually closed ports

    let open_ports = scan(&ports, &signatures);
    assert!(open_ports.is_empty(), "Expected no open ports, but found: {:?}", open_ports);
}

#[test]
fn duration_text_of_each_branch() {
    assert_eq!(format_duration_parts(3661, 0), "1h 1m 1s");
    assert_eq!(format_duration_parts(3600, 999_999_999), "1h 0m 0s");
    assert_eq!(format_duration_parts(3599, 5), "59m 59s");
    assert_eq!(format_duration_parts(60, 0), "1m 0s");
    assert_eq!(format_duration_parts(59, 999_999_999), "59s 999ms");
    assert_eq!(format_duration_parts(1, 0), "1s 0ms");
    assert_eq!(format_duration_parts(0, 999_999_999), "999ms");
    assert_eq!(format_duration_parts(0, 1_000_000), "1ms");
    assert_eq!(format_duration_parts(0, 999_999), "999999ns");
    assert_eq!(format_duration_parts(0, 0), "0ns");
    assert_eq!(format_duration_parts(u64::MAX, 0), "5124095576030431h 0m 15s");
    assert_eq!(format_duration(Duration::new(7322, 123_456_789)), "2h 2m 2s");
    assert_eq!(format_duration(Duration::new(0, 123_456_789)), "123ms");
}

#[test]
fn decimal_numerals() {
    assert_eq!(decimal_string(0), "0");
    assert_eq!(decimal_string(7), "7");
    assert_eq!(decimal_string(10), "10");
    assert_eq!(decimal_string(65535), "65535");
    assert_eq!(decimal_string(1_000_000_007), "1000000007");
    assert_eq!(decimal_string(u128::MAX), "340282366920938463463374607431768211455");
}

#[test]
fn an_open_port_without_body_has_no_service() {
    let signatures = vec![signature("HTTP", "Server")];
    assert_eq!(scan_port(8080, true, None, &signatures), Some((8080, None)));
}

#[test]
fn an_open_port_is_identified_by_its_body() {
    let signatures = vec![signature("Test", "Server: TestSig")];
    assert_eq!(
        scan_port(8080, true, Some("HTTP/1.1 200 OK\r\nServer: TestSig\r\n"), &signatures),
        Some((8080, Some("Test".to_string())))
    );
    assert_eq!(scan_port(8080, true, Some("nothing known"), &signatures), Some((8080, None)));
    // a body read from a port that did not connect does not count
    assert_eq!(scan_port(8080, false, Some("Server: TestSig"), &signatures), None);
}

#[test]
fn end_to_end_one_listener() {
    let signatures = vec![signature("Test", "Server: TestSig")];
    let port = 40123;
    let mut results = Vec::new();
    if let Some(entry) = scan_port(port, true, Some("Server: TestSig"), &signatures) {
        results.push(entry);
    }
    assert_eq!(finish_report(results), vec![(port, Some("Test".to_string()))]);
}

#[test]
fn a_closed_port_is_left_out_of_the_report() {
    let signatures = vec![signature("Test", "Server: TestSig")];
    let observed = [(80u16, true, Some("Server: TestSig")), (65534, false, None), (22, true, None)];
    let mut results = Vec::new();
    for (port, connected, body) in observed {
        if let Some(entry) = scan_port(port, connected, body, &signatures) {
            results.push(entry);
        }
    }
    let report = finish_report(results);
    assert_eq!(report, vec![(22, None), (80, Some("Test".to_string()))]);
    assert!(report.iter().all(|entry| entry.0 != 65534));
}

#[test]
fn the_machine_closes_on_a_failed_connect() {
    let signatures = vec![signature("HTTP", "Server")];
    let mut probe = Probe::new(443);
    assert_eq!(probe.state, ProbeState::Pending);
    assert!(!probe.is_finished());
    assert_eq!(probe.step(ProbeEvent::Proceed, &signatures), ProbeAction::Connect);
    assert_eq!(probe.state, ProbeState::Connecting);
    assert_eq!(probe.step(ProbeEvent::ConnectFailed, &signatures), ProbeAction::Stop);
    assert_eq!(probe.state, ProbeState::Closed);
    assert!(probe.is_finished());
    // no way back
    assert_eq!(probe.step(ProbeEvent::Proceed, &signatures), ProbeAction::Stop);
    assert_eq!(probe.step(ProbeEvent::ConnectSucceeded, &signatures), ProbeAction::Stop);
    assert_eq!(probe.state, ProbeState::Closed);
    assert_eq!(probe.result(), None);
}

#[test]
fn the_machine_identifies_an_open_port() {
    let signatures = vec![signature("HTTP", "Server")];
    let mut probe = Probe::new(80);
    assert_eq!(probe.step(ProbeEvent::Proceed, &signatures), ProbeAction::Connect);
    assert_eq!(probe.step(ProbeEvent::ConnectSucceeded, &signatures), ProbeAction::Continue);
    assert_eq!(probe.state, ProbeState::Connected);
    assert_eq!(probe.step(ProbeEvent::Proceed, &signatures), ProbeAction::Fetch);
    assert_eq!(probe.state, ProbeState::Fetching);
    let body = ProbeEvent::FetchSucceeded("Server: x".to_string());
    assert_eq!(probe.step(body, &signatures), ProbeAction::Stop);
    assert_eq!(probe.state, ProbeState::OpenIdentified);
    assert!(probe.is_finished());
    assert_eq!(probe.result(), Some((80, Some("HTTP".to_string()))));
}

#[test]
fn the_machine_leaves_a_silent_port_open() {
    let signatures = vec![signature("HTTP", "Server")];
    let mut probe = Probe::new(22);
    probe.step(ProbeEvent::Proceed, &signatures);
    probe.step(ProbeEvent::ConnectSucceeded, &signatures);
    probe.step(ProbeEvent::Proceed, &signatures);
    assert_eq!(probe.step(ProbeEvent::FetchFailed, &signatures), ProbeAction::Stop);
    assert_eq!(probe.state, ProbeState::OpenUnidentified);
    assert_eq!(probe.result(), Some((22, None)));

    let mut probe = Probe::new(23);
    probe.step(ProbeEvent::Proceed, &signatures);
    probe.step(ProbeEvent::ConnectSucceeded, &signatures);
    probe.step(ProbeEvent::Proceed, &signatures);
    probe.step(ProbeEvent::FetchSucceeded("login:".to_string()), &signatures);
    assert_eq!(probe.state, ProbeState::OpenUnidentified);
    assert_eq!(probe.result(), Some((23, None)));
}

#[test]
fn the_machine_ignores_events_it_does_not_wait_for() {
    let signatures: Vec<Signature> = Vec::new();
    let mut probe = Probe::new(1);
    assert_eq!(probe.step(ProbeEvent::FetchFailed, &signatures), ProbeAction::Stop);
    assert_eq!(probe.step(ProbeEvent::ConnectSucceeded, &signatures), ProbeAction::Stop);
    assert_eq!(probe.state, ProbeState::Pending);
    assert_eq!(probe.result(), None);
}

#[test]
fn the_report_is_ordered_by_port() {
    let results = vec![
        (443, Some("HTTPS".to_string())),
        (22, None),
        (8080, Some("HTTP".to_string())),
        (80, Some("HTTP".to_string())),
        (1, None),
    ];
    let report = finish_report(results);
    let ports: Vec<u16> = report.iter().map(|entry| entry.0).collect();
    assert_eq!(ports, vec![1, 22, 80, 443, 8080]);
    assert_eq!(report[3], (443, Some("HTTPS".to_string())));
    assert!(report.windows(2).all(|pair| pair[0].0 < pair[1].0));
}

#[test]
fn the_report_does_not_depend_on_completion_order() {
    let first = vec![(3, None), (1, Some("a".to_string())), (2, None)];
    let second = vec![(2, None), (3, None), (1, Some("a".to_string()))];
    assert_eq!(finish_report(first), finish_report(second));
}

#[test]
fn entries_of_one_port_keep_their_order() {
    let results = vec![
        (80, Some("second".to_string())),
        (22, None),
        (80, Some("first".to_string())),
        (80, None),
    ];
    assert_eq!(
        finish_report(results),
        vec![
            (22, None),
            (80, Some("second".to_string())),
            (80, Some("first".to_string())),
            (80, None),
        ]
    );
}

#[test]
fn probe_url_is_plain_http_on_the_port() {
    assert_eq!(probe_url("127.0.0.1", 80), "http://127.0.0.1:80");
    assert_eq!(probe_url("10.0.0.7", 65535), "http://10.0.0.7:65535");
    assert_eq!(probe_url("::1", 0), "http://::1:0");
}

#[test]
fn probe_constants() {
    assert_eq!(CONNECT_TIMEOUT_MILLIS, 200);
    assert_eq!(REQUEST_TIMEOUT_SECS, 1);
    assert_eq!(USER_AGENT, "port-explorer");
}
