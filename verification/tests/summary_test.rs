use port_explorer::localisator::{init, Catalogue};
use port_explorer::summary::{
    format_entry, format_header, format_listing, format_totals, log_file_name,
};

fn english() -> Catalogue {
    init(Some(
        "scan_started: 'Scan started:'\nport_range: 'Port range:'\nduration: 'Duration:'\ntarget: 'Target:'\nno_open_ports: 'No open ports found on'\nopen_ports: 'Open ports on'\nopen: open\nscanned_ports: 'Scanned ports:'\nopen_ports_count: 'Open ports:'\n",
    ))
}

#[test]
fn entries_are_shown_with_their_service() {
    assert_eq!(format_entry(&(80, Some("Apache".to_string())), "open"), "80: Apache\n");
    assert_eq!(format_entry(&(65535, None), "open"), "65535: open\n");
    assert_eq!(format_entry(&(0, None), ""), "0: \n");
}

#[test]
fn the_header_has_four_lines() {
    let text = format_header(&english(), "2024-05-01 10:00:00", 1, 1024, "2m 5s", "10.0.0.7");
    assert_eq!(
        text,
        "Scan started: 2024-05-01 10:00:00\nPort range: 1-1024\nDuration: 2m 5s\nTarget: 10.0.0.7\n"
    );
}

#[test]
fn labels_fall_back_to_their_keys() {
    let text = format_header(&Catalogue::new(), "now", 80, 80, "1ms", "::1");
    assert_eq!(text, "scan_started now\nport_range 80-80\nduration 1ms\ntarget ::1\n");
    let totals = format_totals(&Catalogue::new(), 1, 65535, "1h 0m 0s", 0);
    assert_eq!(totals, "scanned_ports 1-65535\nduration 1h 0m 0s\nopen_ports_count 0\n");
}

#[test]
fn the_listing_names_each_open_port() {
    let report = vec![(22, None), (80, Some("Apache".to_string())), (443, Some("nginx".to_string()))];
    assert_eq!(
        format_listing(&english(), "10.0.0.7", &report),
        "Open ports on 10.0.0.7:\n22: open\n80: Apache\n443: nginx\n"
    );
}

#[test]
fn the_listing_of_an_empty_report_says_so() {
    assert_eq!(
        format_listing(&english(), "10.0.0.7", &Vec::new()),
        "No open ports found on 10.0.0.7\n"
    );
}

#[test]
fn the_totals_count_the_open_ports() {
    assert_eq!(
        format_totals(&english(), 1, 1024, "59s 10ms", 3),
        "Scanned ports: 1-1024\nDuration: 59s 10ms\nOpen ports: 3\n"
    );
}

#[test]
fn the_log_file_is_named_after_the_time() {
    assert_eq!(log_file_name("20240501_100000"), "scan_20240501_100000.log");
    assert_eq!(log_file_name(""), "scan_.log");
}
