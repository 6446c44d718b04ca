//! The texts that tell the user and the log what a scan found, in the
//! user's language.

use vstd::prelude::*;
use vstd::string::StringExecFns;
use crate::localisator::{get, Catalogue};
use crate::text::{decimal, decimal_string};

verus! {

/// One line of the list of open ports: the port, a colon, and the service
/// found or else the word for an open port.
pub open spec fn entry_line(entry: (u16, Option<String>), open_label: Seq<char>) -> Seq<char> {
    decimal(entry.0 as nat) + ": "@ + match entry.1 {
        Some(name) => name@,
        None => open_label,
    } + "\n"@
}

/// The lines of all entries, in order.
pub open spec fn entry_lines(entries: Seq<(u16, Option<String>)>, open_label: Seq<char>) -> Seq<
    char,
>
    decreases entries.len(),
{
    if entries.len() == 0 {
        Seq::empty()
    } else {
        entry_lines(entries.drop_last(), open_label) + entry_line(entries.last(), open_label)
    }
}

/// The head of the log: when the scan started, the port range, the
/// duration and the target, one line each, each after its label.
pub open spec fn header_text(
    catalogue: Catalogue,
    started_at: Seq<char>,
    start_port: u16,
    end_port: u16,
    duration: Seq<char>,
    target: Seq<char>,
) -> Seq<char> {
    catalogue.message("scan_started"@) + " "@ + started_at + "\n"@ + catalogue.message(
        "port_range"@,
    ) + " "@ + decimal(start_port as nat) + "-"@ + decimal(end_port as nat) + "\n"@
        + catalogue.message("duration"@) + " "@ + duration + "\n"@ + catalogue.message("target"@)
        + " "@ + target + "\n"@
}

/// The list of open ports: one line that says that there are none, or a
/// heading with the target and then one line for each entry.
pub open spec fn listing_text(
    catalogue: Catalogue,
    target: Seq<char>,
    report: Seq<(u16, Option<String>)>,
) -> Seq<char> {
    if report.len() == 0 {
        catalogue.message("no_open_ports"@) + " "@ + target + "\n"@
    } else {
        catalogue.message("open_ports"@) + " "@ + target + ":\n"@ + entry_lines(
            report,
            catalogue.message("open"@),
        )
    }
}

/// The closing lines: the ports scanned, the duration and the number of
/// open ports, each after its label.
pub open spec fn totals_text(
    catalogue: Catalogue,
    start_port: u16,
    end_port: u16,
    duration: Seq<char>,
    open_ports: nat,
) -> Seq<char> {
    catalogue.message("scanned_ports"@) + " "@ + decimal(start_port as nat) + "-"@ + decimal(
        end_port as nat,
    ) + "\n"@ + catalogue.message("duration"@) + " "@ + duration + "\n"@ + catalogue.message(
        "open_ports_count"@,
    ) + " "@ + decimal(open_ports) + "\n"@
}

/// The name of the log file of a scan that ended at `timestamp`.
pub fn log_file_name(timestamp: &str) -> (name: String)
    ensures
        name@ == "scan_"@ + timestamp@ + ".log"@,
{
    let mut name = "scan_".to_owned();
    name.append(timestamp);
    name.append(".log");
    name
}

/// Appends to `text` the label that the catalogue has for `key`, and a
/// space.
fn push_label(text: &mut String, catalogue: &Catalogue, key: &str)
    ensures
        final(text)@ == old(text)@ + catalogue.message(key@) + " "@,
{
    text.append(get(catalogue, key).as_str());
    text.append(" ");
}

/// Appends to `text` the port range `start_port-end_port`.
fn push_range(text: &mut String, start_port: u16, end_port: u16)
    ensures
        final(text)@ == old(text)@ + decimal(start_port as nat) + "-"@ + decimal(end_port as nat),
{
    text.append(decimal_string(start_port as u128).as_str());
    text.append("-");
    text.append(decimal_string(end_port as u128).as_str());
}

/// One line of the list of open ports.
pub fn format_entry(entry: &(u16, Option<String>), open_label: &str) -> (line: String)
    ensures
        line@ == entry_line(*entry, open_label@),
{
    let mut line = decimal_string(entry.0 as u128);
    line.append(": ");
    match &entry.1 {
        Some(name) => line.append(name.as_str()),
        None => line.append(open_label),
    }
    line.append("\n");
    line
}

/// The head of the log.
pub fn format_header(
    catalogue: &Catalogue,
    started_at: &str,
    start_port: u16,
    end_port: u16,
    duration: &str,
    target: &str,
) -> (text: String)
    ensures
        text@ == header_text(*catalogue, started_at@, start_port, end_port, duration@, target@),
{
    let mut text = String::new();
    push_label(&mut text, catalogue, "scan_started");
    text.append(started_at);
    text.append("\n");
    push_label(&mut text, catalogue, "port_range");
    push_range(&mut text, start_port, end_port);
    text.append("\n");
    push_label(&mut text, catalogue, "duration");
    text.append(duration);
    text.append("\n");
    push_label(&mut text, catalogue, "target");
    text.append(target);
    text.append("\n");
    text
}

/// The list of open ports of a report.
pub fn format_listing(
    catalogue: &Catalogue,
    target: &str,
    report: &Vec<(u16, Option<String>)>,
) -> (text: String)
    ensures
        text@ == listing_text(*catalogue, target@, report@),
{
    let mut text = String::new();
    if report.len() == 0 {
        push_label(&mut text, catalogue, "no_open_ports");
        text.append(target);
        text.append("\n");
        return text;
    }
    push_label(&mut text, catalogue, "open_ports");
    text.append(target);
    text.append(":\n");
    let open_label = get(catalogue, "open");
    let ghost head = text@;
    let mut i: usize = 0;
    assert(report@.take(0) =~= Seq::<(u16, Option<String>)>::empty());
    while i < report.len()
        invariant
            i <= report.len(),
            open_label@ == catalogue.message("open"@),
            text@ == head + entry_lines(report@.take(i as int), open_label@),
        decreases report.len() - i,
    {
        proof {
            assert(report@.take(i + 1).drop_last() =~= report@.take(i as int));
        }
        text.append(format_entry(&report[i], open_label.as_str()).as_str());
        i += 1;
    }
    assert(report@.take(i as int) =~= report@);
    text
}

/// The closing lines of a scan that found `open_ports` open ports.
pub fn format_totals(
    catalogue: &Catalogue,
    start_port: u16,
    end_port: u16,
    duration: &str,
    open_ports: usize,
) -> (text: String)
    ensures
        text@ == totals_text(*catalogue, start_port, end_port, duration@, open_ports as nat),
{
    let mut text = String::new();
    push_label(&mut text, catalogue, "scanned_ports");
    push_range(&mut text, start_port, end_port);
    text.append("\n");
    push_label(&mut text, catalogue, "duration");
    text.append(duration);
    text.append("\n");
    push_label(&mut text, catalogue, "open_ports_count");
    text.append(decimal_string(open_ports as u128).as_str());
    text.append("\n");
    text
}

} // verus!
