//! The settings of a scan: where they come from, which of them win, and the
//! plan of the scan that they amount to.

use vstd::prelude::*;
use crate::error::ScanError;
use crate::localisator::{get, Catalogue};
use crate::signatures::name_view;
use crate::yaml::{
    as_str, as_u64, lists_values, message_of, parse_value_table, untagged, value_table, Yaml,
};

verus! {

/// The settings that a configuration file or the command line gave; `None`
/// where it gave none.
#[derive(Debug)]
pub struct Settings {
    pub ip: Option<String>,
    pub start_port: Option<u64>,
    pub end_port: Option<u64>,
    pub max_threads: Option<u64>,
    pub language: Option<String>,
}

/// The text that `table` holds under `key`, if it holds a string there.
pub open spec fn text_setting(table: Map<Seq<char>, Yaml>, key: Seq<char>) -> Option<Seq<char>> {
    if table.contains_key(key) {
        match untagged(table[key]) {
            Yaml::Text(text) => Some(text),
            _ => None,
        }
    } else {
        None
    }
}

/// The unsigned integer that `table` holds under `key`, if it holds one
/// there.
pub open spec fn number_setting(table: Map<Seq<char>, Yaml>, key: Seq<char>) -> Option<u64> {
    if table.contains_key(key) {
        match untagged(table[key]) {
            Yaml::Number(number) => number,
            _ => None,
        }
    } else {
        None
    }
}

impl Settings {
    /// The settings are those that `table` holds under the five setting
    /// names; a setting of another kind than expected counts as not given.
    pub open spec fn read_from(&self, table: Map<Seq<char>, Yaml>) -> bool {
        &&& name_view(self.ip) == text_setting(table, "ip"@)
        &&& self.start_port == number_setting(table, "start_port"@)
        &&& self.end_port == number_setting(table, "end_port"@)
        &&& self.max_threads == number_setting(table, "max_threads"@)
        &&& name_view(self.language) == text_setting(table, "language"@)
    }

    /// No setting is given.
    pub open spec fn is_empty(&self) -> bool {
        &&& self.ip is None
        &&& self.start_port is None
        &&& self.end_port is None
        &&& self.max_threads is None
        &&& self.language is None
    }

    /// The settings of a run without configuration.
    pub fn new() -> (settings: Settings)
        ensures
            settings.is_empty(),
    {
        Settings { ip: None, start_port: None, end_port: None, max_threads: None, language: None }
    }
}

/// The value that stands under `key` in a list of entries.
fn value_under<'a>(pairs: &'a Vec<(String, serde_yaml::Value)>, key: &str) -> (found: Option<
    &'a serde_yaml::Value,
>)
    ensures
        match found {
            Some(value) => exists|i: int|
                0 <= i < pairs.len() && #[trigger] pairs[i].0@ == key@ && pairs[i].1 == *value,
            None => forall|i: int| 0 <= i < pairs.len() ==> #[trigger] pairs[i].0@ != key@,
        },
{
    let wanted = key.to_owned();
    let mut i: usize = 0;
    while i < pairs.len()
        invariant
            i <= pairs.len(),
            wanted@ == key@,
            forall|j: int| 0 <= j < i ==> #[trigger] pairs[j].0@ != key@,
        decreases pairs.len() - i,
    {
        if pairs[i].0 == wanted {
            return Some(&pairs[i].1);
        }
        i += 1;
    }
    None
}

/// The string setting `key` of a list of entries.
fn text_under(pairs: &Vec<(String, serde_yaml::Value)>, key: &str, Ghost(table): Ghost<
    Map<Seq<char>, Yaml>,
>) -> (text: Option<String>)
    requires
        lists_values(pairs@, table),
    ensures
        name_view(text) == text_setting(table, key@),
{
    match value_under(pairs, key) {
        Some(value) => match as_str(value) {
            Some(text) => Some(text.to_owned()),
            None => None,
        },
        None => None,
    }
}

/// The number setting `key` of a list of entries.
fn number_under(pairs: &Vec<(String, serde_yaml::Value)>, key: &str, Ghost(table): Ghost<
    Map<Seq<char>, Yaml>,
>) -> (number: Option<u64>)
    requires
        lists_values(pairs@, table),
    ensures
        number == number_setting(table, key@),
{
    match value_under(pairs, key) {
        Some(value) => as_u64(value),
        None => None,
    }
}

/// Reads the settings out of a configuration file, given what reading the
/// file gave: its text, or the error of the read, which is handed on. A text
/// that is no mapping from strings to values is refused with the parser's
/// message.
pub fn read_config(content: Result<&str, std::io::Error>) -> (read: Result<Settings, ScanError>)
    ensures
        match content {
            Ok(text) => match value_table(text@) {
                Ok(table) => read matches Ok(settings) && settings.read_from(table),
                Err(message) => read matches Err(ScanError::Config(detail)) && detail@
                    == message,
            },
            Err(error) => read matches Err(ScanError::Io(cause)) && cause == error,
        },
{
    let text = match content {
        Ok(text) => text,
        Err(error) => {
            return Err(ScanError::from(error));
        },
    };
    match parse_value_table(text) {
        Ok(pairs) => {
            let ghost table = value_table(text@)->Ok_0;
            Ok(
                Settings {
                    ip: text_under(&pairs, "ip", Ghost(table)),
                    start_port: number_under(&pairs, "start_port", Ghost(table)),
                    end_port: number_under(&pairs, "end_port", Ghost(table)),
                    max_threads: number_under(&pairs, "max_threads", Ghost(table)),
                    language: text_under(&pairs, "language", Ghost(table)),
                },
            )
        },
        Err(error) => Err(ScanError::Config(message_of(&error))),
    }
}

/// The settings given on the command line; `None` where none was given.
#[derive(Debug)]
pub struct Args {
    pub ip: Option<String>,
    pub start_port: Option<u16>,
    pub end_port: Option<u16>,
    pub max_threads: Option<usize>,
    pub language: Option<String>,
}

/// The first choice where there is one, else the second.
pub open spec fn preferred<T>(first: Option<T>, second: Option<T>) -> Option<T> {
    if first is Some {
        first
    } else {
        second
    }
}

/// A port given on the command line, as a number setting.
pub open spec fn port_given(port: Option<u16>) -> Option<u64> {
    match port {
        Some(p) => Some(p as u64),
        None => None,
    }
}

/// A number of workers given on the command line, as a number setting.
pub open spec fn threads_given(threads: Option<usize>) -> Option<u64> {
    match threads {
        Some(t) => Some(t as u64),
        None => None,
    }
}

/// Lets each setting of the command line replace that of the configuration
/// file; a setting that the command line does not give stays as it is.
pub fn apply_overrides(settings: Settings, args: &Args) -> (merged: Settings)
    ensures
        name_view(merged.ip) == preferred(name_view(args.ip), name_view(settings.ip)),
        merged.start_port == preferred(port_given(args.start_port), settings.start_port),
        merged.end_port == preferred(port_given(args.end_port), settings.end_port),
        merged.max_threads == preferred(threads_given(args.max_threads), settings.max_threads),
        name_view(merged.language) == preferred(
            name_view(args.language),
            name_view(settings.language),
        ),
{
    Settings {
        ip: match &args.ip {
            Some(ip) => Some(ip.clone()),
            None => settings.ip,
        },
        start_port: match args.start_port {
            Some(port) => Some(port as u64),
            None => settings.start_port,
        },
        end_port: match args.end_port {
            Some(port) => Some(port as u64),
            None => settings.end_port,
        },
        max_threads: match args.max_threads {
            Some(threads) => Some(threads as u64),
            None => settings.max_threads,
        },
        language: match &args.language {
            Some(language) => Some(language.clone()),
            None => settings.language,
        },
    }
}

/// The language of the messages: the one set, else English.
pub open spec fn language_setting(settings: Settings) -> Seq<char> {
    match settings.language {
        Some(language) => language@,
        None => "en"@,
    }
}

/// The number that a setting stands for: itself, or `default` where it is
/// not given.
pub open spec fn number_or(setting: Option<u64>, default: u64) -> u64 {
    match setting {
        Some(number) => number,
        None => default,
    }
}

/// The ports of the settings make a range: the first port is at least 1
/// and not after the last, and the last is at most 65535. A port that is not
/// given counts as 1 for the first and as 65535 for the last.
pub open spec fn ports_in_bounds(settings: Settings) -> bool {
    1 <= number_or(settings.start_port, 1) <= number_or(settings.end_port, 65535) <= 65535
}

/// The settings ask for between 1 and 1000 workers; a number that is not
/// given counts as 100.
pub open spec fn workers_in_bounds(settings: Settings) -> bool {
    1 <= number_or(settings.max_threads, 100) <= 1000
}

/// The settings keep the bounds that a scan relies on.
pub open spec fn plan_in_bounds(settings: Settings) -> bool {
    ports_in_bounds(settings) && workers_in_bounds(settings)
}

/// The language of the messages.
pub fn language_of(settings: &Settings) -> (language: String)
    ensures
        language@ == language_setting(*settings),
{
    match &settings.language {
        Some(language) => language.clone(),
        None => "en".to_owned(),
    }
}

/// Turns the settings into the plan of a scan: the target address, the
/// first and the last port, the number of workers and the language. Ports
/// default to 1 and 65535, the workers to 100, the language to English.
///
/// The settings are refused, in this order, where no address is given;
/// where the address is none (`ip_is_valid` says whether the text of the
/// address setting reads as an IP address, and is not looked at where no
/// address is given); where the ports are out of bounds; where the number of
/// workers is. The message of each refusal is looked up in `catalogue`. No
/// number is cut or clamped to make it fit.
pub fn get_config(settings: &Settings, ip_is_valid: bool, catalogue: &Catalogue) -> (plan: Result<
    (String, u16, u16, usize, String),
    ScanError,
>)
    ensures
        match settings.ip {
            None => plan matches Err(ScanError::Config(detail)) && detail@ == catalogue.message(
                "error_ip_not_found"@,
            ),
            Some(ip) => if !ip_is_valid {
                plan matches Err(ScanError::Config(detail)) && detail@ == catalogue.message(
                    "error_invalid_ip"@,
                )
            } else if !ports_in_bounds(*settings) {
                plan matches Err(ScanError::Config(detail)) && detail@ == catalogue.message(
                    "error_invalid_port_range"@,
                )
            } else if !workers_in_bounds(*settings) {
                plan matches Err(ScanError::Config(detail)) && detail@ == catalogue.message(
                    "error_invalid_max_threads"@,
                )
            } else {
                &&& plan matches Ok(found)
                &&& found.0@ == ip@
                &&& found.1 == number_or(settings.start_port, 1)
                &&& found.2 == number_or(settings.end_port, 65535)
                &&& found.3 == number_or(settings.max_threads, 100)
                &&& found.4@ == language_setting(*settings)
            },
        },
        plan is Ok <==> settings.ip is Some && ip_is_valid && plan_in_bounds(*settings),
        plan matches Ok(found) ==> 1 <= found.1 <= found.2 && 1 <= found.3 <= 1000,
{
    let language = language_of(settings);
    let ip = match &settings.ip {
        Some(ip) => {
            if !ip_is_valid {
                return Err(ScanError::Config(get(catalogue, "error_invalid_ip")));
            }
            ip.clone()
        },
        None => {
            return Err(ScanError::Config(get(catalogue, "error_ip_not_found")));
        },
    };
    let start_port: u64 = match settings.start_port {
        Some(number) => number,
        None => 1,
    };
    let end_port: u64 = match settings.end_port {
        Some(number) => number,
        None => 65535,
    };
    let max_threads: u64 = match settings.max_threads {
        Some(number) => number,
        None => 100,
    };
    if start_port < 1 || start_port > end_port || end_port > 65535 {
        return Err(ScanError::Config(get(catalogue, "error_invalid_port_range")));
    }
    if max_threads < 1 || max_threads > 1000 {
        return Err(ScanError::Config(get(catalogue, "error_invalid_max_threads")));
    }
    Ok((ip, start_port as u16, end_port as u16, max_threads as usize, language))
}

/// The ports from `start_port` to `end_port`, both included, in ascending
/// order; none where the first lies after the last.
pub fn port_range(start_port: u16, end_port: u16) -> (ports: Vec<u16>)
    ensures
        ports@.len() == if start_port <= end_port {
            end_port - start_port + 1
        } else {
            0
        },
        forall|i: int| 0 <= i < ports@.len() ==> ports@[i] == start_port + i,
{
    let mut ports: Vec<u16> = Vec::new();
    if start_port > end_port {
        return ports;
    }
    let mut port = start_port;
    while port < end_port
        invariant
            start_port <= port <= end_port,
            ports@.len() == port - start_port,
            forall|i: int| 0 <= i < ports@.len() ==> ports@[i] == start_port + i,
        decreases end_port - port,
    {
        ports.push(port);
        port += 1;
    }
    ports.push(port);
    ports
}

} // verus!
