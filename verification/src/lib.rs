//! Engine of a TCP port scanner. It decides what the probe of a port amounts
//! to, names the service behind an open port by matching the response
//! against signatures, and puts the results of all probes into one report.
//! The network, the worker threads and the files stay with the caller, who
//! hands in what they gave.
//!
//! - [`signatures`]: signatures, the matcher, and the order of a signature set
//! - [`matching`]: the substring test behind the matcher
//! - [`scanner`]: the probe of one port and the text of a duration
//! - [`report`]: the scan report and its order
//! - [`loader`]: signatures out of YAML signature files
//! - [`config`]: settings, their defaults and bounds, and the plan of a scan
//! - [`localisator`]: messages in the user's language
//! - [`summary`]: the texts shown after a scan
//! - [`error`]: the error type
//! - [`text`]: numerals and the order of strings
//! - [`yaml`]: what is relied on of the YAML parser

pub mod config;
pub mod error;
pub mod loader;
pub mod localisator;
pub mod matching;
pub mod report;
pub mod scanner;
pub mod signatures;
pub mod summary;
pub mod text;
pub mod yaml;
