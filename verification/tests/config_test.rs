// Unit tests for config parsing
use port_explorer::config;
use port_explorer::error::ScanError;
use port_explorer::localisator::Catalogue;

#[test]
fn test_read_config_valid() {
    let yaml = r#"
    ip: "127.0.0.1"
    start_port: 1
    end_port: 10
    max_threads: 2
    language: "en"
    "#;
    let config = config::read_config(Ok(yaml)).unwrap();
    let result = config::get_config(&config, true, &Catalogue::new());
    assert!(result.is_ok());
    let (_ip, start_port, end_port, max_threads, language) = result.unwrap();
    assert_eq!(start_port, 1);
    assert_eq!(end_port, 10);
    assert_eq!(max_threads, 2);
    assert_eq!(language, "en");
}

#[test]
fn test_missing_ip() {
    let yaml = r#"
    start_port: 1
    end_port: 10
    max_threads: 2
    language: "en"
    "#;
    let config = config::read_config(Ok(yaml)).unwrap();
    let result = config::get_config(&config, false, &Catalogue::new());
    assert!(result.is_err());
    let err = result.unwrap_err().to_string();
    assert!(err.contains("error_ip_not_found") || err.contains("Config error"));
    assert_eq!(err, "Config error: error_ip_not_found");
}

#[test]
fn test_invalid_ip() {
    let yaml = r#"
    ip: "not_an_ip"
    start_port: 1
    end_port: 10
    max_threads: 2
    language: "en"
    "#;
    let config = config::read_config(Ok(yaml)).unwrap();
    let result = config::get_config(&config, false, &Catalogue::new());
    assert!(result.is_err());
    let err = result.unwrap_err().to_string();
    assert!(err.contains("error_invalid_ip") || err.contains("Config error"));
    assert_eq!(err, "Config error: error_invalid_ip");
}

#[test]
fn test_defaults() {
    // Only ip provided, all else should default
    let yaml = r#"
    ip: "127.0.0.1"
    "#;
    let config = config::read_config(Ok(yaml)).unwrap();
    let result = config::get_config(&config, true, &Catalogue::new());
    assert!(result.is_ok());
    let (_ip, start_port, end_port, max_threads, language) = result.unwrap();
    assert_eq!(start_port, 1);
    assert_eq!(end_port, 65535);
    assert_eq!(max_threads, 100);
    assert_eq!(language, "en");
}

#[test]
fn test_read_config_file_not_found() {
    // What reading "/this/file/does/not/exist.yaml" gives
    let missing = std::io::Error::new(std::io::ErrorKind::NotFound, "No such file or directory");
    let result = config::read_config(Err(missing));
    assert!(result.is_err());
    let err = result.unwrap_err().to_string();
    assert!(err.contains("IO error"));
}

#[test]
fn test_read_config_invalid_yaml() {
    let result = config::read_config(Ok("not: [valid, yaml"));
    assert!(result.is_err());
    let err = result.unwrap_err().to_string();
    assert!(err.contains("Config error"));
}

#[test]
fn read_config_reads_the_five_settings() {
    let settings = config::read_config(Ok(
        "ip: 10.1.2.3\nstart_port: 20\nend_port: 25\nmax_threads: 8\nlanguage: fr\nextra: ignored\n",
    ))
    .unwrap();
    assert_eq!(settings.ip.as_deref(), Some("10.1.2.3"));
    assert_eq!(settings.start_port, Some(20));
    assert_eq!(settings.end_port, Some(25));
    assert_eq!(settings.max_threads, Some(8));
    assert_eq!(settings.language.as_deref(), Some("fr"));
}

#[test]
fn a_setting_of_another_kind_counts_as_not_given() {
    let settings = config::read_config(Ok(
        "ip: 7\nstart_port: '20'\nend_port: -1\nmax_threads: 1.5\nlanguage: [en]\n",
    ))
    .unwrap();
    assert_eq!(settings.ip, None);
    assert_eq!(settings.start_port, None);
    assert_eq!(settings.end_port, None);
    assert_eq!(settings.max_threads, None);
    assert_eq!(settings.language, None);
    let empty = config::read_config(Ok("{}")).unwrap();
    assert_eq!(empty.ip, None);
    assert_eq!(empty.start_port, None);
}

#[test]
fn read_config_refuses_what_is_no_mapping() {
    assert!(matches!(config::read_config(Ok("- a\n- b\n")), Err(ScanError::Config(_))));
    assert!(matches!(config::read_config(Ok("just text")), Err(ScanError::Config(_))));
}

fn settings(start_port: Option<u64>, end_port: Option<u64>, max_threads: Option<u64>) -> config::Settings {
    config::Settings {
        ip: Some("127.0.0.1".to_string()),
        start_port,
        end_port,
        max_threads,
        language: None,
    }
}

fn refusal(settings: &config::Settings) -> String {
    match config::get_config(settings, true, &Catalogue::new()) {
        Err(ScanError::Config(detail)) => detail,
        other => panic!("expected a configuration error, got {:?}", other),
    }
}

#[test]
fn a_plan_at_the_bounds_is_taken() {
    let (ip, start_port, end_port, max_threads, language) =
        config::get_config(&settings(Some(1), Some(65535), Some(1000)), true, &Catalogue::new())
            .unwrap();
    assert_eq!(ip, "127.0.0.1");
    assert_eq!((start_port, end_port, max_threads), (1, 65535, 1000));
    assert_eq!(language, "en");
    let (_, start_port, end_port, max_threads, _) =
        config::get_config(&settings(Some(443), Some(443), Some(1)), true, &Catalogue::new())
            .unwrap();
    assert_eq!((start_port, end_port, max_threads), (443, 443, 1));
    // a port that is not given takes its default
    let (_, start_port, end_port, _, _) =
        config::get_config(&settings(None, Some(1), None), true, &Catalogue::new()).unwrap();
    assert_eq!((start_port, end_port), (1, 1));
}

#[test]
fn ports_out_of_bounds_are_refused() {
    assert_eq!(refusal(&settings(Some(0), Some(10), Some(10))), "error_invalid_port_range");
    assert_eq!(refusal(&settings(Some(10), Some(5), None)), "error_invalid_port_range");
    assert_eq!(refusal(&settings(Some(1), Some(65536), None)), "error_invalid_port_range");
    assert_eq!(refusal(&settings(None, Some(0), None)), "error_invalid_port_range");
    assert_eq!(refusal(&settings(Some(65536), None, None)), "error_invalid_port_range");
    // no number is cut to make it fit
    assert_eq!(refusal(&settings(Some(65536 + 80), Some(65536 + 90), None)), "error_invalid_port_range");
    assert_eq!(refusal(&settings(Some(0), Some(70000), Some(0))), "error_invalid_port_range");
    assert_eq!(refusal(&settings(Some(u64::MAX), Some(u64::MAX), None)), "error_invalid_port_range");
}

#[test]
fn workers_out_of_bounds_are_refused() {
    assert_eq!(refusal(&settings(None, None, Some(0))), "error_invalid_max_threads");
    assert_eq!(refusal(&settings(None, None, Some(1001))), "error_invalid_max_threads");
    assert_eq!(refusal(&settings(Some(1), Some(10), Some(u64::MAX))), "error_invalid_max_threads");
}

#[test]
fn the_address_is_looked_at_before_the_bounds() {
    let mut no_address = settings(Some(10), Some(5), Some(0));
    no_address.ip = None;
    let missing = config::get_config(&no_address, true, &Catalogue::new());
    assert_eq!(missing.unwrap_err().to_string(), "Config error: error_ip_not_found");
    let invalid = config::get_config(&settings(Some(10), Some(5), Some(0)), false, &Catalogue::new());
    assert_eq!(invalid.unwrap_err().to_string(), "Config error: error_invalid_ip");
}

#[test]
fn error_messages_come_from_the_catalogue() {
    let catalogue = Catalogue {
        entries: vec![
            ("error_ip_not_found".to_string(), "IP address not found".to_string()),
            ("error_invalid_ip".to_string(), "Invalid IP address".to_string()),
        ],
    };
    let missing = config::get_config(&config::Settings::new(), true, &catalogue);
    assert_eq!(missing.unwrap_err().to_string(), "Config error: IP address not found");
    let mut settings = config::Settings::new();
    settings.ip = Some("999.1.1.1".to_string());
    let invalid = config::get_config(&settings, false, &catalogue);
    assert_eq!(invalid.unwrap_err().to_string(), "Config error: Invalid IP address");
    let catalogue = Catalogue {
        entries: vec![
            ("error_invalid_port_range".to_string(), "Invalid port range".to_string()),
            ("error_invalid_max_threads".to_string(), "Invalid number of threads".to_string()),
        ],
    };
    settings.start_port = Some(0);
    let ports = config::get_config(&settings, true, &catalogue);
    assert_eq!(ports.unwrap_err().to_string(), "Config error: Invalid port range");
    settings.start_port = None;
    settings.max_threads = Some(0);
    let workers = config::get_config(&settings, true, &catalogue);
    assert_eq!(workers.unwrap_err().to_string(), "Config error: Invalid number of threads");
}

#[test]
fn language_defaults_to_english() {
    assert_eq!(config::language_of(&config::Settings::new()), "en");
    let mut settings = config::Settings::new();
    settings.language = Some("de".to_string());
    assert_eq!(config::language_of(&settings), "de");
}

#[test]
fn port_range_counts_both_ends() {
    assert_eq!(config::port_range(1, 3), vec![1, 2, 3]);
    assert_eq!(config::port_range(80, 80), vec![80]);
    assert_eq!(config::port_range(65534, 65535), vec![65534, 65535]);
    assert_eq!(config::port_range(0, 0), vec![0]);
    assert!(config::port_range(10, 9).is_empty());
    assert_eq!(config::port_range(1, 65535).len(), 65535);
}
