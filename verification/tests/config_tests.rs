use trojan_core::error::ErrorKind;
use trojan_core::proxy::{
    launch_from_config_string, parse_log_level, parse_mode, LaunchPlan, LogLevel, Mode,
};

#[test]
fn parse_mode_recognizes_the_three_modes() {
    assert_eq!(parse_mode(&"server".to_string()), Some(Mode::Server));
    assert_eq!(parse_mode(&"client".to_string()), Some(Mode::Client));
    assert_eq!(parse_mode(&"forward".to_string()), Some(Mode::Forward));
    assert_eq!(parse_mode(&"bogus".to_string()), None);
    assert_eq!(parse_mode(&"Server".to_string()), None);
}

#[test]
fn parse_log_level_recognizes_the_five_levels() {
    assert_eq!(parse_log_level(&"trace".to_string()), Some(LogLevel::Trace));
    assert_eq!(parse_log_level(&"debug".to_string()), Some(LogLevel::Debug));
    assert_eq!(parse_log_level(&"info".to_string()), Some(LogLevel::Info));
    assert_eq!(parse_log_level(&"warn".to_string()), Some(LogLevel::Warn));
    assert_eq!(parse_log_level(&"error".to_string()), Some(LogLevel::Error));
    assert_eq!(parse_log_level(&"loud".to_string()), None);
}

#[test]
fn launch_server_mode_defaults_to_debug() {
    let plan = launch_from_config_string("mode = \"server\"\n").unwrap();
    assert_eq!(plan, LaunchPlan::Run { mode: Mode::Server, log_level: LogLevel::Debug });
}

#[test]
fn launch_reads_log_level() {
    let plan = launch_from_config_string("mode = \"client\"\nlog_level = \"info\"\n").unwrap();
    assert_eq!(plan, LaunchPlan::Run { mode: Mode::Client, log_level: LogLevel::Info });
}

#[test]
fn launch_forward_mode() {
    let plan = launch_from_config_string("log_level = \"warn\"\nmode = \"forward\"\n").unwrap();
    assert_eq!(plan, LaunchPlan::Run { mode: Mode::Forward, log_level: LogLevel::Warn });
}

#[test]
fn bad_mode_reports_invalid_without_proxying() {
    let plan = launch_from_config_string("mode = \"bogus\"\n").unwrap();
    assert_eq!(plan, LaunchPlan::InvalidMode);
}

#[test]
fn invalid_log_level_is_a_config_error() {
    let e = launch_from_config_string("mode = \"server\"\nlog_level = \"loud\"\n").unwrap_err();
    assert_eq!(e.kind, ErrorKind::Config);
}

#[test]
fn missing_mode_is_a_config_error() {
    let e = launch_from_config_string("log_level = \"info\"\n").unwrap_err();
    assert_eq!(e.kind, ErrorKind::Config);
}

#[test]
fn malformed_document_is_a_config_error() {
    let e = launch_from_config_string("mode = [unclosed\n").unwrap_err();
    assert_eq!(e.kind, ErrorKind::Config);
}
