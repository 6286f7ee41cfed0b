use typenet::application::ServerApp;
use typenet::config::{parse_unsigned, Config, ConfigVar, EnvVars, LogLevel};
use typenet::error::StackError;
use typenet::logger::Logger;

fn set(s: &str) -> Option<String> {
    Some(s.to_string())
}

#[test]
fn defaults_apply_when_nothing_is_set() {
    let c = Config::load(&EnvVars::default(), false, 8).expect("defaults load");
    assert_eq!(c.tun_name, "tun0");
    assert_eq!(c.worker_count, 8);
    assert_eq!(c.app, ServerApp::Echo);
    assert_eq!(c.initial_rto, 1000);
    assert_eq!(c.max_retries, 15);
    assert_eq!(c.grace_period, 60_000);
    assert_eq!(c.log_level, LogLevel::PktFull);

    let d = Config::load(&EnvVars::default(), true, 1).expect("debug defaults load");
    assert_eq!(d.initial_rto, 250);
    assert_eq!(d.grace_period, 5_000);
    assert_eq!(d.worker_count, 1);
}

#[test]
fn set_variables_override_defaults() {
    let vars = EnvVars {
        tun_name: set("tun7"),
        worker_count: set("3"),
        app: set(" Shout "),
        init_rto_millis: set("500"),
        max_retransmits: set("255"),
        grace_secs: set("2"),
        log_level: set(" 1\n"),
    };
    let c = Config::load(&vars, false, 8).expect("valid variables load");
    assert_eq!(c.tun_name, "tun7");
    assert_eq!(c.worker_count, 3);
    assert_eq!(c.app, ServerApp::Shout);
    assert_eq!(c.initial_rto, 500);
    assert_eq!(c.max_retries, 255);
    assert_eq!(c.grace_period, 2_000);
    assert_eq!(c.log_level, LogLevel::ServerInfo);
}

#[test]
fn each_unparsable_variable_is_named() {
    let cases = [
        (EnvVars { worker_count: set("0"), ..EnvVars::default() }, ConfigVar::WorkerCount),
        (EnvVars { worker_count: set("many"), ..EnvVars::default() }, ConfigVar::WorkerCount),
        (EnvVars { app: set("whisper"), ..EnvVars::default() }, ConfigVar::App),
        (EnvVars { init_rto_millis: set("-1"), ..EnvVars::default() }, ConfigVar::InitRtoMillis),
        (EnvVars { max_retransmits: set("256"), ..EnvVars::default() }, ConfigVar::MaxRetransmits),
        (EnvVars { grace_secs: set("1.5"), ..EnvVars::default() }, ConfigVar::GraceSecs),
        (EnvVars { log_level: set("5"), ..EnvVars::default() }, ConfigVar::LogLevel),
    ];
    for (vars, var) in cases {
        assert!(matches!(
            Config::load(&vars, false, 4),
            Err(StackError::UnparsableConfigVar { var: v }) if v == var
        ));
    }
}

#[test]
fn first_unparsable_variable_wins() {
    let vars = EnvVars { app: set("nope"), log_level: set("9"), ..EnvVars::default() };
    assert!(matches!(
        Config::load(&vars, false, 4),
        Err(StackError::UnparsableConfigVar { var: ConfigVar::App })
    ));
}

#[test]
fn huge_grace_period_is_kept_exactly() {
    let vars = EnvVars { grace_secs: set("18446744073709551615"), ..EnvVars::default() };
    assert_eq!(
        Config::load(&vars, false, 1).expect("loads").grace_period,
        u128::from(u64::MAX) * 1000
    );
}

#[test]
fn unsigned_numbers_parse_like_std() {
    let chars = |s: &str| s.chars().collect::<Vec<char>>();
    assert_eq!(parse_unsigned(&chars("42"), 255), Some(42));
    assert_eq!(parse_unsigned(&chars("+42"), 255), Some(42));
    assert_eq!(parse_unsigned(&chars("255"), 255), Some(255));
    assert_eq!(parse_unsigned(&chars("256"), 255), None);
    assert_eq!(parse_unsigned(&chars(""), 255), None);
    assert_eq!(parse_unsigned(&chars("+"), 255), None);
    assert_eq!(parse_unsigned(&chars(" 1"), 255), None);
    assert_eq!(parse_unsigned(&chars("18446744073709551615"), u64::MAX), Some(u64::MAX));
    assert_eq!(parse_unsigned(&chars("18446744073709551616"), u64::MAX), None);
    for s in ["0", "7", "1000", "65535"] {
        assert_eq!(parse_unsigned(&chars(s), u64::MAX), s.parse::<u64>().ok());
    }
}

#[test]
fn log_levels_parse_from_digits() {
    assert_eq!(LogLevel::parse("0"), Ok(LogLevel::Silent));
    assert_eq!(LogLevel::parse(" 2 "), Ok(LogLevel::PktQuiet));
    assert_eq!(LogLevel::parse("3"), Ok(LogLevel::PktDetails));
    assert_eq!(LogLevel::parse("4"), Ok(LogLevel::PktFull));
    assert_eq!(LogLevel::parse("5"), Err(StackError::InvalidLogLevel));
    assert_eq!(LogLevel::parse("12"), Err(StackError::InvalidLogLevel));
    assert_eq!(LogLevel::default(), LogLevel::PktFull);
    assert_eq!(LogLevel::PktDetails.number(), 3);
    assert!(LogLevel::PktQuiet.allows(LogLevel::ServerInfo));
    assert!(!LogLevel::ServerInfo.allows(LogLevel::PktQuiet));
}

#[test]
fn logger_stamps_lines_with_worker_and_time_since_birth() {
    let logger = Logger::new(LogLevel::PktFull, 1_000, 3);
    let now = 1_000 + 3_723_045; // 1 h 2 min 3 s 45 ms later
    assert_eq!(logger.timestamp(now), "01:02:03.045");
    assert_eq!(logger.timestamp(0), "00:00:00.000", "a clock before birth saturates");
    assert_eq!(logger.server_info("hello", now), "[w3 01:02:03.045] hello\n");
    assert_eq!(logger.pkt_err("bad", now), "[w3 01:02:03.045] bad\n");
    assert_eq!(logger.server_newline(), "\n");
    assert!(logger.pkt_extra());
}

#[test]
fn logger_levels_gate_output() {
    let silent = Logger::new(LogLevel::Silent, 0, 0);
    assert_eq!(silent.server_info("x", 5), "");
    assert_eq!(silent.server_newline(), "");

    let info = Logger::new(LogLevel::ServerInfo, 0, 0);
    assert_eq!(info.server_info("x", 5), "[w0 00:00:00.005] x\n");
    assert_eq!(info.pkt_err("x", 5), "");
    assert!(!info.pkt_extra());

    let quiet = Logger::new(LogLevel::PktQuiet, 0, 0);
    assert_eq!(quiet.pkt_err("x", 5), "");
    assert!(!quiet.pkt_extra());

    let details = Logger::new(LogLevel::PktDetails, 0, 0);
    assert!(details.pkt_extra());
    assert_eq!(details.pkt_err("x", 5), "[w0 00:00:00.005] x\n");
}
