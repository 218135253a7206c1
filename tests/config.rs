use journaldeliver::config::{
    active_config_files, history_from_settings, port_from_setting, protocol_from_setting, run_type_from_settings,
    History, JDConfig, ProtocolType, RunType, TargetRecord, TargetType,
};

#[test]
fn defaults_match_documented_values() {
    assert_eq!(ProtocolType::default(), ProtocolType::TCP);
    assert_eq!(History::default(), History::Count(-1));
    assert_eq!(RunType::default(), RunType::Print);
    assert_eq!(TargetType::default(), TargetType::Filebeat);
    let t = TargetRecord::default();
    assert_eq!(t.address, "127.0.0.1");
    assert_eq!(t.port, 9000);
    let c = JDConfig::default();
    assert_eq!(c.configs.len(), 3);
    assert_eq!(c.configs[2], "/etc/journaldeliver/default.yaml");
    assert_eq!(c.verbose, 1);
    assert_eq!(c.state, "/var/lib/journaldeliver/cursor-location.yaml");
    assert_eq!(c.targets, vec![TargetRecord::default()]);
}

#[test]
fn port_must_lie_in_range() {
    assert_eq!(port_from_setting(None), Some(9000));
    assert_eq!(port_from_setting(Some(1)), Some(1));
    assert_eq!(port_from_setting(Some(65534)), Some(65534));
    assert_eq!(port_from_setting(Some(0)), None);
    assert_eq!(port_from_setting(Some(65535)), None);
}

#[test]
fn protocol_names() {
    assert_eq!(protocol_from_setting(None), Some(ProtocolType::TCP));
    assert_eq!(protocol_from_setting(Some("udp")), Some(ProtocolType::UDP));
    assert_eq!(protocol_from_setting(Some("sctp")), None);
}

#[test]
fn run_type_from_flags_and_mode() {
    assert_eq!(run_type_from_settings(true, true, "daemon"), Some(RunType::List));
    assert_eq!(run_type_from_settings(false, true, "daemon"), Some(RunType::Print));
    assert_eq!(run_type_from_settings(false, false, "foreground"), Some(RunType::Foreground));
    assert_eq!(run_type_from_settings(false, false, "daemon"), Some(RunType::Daemon));
    assert_eq!(run_type_from_settings(false, false, "other"), None);
}

#[test]
fn history_kind_selects_value() {
    assert_eq!(
        history_from_settings("duration", Some("1h".to_string()), None, None),
        Some(History::Duration("1h".to_string()))
    );
    assert_eq!(history_from_settings("count", None, None, Some(-5)), Some(History::Count(-5)));
    assert_eq!(history_from_settings("count", None, None, None), None);
    assert_eq!(history_from_settings("weeks", None, None, Some(1)), None);
}

#[test]
fn config_files_keep_last_place_and_skip_missing() {
    let paths: Vec<String> = ["a", "b", "a", "c", "d"].iter().map(|s| s.to_string()).collect();
    let exists = vec![true, true, true, false, true];
    assert_eq!(active_config_files(&paths, &exists), vec!["b", "a", "d"]);
    assert_eq!(active_config_files(&vec![], &vec![]), Vec::<String>::new());
}
