use linux_fan_utility::config::{
    clone_curves, default_poll_interval, default_socket_path, default_true, load_config,
    resolve_config_path, save_config, AssignmentTable, Config, ConfigFile, ConfigWrite,
    DaemonConfig, FanAssignment,
    DEFAULT_CONFIG_PATH, DEFAULT_POLL_INTERVAL_MS, DEFAULT_SOCKET_PATH,
};
use linux_fan_utility::curve::{default_performance_curve, default_silent_curve};

fn curve_assignment(curve: &str, sensor: &str) -> FanAssignment {
    FanAssignment::Curve { curve_name: curve.to_string(), temp_sensor_id: sensor.to_string() }
}

#[test]
fn defaults_are_the_documented_ones() {
    assert_eq!(DEFAULT_CONFIG_PATH, "/etc/fanctl/config.toml");
    assert_eq!(DEFAULT_SOCKET_PATH, "/run/fanctl.sock");
    assert_eq!(DEFAULT_POLL_INTERVAL_MS, 2000);
    assert_eq!(default_poll_interval(), 2000);
    assert_eq!(default_socket_path(), "/run/fanctl.sock");
    assert!(default_true());
}

#[test]
fn daemon_config_default() {
    let daemon = DaemonConfig::default();
    assert_eq!(
        daemon,
        DaemonConfig {
            poll_interval_ms: 2000,
            socket_path: "/run/fanctl.sock".to_string(),
            restore_on_exit: true,
        }
    );
    assert_eq!(daemon.clone(), daemon);
}

#[test]
fn config_default_has_both_curves_and_no_fans() {
    let config = Config::default();
    assert_eq!(config.daemon, DaemonConfig::default());
    assert_eq!(config.curves, vec![default_silent_curve(), default_performance_curve()]);
    assert_eq!(config.fans.len(), 0);
    assert!(config.fans.entries().is_empty());
}

#[test]
fn resolve_config_path_prefers_the_argument() {
    assert_eq!(resolve_config_path(Some("/tmp/fans.toml")), "/tmp/fans.toml");
    assert_eq!(resolve_config_path(Some("")), "");
    assert_eq!(resolve_config_path(None), "/etc/fanctl/config.toml");
}

#[test]
fn table_starts_empty() {
    let table = AssignmentTable::new();
    assert_eq!(table.len(), 0);
    assert_eq!(table.get(&"hwmon3/pwm1".to_string()), None);
}

#[test]
fn table_insert_then_get() {
    let mut table = AssignmentTable::new();
    table.insert("hwmon3/pwm1".to_string(), FanAssignment::Manual { pwm: 128 });
    table.insert("hwmon3/pwm2".to_string(), curve_assignment("silent", "hwmon3/temp1"));
    table.insert("hwmon4/pwm1".to_string(), FanAssignment::Auto);
    assert_eq!(table.len(), 3);
    assert_eq!(table.get(&"hwmon3/pwm1".to_string()), Some(&FanAssignment::Manual { pwm: 128 }));
    assert_eq!(
        table.get(&"hwmon3/pwm2".to_string()),
        Some(&curve_assignment("silent", "hwmon3/temp1"))
    );
    assert_eq!(table.get(&"hwmon4/pwm1".to_string()), Some(&FanAssignment::Auto));
    assert_eq!(table.get(&"hwmon4/pwm2".to_string()), None);
    assert_eq!(table.get(&"".to_string()), None);
}

#[test]
fn table_latest_write_wins() {
    let mut table = AssignmentTable::new();
    table.insert("a".to_string(), FanAssignment::Manual { pwm: 1 });
    table.insert("b".to_string(), FanAssignment::Manual { pwm: 2 });
    table.insert("a".to_string(), FanAssignment::Auto);
    table.insert("b".to_string(), FanAssignment::Manual { pwm: 3 });
    table.insert("a".to_string(), curve_assignment("silent", "t"));
    assert_eq!(table.len(), 2);
    assert_eq!(table.get(&"a".to_string()), Some(&curve_assignment("silent", "t")));
    assert_eq!(table.get(&"b".to_string()), Some(&FanAssignment::Manual { pwm: 3 }));
}

#[test]
fn table_lists_each_fan_once() {
    let mut table = AssignmentTable::new();
    for round in 0..3u8 {
        for fan in 0..5u8 {
            table.insert(format!("hwmon0/pwm{fan}"), FanAssignment::Manual { pwm: round * 10 + fan });
        }
    }
    let entries = table.entries();
    assert_eq!(entries.len(), 5);
    for fan in 0..5u8 {
        let id = format!("hwmon0/pwm{fan}");
        let found: Vec<_> = entries.iter().filter(|e| e.fan_id == id).collect();
        assert_eq!(found.len(), 1);
        assert_eq!(found[0].assignment, FanAssignment::Manual { pwm: 20 + fan });
    }
}

#[test]
fn table_clone_holds_the_same_assignments() {
    let mut table = AssignmentTable::new();
    table.insert("a".to_string(), FanAssignment::Manual { pwm: 1 });
    table.insert("b".to_string(), FanAssignment::Auto);
    let copy = table.clone();
    table.insert("a".to_string(), FanAssignment::Auto);
    assert_eq!(copy.len(), 2);
    assert_eq!(copy.get(&"a".to_string()), Some(&FanAssignment::Manual { pwm: 1 }));
    assert_eq!(copy.get(&"b".to_string()), Some(&FanAssignment::Auto));
}

#[test]
fn config_clone_is_equal_in_every_part() {
    let mut config = Config::default();
    config.daemon.poll_interval_ms = 500;
    config.fans.insert("a".to_string(), curve_assignment("silent", "t"));
    let copy = config.clone();
    assert_eq!(copy.daemon, config.daemon);
    assert_eq!(copy.curves, config.curves);
    assert_eq!(copy.fans.entries(), config.fans.entries());
    assert_eq!(clone_curves(&config.curves), config.curves);
    assert_eq!(FanAssignment::Manual { pwm: 9 }.clone(), FanAssignment::Manual { pwm: 9 });
}

#[test]
fn load_config_of_no_file_is_the_default() {
    let config = load_config(ConfigFile::Absent).unwrap();
    assert_eq!(config.daemon, DaemonConfig::default());
    assert_eq!(config.curves, vec![default_silent_curve(), default_performance_curve()]);
    assert_eq!(config.fans.len(), 0);
}

#[test]
fn load_config_gives_what_the_file_holds() {
    let mut held = Config::default();
    held.curves.clear();
    held.daemon.restore_on_exit = false;
    held.fans.insert("hwmon1/pwm1".to_string(), FanAssignment::Auto);
    let config = load_config(ConfigFile::Parsed { config: held }).unwrap();
    assert!(config.curves.is_empty());
    assert!(!config.daemon.restore_on_exit);
    assert_eq!(config.fans.get(&"hwmon1/pwm1".to_string()), Some(&FanAssignment::Auto));
}

#[test]
fn load_config_reports_why_it_failed() {
    let unreadable = load_config(ConfigFile::Unreadable { detail: "Permission denied".to_string() });
    assert_eq!(unreadable.unwrap_err(), "Permission denied");
    let malformed = load_config(ConfigFile::Malformed { detail: "expected `=`".to_string() });
    assert_eq!(malformed.unwrap_err(), "Failed to parse config: expected `=`");
}

#[test]
fn save_config_reports_why_it_failed() {
    assert_eq!(save_config(ConfigWrite::Written), Ok(()));
    assert_eq!(
        save_config(ConfigWrite::Failed { detail: "No space left on device".to_string() }),
        Err("No space left on device".to_string())
    );
    assert_eq!(
        save_config(ConfigWrite::Unserializable { detail: "unsupported type".to_string() }),
        Err("Failed to serialize config: unsupported type".to_string())
    );
}
