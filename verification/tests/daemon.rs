use linux_fan_utility::config::{Config, FanAssignment};
use linux_fan_utility::curve::{default_performance_curve, default_silent_curve, CurvePoint, FanCurve};
use linux_fan_utility::daemon::{
    apply_assignments, finish_reload, finish_save, finish_status, finish_write, handle_client,
    process_request, resolve_socket_path, respond, run_curve_engine, scheduler_step,
    shutdown_commands, ClientAction, ClientEvent, DaemonError, DaemonState, PendingWrite,
    SchedulerAction, SchedulerState, Step, Success, WriteKind,
};
use linux_fan_utility::hwmon::{
    enable_manual, restore_automatic, set_manual_pwm, write_duty, Fan, FanCommand, FanReading,
    TempSensor,
};
use linux_fan_utility::protocol::{FanAssignmentInfo, Request, Response};

fn fan(n: u32) -> Fan {
    Fan {
        id: format!("hwmon3/pwm{n}"),
        label: None,
        pwm_path: format!("/sys/class/hwmon/hwmon3/pwm{n}"),
        pwm_enable_path: format!("/sys/class/hwmon/hwmon3/pwm{n}_enable"),
        rpm_path: Some(format!("/sys/class/hwmon/hwmon3/fan{n}_input")),
        hwmon_name: "nct6798".to_string(),
    }
}

fn sensor(n: u32) -> TempSensor {
    TempSensor {
        id: format!("hwmon3/temp{n}"),
        label: None,
        input_path: format!("/sys/class/hwmon/hwmon3/temp{n}_input"),
        hwmon_name: "nct6798".to_string(),
    }
}

fn state() -> DaemonState {
    DaemonState {
        config: Config::default(),
        fans: vec![fan(1), fan(2), fan(3)],
        sensors: vec![sensor(1), sensor(2)],
        config_path: "/etc/fanctl/config.toml".to_string(),
    }
}

fn fan_id(n: u32) -> String {
    format!("hwmon3/pwm{n}")
}

fn on_curve(curve: &str, sensor: &str) -> FanAssignment {
    FanAssignment::Curve { curve_name: curve.to_string(), temp_sensor_id: sensor.to_string() }
}

fn point(celsius: i64, pwm: u8) -> CurvePoint {
    CurvePoint { temp_mc: celsius * 1000, pwm }
}

fn finished(step: Step) -> Result<Success, DaemonError> {
    match step {
        Step::Finished(outcome) => outcome,
        other => panic!("the request is not finished: {other:?}"),
    }
}

fn pending(step: Step) -> PendingWrite {
    match step {
        Step::Write(pending) => pending,
        other => panic!("the request asks for no write: {other:?}"),
    }
}

fn list(st: &mut DaemonState) -> Vec<FanCurve> {
    match finished(process_request(Request::ListCurves, st)) {
        Ok(Success::Curves { curves }) => curves,
        other => panic!("no curves: {other:?}"),
    }
}

fn ack(message: &str) -> Response {
    Response::Ack { message: message.to_string() }
}

fn error(message: &str) -> Response {
    Response::Error { message: message.to_string() }
}

fn readings(texts: &[Option<&str>]) -> Vec<Option<String>> {
    texts.iter().map(|t| t.map(str::to_string)).collect()
}

#[test]
fn get_status_asks_for_the_hardware() {
    let mut st = state();
    assert!(matches!(process_request(Request::GetStatus, &mut st), Step::ReadHardware));
}

#[test]
fn status_reports_readings_and_assignments() {
    let mut st = state();
    st.config.fans.insert(fan_id(1), FanAssignment::Manual { pwm: 100 });
    st.config.fans.insert(fan_id(2), on_curve("silent", "hwmon3/temp1"));
    let fan_readings = vec![
        FanReading {
            pwm: Some("100\n".to_string()),
            pwm_enable: Some("1\n".to_string()),
            rpm: Some("900\n".to_string()),
        },
        FanReading { pwm: None, pwm_enable: None, rpm: None },
    ];
    let temp_readings = readings(&[Some("41000\n"), None]);
    let outcome = finish_status(&st, &fan_readings, &temp_readings);
    match respond(outcome) {
        Response::Status { fans, temps, assignments } => {
            assert_eq!(fans.len(), 3);
            assert_eq!(fans[0].id, "hwmon3/pwm1");
            assert_eq!((fans[0].pwm, fans[0].pwm_enable, fans[0].rpm), (Some(100), Some(1), Some(900)));
            assert_eq!((fans[1].pwm, fans[1].pwm_enable, fans[1].rpm), (None, None, None));
            assert_eq!((fans[2].pwm, fans[2].pwm_enable, fans[2].rpm), (None, None, None));
            assert_eq!(temps.len(), 2);
            assert_eq!(temps[0].temp_mc, Some(41_000));
            assert_eq!(temps[1].temp_mc, None);
            assert_eq!(assignments.len(), 2);
            assert!(assignments.contains(&FanAssignmentInfo {
                fan_id: fan_id(1),
                assignment: FanAssignment::Manual { pwm: 100 },
            }));
            assert!(assignments.contains(&FanAssignmentInfo {
                fan_id: fan_id(2),
                assignment: on_curve("silent", "hwmon3/temp1"),
            }));
        }
        other => panic!("not a status: {other:?}"),
    }
}

#[test]
fn set_manual_writes_then_assigns() {
    let mut st = state();
    let step = process_request(Request::SetManual { fan_id: fan_id(2), pwm: 128 }, &mut st);
    let pending = pending(step);
    assert_eq!(pending.command, set_manual_pwm(&fan(2), 128));
    assert_eq!(pending.assignment, FanAssignment::Manual { pwm: 128 });
    assert_eq!(st.config.fans.len(), 0);
    let outcome = finish_write(&mut st, pending, Ok(()));
    assert_eq!(
        outcome,
        Ok(Success::Assigned { fan_id: fan_id(2), assignment: FanAssignment::Manual { pwm: 128 } })
    );
    assert_eq!(st.config.fans.get(&fan_id(2)), Some(&FanAssignment::Manual { pwm: 128 }));
    assert_eq!(respond(outcome), ack("Set hwmon3/pwm2 to manual PWM 128"));
}

#[test]
fn set_manual_of_unknown_fan_fails() {
    let mut st = state();
    let outcome = finished(process_request(Request::SetManual { fan_id: fan_id(9), pwm: 1 }, &mut st));
    assert_eq!(outcome, Err(DaemonError::UnknownFan { fan_id: fan_id(9) }));
    assert_eq!(st.config.fans.len(), 0);
    assert_eq!(respond(outcome), error("Unknown fan: hwmon3/pwm9"));
}

#[test]
fn failed_write_changes_nothing() {
    let mut st = state();
    st.config.fans.insert(fan_id(1), FanAssignment::Auto);
    let step = process_request(Request::SetManual { fan_id: fan_id(1), pwm: 200 }, &mut st);
    let outcome = finish_write(&mut st, pending(step), Err("Permission denied (os error 13)".to_string()));
    assert_eq!(
        outcome,
        Err(DaemonError::HardwareWriteFailed {
            kind: WriteKind::SetPwm,
            detail: "Permission denied (os error 13)".to_string(),
        })
    );
    assert_eq!(st.config.fans.len(), 1);
    assert_eq!(st.config.fans.get(&fan_id(1)), Some(&FanAssignment::Auto));
    assert_eq!(respond(outcome), error("Failed to set PWM: Permission denied (os error 13)"));
}

#[test]
fn set_auto_restores_then_assigns() {
    let mut st = state();
    st.config.fans.insert(fan_id(3), FanAssignment::Manual { pwm: 5 });
    let pending = pending(process_request(Request::SetAuto { fan_id: fan_id(3) }, &mut st));
    assert_eq!(pending.command, restore_automatic(&fan(3)));
    assert_eq!(pending.assignment, FanAssignment::Auto);
    let outcome = finish_write(&mut st, pending, Ok(()));
    assert_eq!(st.config.fans.get(&fan_id(3)), Some(&FanAssignment::Auto));
    assert_eq!(st.config.fans.len(), 1);
    assert_eq!(respond(outcome), ack("Restored hwmon3/pwm3 to automatic control"));
}

#[test]
fn set_auto_failures() {
    let mut st = state();
    let outcome = finished(process_request(Request::SetAuto { fan_id: "nope".to_string() }, &mut st));
    assert_eq!(respond(outcome), error("Unknown fan: nope"));
    let pending = pending(process_request(Request::SetAuto { fan_id: fan_id(1) }, &mut st));
    let outcome = finish_write(&mut st, pending, Err("busy".to_string()));
    assert_eq!(
        outcome,
        Err(DaemonError::HardwareWriteFailed { kind: WriteKind::RestoreAuto, detail: "busy".to_string() })
    );
    assert_eq!(respond(outcome), error("Failed to restore auto: busy"));
    assert_eq!(st.config.fans.len(), 0);
}

#[test]
fn set_curve_enables_manual_mode_then_assigns() {
    let mut st = state();
    let request = Request::SetCurve {
        fan_id: fan_id(1),
        curve_name: "silent".to_string(),
        temp_sensor_id: "hwmon3/temp2".to_string(),
    };
    let pending = pending(process_request(request, &mut st));
    assert_eq!(pending.command, enable_manual(&fan(1)));
    assert_eq!(pending.assignment, on_curve("silent", "hwmon3/temp2"));
    let outcome = finish_write(&mut st, pending, Ok(()));
    assert_eq!(st.config.fans.get(&fan_id(1)), Some(&on_curve("silent", "hwmon3/temp2")));
    assert_eq!(respond(outcome), ack("Assigned curve 'silent' to hwmon3/pwm1"));
}

#[test]
fn set_curve_checks_curve_then_sensor_then_fan() {
    let mut st = state();
    let request = |fan: &str, curve: &str, sensor: &str| Request::SetCurve {
        fan_id: fan.to_string(),
        curve_name: curve.to_string(),
        temp_sensor_id: sensor.to_string(),
    };
    let outcome = finished(process_request(request("no-fan", "no-curve", "no-sensor"), &mut st));
    assert_eq!(outcome, Err(DaemonError::UnknownCurve { curve_name: "no-curve".to_string() }));
    assert_eq!(respond(outcome), error("Unknown curve: no-curve"));
    let outcome = finished(process_request(request("hwmon3/pwm1", "no-curve", "hwmon3/temp1"), &mut st));
    assert_eq!(outcome, Err(DaemonError::UnknownCurve { curve_name: "no-curve".to_string() }));
    let outcome = finished(process_request(request("no-fan", "silent", "no-sensor"), &mut st));
    assert_eq!(outcome, Err(DaemonError::UnknownSensor { temp_sensor_id: "no-sensor".to_string() }));
    assert_eq!(respond(outcome), error("Unknown temp sensor: no-sensor"));
    let outcome = finished(process_request(request("no-fan", "silent", "hwmon3/temp1"), &mut st));
    assert_eq!(outcome, Err(DaemonError::UnknownFan { fan_id: "no-fan".to_string() }));
    assert_eq!(respond(outcome), error("Unknown fan: no-fan"));
    assert_eq!(st.config.fans.len(), 0);
}

#[test]
fn set_curve_write_failure() {
    let mut st = state();
    let request = Request::SetCurve {
        fan_id: fan_id(1),
        curve_name: "performance".to_string(),
        temp_sensor_id: "hwmon3/temp1".to_string(),
    };
    let pending = pending(process_request(request, &mut st));
    let outcome = finish_write(&mut st, pending, Err("read-only file system".to_string()));
    assert_eq!(respond(outcome), error("Failed to enable manual mode: read-only file system"));
    assert_eq!(st.config.fans.len(), 0);
}

#[test]
fn list_curves_gives_the_configured_curves() {
    let mut st = state();
    let outcome = finished(process_request(Request::ListCurves, &mut st));
    assert_eq!(
        respond(outcome),
        Response::Curves { curves: vec![default_silent_curve(), default_performance_curve()] }
    );
}

#[test]
fn upsert_then_list_gives_the_sorted_points() {
    let mut st = state();
    let points = vec![point(70, 200), point(30, 10), point(50, 90)];
    let outcome = finished(process_request(
        Request::UpsertCurve { name: "mine".to_string(), points },
        &mut st,
    ));
    assert_eq!(outcome, Ok(Success::CurveSaved { name: "mine".to_string() }));
    assert_eq!(respond(outcome), ack("Curve 'mine' saved"));
    let curves = list(&mut st);
    assert_eq!(curves.len(), 3);
    assert_eq!(curves[0], default_silent_curve());
    assert_eq!(curves[1], default_performance_curve());
    assert_eq!(curves[2].name, "mine");
    assert_eq!(curves[2].points, vec![point(30, 10), point(50, 90), point(70, 200)]);
}

#[test]
fn upsert_replaces_the_curve_of_the_same_name() {
    let mut st = state();
    let outcome = finished(process_request(
        Request::UpsertCurve { name: "silent".to_string(), points: vec![point(80, 255), point(20, 0)] },
        &mut st,
    ));
    assert_eq!(outcome, Ok(Success::CurveSaved { name: "silent".to_string() }));
    let curves = list(&mut st);
    assert_eq!(curves.len(), 2);
    assert_eq!(curves[0].name, "silent");
    assert_eq!(curves[0].points, vec![point(20, 0), point(80, 255)]);
    assert_eq!(curves[1], default_performance_curve());
}

#[test]
fn upsert_rejects_invalid_curves() {
    let mut st = state();
    let outcome = finished(process_request(
        Request::UpsertCurve { name: "silent".to_string(), points: vec![point(20, 0)] },
        &mut st,
    ));
    assert_eq!(
        outcome,
        Err(DaemonError::InvalidCurve { reason: "Curve must have at least 2 points".to_string() })
    );
    assert_eq!(respond(outcome), error("Curve must have at least 2 points"));
    let outcome = finished(process_request(
        Request::UpsertCurve {
            name: "new".to_string(),
            points: vec![point(40, 9), point(20, 0), point(40, 10)],
        },
        &mut st,
    ));
    assert_eq!(
        respond(outcome),
        error("Points must have strictly increasing temperatures (point 2)")
    );
    assert_eq!(list(&mut st), vec![default_silent_curve(), default_performance_curve()]);
}

#[test]
fn delete_removes_the_curve() {
    let mut st = state();
    let outcome = finished(process_request(Request::DeleteCurve { name: "silent".to_string() }, &mut st));
    assert_eq!(outcome, Ok(Success::CurveDeleted { name: "silent".to_string() }));
    assert_eq!(respond(outcome), ack("Deleted curve 'silent'"));
    assert_eq!(list(&mut st), vec![default_performance_curve()]);
}

#[test]
fn delete_removes_every_curve_of_the_name() {
    let mut st = state();
    st.config.curves.push(FanCurve::new("silent".to_string(), vec![point(1, 1), point(2, 2)]));
    st.config.curves.push(FanCurve::new("other".to_string(), vec![point(1, 1), point(2, 2)]));
    let outcome = finished(process_request(Request::DeleteCurve { name: "silent".to_string() }, &mut st));
    assert_eq!(outcome, Ok(Success::CurveDeleted { name: "silent".to_string() }));
    let curves = list(&mut st);
    assert_eq!(curves.len(), 2);
    assert_eq!(curves[0], default_performance_curve());
    assert_eq!(curves[1].name, "other");
}

#[test]
fn delete_of_missing_curve_fails_and_keeps_the_curves() {
    let mut st = state();
    let outcome = finished(process_request(Request::DeleteCurve { name: "loud".to_string() }, &mut st));
    assert_eq!(outcome, Err(DaemonError::CurveNotFound { name: "loud".to_string() }));
    assert_eq!(respond(outcome), error("Curve 'loud' not found"));
    assert_eq!(list(&mut st), vec![default_silent_curve(), default_performance_curve()]);
}

#[test]
fn save_config_hands_over_path_and_config() {
    let mut st = state();
    st.config.fans.insert(fan_id(1), FanAssignment::Auto);
    st.config.daemon.poll_interval_ms = 750;
    match process_request(Request::SaveConfig, &mut st) {
        Step::SaveConfig { path, config } => {
            assert_eq!(path, "/etc/fanctl/config.toml");
            assert_eq!(config.daemon, st.config.daemon);
            assert_eq!(config.curves, st.config.curves);
            assert_eq!(config.fans.entries(), st.config.fans.entries());
        }
        other => panic!("nothing to save: {other:?}"),
    }
    let outcome = finish_save(&st, Ok(()));
    assert_eq!(outcome, Ok(Success::ConfigSaved { path: "/etc/fanctl/config.toml".to_string() }));
    assert_eq!(respond(outcome), ack("Config saved to /etc/fanctl/config.toml"));
    let outcome = finish_save(&st, Err("No space left on device".to_string()));
    assert_eq!(
        outcome,
        Err(DaemonError::ConfigWriteFailed { detail: "No space left on device".to_string() })
    );
    assert_eq!(respond(outcome), error("Failed to save config: No space left on device"));
}

#[test]
fn reload_replaces_the_config_and_applies_it() {
    let mut st = state();
    st.config.fans.insert(fan_id(1), FanAssignment::Manual { pwm: 9 });
    match process_request(Request::ReloadConfig, &mut st) {
        Step::LoadConfig { path } => assert_eq!(path, "/etc/fanctl/config.toml"),
        other => panic!("nothing to load: {other:?}"),
    }
    let mut loaded = Config::default();
    loaded.daemon.poll_interval_ms = 1000;
    loaded.curves.pop();
    loaded.fans.insert(fan_id(2), FanAssignment::Manual { pwm: 40 });
    loaded.fans.insert(fan_id(7), FanAssignment::Auto);
    loaded.fans.insert(fan_id(3), on_curve("silent", "hwmon3/temp1"));
    let (outcome, commands) = finish_reload(&mut st, Ok(loaded), &readings(&[Some("40000"), None]));
    assert_eq!(outcome, Ok(Success::ConfigReloaded));
    assert_eq!(respond(outcome), ack("Config reloaded"));
    assert_eq!(commands, vec![set_manual_pwm(&fan(2), 40), set_manual_pwm(&fan(3), 32)]);
    assert_eq!(st.config.daemon.poll_interval_ms, 1000);
    assert_eq!(st.config.curves, vec![default_silent_curve()]);
    assert_eq!(st.config.fans.len(), 3);
    assert_eq!(st.config.fans.get(&fan_id(1)), None);
    assert_eq!(st.config.fans.get(&fan_id(2)), Some(&FanAssignment::Manual { pwm: 40 }));
    assert_eq!(st.fans, vec![fan(1), fan(2), fan(3)]);
    assert_eq!(st.config_path, "/etc/fanctl/config.toml");
}

#[test]
fn failed_reload_leaves_the_config_as_it_was() {
    let mut st = state();
    st.config.fans.insert(fan_id(1), FanAssignment::Manual { pwm: 9 });
    st.config.daemon.restore_on_exit = false;
    finished(process_request(
        Request::UpsertCurve { name: "mine".to_string(), points: vec![point(1, 1), point(2, 2)] },
        &mut st,
    ))
    .unwrap();
    let before = st.config.clone();
    let (outcome, commands) = finish_reload(
        &mut st,
        Err("Failed to parse config: expected `=`".to_string()),
        &readings(&[Some("40000"), Some("50000")]),
    );
    assert_eq!(
        outcome,
        Err(DaemonError::ConfigParseFailed { detail: "Failed to parse config: expected `=`".to_string() })
    );
    assert_eq!(respond(outcome), error("Failed to reload config: Failed to parse config: expected `=`"));
    assert!(commands.is_empty());
    assert_eq!(st.config.daemon, before.daemon);
    assert_eq!(st.config.curves, before.curves);
    assert_eq!(st.config.fans.entries(), before.fans.entries());
    assert_eq!(format!("{:?}", st.config), format!("{:?}", before));
}

#[test]
fn subscribe_and_unsubscribe_are_acknowledged() {
    let mut st = state();
    let outcome = finished(process_request(Request::Subscribe, &mut st));
    assert_eq!(outcome, Ok(Success::Acknowledged));
    assert_eq!(respond(outcome), ack("Acknowledged"));
    let outcome = finished(process_request(Request::Unsubscribe, &mut st));
    assert_eq!(respond(outcome), ack("Acknowledged"));
}

#[test]
fn many_manual_requests_lose_no_update() {
    let mut st = state();
    st.fans = (0..50).map(fan).collect();
    let order: Vec<u32> = (0..50).map(|i| (i * 37 + 11) % 50).collect();
    for &n in order.iter() {
        let step = process_request(Request::SetManual { fan_id: fan_id(n), pwm: n as u8 + 100 }, &mut st);
        let outcome = finish_write(&mut st, pending(step), Ok(()));
        assert!(outcome.is_ok());
    }
    assert_eq!(st.config.fans.len(), 50);
    for n in 0..50u32 {
        assert_eq!(st.config.fans.get(&fan_id(n)), Some(&FanAssignment::Manual { pwm: n as u8 + 100 }));
    }
}

#[test]
fn apply_assignments_plans_one_command_per_known_fan() {
    let mut config = Config::default();
    config.fans.insert(fan_id(1), FanAssignment::Auto);
    config.fans.insert(fan_id(2), FanAssignment::Manual { pwm: 77 });
    config.fans.insert(fan_id(8), FanAssignment::Manual { pwm: 1 });
    config.fans.insert(fan_id(3), on_curve("silent", "hwmon3/temp2"));
    let fans = vec![fan(1), fan(2), fan(3)];
    let sensors = vec![sensor(1), sensor(2)];
    let commands = apply_assignments(&fans, &sensors, &readings(&[None, Some("60000\n")]), &config);
    assert_eq!(
        commands,
        vec![restore_automatic(&fan(1)), set_manual_pwm(&fan(2), 77), set_manual_pwm(&fan(3), 109)]
    );
}

#[test]
fn apply_assignments_only_enables_manual_mode_without_curve_or_reading() {
    let fans = vec![fan(1), fan(2)];
    let sensors = vec![sensor(1), sensor(2)];
    let mut config = Config::default();
    config.fans.insert(fan_id(1), on_curve("gone", "hwmon3/temp1"));
    config.fans.insert(fan_id(2), on_curve("silent", "hwmon3/temp2"));
    let commands = apply_assignments(&fans, &sensors, &readings(&[Some("60000"), None]), &config);
    assert_eq!(commands, vec![enable_manual(&fan(1)), enable_manual(&fan(2))]);
    let commands = apply_assignments(&fans, &sensors, &readings(&[]), &config);
    assert_eq!(commands, vec![enable_manual(&fan(1)), enable_manual(&fan(2))]);
    assert!(apply_assignments(&fans, &sensors, &readings(&[]), &Config::default()).is_empty());
}

#[test]
fn tick_writes_the_duty_of_each_curve_fan() {
    let mut st = state();
    st.config.fans.insert(fan_id(1), on_curve("silent", "hwmon3/temp1"));
    st.config.fans.insert(fan_id(2), FanAssignment::Manual { pwm: 77 });
    st.config.fans.insert(fan_id(3), on_curve("performance", "hwmon3/temp2"));
    let commands = run_curve_engine(&st, &readings(&[Some("60000\n"), Some("20000\n")]));
    assert_eq!(commands, vec![write_duty(&fan(1), 109), write_duty(&fan(3), 64)]);
    let commands = run_curve_engine(&st, &readings(&[Some("95000\n"), Some("62500\n")]));
    // 128 + (62.5 - 50) / 15 * 76 = 191.33
    assert_eq!(commands, vec![write_duty(&fan(1), 255), write_duty(&fan(3), 191)]);
}

#[test]
fn tick_skips_what_cannot_be_resolved() {
    let mut st = state();
    st.config.fans.insert(fan_id(1), on_curve("gone", "hwmon3/temp1"));
    st.config.fans.insert(fan_id(2), on_curve("silent", "hwmon3/temp2"));
    st.config.fans.insert(fan_id(9), on_curve("silent", "hwmon3/temp1"));
    st.config.fans.insert(fan_id(3), on_curve("silent", "hwmon3/temp9"));
    st.config.fans.insert("auto".to_string(), FanAssignment::Auto);
    let commands = run_curve_engine(&st, &readings(&[Some("60000"), Some("garbage")]));
    assert_eq!(commands, Vec::<FanCommand>::new());
    let commands = run_curve_engine(&st, &readings(&[Some("60000"), Some("30000")]));
    assert_eq!(commands, vec![write_duty(&fan(2), 0)]);
}

#[test]
fn scheduler_gives_shutdown_priority() {
    let running = SchedulerState::Running;
    let stopped = SchedulerState::Stopped;
    assert_eq!(scheduler_step(running, true, false), (running, SchedulerAction::RunTick));
    assert_eq!(scheduler_step(running, false, false), (running, SchedulerAction::Wait));
    assert_eq!(scheduler_step(running, false, true), (stopped, SchedulerAction::Exit));
    assert_eq!(scheduler_step(running, true, true), (stopped, SchedulerAction::Exit));
    assert_eq!(scheduler_step(stopped, true, false), (stopped, SchedulerAction::Exit));
    assert_eq!(scheduler_step(stopped, false, false), (stopped, SchedulerAction::Exit));
    assert_eq!(scheduler_step(stopped, true, true), (stopped, SchedulerAction::Exit));
}

#[test]
fn client_lines_are_trimmed_and_decoded() {
    assert_eq!(
        handle_client(ClientEvent::Line { text: " {\"type\":\"get_status\"}\r\n".to_string() }),
        ClientAction::Decode { body: "{\"type\":\"get_status\"}".to_string() }
    );
    assert_eq!(
        handle_client(ClientEvent::Line { text: "\n".to_string() }),
        ClientAction::Decode { body: String::new() }
    );
}

#[test]
fn client_requests_are_dispatched() {
    assert_eq!(
        handle_client(ClientEvent::Decoded { request: Ok(Request::SetAuto { fan_id: fan_id(1) }) }),
        ClientAction::Dispatch { request: Request::SetAuto { fan_id: fan_id(1) } }
    );
}

#[test]
fn malformed_request_is_answered_with_an_error() {
    let action = handle_client(ClientEvent::Decoded {
        request: Err("expected value at line 1 column 1".to_string()),
    });
    match action {
        ClientAction::Answer { outcome } => {
            assert_eq!(
                outcome,
                Err(DaemonError::ProtocolDecodeFailed {
                    detail: "expected value at line 1 column 1".to_string(),
                })
            );
            assert_eq!(
                respond(outcome),
                error("Invalid request: expected value at line 1 column 1")
            );
        }
        other => panic!("no answer: {other:?}"),
    }
}

#[test]
fn client_responses_are_sent_as_lines() {
    assert_eq!(
        handle_client(ClientEvent::Encoded { body: Ok("{\"type\":\"ok\"}".to_string()) }),
        ClientAction::Send { line: "{\"type\":\"ok\"}\n".to_string() }
    );
    assert_eq!(
        handle_client(ClientEvent::Encoded { body: Err("key must be a string".to_string()) }),
        ClientAction::ReadNext
    );
}

#[test]
fn client_connection_ends_on_read_or_write_failure() {
    assert_eq!(handle_client(ClientEvent::ReadEnded), ClientAction::Close);
    assert_eq!(handle_client(ClientEvent::Written { ok: false }), ClientAction::Close);
    assert_eq!(handle_client(ClientEvent::Written { ok: true }), ClientAction::ReadNext);
}

#[test]
fn shutdown_restores_fans_if_configured() {
    let fans = vec![fan(1), fan(2)];
    assert_eq!(
        shutdown_commands(true, &fans),
        vec![restore_automatic(&fan(1)), restore_automatic(&fan(2))]
    );
    assert!(shutdown_commands(false, &fans).is_empty());
    assert!(shutdown_commands(true, &Vec::new()).is_empty());
}

#[test]
fn socket_path_prefers_the_command_line() {
    let config = Config::default();
    assert_eq!(resolve_socket_path(Some("/tmp/fan.sock".to_string()), &config), "/tmp/fan.sock");
    assert_eq!(resolve_socket_path(None, &config), "/run/fanctl.sock");
}

#[test]
fn error_messages() {
    let cases = [
        (DaemonError::UnknownFan { fan_id: "f".to_string() }, "Unknown fan: f"),
        (DaemonError::UnknownSensor { temp_sensor_id: "s".to_string() }, "Unknown temp sensor: s"),
        (DaemonError::UnknownCurve { curve_name: "c".to_string() }, "Unknown curve: c"),
        (DaemonError::CurveNotFound { name: "c".to_string() }, "Curve 'c' not found"),
        (DaemonError::InvalidCurve { reason: "why".to_string() }, "why"),
        (
            DaemonError::HardwareWriteFailed { kind: WriteKind::SetPwm, detail: "e".to_string() },
            "Failed to set PWM: e",
        ),
        (
            DaemonError::HardwareWriteFailed { kind: WriteKind::EnableManual, detail: "e".to_string() },
            "Failed to enable manual mode: e",
        ),
        (
            DaemonError::HardwareWriteFailed { kind: WriteKind::RestoreAuto, detail: "e".to_string() },
            "Failed to restore auto: e",
        ),
        (DaemonError::ConfigParseFailed { detail: "e".to_string() }, "Failed to reload config: e"),
        (DaemonError::ConfigWriteFailed { detail: "e".to_string() }, "Failed to save config: e"),
        (DaemonError::ProtocolDecodeFailed { detail: "e".to_string() }, "Invalid request: e"),
    ];
    for (error, message) in cases {
        assert_eq!(error.message(), message);
    }
}

#[test]
fn acknowledgements() {
    assert_eq!(
        respond(Ok(Success::Assigned { fan_id: "f".to_string(), assignment: FanAssignment::Manual { pwm: 0 } })),
        ack("Set f to manual PWM 0")
    );
    assert_eq!(
        respond(Ok(Success::Assigned { fan_id: "f".to_string(), assignment: FanAssignment::Manual { pwm: 255 } })),
        ack("Set f to manual PWM 255")
    );
    assert_eq!(
        respond(Ok(Success::Assigned { fan_id: "f".to_string(), assignment: on_curve("c", "s") })),
        ack("Assigned curve 'c' to f")
    );
    assert_eq!(
        respond(Ok(Success::Assigned { fan_id: "f".to_string(), assignment: FanAssignment::Auto })),
        ack("Restored f to automatic control")
    );
    assert_eq!(respond(Ok(Success::CurveSaved { name: "c".to_string() })), ack("Curve 'c' saved"));
    assert_eq!(respond(Ok(Success::CurveDeleted { name: "c".to_string() })), ack("Deleted curve 'c'"));
    assert_eq!(respond(Ok(Success::ConfigSaved { path: "/p".to_string() })), ack("Config saved to /p"));
    assert_eq!(respond(Ok(Success::ConfigReloaded)), ack("Config reloaded"));
    assert_eq!(respond(Ok(Success::Acknowledged)), ack("Acknowledged"));
}

#[test]
fn manual_requests_give_the_same_table_in_any_order() {
    let run = |order: Vec<u32>| {
        let mut st = state();
        st.config.fans.insert(fan_id(3), on_curve("silent", "hwmon3/temp1"));
        for n in order {
            let step = process_request(Request::SetManual { fan_id: fan_id(n), pwm: n as u8 * 10 }, &mut st);
            let outcome = finish_write(&mut st, pending(step), Ok(()));
            assert!(matches!(respond(outcome), Response::Ack { .. }));
        }
        st
    };
    let one = run(vec![1, 2]);
    let other = run(vec![2, 1]);
    for st in [&one, &other] {
        assert_eq!(st.config.fans.len(), 3);
        assert_eq!(st.config.fans.get(&fan_id(1)), Some(&FanAssignment::Manual { pwm: 10 }));
        assert_eq!(st.config.fans.get(&fan_id(2)), Some(&FanAssignment::Manual { pwm: 20 }));
        assert_eq!(st.config.fans.get(&fan_id(3)), Some(&on_curve("silent", "hwmon3/temp1")));
        assert_eq!(st.config.curves, vec![default_silent_curve(), default_performance_curve()]);
        assert_eq!(st.fans, vec![fan(1), fan(2), fan(3)]);
    }
}
