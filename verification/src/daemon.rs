//! The control daemon's decisions: what a request changes and answers,
//! what a scheduler tick writes, and what a configuration asks of the
//! hardware. Reading and writing files, sockets and timers are left to the
//! caller, which performs what these functions say and reports what came
//! of it.

use vstd::prelude::*;
use vstd::string::*;

use crate::config::{clone_curves, Config, ConfigView, FanAssignment, FanAssignmentView};
use crate::curve::{
    curve_names, find_curve, interpolated, lemma_interpolated_in_range, lemma_sorted_by_temp,
    lemma_sorted_of_ordered, ordered, sorted_by_temp, validation_failure, CurvePoint, FanCurve,
    FanCurveView,
};
use crate::hwmon::{
    automatic_command, duty_command, enable_manual, enable_manual_command, fan_ids,
    fan_statuses_of, find_fan, has_sensor, manual_command, read_all_fan_statuses,
    read_all_temp_statuses, read_temp_map, restore_all_automatic, restore_automatic, sensor_ids,
    set_manual_pwm, temp_map_of, temp_statuses_of, write_duty, Fan, FanCommand, FanCommandView,
    FanReading, FanStatus, FanStatusView, FanView, TempMap, TempSensor, TempSensorView, TempStatus,
    TempStatusView,
};
use crate::protocol::{
    FanAssignmentInfo, FanAssignmentInfoView, Request, RequestView, Response, ResponseView,
};
use crate::text::{decimal, first_match, has_name, lemma_first_match, push_decimal};

verus! {

/// Everything the daemon knows: its configuration, the hardware that was
/// discovered, and where the configuration is kept.
#[derive(Debug)]
pub struct DaemonState {
    pub config: Config,
    pub fans: Vec<Fan>,
    pub sensors: Vec<TempSensor>,
    pub config_path: String,
}

/// What a [`DaemonState`] holds, as mathematical values.
pub struct DaemonStateView {
    pub config: ConfigView,
    pub fans: Seq<FanView>,
    pub sensors: Seq<TempSensorView>,
    pub config_path: Seq<char>,
}

impl View for DaemonState {
    type V = DaemonStateView;

    open spec fn view(&self) -> DaemonStateView {
        DaemonStateView {
            config: self.config@,
            fans: self.fans.deep_view(),
            sensors: self.sensors.deep_view(),
            config_path: self.config_path@,
        }
    }
}

/// Which hardware write a request asked for.
#[derive(Debug, Clone, Copy, PartialEq, Eq, Structural)]
pub enum WriteKind {
    /// Manual mode and a fixed duty.
    SetPwm,
    /// Manual mode, for a curve to drive the fan.
    EnableManual,
    /// Back to firmware control.
    RestoreAuto,
}

/// Why a request failed.
#[derive(Debug, Clone, PartialEq, Eq)]
pub enum DaemonError {
    UnknownFan { fan_id: String },
    UnknownSensor { temp_sensor_id: String },
    UnknownCurve { curve_name: String },
    CurveNotFound { name: String },
    InvalidCurve { reason: String },
    HardwareWriteFailed { kind: WriteKind, detail: String },
    ConfigParseFailed { detail: String },
    ConfigWriteFailed { detail: String },
    ProtocolDecodeFailed { detail: String },
}

/// What a [`DaemonError`] holds, as mathematical values.
pub enum DaemonErrorView {
    UnknownFan { fan_id: Seq<char> },
    UnknownSensor { temp_sensor_id: Seq<char> },
    UnknownCurve { curve_name: Seq<char> },
    CurveNotFound { name: Seq<char> },
    InvalidCurve { reason: Seq<char> },
    HardwareWriteFailed { kind: WriteKind, detail: Seq<char> },
    ConfigParseFailed { detail: Seq<char> },
    ConfigWriteFailed { detail: Seq<char> },
    ProtocolDecodeFailed { detail: Seq<char> },
}

impl View for DaemonError {
    type V = DaemonErrorView;

    open spec fn view(&self) -> DaemonErrorView {
        match self {
            DaemonError::UnknownFan { fan_id } => DaemonErrorView::UnknownFan { fan_id: fan_id@ },
            DaemonError::UnknownSensor { temp_sensor_id } => DaemonErrorView::UnknownSensor {
                temp_sensor_id: temp_sensor_id@,
            },
            DaemonError::UnknownCurve { curve_name } => DaemonErrorView::UnknownCurve {
                curve_name: curve_name@,
            },
            DaemonError::CurveNotFound { name } => DaemonErrorView::CurveNotFound { name: name@ },
            DaemonError::InvalidCurve { reason } => DaemonErrorView::InvalidCurve {
                reason: reason@,
            },
            DaemonError::HardwareWriteFailed { kind, detail } => {
                DaemonErrorView::HardwareWriteFailed { kind: *kind, detail: detail@ }
            },
            DaemonError::ConfigParseFailed { detail } => DaemonErrorView::ConfigParseFailed {
                detail: detail@,
            },
            DaemonError::ConfigWriteFailed { detail } => DaemonErrorView::ConfigWriteFailed {
                detail: detail@,
            },
            DaemonError::ProtocolDecodeFailed { detail } => DaemonErrorView::ProtocolDecodeFailed {
                detail: detail@,
            },
        }
    }
}

/// What a request achieved.
#[derive(Debug, Clone, PartialEq, Eq)]
pub enum Success {
    /// The live status of fans and sensors, and the assignment table.
    Status { fans: Vec<FanStatus>, temps: Vec<TempStatus>, assignments: Vec<FanAssignmentInfo> },
    /// The configured curves.
    Curves { curves: Vec<FanCurve> },
    /// The fan is under the assignment, in hardware and in the table.
    Assigned { fan_id: String, assignment: FanAssignment },
    /// The curve is part of the configuration.
    CurveSaved { name: String },
    /// The curve is no longer part of the configuration.
    CurveDeleted { name: String },
    /// The configuration is in its file.
    ConfigSaved { path: String },
    /// The configuration is what its file says.
    ConfigReloaded,
    /// Nothing was to be done.
    Acknowledged,
}

/// What a [`Success`] holds, as mathematical values.
pub enum SuccessView {
    Status {
        fans: Seq<FanStatusView>,
        temps: Seq<TempStatusView>,
        assignments: Seq<FanAssignmentInfoView>,
    },
    Curves { curves: Seq<FanCurveView> },
    Assigned { fan_id: Seq<char>, assignment: FanAssignmentView },
    CurveSaved { name: Seq<char> },
    CurveDeleted { name: Seq<char> },
    ConfigSaved { path: Seq<char> },
    ConfigReloaded,
    Acknowledged,
}

impl View for Success {
    type V = SuccessView;

    open spec fn view(&self) -> SuccessView {
        match self {
            Success::Status { fans, temps, assignments } => SuccessView::Status {
                fans: fans.deep_view(),
                temps: temps.deep_view(),
                assignments: assignments.deep_view(),
            },
            Success::Curves { curves } => SuccessView::Curves { curves: curves.deep_view() },
            Success::Assigned { fan_id, assignment } => SuccessView::Assigned {
                fan_id: fan_id@,
                assignment: assignment@,
            },
            Success::CurveSaved { name } => SuccessView::CurveSaved { name: name@ },
            Success::CurveDeleted { name } => SuccessView::CurveDeleted { name: name@ },
            Success::ConfigSaved { path } => SuccessView::ConfigSaved { path: path@ },
            Success::ConfigReloaded => SuccessView::ConfigReloaded,
            Success::Acknowledged => SuccessView::Acknowledged,
        }
    }
}

/// The outcome of a request, as mathematical values.
pub open spec fn outcome_view(outcome: Result<Success, DaemonError>) -> Result<
    SuccessView,
    DaemonErrorView,
> {
    match outcome {
        Ok(success) => Ok(success@),
        Err(error) => Err(error@),
    }
}

/// How the message for a failed hardware write begins.
pub open spec fn write_failure_prefix(kind: WriteKind) -> Seq<char> {
    match kind {
        WriteKind::SetPwm => "Failed to set PWM: "@,
        WriteKind::EnableManual => "Failed to enable manual mode: "@,
        WriteKind::RestoreAuto => "Failed to restore auto: "@,
    }
}

/// The message that tells a client of `error`.
pub open spec fn error_message(error: DaemonErrorView) -> Seq<char> {
    match error {
        DaemonErrorView::UnknownFan { fan_id } => "Unknown fan: "@ + fan_id,
        DaemonErrorView::UnknownSensor { temp_sensor_id } => "Unknown temp sensor: "@
            + temp_sensor_id,
        DaemonErrorView::UnknownCurve { curve_name } => "Unknown curve: "@ + curve_name,
        DaemonErrorView::CurveNotFound { name } => "Curve '"@ + name + "' not found"@,
        DaemonErrorView::InvalidCurve { reason } => reason,
        DaemonErrorView::HardwareWriteFailed { kind, detail } => write_failure_prefix(kind)
            + detail,
        DaemonErrorView::ConfigParseFailed { detail } => "Failed to reload config: "@ + detail,
        DaemonErrorView::ConfigWriteFailed { detail } => "Failed to save config: "@ + detail,
        DaemonErrorView::ProtocolDecodeFailed { detail } => "Invalid request: "@ + detail,
    }
}

/// The message that tells a client that `fan_id` is under `assignment`.
pub open spec fn assigned_message(fan_id: Seq<char>, assignment: FanAssignmentView) -> Seq<char> {
    match assignment {
        FanAssignmentView::Auto => "Restored "@ + fan_id + " to automatic control"@,
        FanAssignmentView::Manual { pwm } => "Set "@ + fan_id + " to manual PWM "@ + decimal(
            pwm as nat,
        ),
        FanAssignmentView::Curve { curve_name, temp_sensor_id } => "Assigned curve '"@ + curve_name
            + "' to "@ + fan_id,
    }
}

/// The message that acknowledges `success`; empty for a success that is
/// answered with data.
pub open spec fn success_message(success: SuccessView) -> Seq<char> {
    match success {
        SuccessView::Status { fans, temps, assignments } => Seq::empty(),
        SuccessView::Curves { curves } => Seq::empty(),
        SuccessView::Assigned { fan_id, assignment } => assigned_message(fan_id, assignment),
        SuccessView::CurveSaved { name } => "Curve '"@ + name + "' saved"@,
        SuccessView::CurveDeleted { name } => "Deleted curve '"@ + name + "'"@,
        SuccessView::ConfigSaved { path } => "Config saved to "@ + path,
        SuccessView::ConfigReloaded => "Config reloaded"@,
        SuccessView::Acknowledged => "Acknowledged"@,
    }
}

/// The one response that answers a request with the given outcome: the
/// data for a status or a list of curves, an acknowledgement for any other
/// success, and for a failure an error that carries its message.
pub open spec fn response_of(outcome: Result<SuccessView, DaemonErrorView>) -> ResponseView {
    match outcome {
        Ok(SuccessView::Status { fans, temps, assignments }) => ResponseView::Status {
            fans,
            temps,
            assignments,
        },
        Ok(SuccessView::Curves { curves }) => ResponseView::Curves { curves },
        Ok(success) => ResponseView::Ack { message: success_message(success) },
        Err(error) => ResponseView::Error { message: error_message(error) },
    }
}

/// `head` followed by `tail`.
fn join(head: &str, tail: &str) -> (r: String)
    ensures
        r@ == head@ + tail@,
{
    let mut out = String::from_str(head);
    out.append(tail);
    out
}

/// `head`, `middle` and `tail` in a row.
fn join3(head: &str, middle: &str, tail: &str) -> (r: String)
    ensures
        r@ == head@ + middle@ + tail@,
{
    let mut out = String::from_str(head);
    out.append(middle);
    out.append(tail);
    out
}

impl DaemonError {
    /// The human-readable message of the error.
    pub fn message(&self) -> (text: String)
        ensures
            text@ == error_message(self@),
    {
        match self {
            DaemonError::UnknownFan { fan_id } => join("Unknown fan: ", fan_id.as_str()),
            DaemonError::UnknownSensor { temp_sensor_id } => join(
                "Unknown temp sensor: ",
                temp_sensor_id.as_str(),
            ),
            DaemonError::UnknownCurve { curve_name } => join(
                "Unknown curve: ",
                curve_name.as_str(),
            ),
            DaemonError::CurveNotFound { name } => join3("Curve '", name.as_str(), "' not found"),
            DaemonError::InvalidCurve { reason } => reason.clone(),
            DaemonError::HardwareWriteFailed { kind, detail } => {
                let prefix = match kind {
                    WriteKind::SetPwm => "Failed to set PWM: ",
                    WriteKind::EnableManual => "Failed to enable manual mode: ",
                    WriteKind::RestoreAuto => "Failed to restore auto: ",
                };
                join(prefix, detail.as_str())
            },
            DaemonError::ConfigParseFailed { detail } => join(
                "Failed to reload config: ",
                detail.as_str(),
            ),
            DaemonError::ConfigWriteFailed { detail } => join(
                "Failed to save config: ",
                detail.as_str(),
            ),
            DaemonError::ProtocolDecodeFailed { detail } => join(
                "Invalid request: ",
                detail.as_str(),
            ),
        }
    }
}

/// The acknowledgement for a fan that has come under `assignment`.
fn assigned_text(fan_id: &String, assignment: &FanAssignment) -> (text: String)
    ensures
        text@ == assigned_message(fan_id@, assignment@),
{
    match assignment {
        FanAssignment::Auto => join3("Restored ", fan_id.as_str(), " to automatic control"),
        FanAssignment::Manual { pwm } => {
            let mut out = join3("Set ", fan_id.as_str(), " to manual PWM ");
            push_decimal(&mut out, *pwm as u64);
            out
        },
        FanAssignment::Curve { curve_name, temp_sensor_id } => {
            let mut out = join3("Assigned curve '", curve_name.as_str(), "' to ");
            out.append(fan_id.as_str());
            out
        },
    }
}

/// The response that answers a request with the given outcome.
pub fn respond(outcome: Result<Success, DaemonError>) -> (response: Response)
    ensures
        response@ == response_of(outcome_view(outcome)),
{
    match outcome {
        Ok(Success::Status { fans, temps, assignments }) => Response::Status {
            fans,
            temps,
            assignments,
        },
        Ok(Success::Curves { curves }) => Response::Curves { curves },
        Ok(Success::Assigned { fan_id, assignment }) => Response::Ack {
            message: assigned_text(&fan_id, &assignment),
        },
        Ok(Success::CurveSaved { name }) => Response::Ack {
            message: join3("Curve '", name.as_str(), "' saved"),
        },
        Ok(Success::CurveDeleted { name }) => Response::Ack {
            message: join3("Deleted curve '", name.as_str(), "'"),
        },
        Ok(Success::ConfigSaved { path }) => Response::Ack {
            message: join("Config saved to ", path.as_str()),
        },
        Ok(Success::ConfigReloaded) => Response::Ack {
            message: String::from_str("Config reloaded"),
        },
        Ok(Success::Acknowledged) => Response::Ack { message: String::from_str("Acknowledged") },
        Err(error) => Response::Error { message: error.message() },
    }
}

/// The duty that the curve named `curve_name` gives at the temperature of
/// `sensor_id`; `None` where no curve has that name or the sensor has no
/// reading.
pub open spec fn curve_duty(
    curves: Seq<FanCurveView>,
    temps: Map<Seq<char>, i64>,
    curve_name: Seq<char>,
    sensor_id: Seq<char>,
) -> Option<u8> {
    let at = first_match(curve_names(curves), curve_name, 0);
    if at < curves.len() && temps.contains_key(sensor_id) {
        Some(interpolated(curves[at].points, temps[sensor_id] as int) as u8)
    } else {
        None
    }
}

/// What brings `fan` under `assignment`: firmware control for an automatic
/// fan; manual mode and the duty for a manual one; for a fan on a curve
/// manual mode and, where curve and temperature are known, the duty that
/// the curve gives now.
pub open spec fn reconcile_fan(
    fan: FanView,
    assignment: FanAssignmentView,
    curves: Seq<FanCurveView>,
    temps: Map<Seq<char>, i64>,
) -> FanCommandView {
    match assignment {
        FanAssignmentView::Auto => automatic_command(fan),
        FanAssignmentView::Manual { pwm } => manual_command(fan, pwm),
        FanAssignmentView::Curve { curve_name, temp_sensor_id } => match curve_duty(
            curves,
            temps,
            curve_name,
            temp_sensor_id,
        ) {
            Some(duty) => manual_command(fan, duty),
            None => enable_manual_command(fan),
        },
    }
}

/// The commands that apply `entries` to the hardware: one for each entry
/// whose fan is among `fans`, in the order of the entries. An entry for a
/// fan that was not discovered asks for nothing.
pub open spec fn reconciliation(
    fans: Seq<FanView>,
    curves: Seq<FanCurveView>,
    temps: Map<Seq<char>, i64>,
    entries: Seq<FanAssignmentInfoView>,
) -> Seq<FanCommandView>
    decreases entries.len(),
{
    if entries.len() == 0 {
        Seq::empty()
    } else {
        let earlier = reconciliation(fans, curves, temps, entries.drop_last());
        let entry = entries.last();
        let at = first_match(fan_ids(fans), entry.fan_id, 0);
        if at < fans.len() {
            earlier.push(reconcile_fan(fans[at], entry.assignment, curves, temps))
        } else {
            earlier
        }
    }
}

/// What a tick writes for one entry: the duty that its curve gives now,
/// for an entry on a curve whose curve, temperature and fan are all known;
/// nothing otherwise.
pub open spec fn tick_fan(
    fans: Seq<FanView>,
    curves: Seq<FanCurveView>,
    temps: Map<Seq<char>, i64>,
    entry: FanAssignmentInfoView,
) -> Option<FanCommandView> {
    match entry.assignment {
        FanAssignmentView::Curve { curve_name, temp_sensor_id } => {
            let at = first_match(fan_ids(fans), entry.fan_id, 0);
            match curve_duty(curves, temps, curve_name, temp_sensor_id) {
                Some(duty) => if at < fans.len() {
                    Some(duty_command(fans[at], duty))
                } else {
                    None
                },
                None => None,
            }
        },
        _ => None,
    }
}

/// The commands of one scheduler tick, in the order of `entries`.
pub open spec fn tick_commands(
    fans: Seq<FanView>,
    curves: Seq<FanCurveView>,
    temps: Map<Seq<char>, i64>,
    entries: Seq<FanAssignmentInfoView>,
) -> Seq<FanCommandView>
    decreases entries.len(),
{
    if entries.len() == 0 {
        Seq::empty()
    } else {
        let earlier = tick_commands(fans, curves, temps, entries.drop_last());
        match tick_fan(fans, curves, temps, entries.last()) {
            Some(command) => earlier.push(command),
            None => earlier,
        }
    }
}

/// The duty that the curve named `curve_name` gives at the temperature
/// that `temps` holds for `sensor_id`.
fn duty_now(curves: &Vec<FanCurve>, temps: &TempMap, curve_name: &String, sensor_id: &String) -> (r:
    Option<u8>)
    ensures
        r == curve_duty(curves.deep_view(), temps@, curve_name@, sensor_id@),
{
    match find_curve(curves, curve_name) {
        Some(at) => {
            assert(curves.deep_view()[at as int] == curves@[at as int]@);
            match temps.get(sensor_id) {
                Some(temp) => {
                    proof {
                        lemma_interpolated_in_range(curves@[at as int].points@, temp as int);
                    }
                    Some(curves[at].interpolate(temp))
                },
                None => None,
            }
        },
        None => None,
    }
}

/// The command that brings `fan` under `assignment`.
fn reconcile(fan: &Fan, assignment: &FanAssignment, curves: &Vec<FanCurve>, temps: &TempMap) -> (r:
    FanCommand)
    ensures
        r@ == reconcile_fan(fan@, assignment@, curves.deep_view(), temps@),
{
    match assignment {
        FanAssignment::Auto => restore_automatic(fan),
        FanAssignment::Manual { pwm } => set_manual_pwm(fan, *pwm),
        FanAssignment::Curve { curve_name, temp_sensor_id } => {
            match duty_now(curves, temps, curve_name, temp_sensor_id) {
                Some(duty) => set_manual_pwm(fan, duty),
                None => enable_manual(fan),
            }
        },
    }
}

/// Apply the assignments of `config` to the hardware, at startup and on
/// every reload: the commands to carry out, one per assigned fan that was
/// discovered. Each command is to be tried whether or not the others
/// succeed. `temp_readings` holds what the input file of each sensor
/// reads, in the order of `sensors`.
pub fn apply_assignments(
    fans: &Vec<Fan>,
    sensors: &Vec<TempSensor>,
    temp_readings: &Vec<Option<String>>,
    config: &Config,
) -> (commands: Vec<FanCommand>)
    ensures
        commands.deep_view() == reconciliation(
            fans.deep_view(),
            config.curves.deep_view(),
            temp_map_of(sensors.deep_view(), temp_readings.deep_view()),
            config.fans.order(),
        ),
{
    let temps = read_temp_map(sensors, temp_readings);
    let entries = config.fans.entries();
    let ghost order = config.fans.order();
    let mut out: Vec<FanCommand> = Vec::new();
    let mut i: usize = 0;
    assert(order.subrange(0, 0) =~= Seq::<FanAssignmentInfoView>::empty());
    assert(out.deep_view() =~= Seq::<FanCommandView>::empty());
    while i < entries.len()
        invariant
            i <= entries@.len(),
            order == entries.deep_view(),
            out.deep_view() == reconciliation(
                fans.deep_view(),
                config.curves.deep_view(),
                temps@,
                order.subrange(0, i as int),
            ),
        decreases entries@.len() - i,
    {
        let entry = &entries[i];
        let ghost before = out.deep_view();
        let ghost prev = out@;
        proof {
            let next = order.subrange(0, i + 1);
            assert(next.drop_last() =~= order.subrange(0, i as int));
            assert(next.last() == entry@);
        }
        if let Some(fan) = find_fan(fans, &entry.fan_id) {
            let command = reconcile(fan, &entry.assignment, &config.curves, &temps);
            out.push(command);
            proof {
                assert(out.deep_view() =~= before.push(command@)) by {
                    assert forall|j: int| 0 <= j < prev.len() implies out.deep_view()[j]
                        == before[j] by {
                        assert(out@[j] == prev[j]);
                    }
                }
            }
        }
        i += 1;
    }
    assert(order.subrange(0, i as int) =~= order);
    out
}

/// One tick of the curve engine: the duty to write for every fan that is
/// on a curve, from the temperatures that the sensors read now. A fan
/// whose curve, sensor reading or hardware is missing is left at the duty
/// it has. Each command is to be tried whether or not the others succeed.
pub fn run_curve_engine(st: &DaemonState, temp_readings: &Vec<Option<String>>) -> (commands: Vec<
    FanCommand,
>)
    ensures
        commands.deep_view() == tick_commands(
            st.fans.deep_view(),
            st.config.curves.deep_view(),
            temp_map_of(st.sensors.deep_view(), temp_readings.deep_view()),
            st.config.fans.order(),
        ),
{
    let temps = read_temp_map(&st.sensors, temp_readings);
    let entries = st.config.fans.entries();
    let ghost order = st.config.fans.order();
    let mut out: Vec<FanCommand> = Vec::new();
    let mut i: usize = 0;
    assert(order.subrange(0, 0) =~= Seq::<FanAssignmentInfoView>::empty());
    assert(out.deep_view() =~= Seq::<FanCommandView>::empty());
    while i < entries.len()
        invariant
            i <= entries@.len(),
            order == entries.deep_view(),
            out.deep_view() == tick_commands(
                st.fans.deep_view(),
                st.config.curves.deep_view(),
                temps@,
                order.subrange(0, i as int),
            ),
        decreases entries@.len() - i,
    {
        let entry = &entries[i];
        let ghost before = out.deep_view();
        let ghost prev = out@;
        proof {
            let next = order.subrange(0, i + 1);
            assert(next.drop_last() =~= order.subrange(0, i as int));
            assert(next.last() == entry@);
        }
        if let FanAssignment::Curve { curve_name, temp_sensor_id } = &entry.assignment {
            if let Some(duty) = duty_now(&st.config.curves, &temps, curve_name, temp_sensor_id) {
                if let Some(fan) = find_fan(&st.fans, &entry.fan_id) {
                    let command = write_duty(fan, duty);
                    out.push(command);
                    proof {
                        assert(out.deep_view() =~= before.push(command@)) by {
                            assert forall|j: int| 0 <= j < prev.len() implies out.deep_view()[j]
                                == before[j] by {
                                assert(out@[j] == prev[j]);
                            }
                        }
                    }
                }
            }
        }
        i += 1;
    }
    assert(order.subrange(0, i as int) =~= order);
    out
}

/// A hardware write that a request waits on, and the assignment that the
/// table takes once the write has succeeded.
#[derive(Debug, PartialEq, Eq)]
pub struct PendingWrite {
    pub command: FanCommand,
    pub assignment: FanAssignment,
}

/// What a [`PendingWrite`] holds, as mathematical values.
pub struct PendingWriteView {
    pub command: FanCommandView,
    pub assignment: FanAssignmentView,
}

impl View for PendingWrite {
    type V = PendingWriteView;

    open spec fn view(&self) -> PendingWriteView {
        PendingWriteView { command: self.command@, assignment: self.assignment@ }
    }
}

/// How far a request has come: either it is answered, or its answer waits
/// on something that only the caller can do.
#[derive(Debug)]
pub enum Step {
    /// The request is answered, and the state holds what it changed.
    Finished(Result<Success, DaemonError>),
    /// Read the files of every fan and sensor, then call
    /// [`finish_status`].
    ReadHardware,
    /// Carry out the command, then call [`finish_write`] with what came of
    /// it.
    Write(PendingWrite),
    /// Write `config` to the file at `path`, then call [`finish_save`].
    SaveConfig { path: String, config: Config },
    /// Load the configuration from the file at `path` and read the
    /// sensors, then call [`finish_reload`].
    LoadConfig { path: String },
}

/// What a [`Step`] holds, as mathematical values.
pub enum StepView {
    Finished(Result<SuccessView, DaemonErrorView>),
    ReadHardware,
    Write(PendingWriteView),
    SaveConfig { path: Seq<char>, config: ConfigView },
    LoadConfig { path: Seq<char> },
}

impl View for Step {
    type V = StepView;

    open spec fn view(&self) -> StepView {
        match self {
            Step::Finished(outcome) => StepView::Finished(outcome_view(*outcome)),
            Step::ReadHardware => StepView::ReadHardware,
            Step::Write(pending) => StepView::Write(pending@),
            Step::SaveConfig { path, config } => StepView::SaveConfig {
                path: path@,
                config: config@,
            },
            Step::LoadConfig { path } => StepView::LoadConfig { path: path@ },
        }
    }
}

/// The hardware command with which a request puts `fan` under
/// `assignment`. A fan that goes on a curve is only put into manual mode:
/// its duty comes with the next tick.
pub open spec fn request_command(fan: FanView, assignment: FanAssignmentView) -> FanCommandView {
    match assignment {
        FanAssignmentView::Auto => automatic_command(fan),
        FanAssignmentView::Manual { pwm } => manual_command(fan, pwm),
        FanAssignmentView::Curve { curve_name, temp_sensor_id } => enable_manual_command(fan),
    }
}

/// The step of a request that puts the fan `fan_id` under `assignment`: the
/// write for the first fan of that id, or the error for a fan that was not
/// discovered.
pub open spec fn assignment_step(
    fans: Seq<FanView>,
    fan_id: Seq<char>,
    assignment: FanAssignmentView,
) -> StepView {
    let at = first_match(fan_ids(fans), fan_id, 0);
    if at < fans.len() {
        StepView::Write(
            PendingWriteView { command: request_command(fans[at], assignment), assignment },
        )
    } else {
        StepView::Finished(Err(DaemonErrorView::UnknownFan { fan_id }))
    }
}

/// `curves` with `curve` in the place of the first curve of its name, or at
/// the end where no curve has that name.
pub open spec fn upserted(curves: Seq<FanCurveView>, curve: FanCurveView) -> Seq<FanCurveView> {
    let at = first_match(curve_names(curves), curve.name, 0);
    if at < curves.len() {
        curves.update(at, curve)
    } else {
        curves.push(curve)
    }
}

/// `curves` without the curves named `name`, the others in their order.
pub open spec fn without_name(curves: Seq<FanCurveView>, name: Seq<char>) -> Seq<FanCurveView>
    decreases curves.len(),
{
    if curves.len() == 0 {
        curves
    } else {
        let kept = without_name(curves.drop_last(), name);
        if curves.last().name == name {
            kept
        } else {
            kept.push(curves.last())
        }
    }
}

/// The curve that a request to save `points` under `name` stores: the
/// points sorted by temperature.
pub open spec fn curve_to_save(name: Seq<char>, points: Seq<CurvePoint>) -> FanCurveView {
    FanCurveView { name, points: sorted_by_temp(points) }
}

/// The curves of the configuration once `request` has been handled.
pub open spec fn curves_after(curves: Seq<FanCurveView>, request: RequestView) -> Seq<
    FanCurveView,
> {
    match request {
        RequestView::UpsertCurve { name, points } => if validation_failure(sorted_by_temp(points))
            is None {
            upserted(curves, curve_to_save(name, points))
        } else {
            curves
        },
        RequestView::DeleteCurve { name } => without_name(curves, name),
        _ => curves,
    }
}

/// How far handling `request` comes in `state` without touching the
/// world.
pub open spec fn step_of(state: DaemonStateView, request: RequestView) -> StepView {
    match request {
        RequestView::GetStatus => StepView::ReadHardware,
        RequestView::SetManual { fan_id, pwm } => assignment_step(
            state.fans,
            fan_id,
            FanAssignmentView::Manual { pwm },
        ),
        RequestView::SetCurve { fan_id, curve_name, temp_sensor_id } => if !has_name(
            curve_names(state.config.curves),
            curve_name,
        ) {
            StepView::Finished(Err(DaemonErrorView::UnknownCurve { curve_name }))
        } else if !has_name(sensor_ids(state.sensors), temp_sensor_id) {
            StepView::Finished(Err(DaemonErrorView::UnknownSensor { temp_sensor_id }))
        } else {
            assignment_step(
                state.fans,
                fan_id,
                FanAssignmentView::Curve { curve_name, temp_sensor_id },
            )
        },
        RequestView::SetAuto { fan_id } => assignment_step(
            state.fans,
            fan_id,
            FanAssignmentView::Auto,
        ),
        RequestView::ListCurves => StepView::Finished(
            Ok(SuccessView::Curves { curves: state.config.curves }),
        ),
        RequestView::UpsertCurve { name, points } => match validation_failure(
            sorted_by_temp(points),
        ) {
            Some(reason) => StepView::Finished(Err(DaemonErrorView::InvalidCurve { reason })),
            None => StepView::Finished(Ok(SuccessView::CurveSaved { name })),
        },
        RequestView::DeleteCurve { name } => if has_name(curve_names(state.config.curves), name) {
            StepView::Finished(Ok(SuccessView::CurveDeleted { name }))
        } else {
            StepView::Finished(Err(DaemonErrorView::CurveNotFound { name }))
        },
        RequestView::SaveConfig => StepView::SaveConfig {
            path: state.config_path,
            config: state.config,
        },
        RequestView::ReloadConfig => StepView::LoadConfig { path: state.config_path },
        RequestView::Subscribe => StepView::Finished(Ok(SuccessView::Acknowledged)),
        RequestView::Unsubscribe => StepView::Finished(Ok(SuccessView::Acknowledged)),
    }
}

/// `state` with `curves` for its curves.
pub open spec fn with_curves(state: DaemonStateView, curves: Seq<FanCurveView>) -> DaemonStateView {
    DaemonStateView {
        config: ConfigView { daemon: state.config.daemon, curves, fans: state.config.fans },
        fans: state.fans,
        sensors: state.sensors,
        config_path: state.config_path,
    }
}

/// `state` with `fan_id` under `assignment`.
pub open spec fn with_assignment(
    state: DaemonStateView,
    fan_id: Seq<char>,
    assignment: FanAssignmentView,
) -> DaemonStateView {
    DaemonStateView {
        config: ConfigView {
            daemon: state.config.daemon,
            curves: state.config.curves,
            fans: state.config.fans.insert(fan_id, assignment),
        },
        fans: state.fans,
        sensors: state.sensors,
        config_path: state.config_path,
    }
}

/// Removing a name that no curve has changes nothing, and removing one
/// that a curve has leaves fewer curves.
pub proof fn lemma_without_name(curves: Seq<FanCurveView>, name: Seq<char>)
    ensures
        !has_name(curve_names(curves), name) ==> without_name(curves, name) == curves,
        has_name(curve_names(curves), name) ==> without_name(curves, name).len() < curves.len(),
        without_name(curves, name).len() <= curves.len(),
        !has_name(curve_names(without_name(curves, name)), name),
    decreases curves.len(),
{
    let names = curve_names(curves);
    crate::text::lemma_has_name(names, name);
    let kept_all = without_name(curves, name);
    crate::text::lemma_has_name(curve_names(kept_all), name);
    if curves.len() > 0 {
        let front = curves.drop_last();
        lemma_without_name(front, name);
        crate::text::lemma_has_name(curve_names(front), name);
        let kept = without_name(front, name);
        crate::text::lemma_has_name(curve_names(kept), name);
        assert(curve_names(front) =~= names.drop_last());
        assert(names.last() == curves.last().name);
        if curves.last().name == name {
            assert(names[names.len() - 1] == name);
        } else {
            assert(kept_all == kept.push(curves.last()));
            if names.contains(name) {
                let i = choose|i: int| 0 <= i < names.len() && names[i] == name;
                assert(curve_names(front)[i] == name);
            } else {
                if curve_names(front).contains(name) {
                    let i = choose|i: int|
                        0 <= i < curve_names(front).len() && curve_names(front)[i] == name;
                    assert(names[i] == name);
                }
                assert(kept.push(curves.last()) =~= curves);
            }
            if curve_names(kept_all).contains(name) {
                let i = choose|i: int|
                    0 <= i < curve_names(kept_all).len() && curve_names(kept_all)[i] == name;
                if i < kept.len() {
                    assert(curve_names(kept)[i] == name);
                }
            }
        }
    }
}

/// The first step of putting the fan `fan_id` under `assignment`.
fn begin_assignment(fans: &Vec<Fan>, fan_id: String, assignment: FanAssignment) -> (step: Step)
    ensures
        step@ == assignment_step(fans.deep_view(), fan_id@, assignment@),
{
    match find_fan(fans, &fan_id) {
        Some(fan) => {
            let command = match &assignment {
                FanAssignment::Auto => restore_automatic(fan),
                FanAssignment::Manual { pwm } => set_manual_pwm(fan, *pwm),
                FanAssignment::Curve { curve_name, temp_sensor_id } => enable_manual(fan),
            };
            Step::Write(PendingWrite { command, assignment })
        },
        None => Step::Finished(Err(DaemonError::UnknownFan { fan_id })),
    }
}

/// Puts `curve` in the place of the first curve of its name, or at the
/// end.
fn upsert_curve(curves: &mut Vec<FanCurve>, curve: FanCurve)
    ensures
        final(curves).deep_view() == upserted(old(curves).deep_view(), curve@),
{
    let ghost before = curves.deep_view();
    let ghost prev = curves@;
    match find_curve(curves, &curve.name) {
        Some(at) => {
            curves.set(at, curve);
            assert(curves.deep_view() =~= before.update(at as int, curve@)) by {
                assert forall|j: int| 0 <= j < prev.len() && j != at implies curves.deep_view()[j]
                    == before[j] by {
                    assert(curves@[j] == prev[j]);
                }
            }
        },
        None => {
            curves.push(curve);
            assert(curves.deep_view() =~= before.push(curve@)) by {
                assert forall|j: int| 0 <= j < prev.len() implies curves.deep_view()[j]
                    == before[j] by {
                    assert(curves@[j] == prev[j]);
                }
            }
        },
    }
}

/// The curves of `curves` that are not named `name`.
fn curves_without(curves: &Vec<FanCurve>, name: &String) -> (kept: Vec<FanCurve>)
    ensures
        kept.deep_view() == without_name(curves.deep_view(), name@),
{
    let ghost all = curves.deep_view();
    let mut kept: Vec<FanCurve> = Vec::new();
    let mut i: usize = 0;
    assert(all.subrange(0, 0) =~= Seq::<FanCurveView>::empty());
    assert(kept.deep_view() =~= Seq::<FanCurveView>::empty());
    while i < curves.len()
        invariant
            i <= curves@.len(),
            all == curves.deep_view(),
            kept.deep_view() == without_name(all.subrange(0, i as int), name@),
        decreases curves@.len() - i,
    {
        let ghost before = kept.deep_view();
        let ghost prev = kept@;
        proof {
            let next = all.subrange(0, i + 1);
            assert(next.drop_last() =~= all.subrange(0, i as int));
            assert(next.last() == curves@[i as int]@);
        }
        if curves[i].name != *name {
            let curve = curves[i].clone();
            kept.push(curve);
            assert(kept.deep_view() =~= before.push(curve@)) by {
                assert forall|j: int| 0 <= j < prev.len() implies kept.deep_view()[j]
                    == before[j] by {
                    assert(kept@[j] == prev[j]);
                }
            }
        }
        i += 1;
    }
    assert(all.subrange(0, i as int) =~= all);
    kept
}

/// Handle one request as far as the state alone decides it.
///
/// A request about curves, or one that names a curve, sensor or fan that
/// does not exist, is answered at once. A request that needs the hardware
/// or the configuration file comes back as the step to perform; the state
/// is then changed by the function that finishes the request, and only if
/// the step succeeded. To assign a curve, the curve is looked up first,
/// then the sensor, then the fan, and the first that is missing is the
/// error.
pub fn process_request(req: Request, st: &mut DaemonState) -> (step: Step)
    ensures
        step@ == step_of(old(st)@, req@),
        final(st)@ == with_curves(old(st)@, curves_after(old(st)@.config.curves, req@)),
        final(st).config.fans == old(st).config.fans,
        !(req is UpsertCurve || req is DeleteCurve) ==> *final(st) == *old(st),
        req is DeleteCurve && !has_name(curve_names(old(st)@.config.curves), req->DeleteCurve_name@)
            ==> *final(st) == *old(st),
{
    match req {
        Request::GetStatus => Step::ReadHardware,
        Request::SetManual { fan_id, pwm } => begin_assignment(
            &st.fans,
            fan_id,
            FanAssignment::Manual { pwm },
        ),
        Request::SetCurve { fan_id, curve_name, temp_sensor_id } => {
            if find_curve(&st.config.curves, &curve_name).is_none() {
                return Step::Finished(Err(DaemonError::UnknownCurve { curve_name }));
            }
            if !has_sensor(&st.sensors, &temp_sensor_id) {
                return Step::Finished(Err(DaemonError::UnknownSensor { temp_sensor_id }));
            }
            begin_assignment(&st.fans, fan_id, FanAssignment::Curve { curve_name, temp_sensor_id })
        },
        Request::SetAuto { fan_id } => begin_assignment(&st.fans, fan_id, FanAssignment::Auto),
        Request::ListCurves => Step::Finished(
            Ok(Success::Curves { curves: clone_curves(&st.config.curves) }),
        ),
        Request::UpsertCurve { name, points } => {
            proof {
                lemma_sorted_by_temp(points@);
                lemma_sorted_of_ordered(sorted_by_temp(points@));
            }
            let curve = FanCurve::new(name.clone(), points);
            match curve.validate() {
                Err(reason) => Step::Finished(Err(DaemonError::InvalidCurve { reason })),
                Ok(_) => {
                    upsert_curve(&mut st.config.curves, curve);
                    Step::Finished(Ok(Success::CurveSaved { name }))
                },
            }
        },
        Request::DeleteCurve { name } => {
            proof {
                lemma_without_name(st.config.curves.deep_view(), name@);
            }
            if find_curve(&st.config.curves, &name).is_none() {
                return Step::Finished(Err(DaemonError::CurveNotFound { name }));
            }
            let kept = curves_without(&st.config.curves, &name);
            st.config.curves = kept;
            Step::Finished(Ok(Success::CurveDeleted { name }))
        },
        Request::SaveConfig => Step::SaveConfig {
            path: st.config_path.clone(),
            config: st.config.clone(),
        },
        Request::ReloadConfig => Step::LoadConfig { path: st.config_path.clone() },
        Request::Subscribe => Step::Finished(Ok(Success::Acknowledged)),
        Request::Unsubscribe => Step::Finished(Ok(Success::Acknowledged)),
    }
}

/// Which hardware write brings a fan under `assignment`.
pub open spec fn write_kind_of(assignment: FanAssignmentView) -> WriteKind {
    match assignment {
        FanAssignmentView::Auto => WriteKind::RestoreAuto,
        FanAssignmentView::Manual { pwm } => WriteKind::SetPwm,
        FanAssignmentView::Curve { curve_name, temp_sensor_id } => WriteKind::EnableManual,
    }
}

/// Answer a status request from what the files of the fans and sensors
/// read: `fan_readings` in the order of the state's fans, `temp_readings`
/// in the order of its sensors. The assignments are listed once per fan.
pub fn finish_status(
    st: &DaemonState,
    fan_readings: &Vec<FanReading>,
    temp_readings: &Vec<Option<String>>,
) -> (outcome: Result<Success, DaemonError>)
    ensures
        outcome_view(outcome) == Ok::<SuccessView, DaemonErrorView>(
            SuccessView::Status {
                fans: fan_statuses_of(st.fans.deep_view(), fan_readings.deep_view()),
                temps: temp_statuses_of(st.sensors.deep_view(), temp_readings.deep_view()),
                assignments: st.config.fans.order(),
            },
        ),
        crate::config::distinct_ids(st.config.fans.order()),
{
    let fans = read_all_fan_statuses(&st.fans, fan_readings);
    let temps = read_all_temp_statuses(&st.sensors, temp_readings);
    let entries = st.config.fans.entries();
    let mut assignments: Vec<FanAssignmentInfo> = Vec::new();
    let mut i: usize = 0;
    while i < entries.len()
        invariant
            i <= entries@.len(),
            assignments@.len() == i,
            forall|j: int| 0 <= j < i ==> (#[trigger] assignments@[j])@ == entries@[j]@,
        decreases entries@.len() - i,
    {
        assignments.push(entries[i].clone());
        i += 1;
    }
    assert(assignments.deep_view() =~= entries.deep_view());
    Ok(Success::Status { fans, temps, assignments })
}

/// Finish a request that waited on a hardware write. If the write
/// succeeded the fan is under the new assignment, in place of any it had;
/// if it failed nothing has changed.
pub fn finish_write(st: &mut DaemonState, pending: PendingWrite, written: Result<(), String>) -> (outcome:
    Result<Success, DaemonError>)
    ensures
        match written {
            Ok(_) => {
                &&& final(st)@ == with_assignment(
                    old(st)@,
                    pending.command.fan_id@,
                    pending.assignment@,
                )
                &&& outcome_view(outcome) == Ok::<SuccessView, DaemonErrorView>(
                    SuccessView::Assigned {
                        fan_id: pending.command.fan_id@,
                        assignment: pending.assignment@,
                    },
                )
            },
            Err(detail) => {
                &&& *final(st) == *old(st)
                &&& outcome_view(outcome) == Err::<SuccessView, DaemonErrorView>(
                    DaemonErrorView::HardwareWriteFailed {
                        kind: write_kind_of(pending.assignment@),
                        detail: detail@,
                    },
                )
            },
        },
{
    match written {
        Ok(_) => {
            let fan_id = pending.command.fan_id;
            st.config.fans.insert(fan_id.clone(), pending.assignment.clone());
            Ok(Success::Assigned { fan_id, assignment: pending.assignment })
        },
        Err(detail) => {
            let kind = match &pending.assignment {
                FanAssignment::Auto => WriteKind::RestoreAuto,
                FanAssignment::Manual { pwm } => WriteKind::SetPwm,
                FanAssignment::Curve { curve_name, temp_sensor_id } => WriteKind::EnableManual,
            };
            Err(DaemonError::HardwareWriteFailed { kind, detail })
        },
    }
}

/// Finish a request to save the configuration, from what came of writing
/// the file.
pub fn finish_save(st: &DaemonState, saved: Result<(), String>) -> (outcome: Result<
    Success,
    DaemonError,
>)
    ensures
        outcome_view(outcome) == (match saved {
            Ok(_) => Ok::<SuccessView, DaemonErrorView>(
                SuccessView::ConfigSaved { path: st.config_path@ },
            ),
            Err(detail) => Err(DaemonErrorView::ConfigWriteFailed { detail: detail@ }),
        }),
{
    match saved {
        Ok(_) => Ok(Success::ConfigSaved { path: st.config_path.clone() }),
        Err(detail) => Err(DaemonError::ConfigWriteFailed { detail }),
    }
}

/// Finish a request to reload the configuration, from what came of loading
/// the file. A configuration that was loaded replaces the one in the
/// state, and the commands that apply it to the hardware come back with
/// the answer; they are to be carried out before the answer is sent. If
/// the file could not be read or parsed, the state is left exactly as it
/// was and nothing is to be written.
pub fn finish_reload(
    st: &mut DaemonState,
    loaded: Result<Config, String>,
    temp_readings: &Vec<Option<String>>,
) -> (r: (Result<Success, DaemonError>, Vec<FanCommand>))
    ensures
        match loaded {
            Ok(config) => {
                &&& final(st).config == config
                &&& final(st).fans == old(st).fans
                &&& final(st).sensors == old(st).sensors
                &&& final(st).config_path == old(st).config_path
                &&& outcome_view(r.0) == Ok::<SuccessView, DaemonErrorView>(
                    SuccessView::ConfigReloaded,
                )
                &&& r.1.deep_view() == reconciliation(
                    old(st).fans.deep_view(),
                    config.curves.deep_view(),
                    temp_map_of(old(st).sensors.deep_view(), temp_readings.deep_view()),
                    config.fans.order(),
                )
            },
            Err(detail) => {
                &&& *final(st) == *old(st)
                &&& outcome_view(r.0) == Err::<SuccessView, DaemonErrorView>(
                    DaemonErrorView::ConfigParseFailed { detail: detail@ },
                )
                &&& r.1@.len() == 0
            },
        },
{
    match loaded {
        Ok(config) => {
            let commands = apply_assignments(&st.fans, &st.sensors, temp_readings, &config);
            st.config = config;
            (Ok(Success::ConfigReloaded), commands)
        },
        Err(detail) => (Err(DaemonError::ConfigParseFailed { detail }), Vec::new()),
    }
}

/// The two states of the scheduler loop.
#[derive(Debug, Clone, Copy, PartialEq, Eq, Structural)]
pub enum SchedulerState {
    /// Ticks are being run.
    Running,
    /// Shutdown was observed; no tick begins any more.
    Stopped,
}

/// What the scheduler loop does next.
#[derive(Debug, Clone, Copy, PartialEq, Eq, Structural)]
pub enum SchedulerAction {
    /// Run one tick of the curve engine, then wait again.
    RunTick,
    /// Wait for the next tick or for shutdown.
    Wait,
    /// Leave the loop.
    Exit,
}

/// One turn of the scheduler loop: `tick_due` says that the interval has
/// elapsed, `shutdown` that the shutdown signal was observed. Shutdown
/// wins where both hold, and once stopped the loop stays stopped.
pub fn scheduler_step(state: SchedulerState, tick_due: bool, shutdown: bool) -> (r: (
    SchedulerState,
    SchedulerAction,
))
    ensures
        r == (if state == SchedulerState::Stopped || shutdown {
            (SchedulerState::Stopped, SchedulerAction::Exit)
        } else if tick_due {
            (SchedulerState::Running, SchedulerAction::RunTick)
        } else {
            (SchedulerState::Running, SchedulerAction::Wait)
        }),
{
    match state {
        SchedulerState::Stopped => (SchedulerState::Stopped, SchedulerAction::Exit),
        SchedulerState::Running => {
            if shutdown {
                (SchedulerState::Stopped, SchedulerAction::Exit)
            } else if tick_due {
                (SchedulerState::Running, SchedulerAction::RunTick)
            } else {
                (SchedulerState::Running, SchedulerAction::Wait)
            }
        },
    }
}

/// What happened on a client connection.
#[derive(Debug, PartialEq, Eq)]
pub enum ClientEvent {
    /// A line was read.
    Line { text: String },
    /// The stream ended, or reading from it failed.
    ReadEnded,
    /// The body of the line was decoded into a request, or could not be.
    Decoded { request: Result<Request, String> },
    /// The response was serialised, or could not be.
    Encoded { body: Result<String, String> },
    /// The response line was written, or could not be.
    Written { ok: bool },
}

/// What a [`ClientEvent`] holds, as mathematical values.
pub enum ClientEventView {
    Line { text: Seq<char> },
    ReadEnded,
    Decoded { request: Result<RequestView, Seq<char>> },
    Encoded { body: Result<Seq<char>, Seq<char>> },
    Written { ok: bool },
}

impl View for ClientEvent {
    type V = ClientEventView;

    open spec fn view(&self) -> ClientEventView {
        match self {
            ClientEvent::Line { text } => ClientEventView::Line { text: text@ },
            ClientEvent::ReadEnded => ClientEventView::ReadEnded,
            ClientEvent::Decoded { request } => ClientEventView::Decoded {
                request: match request {
                    Ok(req) => Ok(req@),
                    Err(detail) => Err(detail@),
                },
            },
            ClientEvent::Encoded { body } => ClientEventView::Encoded {
                body: match body {
                    Ok(text) => Ok(text@),
                    Err(detail) => Err(detail@),
                },
            },
            ClientEvent::Written { ok } => ClientEventView::Written { ok: *ok },
        }
    }
}

/// What to do next on a client connection.
#[derive(Debug, PartialEq, Eq)]
pub enum ClientAction {
    /// Decode `body` into a request.
    Decode { body: String },
    /// Handle the request under the state lock.
    Dispatch { request: Request },
    /// Answer with the response of `outcome`.
    Answer { outcome: Result<Success, DaemonError> },
    /// Write `line` to the client.
    Send { line: String },
    /// Read the next line.
    ReadNext,
    /// End the connection, silently.
    Close,
}

/// What a [`ClientAction`] holds, as mathematical values.
pub enum ClientActionView {
    Decode { body: Seq<char> },
    Dispatch { request: RequestView },
    Answer { outcome: Result<SuccessView, DaemonErrorView> },
    Send { line: Seq<char> },
    ReadNext,
    Close,
}

impl View for ClientAction {
    type V = ClientActionView;

    open spec fn view(&self) -> ClientActionView {
        match self {
            ClientAction::Decode { body } => ClientActionView::Decode { body: body@ },
            ClientAction::Dispatch { request } => ClientActionView::Dispatch { request: request@ },
            ClientAction::Answer { outcome } => ClientActionView::Answer {
                outcome: outcome_view(*outcome),
            },
            ClientAction::Send { line } => ClientActionView::Send { line: line@ },
            ClientAction::ReadNext => ClientActionView::ReadNext,
            ClientAction::Close => ClientActionView::Close,
        }
    }
}

/// What follows `event` on a client connection.
///
/// A line is trimmed and decoded. A request goes to the dispatcher; a line
/// that is no request is answered with an error and the connection goes
/// on. A serialised response is sent as one line; one that could not be
/// serialised is dropped and the next line read. A failed read or write
/// ends the connection.
pub open spec fn client_action(event: ClientEventView) -> ClientActionView {
    match event {
        ClientEventView::Line { text } => ClientActionView::Decode {
            body: crate::text::trimmed(text),
        },
        ClientEventView::ReadEnded => ClientActionView::Close,
        ClientEventView::Decoded { request: Ok(request) } => ClientActionView::Dispatch {
            request,
        },
        ClientEventView::Decoded { request: Err(detail) } => ClientActionView::Answer {
            outcome: Err(DaemonErrorView::ProtocolDecodeFailed { detail }),
        },
        ClientEventView::Encoded { body: Ok(text) } => ClientActionView::Send {
            line: crate::protocol::framed(text),
        },
        ClientEventView::Encoded { body: Err(detail) } => ClientActionView::ReadNext,
        ClientEventView::Written { ok } => if ok {
            ClientActionView::ReadNext
        } else {
            ClientActionView::Close
        },
    }
}

/// Serve one client connection, one event at a time: what to do after
/// `event`.
pub fn handle_client(event: ClientEvent) -> (action: ClientAction)
    ensures
        action@ == client_action(event@),
{
    match event {
        ClientEvent::Line { text } => {
            let body = crate::protocol::decode(text.as_str());
            ClientAction::Decode { body: String::from_str(body) }
        },
        ClientEvent::ReadEnded => ClientAction::Close,
        ClientEvent::Decoded { request } => match request {
            Ok(request) => ClientAction::Dispatch { request },
            Err(detail) => ClientAction::Answer {
                outcome: Err(DaemonError::ProtocolDecodeFailed { detail }),
            },
        },
        ClientEvent::Encoded { body } => match body {
            Ok(text) => ClientAction::Send { line: crate::protocol::encode(text.as_str()) },
            Err(_) => ClientAction::ReadNext,
        },
        ClientEvent::Written { ok } => {
            if ok {
                ClientAction::ReadNext
            } else {
                ClientAction::Close
            }
        },
    }
}

/// What shutdown asks of the hardware: every discovered fan back to
/// automatic control where `restore_on_exit` is set, nothing otherwise.
/// Each command is to be tried whether or not the others succeed.
pub fn shutdown_commands(restore_on_exit: bool, fans: &Vec<Fan>) -> (commands: Vec<FanCommand>)
    ensures
        commands.deep_view() == (if restore_on_exit {
            fans.deep_view().map_values(|fan: FanView| automatic_command(fan))
        } else {
            Seq::empty()
        }),
{
    if restore_on_exit {
        restore_all_automatic(fans)
    } else {
        let none: Vec<FanCommand> = Vec::new();
        assert(none.deep_view() =~= Seq::<FanCommandView>::empty());
        none
    }
}

/// The socket path to listen on: the one given on the command line, or
/// else the configured one.
pub fn resolve_socket_path(cli_socket: Option<String>, config: &Config) -> (path: String)
    ensures
        path@ == (match cli_socket {
            Some(given) => given@,
            None => config.daemon.socket_path@,
        }),
{
    match cli_socket {
        Some(given) => given,
        None => config.daemon.socket_path.clone(),
    }
}

/// Saving a curve and then listing the curves gives back, under the
/// curve's name, the points that were saved, sorted by ascending
/// temperature: the same points, none added or dropped.
pub proof fn lemma_upsert_then_list(state: DaemonStateView, name: Seq<char>, points: Seq<CurvePoint>)
    requires
        validation_failure(sorted_by_temp(points)) is None,
    ensures
        ({
            let upsert = RequestView::UpsertCurve { name, points };
            let after = with_curves(state, curves_after(state.config.curves, upsert));
            let listed = after.config.curves;
            let at = first_match(curve_names(listed), name, 0);
            &&& step_of(state, upsert) == StepView::Finished(Ok(SuccessView::CurveSaved { name }))
            &&& step_of(after, RequestView::ListCurves) == StepView::Finished(
                Ok(SuccessView::Curves { curves: listed }),
            )
            &&& 0 <= at < listed.len()
            &&& listed[at].name == name
            &&& listed[at].points == sorted_by_temp(points)
            &&& ordered(listed[at].points)
            &&& listed[at].points.to_multiset() == points.to_multiset()
        }),
{
    let curves = state.config.curves;
    let curve = curve_to_save(name, points);
    let listed = upserted(curves, curve);
    let found = first_match(curve_names(curves), name, 0);
    lemma_first_match(curve_names(curves), name, 0);
    lemma_first_match(curve_names(listed), name, 0);
    lemma_sorted_by_temp(points);
    if found < curves.len() {
        assert(curve_names(listed)[found] == name);
        assert forall|k: int| 0 <= k < found implies curve_names(listed)[k] != name by {
            assert(curve_names(curves)[k] != name);
        }
    } else {
        assert(curve_names(listed)[curves.len() as int] == name);
        assert forall|k: int| 0 <= k < curves.len() implies curve_names(listed)[k] != name by {
            assert(curve_names(curves)[k] != name);
        }
    }
    let at = first_match(curve_names(listed), name, 0);
    if at < found {
        assert(curve_names(listed)[at] == name);
    }
}

/// A request to assign a curve that does not exist fails for that reason,
/// whether or not the sensor and the fan exist, and changes nothing.
pub proof fn lemma_unknown_curve_first(
    state: DaemonStateView,
    fan_id: Seq<char>,
    curve_name: Seq<char>,
    temp_sensor_id: Seq<char>,
)
    requires
        !has_name(curve_names(state.config.curves), curve_name),
    ensures
        step_of(state, RequestView::SetCurve { fan_id, curve_name, temp_sensor_id })
            == StepView::Finished(Err(DaemonErrorView::UnknownCurve { curve_name })),
        with_curves(
            state,
            curves_after(
                state.config.curves,
                RequestView::SetCurve { fan_id, curve_name, temp_sensor_id },
            ),
        ) == state,
{
}

/// A request to delete a curve that does not exist fails for that reason
/// and leaves the curves as they were, as many as before.
pub proof fn lemma_delete_missing(state: DaemonStateView, name: Seq<char>)
    requires
        !has_name(curve_names(state.config.curves), name),
    ensures
        step_of(state, RequestView::DeleteCurve { name }) == StepView::Finished(
            Err(DaemonErrorView::CurveNotFound { name }),
        ),
        curves_after(state.config.curves, RequestView::DeleteCurve { name })
            == state.config.curves,
        with_curves(state, curves_after(state.config.curves, RequestView::DeleteCurve { name }))
            == state,
{
    lemma_without_name(state.config.curves, name);
}

/// The table after the assignments of `writes` have been made one after
/// the other, starting from `table`.
pub open spec fn assigned_all(
    table: Map<Seq<char>, FanAssignmentView>,
    writes: Seq<FanAssignmentInfoView>,
) -> Map<Seq<char>, FanAssignmentView>
    decreases writes.len(),
{
    if writes.len() == 0 {
        table
    } else {
        assigned_all(table, writes.drop_last()).insert(writes.last().fan_id, writes.last().assignment)
    }
}

/// No update is lost: when assignments for distinct fans are made one
/// after the other, in whatever order, the table ends up holding every one
/// of them, and every other fan keeps what it had.
pub proof fn lemma_no_lost_update(
    table: Map<Seq<char>, FanAssignmentView>,
    writes: Seq<FanAssignmentInfoView>,
)
    requires
        crate::config::distinct_ids(writes),
    ensures
        forall|i: int|
            0 <= i < writes.len() ==> assigned_all(table, writes).contains_key(
                (#[trigger] writes[i]).fan_id,
            ) && assigned_all(table, writes)[writes[i].fan_id] == writes[i].assignment,
        forall|id: Seq<char>|
            (forall|i: int| 0 <= i < writes.len() ==> (#[trigger] writes[i]).fan_id != id) ==> (
            #[trigger] assigned_all(table, writes).contains_key(id) == table.contains_key(id))
                && (table.contains_key(id) ==> assigned_all(table, writes)[id] == table[id]),
    decreases writes.len(),
{
    if writes.len() > 0 {
        let front = writes.drop_last();
        assert forall|i: int, j: int| 0 <= i < j < front.len() implies (#[trigger] front[i]).fan_id
            != (#[trigger] front[j]).fan_id by {
            assert(front[i] == writes[i] && front[j] == writes[j]);
        }
        lemma_no_lost_update(table, front);
        assert forall|i: int| 0 <= i < writes.len() implies assigned_all(table, writes).contains_key(
            (#[trigger] writes[i]).fan_id,
        ) && assigned_all(table, writes)[writes[i].fan_id] == writes[i].assignment by {
            if i < front.len() {
                assert(front[i] == writes[i]);
                assert(writes[i].fan_id != writes[writes.len() - 1].fan_id);
            }
        }
        assert forall|id: Seq<char>|
            (forall|i: int| 0 <= i < writes.len() ==> (#[trigger] writes[i]).fan_id != id) implies (
        #[trigger] assigned_all(table, writes).contains_key(id) == table.contains_key(id)) && (
        table.contains_key(id) ==> assigned_all(table, writes)[id] == table[id]) by {
            assert(writes[writes.len() - 1].fan_id != id);
            assert forall|i: int| 0 <= i < front.len() implies (#[trigger] front[i]).fan_id
                != id by {
                assert(front[i] == writes[i]);
            }
        }
    }
}

/// A request to set a discovered fan to a manual duty asks for the write
/// that does so, and once the write has succeeded the table holds the
/// assignment for that fan.
pub proof fn lemma_set_manual(state: DaemonStateView, fan_id: Seq<char>, pwm: u8)
    requires
        has_name(fan_ids(state.fans), fan_id),
    ensures
        ({
            let fan = state.fans[first_match(fan_ids(state.fans), fan_id, 0)];
            let assignment = FanAssignmentView::Manual { pwm };
            &&& fan.id == fan_id
            &&& step_of(state, RequestView::SetManual { fan_id, pwm }) == StepView::Write(
                PendingWriteView { command: manual_command(fan, pwm), assignment },
            )
            &&& with_assignment(state, fan_id, assignment).config.fans == assigned_all(
                state.config.fans,
                seq![FanAssignmentInfoView { fan_id, assignment }],
            )
        }),
{
    lemma_first_match(fan_ids(state.fans), fan_id, 0);
    let one = seq![
        FanAssignmentInfoView { fan_id, assignment: FanAssignmentView::Manual { pwm } },
    ];
    assert(one.drop_last() =~= Seq::<FanAssignmentInfoView>::empty());
    assert(assigned_all(state.config.fans, one.drop_last()) == state.config.fans);
}

/// The state after the assignments of `writes` have been made one after
/// the other, starting from `state`.
pub open spec fn after_assignments(
    state: DaemonStateView,
    writes: Seq<FanAssignmentInfoView>,
) -> DaemonStateView
    decreases writes.len(),
{
    if writes.len() == 0 {
        state
    } else {
        with_assignment(
            after_assignments(state, writes.drop_last()),
            writes.last().fan_id,
            writes.last().assignment,
        )
    }
}

/// Whether every entry of `writes` sets a fan of `fans` to a manual duty.
pub open spec fn manual_for_known_fans(
    fans: Seq<FanView>,
    writes: Seq<FanAssignmentInfoView>,
) -> bool {
    forall|i: int|
        0 <= i < writes.len() ==> has_name(fan_ids(fans), (#[trigger] writes[i]).fan_id)
            && writes[i].assignment is Manual
}

/// Whether, in `state`, the request to set the fan of `write` to its manual
/// duty succeeds: it changes nothing by itself and asks for the write to
/// the fan's files, and once that write has succeeded the answer is an
/// acknowledgement.
pub open spec fn manual_request_succeeds(
    state: DaemonStateView,
    write: FanAssignmentInfoView,
) -> bool {
    match write.assignment {
        FanAssignmentView::Manual { pwm } => {
            let request = RequestView::SetManual { fan_id: write.fan_id, pwm };
            &&& step_of(state, request) matches StepView::Write(pending)
            &&& pending.assignment == write.assignment
            &&& pending.command.fan_id == write.fan_id
            &&& with_curves(state, curves_after(state.config.curves, request)) == state
            &&& response_of(
                Ok(SuccessView::Assigned { fan_id: write.fan_id, assignment: write.assignment }),
            ) is Ack
        },
        _ => false,
    }
}

/// Assignments change the table of the state and nothing else.
pub proof fn lemma_after_assignments(state: DaemonStateView, writes: Seq<FanAssignmentInfoView>)
    ensures
        after_assignments(state, writes).fans == state.fans,
        after_assignments(state, writes).sensors == state.sensors,
        after_assignments(state, writes).config_path == state.config_path,
        after_assignments(state, writes).config.daemon == state.config.daemon,
        after_assignments(state, writes).config.curves == state.config.curves,
        after_assignments(state, writes).config.fans == assigned_all(state.config.fans, writes),
    decreases writes.len(),
{
    if writes.len() > 0 {
        lemma_after_assignments(state, writes.drop_last());
    }
}

/// Requests to set distinct, discovered fans to manual duties, handled one
/// after the other in whatever order and with every hardware write
/// succeeding, all succeed, and no update is lost: in the end every one of
/// the fans has the duty that was asked for it, every other fan has what
/// it had, and nothing but the table of assignments has changed.
///
/// Requests that reach the daemon at the same time are handled one after
/// the other, each with the state to itself; this is the law of any such
/// order.
pub proof fn lemma_serial_manual_requests(
    state: DaemonStateView,
    writes: Seq<FanAssignmentInfoView>,
)
    requires
        crate::config::distinct_ids(writes),
        manual_for_known_fans(state.fans, writes),
    ensures
        forall|i: int|
            0 <= i < writes.len() ==> manual_request_succeeds(
                after_assignments(state, writes.subrange(0, i)),
                #[trigger] writes[i],
            ),
        forall|i: int|
            0 <= i < writes.len() ==> after_assignments(state, writes).config.fans.contains_key(
                (#[trigger] writes[i]).fan_id,
            ) && after_assignments(state, writes).config.fans[writes[i].fan_id]
                == writes[i].assignment,
        forall|id: Seq<char>|
            (forall|i: int| 0 <= i < writes.len() ==> (#[trigger] writes[i]).fan_id != id) ==> (
            #[trigger] after_assignments(state, writes).config.fans.contains_key(id)
                == state.config.fans.contains_key(id)) && (state.config.fans.contains_key(id)
                ==> after_assignments(state, writes).config.fans[id] == state.config.fans[id]),
        after_assignments(state, writes).config.curves == state.config.curves,
        after_assignments(state, writes).config.daemon == state.config.daemon,
        after_assignments(state, writes).fans == state.fans,
        after_assignments(state, writes).sensors == state.sensors,
        after_assignments(state, writes).config_path == state.config_path,
{
    lemma_after_assignments(state, writes);
    lemma_no_lost_update(state.config.fans, writes);
    assert forall|i: int| 0 <= i < writes.len() implies manual_request_succeeds(
        after_assignments(state, writes.subrange(0, i)),
        #[trigger] writes[i],
    ) by {
        let before = after_assignments(state, writes.subrange(0, i));
        lemma_after_assignments(state, writes.subrange(0, i));
        lemma_first_match(fan_ids(before.fans), writes[i].fan_id, 0);
        let at = first_match(fan_ids(before.fans), writes[i].fan_id, 0);
        assert(fan_ids(before.fans)[at] == before.fans[at].id);
    }
}

/// The order in which assignments for distinct fans are made does not
/// matter: two orders of the same assignments leave the same table.
pub proof fn lemma_order_of_assignments(
    table: Map<Seq<char>, FanAssignmentView>,
    first: Seq<FanAssignmentInfoView>,
    second: Seq<FanAssignmentInfoView>,
)
    requires
        crate::config::distinct_ids(first),
        crate::config::distinct_ids(second),
        forall|i: int| 0 <= i < first.len() ==> second.contains(#[trigger] first[i]),
        forall|j: int| 0 <= j < second.len() ==> first.contains(#[trigger] second[j]),
    ensures
        assigned_all(table, first) == assigned_all(table, second),
{
    let one = assigned_all(table, first);
    let other = assigned_all(table, second);
    lemma_no_lost_update(table, first);
    lemma_no_lost_update(table, second);
    assert forall|id: Seq<char>| one.contains_key(id) == other.contains_key(id) && (
    one.contains_key(id) ==> one[id] == other[id]) by {
        if exists|i: int| 0 <= i < first.len() && (#[trigger] first[i]).fan_id == id {
            let i = choose|i: int| 0 <= i < first.len() && (#[trigger] first[i]).fan_id == id;
            assert(second.contains(first[i]));
            let j = choose|j: int| 0 <= j < second.len() && second[j] == first[i];
            assert(second[j].fan_id == id);
        } else {
            assert forall|j: int| 0 <= j < second.len() implies (#[trigger] second[j]).fan_id
                != id by {
                assert(first.contains(second[j]));
                let i = choose|i: int| 0 <= i < first.len() && first[i] == second[j];
                assert(first[i].fan_id == second[j].fan_id);
            }
            assert(one.contains_key(id) == table.contains_key(id));
            assert(other.contains_key(id) == table.contains_key(id));
        }
    }
    assert(one =~= other);
}

} // verus!
