//! The hwmon side of fan control, without the file system: what the files
//! of a fan or sensor say once they have been read, and which files to
//! write, with what, to control a fan.

use vstd::prelude::*;
use vstd::string::*;

use crate::text::{
    decimal, first_match, has_name, lemma_order_by_name, order_by_name, parse_i64, parse_integer,
    parse_u32, parse_u8, push_decimal, sorted_order, text_before, to_decimal, trim, trimmed,
};

verus! {

/// A discovered fan (PWM output + optional tachometer input).
#[derive(Debug, PartialEq, Eq)]
pub struct Fan {
    /// Unique identifier, e.g. "hwmon3/pwm1".
    pub id: String,
    /// Human-readable label if available.
    pub label: Option<String>,
    /// Absolute path to the `pwmN` file.
    pub pwm_path: String,
    /// Absolute path to the `pwmN_enable` file.
    pub pwm_enable_path: String,
    /// Absolute path to the `fanN_input` file (RPM), if present.
    pub rpm_path: Option<String>,
    /// Name of the parent hwmon device.
    pub hwmon_name: String,
}

/// What a [`Fan`] holds, as mathematical values.
pub struct FanView {
    pub id: Seq<char>,
    pub label: Option<Seq<char>>,
    pub pwm_path: Seq<char>,
    pub pwm_enable_path: Seq<char>,
    pub rpm_path: Option<Seq<char>>,
    pub hwmon_name: Seq<char>,
}

impl View for Fan {
    type V = FanView;

    open spec fn view(&self) -> FanView {
        FanView {
            id: self.id@,
            label: self.label.deep_view(),
            pwm_path: self.pwm_path@,
            pwm_enable_path: self.pwm_enable_path@,
            rpm_path: self.rpm_path.deep_view(),
            hwmon_name: self.hwmon_name@,
        }
    }
}

impl DeepView for Fan {
    type V = FanView;

    open spec fn deep_view(&self) -> FanView {
        self@
    }
}

/// A discovered temperature sensor.
#[derive(Debug, PartialEq, Eq)]
pub struct TempSensor {
    /// Unique identifier, e.g. "hwmon3/temp1".
    pub id: String,
    /// Human-readable label if available.
    pub label: Option<String>,
    /// Absolute path to the `tempN_input` file (millidegrees C).
    pub input_path: String,
    /// Name of the parent hwmon device.
    pub hwmon_name: String,
}

/// What a [`TempSensor`] holds, as mathematical values.
pub struct TempSensorView {
    pub id: Seq<char>,
    pub label: Option<Seq<char>>,
    pub input_path: Seq<char>,
    pub hwmon_name: Seq<char>,
}

impl View for TempSensor {
    type V = TempSensorView;

    open spec fn view(&self) -> TempSensorView {
        TempSensorView {
            id: self.id@,
            label: self.label.deep_view(),
            input_path: self.input_path@,
            hwmon_name: self.hwmon_name@,
        }
    }
}

impl DeepView for TempSensor {
    type V = TempSensorView;

    open spec fn deep_view(&self) -> TempSensorView {
        self@
    }
}

/// Live readings for a fan.
#[derive(Debug, Clone, PartialEq, Eq)]
pub struct FanStatus {
    pub id: String,
    pub label: Option<String>,
    pub hwmon_name: String,
    /// Current PWM value 0-255.
    pub pwm: Option<u8>,
    /// Current PWM enable mode: 0=off, 1=manual, 2=auto.
    pub pwm_enable: Option<u8>,
    /// Current fan speed in RPM.
    pub rpm: Option<u32>,
}

/// What a [`FanStatus`] holds, as mathematical values.
pub struct FanStatusView {
    pub id: Seq<char>,
    pub label: Option<Seq<char>>,
    pub hwmon_name: Seq<char>,
    pub pwm: Option<u8>,
    pub pwm_enable: Option<u8>,
    pub rpm: Option<u32>,
}

impl View for FanStatus {
    type V = FanStatusView;

    open spec fn view(&self) -> FanStatusView {
        FanStatusView {
            id: self.id@,
            label: self.label.deep_view(),
            hwmon_name: self.hwmon_name@,
            pwm: self.pwm,
            pwm_enable: self.pwm_enable,
            rpm: self.rpm,
        }
    }
}

impl DeepView for FanStatus {
    type V = FanStatusView;

    open spec fn deep_view(&self) -> FanStatusView {
        self@
    }
}

/// Live reading for a temperature sensor.
#[derive(Debug, Clone, PartialEq, Eq)]
pub struct TempStatus {
    pub id: String,
    pub label: Option<String>,
    pub hwmon_name: String,
    /// Temperature in millidegrees Celsius.
    pub temp_mc: Option<i64>,
}

/// What a [`TempStatus`] holds, as mathematical values.
pub struct TempStatusView {
    pub id: Seq<char>,
    pub label: Option<Seq<char>>,
    pub hwmon_name: Seq<char>,
    pub temp_mc: Option<i64>,
}

impl View for TempStatus {
    type V = TempStatusView;

    open spec fn view(&self) -> TempStatusView {
        TempStatusView {
            id: self.id@,
            label: self.label.deep_view(),
            hwmon_name: self.hwmon_name@,
            temp_mc: self.temp_mc,
        }
    }
}

impl DeepView for TempStatus {
    type V = TempStatusView;

    open spec fn deep_view(&self) -> TempStatusView {
        self@
    }
}

/// What was found in the files of one fan: the text of each file, or `None`
/// for a file that could not be read.
#[derive(Debug, Clone, PartialEq, Eq)]
pub struct FanReading {
    /// Text of the `pwmN` file.
    pub pwm: Option<String>,
    /// Text of the `pwmN_enable` file.
    pub pwm_enable: Option<String>,
    /// Text of the `fanN_input` file.
    pub rpm: Option<String>,
}

/// What a [`FanReading`] holds, as mathematical values.
pub struct FanReadingView {
    pub pwm: Option<Seq<char>>,
    pub pwm_enable: Option<Seq<char>>,
    pub rpm: Option<Seq<char>>,
}

impl View for FanReading {
    type V = FanReadingView;

    open spec fn view(&self) -> FanReadingView {
        FanReadingView {
            pwm: self.pwm.deep_view(),
            pwm_enable: self.pwm_enable.deep_view(),
            rpm: self.rpm.deep_view(),
        }
    }
}

impl DeepView for FanReading {
    type V = FanReadingView;

    open spec fn deep_view(&self) -> FanReadingView {
        self@
    }
}

/// The reading of a fan none of whose files could be read.
pub open spec fn unreadable() -> FanReadingView {
    FanReadingView { pwm: None, pwm_enable: None, rpm: None }
}

/// The number in the text of a sysfs file: the text without the whitespace
/// round it, read as a decimal integer from `min` to `max`. `None` for a
/// file that could not be read or holds anything else.
pub open spec fn file_value(text: Option<Seq<char>>, signed: bool, min: int, max: int) -> Option<int> {
    match text {
        Some(raw) => parse_integer(trimmed(raw), signed, min, max),
        None => None,
    }
}

/// The `u8` in the text of a sysfs file.
pub open spec fn file_u8(text: Option<Seq<char>>) -> Option<u8> {
    match file_value(text, false, 0, u8::MAX as int) {
        Some(v) => Some(v as u8),
        None => None,
    }
}

/// The `u32` in the text of a sysfs file.
pub open spec fn file_u32(text: Option<Seq<char>>) -> Option<u32> {
    match file_value(text, false, 0, u32::MAX as int) {
        Some(v) => Some(v as u32),
        None => None,
    }
}

/// The `i64` in the text of a sysfs file.
pub open spec fn file_i64(text: Option<Seq<char>>) -> Option<i64> {
    match file_value(text, true, i64::MIN as int, i64::MAX as int) {
        Some(v) => Some(v as i64),
        None => None,
    }
}

/// The status of `fan` when its files read `reading`. The speed is taken
/// from the reading only for a fan that has a tachometer file.
pub open spec fn fan_status_of(fan: FanView, reading: FanReadingView) -> FanStatusView {
    FanStatusView {
        id: fan.id,
        label: fan.label,
        hwmon_name: fan.hwmon_name,
        pwm: file_u8(reading.pwm),
        pwm_enable: file_u8(reading.pwm_enable),
        rpm: if fan.rpm_path is Some {
            file_u32(reading.rpm)
        } else {
            None
        },
    }
}

/// The status of `sensor` when its input file reads `text`, which is in
/// millidegrees Celsius.
pub open spec fn temp_status_of(sensor: TempSensorView, text: Option<Seq<char>>) -> TempStatusView {
    TempStatusView {
        id: sensor.id,
        label: sensor.label,
        hwmon_name: sensor.hwmon_name,
        temp_mc: file_i64(text),
    }
}

/// A copy of an optional string.
pub fn clone_text(text: &Option<String>) -> (r: Option<String>)
    ensures
        r.deep_view() == text.deep_view(),
{
    match text {
        Some(s) => Some(s.clone()),
        None => None,
    }
}

fn read_u8(text: &Option<String>) -> (r: Option<u8>)
    ensures
        r == file_u8(text.deep_view()),
{
    match text {
        Some(raw) => parse_u8(trim(raw.as_str())),
        None => None,
    }
}

fn read_u32(text: &Option<String>) -> (r: Option<u32>)
    ensures
        r == file_u32(text.deep_view()),
{
    match text {
        Some(raw) => parse_u32(trim(raw.as_str())),
        None => None,
    }
}

fn read_i64(text: &Option<String>) -> (r: Option<i64>)
    ensures
        r == file_i64(text.deep_view()),
{
    match text {
        Some(raw) => parse_i64(trim(raw.as_str())),
        None => None,
    }
}

/// Current status for a fan, from what its files read.
pub fn read_fan_status(fan: &Fan, reading: &FanReading) -> (status: FanStatus)
    ensures
        status@ == fan_status_of(fan@, reading@),
{
    let rpm = match &fan.rpm_path {
        Some(_) => read_u32(&reading.rpm),
        None => None,
    };
    FanStatus {
        id: fan.id.clone(),
        label: clone_text(&fan.label),
        hwmon_name: fan.hwmon_name.clone(),
        pwm: read_u8(&reading.pwm),
        pwm_enable: read_u8(&reading.pwm_enable),
        rpm,
    }
}

/// Current status for a temperature sensor, from what its input file
/// reads; `None` for a file that could not be read.
pub fn read_temp_status(sensor: &TempSensor, text: &Option<String>) -> (status: TempStatus)
    ensures
        status@ == temp_status_of(sensor@, text.deep_view()),
{
    TempStatus {
        id: sensor.id.clone(),
        label: clone_text(&sensor.label),
        hwmon_name: sensor.hwmon_name.clone(),
        temp_mc: read_i64(text),
    }
}

/// The statuses of `fans`, each from the reading at its own position; a
/// fan beyond the end of `readings` counts as unreadable.
pub open spec fn fan_statuses_of(fans: Seq<FanView>, readings: Seq<FanReadingView>) -> Seq<
    FanStatusView,
> {
    Seq::new(
        fans.len(),
        |i: int|
            fan_status_of(
                fans[i],
                if i < readings.len() {
                    readings[i]
                } else {
                    unreadable()
                },
            ),
    )
}

/// The text read for the sensor at position `i`; `None` beyond the end of
/// `readings`.
pub open spec fn reading_at(readings: Seq<Option<Seq<char>>>, i: int) -> Option<Seq<char>> {
    if 0 <= i < readings.len() {
        readings[i]
    } else {
        None
    }
}

/// The statuses of `sensors`, each from the text at its own position.
pub open spec fn temp_statuses_of(
    sensors: Seq<TempSensorView>,
    readings: Seq<Option<Seq<char>>>,
) -> Seq<TempStatusView> {
    Seq::new(sensors.len(), |i: int| temp_status_of(sensors[i], reading_at(readings, i)))
}

/// Read all fan statuses.
pub fn read_all_fan_statuses(fans: &Vec<Fan>, readings: &Vec<FanReading>) -> (statuses: Vec<
    FanStatus,
>)
    ensures
        statuses.deep_view() == fan_statuses_of(fans.deep_view(), readings.deep_view()),
{
    let mut out: Vec<FanStatus> = Vec::new();
    let mut i: usize = 0;
    while i < fans.len()
        invariant
            i <= fans@.len(),
            out@.len() == i,
            forall|j: int|
                0 <= j < i ==> (#[trigger] out@[j])@ == fan_statuses_of(
                    fans.deep_view(),
                    readings.deep_view(),
                )[j],
        decreases fans@.len() - i,
    {
        let status = if i < readings.len() {
            read_fan_status(&fans[i], &readings[i])
        } else {
            let none = FanReading { pwm: None, pwm_enable: None, rpm: None };
            read_fan_status(&fans[i], &none)
        };
        out.push(status);
        i += 1;
    }
    assert(out.deep_view() =~= fan_statuses_of(fans.deep_view(), readings.deep_view()));
    out
}

/// Read all temp statuses.
pub fn read_all_temp_statuses(sensors: &Vec<TempSensor>, readings: &Vec<Option<String>>) -> (
    statuses: Vec<TempStatus>
)
    ensures
        statuses.deep_view() == temp_statuses_of(sensors.deep_view(), readings.deep_view()),
{
    let mut out: Vec<TempStatus> = Vec::new();
    let mut i: usize = 0;
    while i < sensors.len()
        invariant
            i <= sensors@.len(),
            out@.len() == i,
            forall|j: int|
                0 <= j < i ==> (#[trigger] out@[j])@ == temp_statuses_of(
                    sensors.deep_view(),
                    readings.deep_view(),
                )[j],
        decreases sensors@.len() - i,
    {
        let status = if i < readings.len() {
            read_temp_status(&sensors[i], &readings[i])
        } else {
            read_temp_status(&sensors[i], &None)
        };
        out.push(status);
        i += 1;
    }
    assert(out.deep_view() =~= temp_statuses_of(sensors.deep_view(), readings.deep_view()));
    out
}

/// The mapping that `entries` write down, a later entry for a sensor
/// overriding an earlier one.
pub open spec fn temps_of(entries: Seq<(Seq<char>, i64)>) -> Map<Seq<char>, i64>
    decreases entries.len(),
{
    if entries.len() == 0 {
        Map::empty()
    } else {
        temps_of(entries.drop_last()).insert(entries.last().0, entries.last().1)
    }
}

/// What `map` knows of `key`.
pub open spec fn lookup(map: Map<Seq<char>, i64>, key: Seq<char>) -> Option<i64> {
    if map.contains_key(key) {
        Some(map[key])
    } else {
        None
    }
}

/// A snapshot of the last known temperature of each sensor, in
/// millidegrees Celsius, by sensor id.
#[derive(Debug)]
pub struct TempMap {
    entries: Vec<(String, i64)>,
}

impl View for TempMap {
    type V = Map<Seq<char>, i64>;

    closed spec fn view(&self) -> Map<Seq<char>, i64> {
        temps_of(self.entries@.map_values(|e: (String, i64)| (e.0@, e.1)))
    }
}

impl TempMap {
    /// A snapshot without any reading.
    pub fn new() -> (map: Self)
        ensures
            map@ == Map::<Seq<char>, i64>::empty(),
    {
        let entries: Vec<(String, i64)> = Vec::new();
        assert(entries@.map_values(|e: (String, i64)| (e.0@, e.1)) =~= Seq::<
            (Seq<char>, i64),
        >::empty());
        TempMap { entries }
    }

    /// Records `temp_mc` as the temperature of `sensor_id`, in place of an
    /// earlier reading.
    pub fn insert(&mut self, sensor_id: String, temp_mc: i64)
        ensures
            final(self)@ == old(self)@.insert(sensor_id@, temp_mc),
    {
        let ghost before = self.entries@.map_values(|e: (String, i64)| (e.0@, e.1));
        let ghost id = sensor_id@;
        self.entries.push((sensor_id, temp_mc));
        proof {
            let after = self.entries@.map_values(|e: (String, i64)| (e.0@, e.1));
            assert(after.drop_last() =~= before);
            assert(after.last() == (id, temp_mc));
        }
    }

    /// The temperature recorded for `sensor_id`, if there is one.
    pub fn get(&self, sensor_id: &String) -> (r: Option<i64>)
        ensures
            r == lookup(self@, sensor_id@),
    {
        let ghost all = self.entries@.map_values(|e: (String, i64)| (e.0@, e.1));
        let mut i: usize = self.entries.len();
        assert(all.subrange(0, i as int) =~= all);
        while i > 0
            invariant
                i <= self.entries@.len(),
                all == self.entries@.map_values(|e: (String, i64)| (e.0@, e.1)),
                lookup(temps_of(all), sensor_id@) == lookup(
                    temps_of(all.subrange(0, i as int)),
                    sensor_id@,
                ),
            decreases i,
        {
            proof {
                let prefix = all.subrange(0, i as int);
                assert(prefix.drop_last() =~= all.subrange(0, i - 1));
                assert(prefix.last() == all[i - 1]);
            }
            i -= 1;
            if self.entries[i].0 == *sensor_id {
                return Some(self.entries[i].1);
            }
        }
        None
    }
}

/// The snapshot that reading `sensors` gives: each sensor whose file holds
/// a number, by its id.
pub open spec fn temp_map_of(sensors: Seq<TempSensorView>, readings: Seq<Option<Seq<char>>>) -> Map<
    Seq<char>,
    i64,
>
    decreases sensors.len(),
{
    if sensors.len() == 0 {
        Map::empty()
    } else {
        let earlier = temp_map_of(sensors.drop_last(), readings);
        match file_i64(reading_at(readings, sensors.len() - 1)) {
            Some(t) => earlier.insert(sensors.last().id, t),
            None => earlier,
        }
    }
}

/// Build a map of sensor id -> current temperature for quick lookup by the
/// curve engine, from what the sensors' input files read.
pub fn read_temp_map(sensors: &Vec<TempSensor>, readings: &Vec<Option<String>>) -> (map: TempMap)
    ensures
        map@ == temp_map_of(sensors.deep_view(), readings.deep_view()),
{
    let mut map = TempMap::new();
    let mut i: usize = 0;
    assert(sensors.deep_view().subrange(0, 0) =~= Seq::<TempSensorView>::empty());
    while i < sensors.len()
        invariant
            i <= sensors@.len(),
            map@ == temp_map_of(sensors.deep_view().subrange(0, i as int), readings.deep_view()),
        decreases sensors@.len() - i,
    {
        let temp = if i < readings.len() {
            read_i64(&readings[i])
        } else {
            None
        };
        proof {
            let next = sensors.deep_view().subrange(0, i + 1);
            assert(next.drop_last() =~= sensors.deep_view().subrange(0, i as int));
            assert(next.last() == sensors@[i as int]@);
            assert(temp == file_i64(reading_at(readings.deep_view(), i as int)));
        }
        if let Some(t) = temp {
            map.insert(sensors[i].id.clone(), t);
        }
        i += 1;
    }
    assert(sensors.deep_view().subrange(0, i as int) =~= sensors.deep_view());
    map
}

/// One write to a sysfs file: `contents` replaces what the file at `path`
/// holds.
#[derive(Debug, Clone, PartialEq, Eq)]
pub struct SysfsWrite {
    pub path: String,
    pub contents: String,
}

/// What a [`SysfsWrite`] holds, as mathematical values.
pub struct SysfsWriteView {
    pub path: Seq<char>,
    pub contents: Seq<char>,
}

impl View for SysfsWrite {
    type V = SysfsWriteView;

    open spec fn view(&self) -> SysfsWriteView {
        SysfsWriteView { path: self.path@, contents: self.contents@ }
    }
}

impl DeepView for SysfsWrite {
    type V = SysfsWriteView;

    open spec fn deep_view(&self) -> SysfsWriteView {
        self@
    }
}

/// What to do to one fan: the writes in `steps` are carried out in order,
/// and the first that fails ends the command, the rest left undone.
#[derive(Debug, Clone, PartialEq, Eq)]
pub struct FanCommand {
    pub fan_id: String,
    pub steps: Vec<SysfsWrite>,
}

/// What a [`FanCommand`] holds, as mathematical values.
pub struct FanCommandView {
    pub fan_id: Seq<char>,
    pub steps: Seq<SysfsWriteView>,
}

impl View for FanCommand {
    type V = FanCommandView;

    open spec fn view(&self) -> FanCommandView {
        FanCommandView { fan_id: self.fan_id@, steps: self.steps.deep_view() }
    }
}

impl DeepView for FanCommand {
    type V = FanCommandView;

    open spec fn deep_view(&self) -> FanCommandView {
        self@
    }
}

/// PWM enable mode in which the daemon sets the duty.
pub const PWM_ENABLE_MANUAL: u8 = 1;

/// PWM enable mode in which the firmware controls the fan.
pub const PWM_ENABLE_AUTOMATIC: u8 = 2;

/// The write that sets the PWM enable mode of `fan` to `mode`.
pub open spec fn pwm_enable_write(fan: FanView, mode: u8) -> SysfsWriteView {
    SysfsWriteView { path: fan.pwm_enable_path, contents: decimal(mode as nat) }
}

/// The write that sets the PWM duty of `fan` to `value`.
pub open spec fn pwm_write(fan: FanView, value: u8) -> SysfsWriteView {
    SysfsWriteView { path: fan.pwm_path, contents: decimal(value as nat) }
}

/// The command that puts `fan` into manual mode and then sets its duty.
pub open spec fn manual_command(fan: FanView, value: u8) -> FanCommandView {
    FanCommandView {
        fan_id: fan.id,
        steps: seq![pwm_enable_write(fan, PWM_ENABLE_MANUAL), pwm_write(fan, value)],
    }
}

/// The command that puts `fan` into manual mode and leaves its duty alone.
pub open spec fn enable_manual_command(fan: FanView) -> FanCommandView {
    FanCommandView { fan_id: fan.id, steps: seq![pwm_enable_write(fan, PWM_ENABLE_MANUAL)] }
}

/// The command that sets the duty of `fan`, which is taken to be in manual
/// mode.
pub open spec fn duty_command(fan: FanView, value: u8) -> FanCommandView {
    FanCommandView { fan_id: fan.id, steps: seq![pwm_write(fan, value)] }
}

/// The command that hands `fan` back to the firmware.
pub open spec fn automatic_command(fan: FanView) -> FanCommandView {
    FanCommandView { fan_id: fan.id, steps: seq![pwm_enable_write(fan, PWM_ENABLE_AUTOMATIC)] }
}

/// Set PWM enable mode for a fan: 0 = fan off (full speed on some
/// systems), 1 = manual PWM control, 2 = automatic (firmware).
pub fn set_pwm_enable(fan: &Fan, mode: u8) -> (write: SysfsWrite)
    ensures
        write@ == pwm_enable_write(fan@, mode),
{
    SysfsWrite { path: fan.pwm_enable_path.clone(), contents: to_decimal(mode as u64) }
}

/// Set the PWM duty value (0-255) for a fan. The fan must already be in
/// manual mode for the write to take effect.
pub fn set_pwm(fan: &Fan, value: u8) -> (write: SysfsWrite)
    ensures
        write@ == pwm_write(fan@, value),
{
    SysfsWrite { path: fan.pwm_path.clone(), contents: to_decimal(value as u64) }
}

/// Put a fan into manual mode and set a specific PWM value; the value is
/// not written if the mode cannot be set.
pub fn set_manual_pwm(fan: &Fan, value: u8) -> (command: FanCommand)
    ensures
        command@ == manual_command(fan@, value),
{
    let mut steps: Vec<SysfsWrite> = Vec::new();
    steps.push(set_pwm_enable(fan, PWM_ENABLE_MANUAL));
    steps.push(set_pwm(fan, value));
    assert(steps.deep_view() =~= manual_command(fan@, value).steps);
    FanCommand { fan_id: fan.id.clone(), steps }
}

/// Put a fan into manual mode, so that a curve can drive it.
pub fn enable_manual(fan: &Fan) -> (command: FanCommand)
    ensures
        command@ == enable_manual_command(fan@),
{
    let mut steps: Vec<SysfsWrite> = Vec::new();
    steps.push(set_pwm_enable(fan, PWM_ENABLE_MANUAL));
    assert(steps.deep_view() =~= enable_manual_command(fan@).steps);
    FanCommand { fan_id: fan.id.clone(), steps }
}

/// Set the duty of a fan that a curve drives.
pub fn write_duty(fan: &Fan, value: u8) -> (command: FanCommand)
    ensures
        command@ == duty_command(fan@, value),
{
    let mut steps: Vec<SysfsWrite> = Vec::new();
    steps.push(set_pwm(fan, value));
    assert(steps.deep_view() =~= duty_command(fan@, value).steps);
    FanCommand { fan_id: fan.id.clone(), steps }
}

/// Restore a fan to automatic (firmware) control.
pub fn restore_automatic(fan: &Fan) -> (command: FanCommand)
    ensures
        command@ == automatic_command(fan@),
{
    let mut steps: Vec<SysfsWrite> = Vec::new();
    steps.push(set_pwm_enable(fan, PWM_ENABLE_AUTOMATIC));
    assert(steps.deep_view() =~= automatic_command(fan@).steps);
    FanCommand { fan_id: fan.id.clone(), steps }
}

/// Restore all fans to automatic control (safety fallback): one command
/// per fan, in the order of `fans`, each to be tried whether or not the
/// others succeed.
pub fn restore_all_automatic(fans: &Vec<Fan>) -> (commands: Vec<FanCommand>)
    ensures
        commands.deep_view() == fans.deep_view().map_values(|fan: FanView| automatic_command(fan)),
{
    let mut out: Vec<FanCommand> = Vec::new();
    let mut i: usize = 0;
    while i < fans.len()
        invariant
            i <= fans@.len(),
            out@.len() == i,
            forall|j: int| 0 <= j < i ==> (#[trigger] out@[j])@ == automatic_command(fans@[j]@),
        decreases fans@.len() - i,
    {
        out.push(restore_automatic(&fans[i]));
        i += 1;
    }
    assert(out.deep_view() =~= fans.deep_view().map_values(
        |fan: FanView| automatic_command(fan),
    ));
    out
}

/// The ids of `fans`, in order.
pub open spec fn fan_ids(fans: Seq<FanView>) -> Seq<Seq<char>> {
    fans.map_values(|fan: FanView| fan.id)
}

/// The ids of `sensors`, in order.
pub open spec fn sensor_ids(sensors: Seq<TempSensorView>) -> Seq<Seq<char>> {
    sensors.map_values(|sensor: TempSensorView| sensor.id)
}

/// The first fan of `fans` whose id is `fan_id`.
pub fn find_fan<'a>(fans: &'a Vec<Fan>, fan_id: &String) -> (r: Option<&'a Fan>)
    ensures
        match r {
            Some(fan) => has_name(fan_ids(fans.deep_view()), fan_id@) && fan@ == fans.deep_view()[first_match(
                fan_ids(fans.deep_view()),
                fan_id@,
                0,
            )],
            None => !has_name(fan_ids(fans.deep_view()), fan_id@),
        },
{
    let ghost ids = fan_ids(fans.deep_view());
    let mut i: usize = 0;
    while i < fans.len()
        invariant
            i <= fans@.len(),
            ids == fan_ids(fans.deep_view()),
            first_match(ids, fan_id@, 0) == first_match(ids, fan_id@, i as int),
        decreases fans@.len() - i,
    {
        assert(ids[i as int] == fans@[i as int].id@);
        if fans[i].id == *fan_id {
            return Some(&fans[i]);
        }
        i += 1;
    }
    None
}

/// Whether some sensor of `sensors` has the id `sensor_id`.
pub fn has_sensor(sensors: &Vec<TempSensor>, sensor_id: &String) -> (found: bool)
    ensures
        found == has_name(sensor_ids(sensors.deep_view()), sensor_id@),
{
    let ghost ids = sensor_ids(sensors.deep_view());
    let mut i: usize = 0;
    while i < sensors.len()
        invariant
            i <= sensors@.len(),
            ids == sensor_ids(sensors.deep_view()),
            first_match(ids, sensor_id@, 0) == first_match(ids, sensor_id@, i as int),
        decreases sensors@.len() - i,
    {
        assert(ids[i as int] == sensors@[i as int].id@);
        if sensors[i].id == *sensor_id {
            return true;
        }
        i += 1;
    }
    false
}

impl Clone for Fan {
    fn clone(&self) -> (r: Self)
        ensures
            r@ == self@,
    {
        Fan {
            id: self.id.clone(),
            label: clone_text(&self.label),
            pwm_path: self.pwm_path.clone(),
            pwm_enable_path: self.pwm_enable_path.clone(),
            rpm_path: clone_text(&self.rpm_path),
            hwmon_name: self.hwmon_name.clone(),
        }
    }
}

impl Clone for TempSensor {
    fn clone(&self) -> (r: Self)
        ensures
            r@ == self@,
    {
        TempSensor {
            id: self.id.clone(),
            label: clone_text(&self.label),
            input_path: self.input_path.clone(),
            hwmon_name: self.hwmon_name.clone(),
        }
    }
}

/// How many PWM channels of a hwmon device are looked at, from `pwm1` on.
pub const MAX_PWM_CHANNELS: usize = 16;

/// How many temperature channels of a hwmon device are looked at, from
/// `temp1` on.
pub const MAX_TEMP_CHANNELS: usize = 32;

/// What was found of one PWM channel of a hwmon device.
#[derive(Debug, Clone, PartialEq, Eq)]
pub struct PwmProbe {
    /// Whether the `pwmN` file exists.
    pub present: bool,
    /// Text of the `fanN_label` file, if it could be read.
    pub label: Option<String>,
    /// Whether the `fanN_input` file exists.
    pub has_tachometer: bool,
}

/// What a [`PwmProbe`] holds, as mathematical values.
pub struct PwmProbeView {
    pub present: bool,
    pub label: Option<Seq<char>>,
    pub has_tachometer: bool,
}

impl View for PwmProbe {
    type V = PwmProbeView;

    open spec fn view(&self) -> PwmProbeView {
        PwmProbeView {
            present: self.present,
            label: self.label.deep_view(),
            has_tachometer: self.has_tachometer,
        }
    }
}

impl DeepView for PwmProbe {
    type V = PwmProbeView;

    open spec fn deep_view(&self) -> PwmProbeView {
        self@
    }
}

/// What was found of one temperature channel of a hwmon device.
#[derive(Debug, Clone, PartialEq, Eq)]
pub struct TempProbe {
    /// Whether the `tempN_input` file exists.
    pub present: bool,
    /// Text of the `tempN_label` file, if it could be read.
    pub label: Option<String>,
}

/// What a [`TempProbe`] holds, as mathematical values.
pub struct TempProbeView {
    pub present: bool,
    pub label: Option<Seq<char>>,
}

impl View for TempProbe {
    type V = TempProbeView;

    open spec fn view(&self) -> TempProbeView {
        TempProbeView { present: self.present, label: self.label.deep_view() }
    }
}

impl DeepView for TempProbe {
    type V = TempProbeView;

    open spec fn deep_view(&self) -> TempProbeView {
        self@
    }
}

/// What was found in one directory under `/sys/class/hwmon`.
#[derive(Debug, Clone, PartialEq, Eq)]
pub struct HwmonProbe {
    /// The directory's own name, e.g. "hwmon3".
    pub basename: String,
    /// The directory's path.
    pub dir: String,
    /// Text of the `name` file, if it could be read.
    pub name: Option<String>,
    /// The PWM channels, `pwm1` first.
    pub pwm: Vec<PwmProbe>,
    /// The temperature channels, `temp1` first.
    pub temps: Vec<TempProbe>,
}

/// What a [`HwmonProbe`] holds, as mathematical values.
pub struct HwmonProbeView {
    pub basename: Seq<char>,
    pub dir: Seq<char>,
    pub name: Option<Seq<char>>,
    pub pwm: Seq<PwmProbeView>,
    pub temps: Seq<TempProbeView>,
}

impl View for HwmonProbe {
    type V = HwmonProbeView;

    open spec fn view(&self) -> HwmonProbeView {
        HwmonProbeView {
            basename: self.basename@,
            dir: self.dir@,
            name: self.name.deep_view(),
            pwm: self.pwm.deep_view(),
            temps: self.temps.deep_view(),
        }
    }
}

impl DeepView for HwmonProbe {
    type V = HwmonProbeView;

    open spec fn deep_view(&self) -> HwmonProbeView {
        self@
    }
}

/// `parent`, a slash, `stem`, the number of the channel and `suffix`: the
/// name of a channel or of one of its files.
pub open spec fn channel_name(
    parent: Seq<char>,
    stem: Seq<char>,
    channel: nat,
    suffix: Seq<char>,
) -> Seq<char> {
    parent + "/"@ + stem + decimal(channel) + suffix
}

/// The text of a file without the whitespace round it.
pub open spec fn trimmed_text(text: Option<Seq<char>>) -> Option<Seq<char>> {
    match text {
        Some(raw) => Some(trimmed(raw)),
        None => None,
    }
}

/// The name of a hwmon device: what its `name` file holds, or nothing.
pub open spec fn device_name(name: Option<Seq<char>>) -> Seq<char> {
    match name {
        Some(raw) => trimmed(raw),
        None => Seq::empty(),
    }
}

/// The fan on PWM channel `channel` of `device`, counted from 1.
pub open spec fn fan_of(device: HwmonProbeView, channel: nat, probe: PwmProbeView) -> FanView {
    FanView {
        id: channel_name(device.basename, "pwm"@, channel, ""@),
        label: trimmed_text(probe.label),
        pwm_path: channel_name(device.dir, "pwm"@, channel, ""@),
        pwm_enable_path: channel_name(device.dir, "pwm"@, channel, "_enable"@),
        rpm_path: if probe.has_tachometer {
            Some(channel_name(device.dir, "fan"@, channel, "_input"@))
        } else {
            None
        },
        hwmon_name: device_name(device.name),
    }
}

/// The sensor on temperature channel `channel` of `device`, counted from
/// 1.
pub open spec fn sensor_of(device: HwmonProbeView, channel: nat, probe: TempProbeView) -> TempSensorView {
    TempSensorView {
        id: channel_name(device.basename, "temp"@, channel, ""@),
        label: trimmed_text(probe.label),
        input_path: channel_name(device.dir, "temp"@, channel, "_input"@),
        hwmon_name: device_name(device.name),
    }
}

/// How many channels count, from position `from` on: those before the
/// first that is absent, and none at or beyond `limit`.
pub open spec fn channels_from(present: Seq<bool>, from: int, limit: int) -> nat
    decreases present.len() - from,
{
    if 0 <= from < present.len() && from < limit && present[from] {
        1 + channels_from(present, from + 1, limit)
    } else {
        0
    }
}

/// The fans of one device: its PWM channels up to the first that is
/// absent, at most [`MAX_PWM_CHANNELS`].
pub open spec fn fans_in(device: HwmonProbeView) -> Seq<FanView> {
    Seq::new(
        channels_from(
            device.pwm.map_values(|p: PwmProbeView| p.present),
            0,
            MAX_PWM_CHANNELS as int,
        ),
        |i: int| fan_of(device, (i + 1) as nat, device.pwm[i]),
    )
}

/// The sensors of one device: its temperature channels up to the first
/// that is absent, at most [`MAX_TEMP_CHANNELS`].
pub open spec fn sensors_in(device: HwmonProbeView) -> Seq<TempSensorView> {
    Seq::new(
        channels_from(
            device.temps.map_values(|p: TempProbeView| p.present),
            0,
            MAX_TEMP_CHANNELS as int,
        ),
        |i: int| sensor_of(device, (i + 1) as nat, device.temps[i]),
    )
}

/// The fans of all devices, device after device.
pub open spec fn fans_found(devices: Seq<HwmonProbeView>) -> Seq<FanView>
    decreases devices.len(),
{
    if devices.len() == 0 {
        Seq::empty()
    } else {
        fans_found(devices.drop_last()) + fans_in(devices.last())
    }
}

/// The sensors of all devices, device after device.
pub open spec fn sensors_found(devices: Seq<HwmonProbeView>) -> Seq<TempSensorView>
    decreases devices.len(),
{
    if devices.len() == 0 {
        Seq::empty()
    } else {
        sensors_found(devices.drop_last()) + sensors_in(devices.last())
    }
}

/// `fans` in the order of their ids; fans of one id keep their order.
pub open spec fn fans_by_id(fans: Seq<FanView>) -> Seq<FanView> {
    Seq::new(fans.len(), |p: int| fans[order_by_name(fan_ids(fans), fans.len())[p]])
}

/// `sensors` in the order of their ids; sensors of one id keep their
/// order.
pub open spec fn sensors_by_id(sensors: Seq<TempSensorView>) -> Seq<TempSensorView> {
    Seq::new(
        sensors.len(),
        |p: int| sensors[order_by_name(sensor_ids(sensors), sensors.len())[p]],
    )
}

/// The name of a channel or of one of its files.
fn channel_text(parent: &str, stem: &str, channel: usize, suffix: &str) -> (r: String)
    ensures
        r@ == channel_name(parent@, stem@, channel as nat, suffix@),
{
    let mut out = String::from_str(parent);
    out.append("/");
    out.append(stem);
    push_decimal(&mut out, channel as u64);
    out.append(suffix);
    out
}

/// Path of the `name` file of the hwmon directory `dir`.
pub fn name_file(dir: &str) -> (path: String)
    ensures
        path@ == dir@ + "/name"@,
{
    let mut out = String::from_str(dir);
    out.append("/name");
    out
}

/// Path of the `pwmN` file of channel `channel`.
pub fn pwm_file(dir: &str, channel: usize) -> (path: String)
    ensures
        path@ == channel_name(dir@, "pwm"@, channel as nat, ""@),
{
    channel_text(dir, "pwm", channel, "")
}

/// Path of the `pwmN_enable` file of channel `channel`.
pub fn pwm_enable_file(dir: &str, channel: usize) -> (path: String)
    ensures
        path@ == channel_name(dir@, "pwm"@, channel as nat, "_enable"@),
{
    channel_text(dir, "pwm", channel, "_enable")
}

/// Path of the `fanN_label` file of channel `channel`.
pub fn fan_label_file(dir: &str, channel: usize) -> (path: String)
    ensures
        path@ == channel_name(dir@, "fan"@, channel as nat, "_label"@),
{
    channel_text(dir, "fan", channel, "_label")
}

/// Path of the `fanN_input` file of channel `channel`.
pub fn fan_input_file(dir: &str, channel: usize) -> (path: String)
    ensures
        path@ == channel_name(dir@, "fan"@, channel as nat, "_input"@),
{
    channel_text(dir, "fan", channel, "_input")
}

/// Path of the `tempN_input` file of channel `channel`.
pub fn temp_input_file(dir: &str, channel: usize) -> (path: String)
    ensures
        path@ == channel_name(dir@, "temp"@, channel as nat, "_input"@),
{
    channel_text(dir, "temp", channel, "_input")
}

/// Path of the `tempN_label` file of channel `channel`.
pub fn temp_label_file(dir: &str, channel: usize) -> (path: String)
    ensures
        path@ == channel_name(dir@, "temp"@, channel as nat, "_label"@),
{
    channel_text(dir, "temp", channel, "_label")
}

/// The text of a file without the whitespace round it.
fn trim_text(text: &Option<String>) -> (r: Option<String>)
    ensures
        r.deep_view() == trimmed_text(text.deep_view()),
{
    match text {
        Some(raw) => Some(String::from_str(trim(raw.as_str()))),
        None => None,
    }
}

/// The name of a hwmon device.
fn device_name_text(name: &Option<String>) -> (r: String)
    ensures
        r@ == device_name(name.deep_view()),
{
    match name {
        Some(raw) => String::from_str(trim(raw.as_str())),
        None => String::new(),
    }
}

/// Adds the fans of `device` to `fans`.
fn push_fans(fans: &mut Vec<Fan>, device: &HwmonProbe)
    ensures
        final(fans).deep_view() == old(fans).deep_view() + fans_in(device@),
{
    let ghost before = fans.deep_view();
    let ghost present = device@.pwm.map_values(|p: PwmProbeView| p.present);
    let ghost total = channels_from(present, 0, MAX_PWM_CHANNELS as int);
    let mut i: usize = 0;
    assert(fans.deep_view() =~= before + fans_in(device@).subrange(0, 0));
    while i < device.pwm.len() && i < MAX_PWM_CHANNELS && device.pwm[i].present
        invariant
            i <= device.pwm@.len(),
            i <= MAX_PWM_CHANNELS,
            present == device@.pwm.map_values(|p: PwmProbeView| p.present),
            total == channels_from(present, 0, MAX_PWM_CHANNELS as int),
            total == i + channels_from(present, i as int, MAX_PWM_CHANNELS as int),
            fans_in(device@).len() == total,
            fans@.len() == before.len() + i,
            fans.deep_view() == before + fans_in(device@).subrange(0, i as int),
        decreases device.pwm@.len() - i,
    {
        let probe = &device.pwm[i];
        let channel = i + 1;
        let ghost prev = fans@;
        let ghost grown = fans.deep_view();
        assert(present[i as int] == probe.present);
        assert(device@.pwm[i as int] == probe@);
        let fan = Fan {
            id: channel_text(device.basename.as_str(), "pwm", channel, ""),
            label: trim_text(&probe.label),
            pwm_path: pwm_file(device.dir.as_str(), channel),
            pwm_enable_path: pwm_enable_file(device.dir.as_str(), channel),
            rpm_path: if probe.has_tachometer {
                Some(fan_input_file(device.dir.as_str(), channel))
            } else {
                None
            },
            hwmon_name: device_name_text(&device.name),
        };
        assert(fan@ == fan_of(device@, channel as nat, probe@));
        fans.push(fan);
        i += 1;
        proof {
            let target = before + fans_in(device@).subrange(0, i as int);
            assert(fans@.len() == target.len());
            assert forall|j: int| 0 <= j < target.len() implies fans.deep_view()[j]
                == target[j] by {
                if j < prev.len() {
                    assert(fans@[j] == prev[j]);
                    assert(grown[j] == prev[j].deep_view());
                }
            }
            assert(fans.deep_view() =~= target);
        }
    }
    proof {
        assert(channels_from(present, i as int, MAX_PWM_CHANNELS as int) == 0) by {
            if i < device.pwm@.len() && i < MAX_PWM_CHANNELS {
                assert(present[i as int] == device.pwm@[i as int].present);
            }
        }
        assert(fans_in(device@).subrange(0, i as int) =~= fans_in(device@));
    }
}

/// Adds the sensors of `device` to `sensors`.
fn push_sensors(sensors: &mut Vec<TempSensor>, device: &HwmonProbe)
    ensures
        final(sensors).deep_view() == old(sensors).deep_view() + sensors_in(device@),
{
    let ghost before = sensors.deep_view();
    let ghost present = device@.temps.map_values(|p: TempProbeView| p.present);
    let ghost total = channels_from(present, 0, MAX_TEMP_CHANNELS as int);
    let mut i: usize = 0;
    assert(sensors.deep_view() =~= before + sensors_in(device@).subrange(0, 0));
    while i < device.temps.len() && i < MAX_TEMP_CHANNELS && device.temps[i].present
        invariant
            i <= device.temps@.len(),
            i <= MAX_TEMP_CHANNELS,
            present == device@.temps.map_values(|p: TempProbeView| p.present),
            total == channels_from(present, 0, MAX_TEMP_CHANNELS as int),
            total == i + channels_from(present, i as int, MAX_TEMP_CHANNELS as int),
            sensors_in(device@).len() == total,
            sensors@.len() == before.len() + i,
            sensors.deep_view() == before + sensors_in(device@).subrange(0, i as int),
        decreases device.temps@.len() - i,
    {
        let probe = &device.temps[i];
        let channel = i + 1;
        let ghost prev = sensors@;
        let ghost grown = sensors.deep_view();
        assert(present[i as int] == probe.present);
        assert(device@.temps[i as int] == probe@);
        let sensor = TempSensor {
            id: channel_text(device.basename.as_str(), "temp", channel, ""),
            label: trim_text(&probe.label),
            input_path: temp_input_file(device.dir.as_str(), channel),
            hwmon_name: device_name_text(&device.name),
        };
        assert(sensor@ == sensor_of(device@, channel as nat, probe@));
        sensors.push(sensor);
        i += 1;
        proof {
            let target = before + sensors_in(device@).subrange(0, i as int);
            assert(sensors@.len() == target.len());
            assert forall|j: int| 0 <= j < target.len() implies sensors.deep_view()[j]
                == target[j] by {
                if j < prev.len() {
                    assert(sensors@[j] == prev[j]);
                    assert(grown[j] == prev[j].deep_view());
                }
            }
            assert(sensors.deep_view() =~= target);
        }
    }
    proof {
        assert(channels_from(present, i as int, MAX_TEMP_CHANNELS as int) == 0) by {
            if i < device.temps@.len() && i < MAX_TEMP_CHANNELS {
                assert(present[i as int] == device.temps@[i as int].present);
            }
        }
        assert(sensors_in(device@).subrange(0, i as int) =~= sensors_in(device@));
    }
}

/// All fans of the hwmon devices that were probed, sorted by id. A device
/// has a fan for each of its PWM channels from `pwm1` up to the first that
/// is absent.
pub fn discover_fans(devices: &Vec<HwmonProbe>) -> (fans: Vec<Fan>)
    ensures
        fans.deep_view() == fans_by_id(fans_found(devices.deep_view())),
{
    let mut found: Vec<Fan> = Vec::new();
    let mut d: usize = 0;
    assert(devices.deep_view().subrange(0, 0) =~= Seq::<HwmonProbeView>::empty());
    assert(found.deep_view() =~= Seq::<FanView>::empty());
    while d < devices.len()
        invariant
            d <= devices@.len(),
            found.deep_view() == fans_found(devices.deep_view().subrange(0, d as int)),
        decreases devices@.len() - d,
    {
        proof {
            let next = devices.deep_view().subrange(0, d + 1);
            assert(next.drop_last() =~= devices.deep_view().subrange(0, d as int));
            assert(next.last() == devices@[d as int]@);
        }
        push_fans(&mut found, &devices[d]);
        d += 1;
    }
    assert(devices.deep_view().subrange(0, d as int) =~= devices.deep_view());
    let mut ids: Vec<String> = Vec::new();
    let mut i: usize = 0;
    while i < found.len()
        invariant
            i <= found@.len(),
            ids@.len() == i,
            forall|j: int| 0 <= j < i ==> (#[trigger] ids@[j])@ == found@[j].id@,
        decreases found@.len() - i,
    {
        ids.push(found[i].id.clone());
        i += 1;
    }
    assert(ids.deep_view() =~= fan_ids(found.deep_view()));
    let order = sorted_order(&ids);
    let ghost positions = order@.map_values(|i: usize| i as int);
    let mut fans: Vec<Fan> = Vec::new();
    let mut p: usize = 0;
    while p < order.len()
        invariant
            p <= order@.len(),
            order@.len() == found@.len(),
            fans@.len() == p,
            positions == order@.map_values(|i: usize| i as int),
            forall|q: int| 0 <= q < order@.len() ==> #[trigger] order@[q] < found@.len(),
            forall|q: int| 0 <= q < p ==> (#[trigger] fans@[q])@ == found@[positions[q]]@,
        decreases order@.len() - p,
    {
        assert(positions[p as int] == order@[p as int] as int);
        fans.push(found[order[p]].clone());
        p += 1;
    }
    assert(fans.deep_view() =~= fans_by_id(found.deep_view()));
    fans
}

/// All temperature sensors of the hwmon devices that were probed, sorted
/// by id. A device has a sensor for each of its temperature channels from
/// `temp1` up to the first that is absent.
pub fn discover_temp_sensors(devices: &Vec<HwmonProbe>) -> (sensors: Vec<TempSensor>)
    ensures
        sensors.deep_view() == sensors_by_id(sensors_found(devices.deep_view())),
{
    let mut found: Vec<TempSensor> = Vec::new();
    let mut d: usize = 0;
    assert(devices.deep_view().subrange(0, 0) =~= Seq::<HwmonProbeView>::empty());
    assert(found.deep_view() =~= Seq::<TempSensorView>::empty());
    while d < devices.len()
        invariant
            d <= devices@.len(),
            found.deep_view() == sensors_found(devices.deep_view().subrange(0, d as int)),
        decreases devices@.len() - d,
    {
        proof {
            let next = devices.deep_view().subrange(0, d + 1);
            assert(next.drop_last() =~= devices.deep_view().subrange(0, d as int));
            assert(next.last() == devices@[d as int]@);
        }
        push_sensors(&mut found, &devices[d]);
        d += 1;
    }
    assert(devices.deep_view().subrange(0, d as int) =~= devices.deep_view());
    let mut ids: Vec<String> = Vec::new();
    let mut i: usize = 0;
    while i < found.len()
        invariant
            i <= found@.len(),
            ids@.len() == i,
            forall|j: int| 0 <= j < i ==> (#[trigger] ids@[j])@ == found@[j].id@,
        decreases found@.len() - i,
    {
        ids.push(found[i].id.clone());
        i += 1;
    }
    assert(ids.deep_view() =~= sensor_ids(found.deep_view()));
    let order = sorted_order(&ids);
    let ghost positions = order@.map_values(|i: usize| i as int);
    let mut sensors: Vec<TempSensor> = Vec::new();
    let mut p: usize = 0;
    while p < order.len()
        invariant
            p <= order@.len(),
            order@.len() == found@.len(),
            sensors@.len() == p,
            positions == order@.map_values(|i: usize| i as int),
            forall|q: int| 0 <= q < order@.len() ==> #[trigger] order@[q] < found@.len(),
            forall|q: int| 0 <= q < p ==> (#[trigger] sensors@[q])@ == found@[positions[q]]@,
        decreases order@.len() - p,
    {
        assert(positions[p as int] == order@[p as int] as int);
        sensors.push(found[order[p]].clone());
        p += 1;
    }
    assert(sensors.deep_view() =~= sensors_by_id(found.deep_view()));
    sensors
}

/// Sorting fans by id keeps every fan, and puts no fan after one whose id
/// comes later.
pub proof fn lemma_fans_by_id(fans: Seq<FanView>)
    ensures
        fans_by_id(fans).len() == fans.len(),
        forall|p: int, q: int|
            0 <= p < q < fans.len() ==> !text_before(
                (#[trigger] fans_by_id(fans)[q]).id,
                (#[trigger] fans_by_id(fans)[p]).id,
            ),
        forall|i: int| 0 <= i < fans.len() ==> fans_by_id(fans).contains(#[trigger] fans[i]),
{
    broadcast use vstd::seq_lib::group_to_multiset_ensures;

    let ids = fan_ids(fans);
    let order = order_by_name(ids, fans.len());
    lemma_order_by_name(ids, fans.len());
    assert forall|p: int, q: int| 0 <= p < q < fans.len() implies !text_before(
        (#[trigger] fans_by_id(fans)[q]).id,
        (#[trigger] fans_by_id(fans)[p]).id,
    ) by {
        assert(!text_before(ids[order[q]], ids[order[p]]));
    }
    assert forall|i: int| 0 <= i < fans.len() implies fans_by_id(fans).contains(
        #[trigger] fans[i],
    ) by {
        assert(order.to_multiset().count(i) == 1);
        assert(order.contains(i));
        let p = choose|p: int| 0 <= p < order.len() && order[p] == i;
        assert(fans_by_id(fans)[p] == fans[i]);
    }
}

/// Sorting sensors by id keeps every sensor, and puts no sensor after one
/// whose id comes later.
pub proof fn lemma_sensors_by_id(sensors: Seq<TempSensorView>)
    ensures
        sensors_by_id(sensors).len() == sensors.len(),
        forall|p: int, q: int|
            0 <= p < q < sensors.len() ==> !text_before(
                (#[trigger] sensors_by_id(sensors)[q]).id,
                (#[trigger] sensors_by_id(sensors)[p]).id,
            ),
        forall|i: int|
            0 <= i < sensors.len() ==> sensors_by_id(sensors).contains(#[trigger] sensors[i]),
{
    broadcast use vstd::seq_lib::group_to_multiset_ensures;

    let ids = sensor_ids(sensors);
    let order = order_by_name(ids, sensors.len());
    lemma_order_by_name(ids, sensors.len());
    assert forall|p: int, q: int| 0 <= p < q < sensors.len() implies !text_before(
        (#[trigger] sensors_by_id(sensors)[q]).id,
        (#[trigger] sensors_by_id(sensors)[p]).id,
    ) by {
        assert(!text_before(ids[order[q]], ids[order[p]]));
    }
    assert forall|i: int| 0 <= i < sensors.len() implies sensors_by_id(sensors).contains(
        #[trigger] sensors[i],
    ) by {
        assert(order.to_multiset().count(i) == 1);
        assert(order.contains(i));
        let p = choose|p: int| 0 <= p < order.len() && order[p] == i;
        assert(sensors_by_id(sensors)[p] == sensors[i]);
    }
}

} // verus!
