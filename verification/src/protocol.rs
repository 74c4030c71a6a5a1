//! The messages that a client and the daemon exchange, one per line.

use vstd::prelude::*;
use vstd::string::*;

use crate::config::{FanAssignment, FanAssignmentView};
use crate::curve::{CurvePoint, FanCurve, FanCurveView};
use crate::hwmon::{FanStatus, FanStatusView, TempStatus, TempStatusView};
use crate::text::{trim, trimmed};

verus! {

/// Fan assignment info sent in status messages.
#[derive(Debug, PartialEq, Eq)]
pub struct FanAssignmentInfo {
    pub fan_id: String,
    pub assignment: FanAssignment,
}

/// What a [`FanAssignmentInfo`] holds, as mathematical values.
pub struct FanAssignmentInfoView {
    pub fan_id: Seq<char>,
    pub assignment: FanAssignmentView,
}

impl View for FanAssignmentInfo {
    type V = FanAssignmentInfoView;

    open spec fn view(&self) -> FanAssignmentInfoView {
        FanAssignmentInfoView { fan_id: self.fan_id@, assignment: self.assignment@ }
    }
}

impl DeepView for FanAssignmentInfo {
    type V = FanAssignmentInfoView;

    open spec fn deep_view(&self) -> FanAssignmentInfoView {
        self@
    }
}

impl Clone for FanAssignmentInfo {
    fn clone(&self) -> (r: Self)
        ensures
            r@ == self@,
    {
        FanAssignmentInfo { fan_id: self.fan_id.clone(), assignment: self.assignment.clone() }
    }
}

/// What a client asks of the daemon.
#[derive(Debug, Clone, PartialEq, Eq)]
pub enum Request {
    /// Request current status of all fans and temps.
    GetStatus,
    /// Set a fan to manual PWM.
    SetManual { fan_id: String, pwm: u8 },
    /// Assign a curve to a fan.
    SetCurve { fan_id: String, curve_name: String, temp_sensor_id: String },
    /// Set a fan to automatic (firmware) control.
    SetAuto { fan_id: String },
    /// List all configured curves.
    ListCurves,
    /// Create or update a curve.
    UpsertCurve { name: String, points: Vec<CurvePoint> },
    /// Delete a curve by name.
    DeleteCurve { name: String },
    /// Save current configuration to disk.
    SaveConfig,
    /// Reload configuration from disk.
    ReloadConfig,
    /// Request the daemon to push periodic status updates.
    Subscribe,
    /// Stop receiving periodic status updates.
    Unsubscribe,
}

/// What a [`Request`] holds, as mathematical values.
pub enum RequestView {
    GetStatus,
    SetManual { fan_id: Seq<char>, pwm: u8 },
    SetCurve { fan_id: Seq<char>, curve_name: Seq<char>, temp_sensor_id: Seq<char> },
    SetAuto { fan_id: Seq<char> },
    ListCurves,
    UpsertCurve { name: Seq<char>, points: Seq<CurvePoint> },
    DeleteCurve { name: Seq<char> },
    SaveConfig,
    ReloadConfig,
    Subscribe,
    Unsubscribe,
}

impl View for Request {
    type V = RequestView;

    open spec fn view(&self) -> RequestView {
        match self {
            Request::GetStatus => RequestView::GetStatus,
            Request::SetManual { fan_id, pwm } => RequestView::SetManual {
                fan_id: fan_id@,
                pwm: *pwm,
            },
            Request::SetCurve { fan_id, curve_name, temp_sensor_id } => RequestView::SetCurve {
                fan_id: fan_id@,
                curve_name: curve_name@,
                temp_sensor_id: temp_sensor_id@,
            },
            Request::SetAuto { fan_id } => RequestView::SetAuto { fan_id: fan_id@ },
            Request::ListCurves => RequestView::ListCurves,
            Request::UpsertCurve { name, points } => RequestView::UpsertCurve {
                name: name@,
                points: points@,
            },
            Request::DeleteCurve { name } => RequestView::DeleteCurve { name: name@ },
            Request::SaveConfig => RequestView::SaveConfig,
            Request::ReloadConfig => RequestView::ReloadConfig,
            Request::Subscribe => RequestView::Subscribe,
            Request::Unsubscribe => RequestView::Unsubscribe,
        }
    }
}

/// What the daemon answers.
#[derive(Debug, Clone, PartialEq, Eq)]
pub enum Response {
    /// Current system status.
    Status { fans: Vec<FanStatus>, temps: Vec<TempStatus>, assignments: Vec<FanAssignmentInfo> },
    /// List of configured curves.
    Curves { curves: Vec<FanCurve> },
    /// Operation succeeded.
    Ack { message: String },
    /// Operation failed.
    Error { message: String },
}

/// What a [`Response`] holds, as mathematical values.
pub enum ResponseView {
    Status {
        fans: Seq<FanStatusView>,
        temps: Seq<TempStatusView>,
        assignments: Seq<FanAssignmentInfoView>,
    },
    Curves { curves: Seq<FanCurveView> },
    Ack { message: Seq<char> },
    Error { message: Seq<char> },
}

impl View for Response {
    type V = ResponseView;

    open spec fn view(&self) -> ResponseView {
        match self {
            Response::Status { fans, temps, assignments } => ResponseView::Status {
                fans: fans.deep_view(),
                temps: temps.deep_view(),
                assignments: assignments.deep_view(),
            },
            Response::Curves { curves } => ResponseView::Curves { curves: curves.deep_view() },
            Response::Ack { message } => ResponseView::Ack { message: message@ },
            Response::Error { message } => ResponseView::Error { message: message@ },
        }
    }
}

/// The line that carries `body`: the body and the newline that ends it.
pub open spec fn framed(body: Seq<char>) -> Seq<char> {
    body.push('\n')
}

/// Encode a serialised message as one newline-delimited line.
pub fn encode(body: &str) -> (line: String)
    ensures
        line@ == framed(body@),
{
    let mut line = String::from_str(body);
    line.append("\n");
    proof {
        reveal_strlit("\n");
        assert(line@ =~= framed(body@));
    }
    line
}

/// The serialised message that a line carries: the line without the
/// whitespace round it, its newline included.
pub fn decode(line: &str) -> (body: &str)
    ensures
        body@ == trimmed(line@),
{
    trim(line)
}

} // verus!
