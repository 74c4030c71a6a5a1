//! The state of the terminal client that involves no terminal: which tab
//! and which entry is selected, what the fan panel and the curve editor
//! hold, how keys change them, and what a response means for the status
//! line.

use vstd::prelude::*;
use vstd::string::*;

use crate::config::{FanAssignment, FanAssignmentView};
use crate::curve::{curve_names, find_curve, CurvePoint, FanCurve, FanCurveView};
use crate::hwmon::{TempStatus, TempStatusView};
use crate::protocol::{Request, RequestView, Response, ResponseView};
use crate::text::first_match;

verus! {

/// The pages of the client.
#[derive(Debug, Clone, Copy, PartialEq, Eq, Structural)]
pub enum Tab {
    Dashboard,
    FanControl,
    CurveEditor,
    Config,
}

/// How many tabs there are.
pub const TAB_COUNT: usize = 4;

/// The tab at `position`, counted from 0 and from left to right.
pub open spec fn tab_at(position: int) -> Tab {
    if position == 0 {
        Tab::Dashboard
    } else if position == 1 {
        Tab::FanControl
    } else if position == 2 {
        Tab::CurveEditor
    } else {
        Tab::Config
    }
}

impl Tab {
    /// Where the tab stands, counted from 0 and from left to right.
    pub open spec fn position(self) -> int {
        match self {
            Tab::Dashboard => 0,
            Tab::FanControl => 1,
            Tab::CurveEditor => 2,
            Tab::Config => 3,
        }
    }

    /// What the tab is called.
    pub open spec fn title_text(self) -> Seq<char> {
        match self {
            Tab::Dashboard => "Dashboard"@,
            Tab::FanControl => "Fan Control"@,
            Tab::CurveEditor => "Curve Editor"@,
            Tab::Config => "Config"@,
        }
    }

    /// Where the tab stands, counted from 0 and from left to right.
    pub fn index(self) -> (i: usize)
        ensures
            i == self.position(),
            i < TAB_COUNT,
            tab_at(i as int) == self,
    {
        match self {
            Tab::Dashboard => 0,
            Tab::FanControl => 1,
            Tab::CurveEditor => 2,
            Tab::Config => 3,
        }
    }

    /// What the tab is called.
    pub fn title(self) -> (text: &'static str)
        ensures
            text@ == self.title_text(),
    {
        match self {
            Tab::Dashboard => "Dashboard",
            Tab::FanControl => "Fan Control",
            Tab::CurveEditor => "Curve Editor",
            Tab::Config => "Config",
        }
    }

    /// The tab to the right, and from the last tab the first.
    pub fn next(self) -> (tab: Tab)
        ensures
            tab == tab_at((self.position() + 1) % (TAB_COUNT as int)),
    {
        match self {
            Tab::Dashboard => Tab::FanControl,
            Tab::FanControl => Tab::CurveEditor,
            Tab::CurveEditor => Tab::Config,
            Tab::Config => Tab::Dashboard,
        }
    }

    /// The tab to the left, and from the first tab the last.
    pub fn previous(self) -> (tab: Tab)
        ensures
            tab == tab_at((self.position() + TAB_COUNT - 1) % (TAB_COUNT as int)),
    {
        match self {
            Tab::Dashboard => Tab::Config,
            Tab::FanControl => Tab::Dashboard,
            Tab::CurveEditor => Tab::FanControl,
            Tab::Config => Tab::CurveEditor,
        }
    }

    /// Every tab, from left to right.
    pub fn all() -> (tabs: Vec<Tab>)
        ensures
            tabs@ == Seq::new(TAB_COUNT as nat, |i: int| tab_at(i)),
    {
        let mut tabs: Vec<Tab> = Vec::new();
        tabs.push(Tab::Dashboard);
        tabs.push(Tab::FanControl);
        tabs.push(Tab::CurveEditor);
        tabs.push(Tab::Config);
        assert(tabs@ =~= Seq::new(TAB_COUNT as nat, |i: int| tab_at(i)));
        tabs
    }
}

/// The entry that a list of `count` entries has selected after a step up
/// from `selected`: the one before, and from the first the last. A list
/// without a selection steps from its first entry; an empty list keeps
/// what it has.
pub open spec fn stepped_up(selected: Option<usize>, count: usize) -> Option<usize> {
    let from = match selected {
        Some(i) => i,
        None => 0,
    };
    if count == 0 {
        selected
    } else if from == 0 {
        Some((count - 1) as usize)
    } else {
        Some((from - 1) as usize)
    }
}

/// The entry that a list of `count` entries has selected after a step down
/// from `selected`: the one after, and from the last the first.
pub open spec fn stepped_down(selected: Option<usize>, count: usize) -> Option<usize> {
    let from = match selected {
        Some(i) => i,
        None => 0,
    };
    if count == 0 {
        selected
    } else {
        Some(((from + 1) % (count as int)) as usize)
    }
}

/// Step the selection of a list up by one entry.
pub fn select_previous(selected: Option<usize>, count: usize) -> (r: Option<usize>)
    ensures
        r == stepped_up(selected, count),
        count > 0 && (selected is None || selected->0 < count) ==> r is Some && r->0 < count,
{
    if count == 0 {
        return selected;
    }
    let from = match selected {
        Some(i) => i,
        None => 0,
    };
    if from == 0 {
        Some(count - 1)
    } else {
        Some(from - 1)
    }
}

/// Step the selection of a list down by one entry.
pub fn select_next(selected: Option<usize>, count: usize) -> (r: Option<usize>)
    ensures
        r == stepped_down(selected, count),
        count > 0 ==> r is Some && r->0 < count,
{
    if count == 0 {
        return selected;
    }
    let from = match selected {
        Some(i) => i,
        None => 0,
    };
    let within = from % count;
    let next = if within + 1 == count {
        0
    } else {
        within + 1
    };
    assert(next == (from + 1) % (count as int)) by (nonlinear_arith)
        requires
            count > 0,
            within == from % count,
            next == (if within + 1 == count {
                0
            } else {
                within + 1
            }),
    ;
    Some(next)
}

/// The control mode that the fan panel has selected.
#[derive(Debug, Clone, Copy, PartialEq, Eq, Structural)]
pub enum FanModeSelect {
    Auto,
    Manual,
    Curve,
}

/// By how much one key press changes a PWM duty.
pub const PWM_STEP: u8 = 5;

/// The PWM duty that the fan panel starts with.
pub const INITIAL_PWM: u8 = 128;

/// What the fan panel holds: the mode and, for each mode, what to set.
#[derive(Debug, Clone, Copy, PartialEq, Eq, Structural)]
pub struct FanControl {
    /// The duty for manual mode.
    pub selected_fan_pwm: u8,
    pub fan_mode_select: FanModeSelect,
    /// Position of the sensor for curve mode, among the sensors.
    pub temp_sensor_select: usize,
    /// Position of the curve for curve mode, among the curves.
    pub curve_select: usize,
}

/// `duty` lowered by one step, but not below 0.
pub open spec fn duty_down(duty: u8) -> u8 {
    if duty < PWM_STEP {
        0
    } else {
        (duty - PWM_STEP) as u8
    }
}

/// `duty` raised by one step, but not above 255.
pub open spec fn duty_up(duty: u8) -> u8 {
    if duty > 255 - PWM_STEP {
        255
    } else {
        (duty + PWM_STEP) as u8
    }
}

/// The position before `position` in a list, or `position` itself at the
/// start.
pub open spec fn position_back(position: usize) -> usize {
    if position > 0 {
        (position - 1) as usize
    } else {
        position
    }
}

/// The position after `position` in a list of `count` entries, or
/// `position` itself where there is none after it.
pub open spec fn position_forth(position: usize, count: usize) -> usize {
    if position + 1 < count {
        (position + 1) as usize
    } else {
        position
    }
}

/// The ids of `temps`, in order.
pub open spec fn status_ids(temps: Seq<TempStatusView>) -> Seq<Seq<char>> {
    temps.map_values(|status: TempStatusView| status.id)
}

/// The position of the first status of `temps` with the id `sensor_id`, if
/// there is one.
pub fn find_status(temps: &Vec<TempStatus>, sensor_id: &String) -> (r: Option<usize>)
    ensures
        match r {
            Some(at) => at < temps@.len() && at == first_match(
                status_ids(temps.deep_view()),
                sensor_id@,
                0,
            ),
            None => first_match(status_ids(temps.deep_view()), sensor_id@, 0) == temps@.len(),
        },
{
    let ghost ids = status_ids(temps.deep_view());
    let mut i: usize = 0;
    while i < temps.len()
        invariant
            i <= temps@.len(),
            ids == status_ids(temps.deep_view()),
            first_match(ids, sensor_id@, 0) == first_match(ids, sensor_id@, i as int),
        decreases temps@.len() - i,
    {
        assert(ids[i as int] == temps@[i as int].id@);
        if temps[i].id == *sensor_id {
            return Some(i);
        }
        i += 1;
    }
    None
}

/// `position`, unless `found` is a position in a list of `count` entries.
pub open spec fn moved_to(position: usize, found: int, count: nat) -> usize {
    if 0 <= found < count {
        found as usize
    } else {
        position
    }
}

impl FanControl {
    /// The panel after a key to the left: a lower duty in manual mode, the
    /// sensor before in curve mode.
    pub open spec fn adjusted_left(self) -> FanControl {
        match self.fan_mode_select {
            FanModeSelect::Manual => FanControl {
                selected_fan_pwm: duty_down(self.selected_fan_pwm),
                ..self
            },
            FanModeSelect::Curve => FanControl {
                temp_sensor_select: position_back(self.temp_sensor_select),
                ..self
            },
            FanModeSelect::Auto => self,
        }
    }

    /// The panel after a key to the right: a higher duty in manual mode,
    /// the sensor after in curve mode.
    pub open spec fn adjusted_right(self, sensor_count: usize) -> FanControl {
        match self.fan_mode_select {
            FanModeSelect::Manual => FanControl {
                selected_fan_pwm: duty_up(self.selected_fan_pwm),
                ..self
            },
            FanModeSelect::Curve => FanControl {
                temp_sensor_select: position_forth(self.temp_sensor_select, sensor_count),
                ..self
            },
            FanModeSelect::Auto => self,
        }
    }

    /// The panel that shows `assignment`: its mode and what it sets. A
    /// curve or sensor that is not in the lists leaves the selection where
    /// it is, and a fan without an assignment shows as automatic.
    pub open spec fn showing(
        self,
        assignment: Option<FanAssignmentView>,
        curves: Seq<FanCurveView>,
        temps: Seq<TempStatusView>,
    ) -> FanControl {
        match assignment {
            None => FanControl { fan_mode_select: FanModeSelect::Auto, ..self },
            Some(FanAssignmentView::Auto) => FanControl {
                fan_mode_select: FanModeSelect::Auto,
                ..self
            },
            Some(FanAssignmentView::Manual { pwm }) => FanControl {
                fan_mode_select: FanModeSelect::Manual,
                selected_fan_pwm: pwm,
                ..self
            },
            Some(FanAssignmentView::Curve { curve_name, temp_sensor_id }) => FanControl {
                fan_mode_select: FanModeSelect::Curve,
                curve_select: moved_to(
                    self.curve_select,
                    first_match(curve_names(curves), curve_name, 0),
                    curves.len(),
                ),
                temp_sensor_select: moved_to(
                    self.temp_sensor_select,
                    first_match(status_ids(temps), temp_sensor_id, 0),
                    temps.len(),
                ),
                ..self
            },
        }
    }

    /// The request that applies the panel to the fan `fan_id`; `None`
    /// where curve mode is selected and the selected curve or sensor does
    /// not exist or has an empty name.
    pub open spec fn request_for(
        self,
        fan_id: Seq<char>,
        curves: Seq<FanCurveView>,
        temps: Seq<TempStatusView>,
    ) -> Option<RequestView> {
        match self.fan_mode_select {
            FanModeSelect::Auto => Some(RequestView::SetAuto { fan_id }),
            FanModeSelect::Manual => Some(
                RequestView::SetManual { fan_id, pwm: self.selected_fan_pwm },
            ),
            FanModeSelect::Curve => if self.curve_select < curves.len() && self.temp_sensor_select
                < temps.len() && curves[self.curve_select as int].name.len() > 0
                && temps[self.temp_sensor_select as int].id.len() > 0 {
                Some(
                    RequestView::SetCurve {
                        fan_id,
                        curve_name: curves[self.curve_select as int].name,
                        temp_sensor_id: temps[self.temp_sensor_select as int].id,
                    },
                )
            } else {
                None
            },
        }
    }

    /// The panel of a client that has just started.
    pub fn new() -> (panel: Self)
        ensures
            panel == (FanControl {
                selected_fan_pwm: INITIAL_PWM,
                fan_mode_select: FanModeSelect::Auto,
                temp_sensor_select: 0,
                curve_select: 0,
            }),
    {
        FanControl {
            selected_fan_pwm: INITIAL_PWM,
            fan_mode_select: FanModeSelect::Auto,
            temp_sensor_select: 0,
            curve_select: 0,
        }
    }

    /// A key to the left.
    pub fn adjust_left(&mut self)
        ensures
            *final(self) == old(self).adjusted_left(),
    {
        match self.fan_mode_select {
            FanModeSelect::Manual => {
                self.selected_fan_pwm = if self.selected_fan_pwm < PWM_STEP {
                    0
                } else {
                    self.selected_fan_pwm - PWM_STEP
                };
            },
            FanModeSelect::Curve => {
                if self.temp_sensor_select > 0 {
                    self.temp_sensor_select -= 1;
                }
            },
            FanModeSelect::Auto => {},
        }
    }

    /// A key to the right, with `sensor_count` sensors to choose from.
    pub fn adjust_right(&mut self, sensor_count: usize)
        ensures
            *final(self) == old(self).adjusted_right(sensor_count),
    {
        match self.fan_mode_select {
            FanModeSelect::Manual => {
                self.selected_fan_pwm = if self.selected_fan_pwm > 255 - PWM_STEP {
                    255
                } else {
                    self.selected_fan_pwm + PWM_STEP
                };
            },
            FanModeSelect::Curve => {
                if self.temp_sensor_select < sensor_count && self.temp_sensor_select + 1
                    < sensor_count {
                    self.temp_sensor_select += 1;
                }
            },
            FanModeSelect::Auto => {},
        }
    }

    /// The key for the curve before.
    pub fn previous_curve(&mut self)
        ensures
            *final(self) == (FanControl {
                curve_select: position_back(old(self).curve_select),
                ..*old(self)
            }),
    {
        if self.curve_select > 0 {
            self.curve_select -= 1;
        }
    }

    /// The key for the curve after, with `curve_count` curves to choose
    /// from.
    pub fn next_curve(&mut self, curve_count: usize)
        ensures
            *final(self) == (FanControl {
                curve_select: position_forth(old(self).curve_select, curve_count),
                ..*old(self)
            }),
    {
        if self.curve_select < curve_count && self.curve_select + 1 < curve_count {
            self.curve_select += 1;
        }
    }

    /// Show the assignment of the fan that has been selected.
    pub fn load_assignment(
        &mut self,
        assignment: Option<&FanAssignment>,
        curves: &Vec<FanCurve>,
        temps: &Vec<TempStatus>,
    )
        ensures
            *final(self) == old(self).showing(
                match assignment {
                    Some(a) => Some(a@),
                    None => None,
                },
                curves.deep_view(),
                temps.deep_view(),
            ),
    {
        match assignment {
            None => {
                self.fan_mode_select = FanModeSelect::Auto;
            },
            Some(FanAssignment::Auto) => {
                self.fan_mode_select = FanModeSelect::Auto;
            },
            Some(FanAssignment::Manual { pwm }) => {
                self.fan_mode_select = FanModeSelect::Manual;
                self.selected_fan_pwm = *pwm;
            },
            Some(FanAssignment::Curve { curve_name, temp_sensor_id }) => {
                self.fan_mode_select = FanModeSelect::Curve;
                if let Some(at) = find_curve(curves, curve_name) {
                    self.curve_select = at;
                }
                if let Some(at) = find_status(temps, temp_sensor_id) {
                    self.temp_sensor_select = at;
                }
            },
        }
    }

    /// The request that applies the panel to the fan `fan_id`, if the
    /// panel is complete.
    pub fn request(&self, fan_id: String, curves: &Vec<FanCurve>, temps: &Vec<TempStatus>) -> (r:
        Option<Request>)
        ensures
            match r {
                Some(request) => self.request_for(fan_id@, curves.deep_view(), temps.deep_view())
                    == Some(request@),
                None => self.request_for(fan_id@, curves.deep_view(), temps.deep_view()) is None,
            },
    {
        match self.fan_mode_select {
            FanModeSelect::Auto => Some(Request::SetAuto { fan_id }),
            FanModeSelect::Manual => Some(Request::SetManual { fan_id, pwm: self.selected_fan_pwm }),
            FanModeSelect::Curve => {
                if self.curve_select >= curves.len() || self.temp_sensor_select >= temps.len() {
                    return None;
                }
                let curve_name = curves[self.curve_select].name.clone();
                let temp_sensor_id = temps[self.temp_sensor_select].id.clone();
                assert(curves.deep_view()[self.curve_select as int]
                    == curves@[self.curve_select as int]@);
                assert(temps.deep_view()[self.temp_sensor_select as int]
                    == temps@[self.temp_sensor_select as int]@);
                if curve_name.as_str().unicode_len() == 0 || temp_sensor_id.as_str().unicode_len()
                    == 0 {
                    return None;
                }
                Some(Request::SetCurve { fan_id, curve_name, temp_sensor_id })
            },
        }
    }
}

/// The part of a curve that the editor is changing.
#[derive(Debug, Clone, Copy, PartialEq, Eq, Structural)]
pub enum CurveField {
    Name,
    Temp,
    Pwm,
}

/// By how much one key press changes a temperature, in millidegrees
/// Celsius.
pub const TEMP_STEP_MC: i64 = 1_000;

/// The highest temperature that the editor sets, in millidegrees Celsius.
pub const MAX_EDIT_TEMP_MC: i64 = 120_000;

/// How far above the last point a new point is put, in millidegrees
/// Celsius.
pub const NEW_POINT_GAP_MC: i64 = 10_000;

/// The temperature of a point that is added to no points, in millidegrees
/// Celsius.
pub const FIRST_POINT_TEMP_MC: i64 = 50_000;

/// The duty of a point that is added.
pub const NEW_POINT_PWM: u8 = 128;

/// The fewest points that the editor leaves in a curve.
pub const MIN_POINTS: usize = 2;

/// A curve that is being edited.
#[derive(Debug, Clone, PartialEq, Eq)]
pub struct CurveEditState {
    pub name: String,
    pub points: Vec<CurvePoint>,
    pub selected_point: usize,
    pub editing_field: CurveField,
    pub is_new: bool,
}

/// The points that a new curve starts with.
pub open spec fn starting_points() -> Seq<CurvePoint> {
    seq![CurvePoint { temp_mc: 30_000, pwm: 0 }, CurvePoint { temp_mc: 90_000, pwm: 255 }]
}

/// The field after `field`, in the order name, temperature, duty, and
/// round again.
pub open spec fn field_after(field: CurveField) -> CurveField {
    match field {
        CurveField::Name => CurveField::Temp,
        CurveField::Temp => CurveField::Pwm,
        CurveField::Pwm => CurveField::Name,
    }
}

/// `point` with its temperature or duty one step lower, the temperature
/// not below zero.
pub open spec fn point_down(point: CurvePoint, field: CurveField) -> CurvePoint {
    match field {
        CurveField::Name => point,
        CurveField::Temp => CurvePoint {
            temp_mc: if point.temp_mc < TEMP_STEP_MC {
                0
            } else {
                (point.temp_mc - TEMP_STEP_MC) as i64
            },
            pwm: point.pwm,
        },
        CurveField::Pwm => CurvePoint { temp_mc: point.temp_mc, pwm: duty_down(point.pwm) },
    }
}

/// `point` with its temperature or duty one step higher, the temperature
/// not above [`MAX_EDIT_TEMP_MC`].
pub open spec fn point_up(point: CurvePoint, field: CurveField) -> CurvePoint {
    match field {
        CurveField::Name => point,
        CurveField::Temp => CurvePoint {
            temp_mc: if point.temp_mc + TEMP_STEP_MC > MAX_EDIT_TEMP_MC {
                MAX_EDIT_TEMP_MC
            } else {
                (point.temp_mc + TEMP_STEP_MC) as i64
            },
            pwm: point.pwm,
        },
        CurveField::Pwm => CurvePoint { temp_mc: point.temp_mc, pwm: duty_up(point.pwm) },
    }
}

/// `points` with `change` made to the point at `selected`, if there is
/// one.
pub open spec fn with_point(points: Seq<CurvePoint>, selected: usize, change: CurvePoint) -> Seq<
    CurvePoint,
> {
    if selected < points.len() {
        points.update(selected as int, change)
    } else {
        points
    }
}

/// The point that is added behind `points`: some way above the last
/// temperature, but not above [`MAX_EDIT_TEMP_MC`].
pub open spec fn added_point(points: Seq<CurvePoint>) -> CurvePoint {
    let wanted = if points.len() == 0 {
        FIRST_POINT_TEMP_MC as int
    } else {
        points.last().temp_mc + NEW_POINT_GAP_MC
    };
    CurvePoint {
        temp_mc: if wanted > MAX_EDIT_TEMP_MC {
            MAX_EDIT_TEMP_MC
        } else {
            wanted as i64
        },
        pwm: NEW_POINT_PWM,
    }
}

impl CurveEditState {
    /// The editor for a curve that does not exist yet.
    pub fn new_curve() -> (edit: Self)
        ensures
            edit.name@ == "new_curve"@,
            edit.points@ == starting_points(),
            edit.selected_point == 0,
            edit.editing_field == CurveField::Name,
            edit.is_new,
    {
        let mut points: Vec<CurvePoint> = Vec::new();
        points.push(CurvePoint { temp_mc: 30_000, pwm: 0 });
        points.push(CurvePoint { temp_mc: 90_000, pwm: 255 });
        assert(points@ =~= starting_points());
        CurveEditState {
            name: String::from_str("new_curve"),
            points,
            selected_point: 0,
            editing_field: CurveField::Name,
            is_new: true,
        }
    }

    /// The editor for a curve that exists.
    pub fn edit(curve: &FanCurve) -> (edit: Self)
        ensures
            edit.name@ == curve.name@,
            edit.points@ == curve.points@,
            edit.selected_point == 0,
            edit.editing_field == CurveField::Temp,
            !edit.is_new,
    {
        let copy = curve.clone();
        CurveEditState {
            name: copy.name,
            points: copy.points,
            selected_point: 0,
            editing_field: CurveField::Temp,
            is_new: false,
        }
    }

    /// Go on to the next field.
    pub fn next_field(&mut self)
        ensures
            final(self).editing_field == field_after(old(self).editing_field),
            final(self).name == old(self).name,
            final(self).points == old(self).points,
            final(self).selected_point == old(self).selected_point,
            final(self).is_new == old(self).is_new,
    {
        self.editing_field = match self.editing_field {
            CurveField::Name => CurveField::Temp,
            CurveField::Temp => CurveField::Pwm,
            CurveField::Pwm => CurveField::Name,
        };
    }

    /// Select the point before, if there is one.
    pub fn previous_point(&mut self)
        ensures
            final(self).selected_point == position_back(old(self).selected_point),
            final(self).name == old(self).name,
            final(self).points == old(self).points,
            final(self).editing_field == old(self).editing_field,
            final(self).is_new == old(self).is_new,
    {
        if self.selected_point > 0 {
            self.selected_point -= 1;
        }
    }

    /// Select the point after, if there is one.
    pub fn next_point(&mut self)
        ensures
            final(self).selected_point == position_forth(
                old(self).selected_point,
                old(self).points@.len() as usize,
            ),
            final(self).name == old(self).name,
            final(self).points == old(self).points,
            final(self).editing_field == old(self).editing_field,
            final(self).is_new == old(self).is_new,
    {
        if self.selected_point < self.points.len() && self.selected_point + 1 < self.points.len() {
            self.selected_point += 1;
        }
    }

    /// Lower the temperature or the duty of the selected point, whichever
    /// is being edited.
    pub fn decrease(&mut self)
        ensures
            final(self).points@ == with_point(
                old(self).points@,
                old(self).selected_point,
                point_down(
                    old(self).points@[old(self).selected_point as int],
                    old(self).editing_field,
                ),
            ),
            final(self).name == old(self).name,
            final(self).selected_point == old(self).selected_point,
            final(self).editing_field == old(self).editing_field,
            final(self).is_new == old(self).is_new,
    {
        if self.selected_point < self.points.len() {
            let point = self.points[self.selected_point];
            let changed = match self.editing_field {
                CurveField::Name => point,
                CurveField::Temp => CurvePoint {
                    temp_mc: if point.temp_mc < TEMP_STEP_MC {
                        0
                    } else {
                        point.temp_mc - TEMP_STEP_MC
                    },
                    pwm: point.pwm,
                },
                CurveField::Pwm => CurvePoint {
                    temp_mc: point.temp_mc,
                    pwm: if point.pwm < PWM_STEP {
                        0
                    } else {
                        point.pwm - PWM_STEP
                    },
                },
            };
            self.points.set(self.selected_point, changed);
        }
    }

    /// Raise the temperature or the duty of the selected point, whichever
    /// is being edited.
    pub fn increase(&mut self)
        ensures
            final(self).points@ == with_point(
                old(self).points@,
                old(self).selected_point,
                point_up(
                    old(self).points@[old(self).selected_point as int],
                    old(self).editing_field,
                ),
            ),
            final(self).name == old(self).name,
            final(self).selected_point == old(self).selected_point,
            final(self).editing_field == old(self).editing_field,
            final(self).is_new == old(self).is_new,
    {
        if self.selected_point < self.points.len() {
            let point = self.points[self.selected_point];
            let changed = match self.editing_field {
                CurveField::Name => point,
                CurveField::Temp => CurvePoint {
                    temp_mc: if point.temp_mc > MAX_EDIT_TEMP_MC - TEMP_STEP_MC {
                        MAX_EDIT_TEMP_MC
                    } else {
                        point.temp_mc + TEMP_STEP_MC
                    },
                    pwm: point.pwm,
                },
                CurveField::Pwm => CurvePoint {
                    temp_mc: point.temp_mc,
                    pwm: if point.pwm > 255 - PWM_STEP {
                        255
                    } else {
                        point.pwm + PWM_STEP
                    },
                },
            };
            self.points.set(self.selected_point, changed);
        }
    }

    /// Add a point behind the last and select it.
    pub fn add_point(&mut self)
        ensures
            final(self).points@ == old(self).points@.push(added_point(old(self).points@)),
            final(self).selected_point == old(self).points@.len(),
            final(self).name == old(self).name,
            final(self).editing_field == old(self).editing_field,
            final(self).is_new == old(self).is_new,
    {
        let n = self.points.len();
        let temp_mc = if n == 0 {
            FIRST_POINT_TEMP_MC
        } else {
            let last = self.points[n - 1].temp_mc;
            if last > MAX_EDIT_TEMP_MC - NEW_POINT_GAP_MC {
                MAX_EDIT_TEMP_MC
            } else {
                last + NEW_POINT_GAP_MC
            }
        };
        self.points.push(CurvePoint { temp_mc, pwm: NEW_POINT_PWM });
        self.selected_point = n;
    }

    /// Remove the selected point, unless that would leave fewer than
    /// [`MIN_POINTS`]; the selection stays within the points.
    pub fn remove_point(&mut self)
        ensures
            final(self).points@ == (if old(self).points@.len() > MIN_POINTS
                && old(self).selected_point < old(self).points@.len() {
                old(self).points@.remove(old(self).selected_point as int)
            } else {
                old(self).points@
            }),
            final(self).selected_point == (if old(self).points@.len() > MIN_POINTS
                && old(self).selected_point == old(self).points@.len() - 1 {
                (old(self).selected_point - 1) as usize
            } else {
                old(self).selected_point
            }),
            final(self).name == old(self).name,
            final(self).editing_field == old(self).editing_field,
            final(self).is_new == old(self).is_new,
    {
        if self.points.len() > MIN_POINTS && self.selected_point < self.points.len() {
            self.points.remove(self.selected_point);
            if self.selected_point >= self.points.len() {
                self.selected_point = self.points.len() - 1;
            }
        }
    }
}

/// What the answer to a command means for the client.
#[derive(Debug, Clone, PartialEq, Eq)]
pub enum CommandResult {
    /// The daemon did what was asked; `message` goes on the status line.
    Acknowledged { message: String },
    /// The daemon refused; `message` goes on the status line.
    Refused { message: String },
    /// The connection failed and is to be given up; `message` goes on the
    /// status line.
    Disconnected { message: String },
    /// The daemon answered with data that no command asks for; nothing
    /// changes.
    Unexpected,
}

/// What a [`CommandResult`] holds, as mathematical values.
pub enum CommandResultView {
    Acknowledged { message: Seq<char> },
    Refused { message: Seq<char> },
    Disconnected { message: Seq<char> },
    Unexpected,
}

impl View for CommandResult {
    type V = CommandResultView;

    open spec fn view(&self) -> CommandResultView {
        match self {
            CommandResult::Acknowledged { message } => CommandResultView::Acknowledged {
                message: message@,
            },
            CommandResult::Refused { message } => CommandResultView::Refused { message: message@ },
            CommandResult::Disconnected { message } => CommandResultView::Disconnected {
                message: message@,
            },
            CommandResult::Unexpected => CommandResultView::Unexpected,
        }
    }
}

/// What `answer` means: an acknowledgement with its message, an error with
/// its message marked as one, or a failed exchange.
pub open spec fn meaning_of(answer: Result<ResponseView, Seq<char>>) -> CommandResultView {
    match answer {
        Ok(ResponseView::Ack { message }) => CommandResultView::Acknowledged { message },
        Ok(ResponseView::Error { message }) => CommandResultView::Refused {
            message: "Error: "@ + message,
        },
        Ok(_) => CommandResultView::Unexpected,
        Err(detail) => CommandResultView::Disconnected { message: "Connection error: "@ + detail },
    }
}

/// What the answer to a command means for the client: `answer` is the
/// response, or why none was received.
pub fn command_result(answer: Result<Response, String>) -> (result: CommandResult)
    ensures
        result@ == meaning_of(
            match answer {
                Ok(response) => Ok(response@),
                Err(detail) => Err(detail@),
            },
        ),
{
    match answer {
        Ok(Response::Ack { message }) => CommandResult::Acknowledged { message },
        Ok(Response::Error { message }) => {
            let mut text = String::from_str("Error: ");
            text.append(message.as_str());
            CommandResult::Refused { message: text }
        },
        Ok(_) => CommandResult::Unexpected,
        Err(detail) => {
            let mut text = String::from_str("Connection error: ");
            text.append(detail.as_str());
            CommandResult::Disconnected { message: text }
        },
    }
}

/// A key press, as far as the client tells keys apart.
#[derive(Debug, Clone, Copy, PartialEq, Eq, Structural)]
pub enum Key {
    Char(char),
    Up,
    Down,
    Left,
    Right,
    Enter,
    Esc,
    Tab,
    BackTab,
    Backspace,
    Delete,
    /// Any other key.
    Other,
}

/// What a key press asks for.
#[derive(Debug, Clone, Copy, PartialEq, Eq, Structural)]
pub enum Action {
    /// Leave the client.
    Quit,
    /// Show another tab.
    ShowTab(Tab),
    /// Ask the daemon for the status and say so.
    Refresh,
    /// Select the fan before, and show its assignment.
    PreviousFan,
    /// Select the fan after, and show its assignment.
    NextFan,
    /// Set the mode of the fan panel.
    SetMode(FanModeSelect),
    /// The fan panel's key to the left.
    AdjustLeft,
    /// The fan panel's key to the right.
    AdjustRight,
    /// The fan panel's curve before.
    PreviousCurve,
    /// The fan panel's curve after.
    NextCurve,
    /// Send the fan panel's setting to the daemon.
    ApplyFanSetting,
    /// Select the entry before in the list of curves.
    CurveListUp,
    /// Select the entry after in the list of curves.
    CurveListDown,
    /// Open the editor on a new curve.
    NewCurve,
    /// Open the editor on the selected curve.
    EditCurve,
    /// Ask the daemon to delete the selected curve.
    DeleteCurve,
    /// Close the editor without saving.
    CancelEdit,
    /// The editor's next field.
    NextField,
    /// The editor's point before.
    PreviousPoint,
    /// The editor's point after.
    NextPoint,
    /// Lower what the editor is editing.
    Decrease,
    /// Raise what the editor is editing.
    Increase,
    /// Add a point in the editor.
    AddPoint,
    /// Remove the editor's selected point.
    RemovePoint,
    /// Erase the last character of the name in the editor.
    EraseChar,
    /// Type a character into the name in the editor.
    TypeChar(char),
    /// Send the editor's curve to the daemon.
    SaveCurve,
    /// Ask the daemon to save its configuration.
    SaveConfig,
    /// Ask the daemon to reload its configuration.
    ReloadConfig,
    /// The key means nothing here.
    Nothing,
}

/// What `key` means while a curve is being edited. The letters that move
/// the selection do so in every field, the name included.
pub open spec fn edit_binding(key: Key) -> Action {
    match key {
        Key::Esc => Action::CancelEdit,
        Key::Tab => Action::NextField,
        Key::Up => Action::PreviousPoint,
        Key::Down => Action::NextPoint,
        Key::Left => Action::Decrease,
        Key::Right => Action::Increase,
        Key::Backspace => Action::EraseChar,
        Key::Enter => Action::SaveCurve,
        Key::Char(c) => if c == 'k' {
            Action::PreviousPoint
        } else if c == 'j' {
            Action::NextPoint
        } else if c == 'h' {
            Action::Decrease
        } else if c == 'l' {
            Action::Increase
        } else if c == '+' || c == '=' {
            Action::AddPoint
        } else if c == '-' {
            Action::RemovePoint
        } else {
            Action::TypeChar(c)
        },
        _ => Action::Nothing,
    }
}

/// The tab that `key` switches to, if it is a key that switches tabs.
pub open spec fn tab_binding(tab: Tab, key: Key) -> Option<Tab> {
    match key {
        Key::Char(c) => if c == '1' {
            Some(Tab::Dashboard)
        } else if c == '2' {
            Some(Tab::FanControl)
        } else if c == '3' {
            Some(Tab::CurveEditor)
        } else if c == '4' {
            Some(Tab::Config)
        } else {
            None
        },
        Key::Tab => Some(tab_at((tab.position() + 1) % (TAB_COUNT as int))),
        Key::BackTab => Some(tab_at((tab.position() + TAB_COUNT - 1) % (TAB_COUNT as int))),
        _ => None,
    }
}

/// What `key` means on the tab `tab`, for a key that does not switch
/// tabs.
pub open spec fn page_binding(tab: Tab, key: Key) -> Action {
    match tab {
        Tab::Dashboard => match key {
            Key::Char(c) => if c == 'r' {
                Action::Refresh
            } else {
                Action::Nothing
            },
            _ => Action::Nothing,
        },
        Tab::FanControl => match key {
            Key::Up => Action::PreviousFan,
            Key::Down => Action::NextFan,
            Key::Left => Action::AdjustLeft,
            Key::Right => Action::AdjustRight,
            Key::Enter => Action::ApplyFanSetting,
            Key::Char(c) => if c == 'k' {
                Action::PreviousFan
            } else if c == 'j' {
                Action::NextFan
            } else if c == 'm' {
                Action::SetMode(FanModeSelect::Manual)
            } else if c == 'a' {
                Action::SetMode(FanModeSelect::Auto)
            } else if c == 'c' {
                Action::SetMode(FanModeSelect::Curve)
            } else if c == 'h' {
                Action::AdjustLeft
            } else if c == 'l' {
                Action::AdjustRight
            } else if c == '[' {
                Action::PreviousCurve
            } else if c == ']' {
                Action::NextCurve
            } else {
                Action::Nothing
            },
            _ => Action::Nothing,
        },
        Tab::CurveEditor => match key {
            Key::Up => Action::CurveListUp,
            Key::Down => Action::CurveListDown,
            Key::Enter => Action::EditCurve,
            Key::Delete => Action::DeleteCurve,
            Key::Char(c) => if c == 'k' {
                Action::CurveListUp
            } else if c == 'j' {
                Action::CurveListDown
            } else if c == 'n' {
                Action::NewCurve
            } else if c == 'e' {
                Action::EditCurve
            } else if c == 'd' {
                Action::DeleteCurve
            } else {
                Action::Nothing
            },
            _ => Action::Nothing,
        },
        Tab::Config => match key {
            Key::Char(c) => if c == 's' {
                Action::SaveConfig
            } else if c == 'r' {
                Action::ReloadConfig
            } else {
                Action::Nothing
            },
            _ => Action::Nothing,
        },
    }
}

/// What `key` means, on the tab `tab`, with or without a curve being
/// edited, and with or without the control key held.
///
/// Control-C quits anywhere, `q` anywhere but in the editor. The editor
/// takes every other key while it is open. Elsewhere a key either switches
/// tabs or means what the tab says.
pub open spec fn binding(tab: Tab, editing: bool, key: Key, ctrl: bool) -> Action {
    if key == Key::Char('c') && ctrl {
        Action::Quit
    } else if key == Key::Char('q') && !editing {
        Action::Quit
    } else if editing {
        edit_binding(key)
    } else {
        match tab_binding(tab, key) {
            Some(next) => Action::ShowTab(next),
            None => page_binding(tab, key),
        }
    }
}

/// What `key` means while a curve is being edited.
fn edit_action(key: Key) -> (action: Action)
    ensures
        action == edit_binding(key),
{
    match key {
        Key::Esc => Action::CancelEdit,
        Key::Tab => Action::NextField,
        Key::Up | Key::Char('k') => Action::PreviousPoint,
        Key::Down | Key::Char('j') => Action::NextPoint,
        Key::Left | Key::Char('h') => Action::Decrease,
        Key::Right | Key::Char('l') => Action::Increase,
        Key::Char('+') | Key::Char('=') => Action::AddPoint,
        Key::Char('-') => Action::RemovePoint,
        Key::Backspace => Action::EraseChar,
        Key::Char(c) => Action::TypeChar(c),
        Key::Enter => Action::SaveCurve,
        _ => Action::Nothing,
    }
}

/// What `key` means on the tab `tab`, for a key that does not switch
/// tabs.
fn page_action(tab: Tab, key: Key) -> (action: Action)
    ensures
        action == page_binding(tab, key),
{
    match tab {
        Tab::Dashboard => match key {
            Key::Char('r') => Action::Refresh,
            _ => Action::Nothing,
        },
        Tab::FanControl => match key {
            Key::Up | Key::Char('k') => Action::PreviousFan,
            Key::Down | Key::Char('j') => Action::NextFan,
            Key::Char('m') => Action::SetMode(FanModeSelect::Manual),
            Key::Char('a') => Action::SetMode(FanModeSelect::Auto),
            Key::Char('c') => Action::SetMode(FanModeSelect::Curve),
            Key::Left | Key::Char('h') => Action::AdjustLeft,
            Key::Right | Key::Char('l') => Action::AdjustRight,
            Key::Char('[') => Action::PreviousCurve,
            Key::Char(']') => Action::NextCurve,
            Key::Enter => Action::ApplyFanSetting,
            _ => Action::Nothing,
        },
        Tab::CurveEditor => match key {
            Key::Up | Key::Char('k') => Action::CurveListUp,
            Key::Down | Key::Char('j') => Action::CurveListDown,
            Key::Char('n') => Action::NewCurve,
            Key::Enter | Key::Char('e') => Action::EditCurve,
            Key::Char('d') | Key::Delete => Action::DeleteCurve,
            _ => Action::Nothing,
        },
        Tab::Config => match key {
            Key::Char('s') => Action::SaveConfig,
            Key::Char('r') => Action::ReloadConfig,
            _ => Action::Nothing,
        },
    }
}

/// What a key press asks for.
pub fn key_action(tab: Tab, editing: bool, key: Key, ctrl: bool) -> (action: Action)
    ensures
        action == binding(tab, editing, key, ctrl),
{
    match key {
        Key::Char('c') => {
            if ctrl {
                return Action::Quit;
            }
        },
        Key::Char('q') => {
            if !editing {
                return Action::Quit;
            }
        },
        _ => {},
    }
    if editing {
        return edit_action(key);
    }
    match key {
        Key::Char('1') => Action::ShowTab(Tab::Dashboard),
        Key::Char('2') => Action::ShowTab(Tab::FanControl),
        Key::Char('3') => Action::ShowTab(Tab::CurveEditor),
        Key::Char('4') => Action::ShowTab(Tab::Config),
        Key::Tab => Action::ShowTab(tab.next()),
        Key::BackTab => Action::ShowTab(tab.previous()),
        _ => page_action(tab, key),
    }
}

} // verus!
