//! Configuration: daemon settings, the named curves and the table that
//! assigns a control mode to each fan.

use vstd::prelude::*;
use vstd::string::*;

use crate::curve::{default_performance_curve, default_silent_curve, FanCurve, FanCurveView};
use crate::protocol::{FanAssignmentInfo, FanAssignmentInfoView};

verus! {

/// Default config file location.
pub const DEFAULT_CONFIG_PATH: &'static str = "/etc/fanctl/config.toml";

/// Default daemon socket path.
pub const DEFAULT_SOCKET_PATH: &'static str = "/run/fanctl.sock";

/// Default poll interval in milliseconds.
pub const DEFAULT_POLL_INTERVAL_MS: u64 = 2000;

/// Daemon-specific settings.
#[derive(Debug, PartialEq, Eq)]
pub struct DaemonConfig {
    /// Poll interval for the curve engine, in milliseconds.
    pub poll_interval_ms: u64,
    /// Path for the Unix domain socket.
    pub socket_path: String,
    /// Whether to restore fans to automatic on daemon exit.
    pub restore_on_exit: bool,
}

/// What a [`DaemonConfig`] holds, as mathematical values.
pub struct DaemonConfigView {
    pub poll_interval_ms: u64,
    pub socket_path: Seq<char>,
    pub restore_on_exit: bool,
}

impl View for DaemonConfig {
    type V = DaemonConfigView;

    open spec fn view(&self) -> DaemonConfigView {
        DaemonConfigView {
            poll_interval_ms: self.poll_interval_ms,
            socket_path: self.socket_path@,
            restore_on_exit: self.restore_on_exit,
        }
    }
}

impl Clone for DaemonConfig {
    fn clone(&self) -> (r: Self)
        ensures
            r@ == self@,
    {
        DaemonConfig {
            poll_interval_ms: self.poll_interval_ms,
            socket_path: self.socket_path.clone(),
            restore_on_exit: self.restore_on_exit,
        }
    }
}

impl Default for DaemonConfig {
    fn default() -> (r: Self)
        ensures
            r@ == (DaemonConfigView {
                poll_interval_ms: DEFAULT_POLL_INTERVAL_MS,
                socket_path: DEFAULT_SOCKET_PATH@,
                restore_on_exit: true,
            }),
    {
        DaemonConfig {
            poll_interval_ms: DEFAULT_POLL_INTERVAL_MS,
            socket_path: String::from_str(DEFAULT_SOCKET_PATH),
            restore_on_exit: true,
        }
    }
}

/// How a fan should be controlled.
#[derive(Debug, PartialEq, Eq)]
pub enum FanAssignment {
    /// Automatic (firmware) control.
    Auto,
    /// Fixed manual PWM value.
    Manual {
        /// PWM duty 0-255.
        pwm: u8,
    },
    /// Controlled by a named curve tracking a specific temperature sensor.
    Curve {
        /// Name of the curve, which should match a configured curve.
        curve_name: String,
        /// Id of the temperature sensor to read (e.g. "hwmon3/temp1").
        temp_sensor_id: String,
    },
}

/// What a [`FanAssignment`] holds, as mathematical values.
pub enum FanAssignmentView {
    Auto,
    Manual { pwm: u8 },
    Curve { curve_name: Seq<char>, temp_sensor_id: Seq<char> },
}

impl View for FanAssignment {
    type V = FanAssignmentView;

    open spec fn view(&self) -> FanAssignmentView {
        match self {
            FanAssignment::Auto => FanAssignmentView::Auto,
            FanAssignment::Manual { pwm } => FanAssignmentView::Manual { pwm: *pwm },
            FanAssignment::Curve { curve_name, temp_sensor_id } => FanAssignmentView::Curve {
                curve_name: curve_name@,
                temp_sensor_id: temp_sensor_id@,
            },
        }
    }
}

impl Clone for FanAssignment {
    fn clone(&self) -> (r: Self)
        ensures
            r@ == self@,
    {
        match self {
            FanAssignment::Auto => FanAssignment::Auto,
            FanAssignment::Manual { pwm } => FanAssignment::Manual { pwm: *pwm },
            FanAssignment::Curve { curve_name, temp_sensor_id } => FanAssignment::Curve {
                curve_name: curve_name.clone(),
                temp_sensor_id: temp_sensor_id.clone(),
            },
        }
    }
}

/// The poll interval used where a configuration names none.
pub fn default_poll_interval() -> (ms: u64)
    ensures
        ms == DEFAULT_POLL_INTERVAL_MS,
{
    DEFAULT_POLL_INTERVAL_MS
}

/// The socket path used where a configuration names none.
pub fn default_socket_path() -> (path: String)
    ensures
        path@ == DEFAULT_SOCKET_PATH@,
{
    String::from_str(DEFAULT_SOCKET_PATH)
}

/// The value of a switch that is on unless a configuration turns it off.
pub fn default_true() -> (on: bool)
    ensures
        on,
{
    true
}

/// Resolve the config file path from a command-line argument or the
/// default.
pub fn resolve_config_path(cli_path: Option<&str>) -> (path: String)
    ensures
        path@ == (match cli_path {
            Some(given) => given@,
            None => DEFAULT_CONFIG_PATH@,
        }),
{
    match cli_path {
        Some(given) => String::from_str(given),
        None => String::from_str(DEFAULT_CONFIG_PATH),
    }
}

/// No fan id occurs twice among `entries`.
pub open spec fn distinct_ids(entries: Seq<FanAssignmentInfoView>) -> bool {
    forall|i: int, j: int|
        0 <= i < j < entries.len() ==> (#[trigger] entries[i]).fan_id != (#[trigger] entries[j]).fan_id
}

/// The mapping that `entries` write down, a later entry for a fan
/// overriding an earlier one.
pub open spec fn table_of(entries: Seq<FanAssignmentInfoView>) -> Map<Seq<char>, FanAssignmentView>
    decreases entries.len(),
{
    if entries.len() == 0 {
        Map::empty()
    } else {
        table_of(entries.drop_last()).insert(entries.last().fan_id, entries.last().assignment)
    }
}

/// The fans of a table are the fans of its entries, and where no fan
/// occurs twice each entry's assignment is the fan's.
pub proof fn lemma_table_of(entries: Seq<FanAssignmentInfoView>)
    ensures
        forall|id: Seq<char>| #[trigger]
            table_of(entries).contains_key(id) <==> exists|i: int|
                0 <= i < entries.len() && (#[trigger] entries[i]).fan_id == id,
        distinct_ids(entries) ==> forall|i: int|
            0 <= i < entries.len() ==> table_of(entries)[(#[trigger] entries[i]).fan_id]
                == entries[i].assignment,
        table_of(entries).dom().finite(),
    decreases entries.len(),
{
    if entries.len() > 0 {
        let front = entries.drop_last();
        let last = entries.last();
        lemma_table_of(front);
        assert forall|id: Seq<char>| #[trigger]
            table_of(entries).contains_key(id) <==> exists|i: int|
                0 <= i < entries.len() && (#[trigger] entries[i]).fan_id == id by {
            if table_of(entries).contains_key(id) {
                if id == last.fan_id {
                    assert(entries[entries.len() - 1].fan_id == id);
                } else {
                    assert(table_of(front).contains_key(id));
                    let i = choose|i: int| 0 <= i < front.len() && (#[trigger] front[i]).fan_id == id;
                    assert(entries[i].fan_id == id);
                }
            }
            if exists|i: int| 0 <= i < entries.len() && (#[trigger] entries[i]).fan_id == id {
                let i = choose|i: int| 0 <= i < entries.len() && (#[trigger] entries[i]).fan_id == id;
                if i < front.len() {
                    assert(front[i].fan_id == id);
                }
            }
        }
        if distinct_ids(entries) {
            assert forall|i: int, j: int| 0 <= i < j < front.len() implies (#[trigger] front[i]).fan_id
                != (#[trigger] front[j]).fan_id by {
                assert(front[i] == entries[i] && front[j] == entries[j]);
            }
            assert forall|i: int| 0 <= i < entries.len() implies table_of(entries)[(
            #[trigger] entries[i]).fan_id] == entries[i].assignment by {
                if i < front.len() {
                    assert(front[i] == entries[i]);
                    assert(entries[i].fan_id != entries[entries.len() - 1].fan_id);
                }
            }
        }
    }
}

/// Replacing the entry of a fan in a table without repeated fans assigns
/// that fan anew and leaves every other fan as it was.
pub proof fn lemma_table_of_update(
    entries: Seq<FanAssignmentInfoView>,
    at: int,
    entry: FanAssignmentInfoView,
)
    requires
        distinct_ids(entries),
        0 <= at < entries.len(),
        entries[at].fan_id == entry.fan_id,
    ensures
        distinct_ids(entries.update(at, entry)),
        table_of(entries.update(at, entry)) == table_of(entries).insert(
            entry.fan_id,
            entry.assignment,
        ),
    decreases entries.len(),
{
    let updated = entries.update(at, entry);
    assert forall|i: int, j: int| 0 <= i < j < updated.len() implies (#[trigger] updated[i]).fan_id
        != (#[trigger] updated[j]).fan_id by {
        assert(updated[i].fan_id == entries[i].fan_id);
        assert(updated[j].fan_id == entries[j].fan_id);
    }
    let front = entries.drop_last();
    let last = entries.last();
    if at == entries.len() - 1 {
        assert(updated.drop_last() =~= front);
        assert(table_of(updated) =~= table_of(entries).insert(entry.fan_id, entry.assignment));
    } else {
        assert forall|i: int, j: int| 0 <= i < j < front.len() implies (#[trigger] front[i]).fan_id
            != (#[trigger] front[j]).fan_id by {
            assert(front[i] == entries[i] && front[j] == entries[j]);
        }
        assert(front[at] == entries[at]);
        lemma_table_of_update(front, at, entry);
        assert(updated.drop_last() =~= front.update(at, entry));
        assert(updated.last() == last);
        assert(entries[at].fan_id != entries[entries.len() - 1].fan_id);
        assert(table_of(updated) =~= table_of(entries).insert(entry.fan_id, entry.assignment));
    }
}

/// The control mode of each managed fan: at most one assignment per fan
/// id, the latest write winning. A fan without an entry is not managed.
#[derive(Debug)]
pub struct AssignmentTable {
    entries: Vec<FanAssignmentInfo>,
}

impl View for AssignmentTable {
    type V = Map<Seq<char>, FanAssignmentView>;

    open spec fn view(&self) -> Map<Seq<char>, FanAssignmentView> {
        table_of(self.order())
    }
}

impl AssignmentTable {
    #[verifier::type_invariant]
    spec fn unique_fans(self) -> bool {
        distinct_ids(self.entries.deep_view())
    }

    /// The assignments in the order in which the table lists them. The
    /// order is an accident of the table's history: it holds each managed
    /// fan once, and nothing else should be read into it.
    pub closed spec fn order(&self) -> Seq<FanAssignmentInfoView> {
        self.entries.deep_view()
    }

    /// A table that manages no fan.
    pub fn new() -> (table: Self)
        ensures
            table@ == Map::<Seq<char>, FanAssignmentView>::empty(),
    {
        let entries: Vec<FanAssignmentInfo> = Vec::new();
        assert(entries.deep_view() =~= Seq::<FanAssignmentInfoView>::empty());
        AssignmentTable { entries }
    }

    /// Where the entry of `fan_id` stands, if the fan has one.
    fn position(&self, fan_id: &String) -> (r: Option<usize>)
        ensures
            match r {
                Some(i) => i < self.entries@.len() && self.entries@[i as int].fan_id@ == fan_id@,
                None => forall|i: int|
                    0 <= i < self.entries@.len() ==> (#[trigger] self.entries@[i]).fan_id@
                        != fan_id@,
            },
    {
        let mut i: usize = 0;
        while i < self.entries.len()
            invariant
                i <= self.entries@.len(),
                forall|j: int| 0 <= j < i ==> (#[trigger] self.entries@[j]).fan_id@ != fan_id@,
            decreases self.entries@.len() - i,
        {
            if self.entries[i].fan_id == *fan_id {
                return Some(i);
            }
            i += 1;
        }
        None
    }

    /// The assignment of `fan_id`, or `None` for a fan that is not managed.
    pub fn get(&self, fan_id: &String) -> (r: Option<&FanAssignment>)
        ensures
            match r {
                Some(assignment) => self@.contains_key(fan_id@) && self@[fan_id@] == assignment@,
                None => !self@.contains_key(fan_id@),
            },
    {
        proof {
            use_type_invariant(self);
            lemma_table_of(self.entries.deep_view());
        }
        match self.position(fan_id) {
            Some(i) => {
                assert(self.entries.deep_view()[i as int] == self.entries@[i as int]@);
                Some(&self.entries[i].assignment)
            },
            None => {
                assert forall|i: int| 0 <= i < self.entries.deep_view().len() implies (
                #[trigger] self.entries.deep_view()[i]).fan_id != fan_id@ by {
                    assert(self.entries.deep_view()[i] == self.entries@[i]@);
                }
                None
            },
        }
    }

    /// Assigns `assignment` to `fan_id`, in place of what the fan had.
    pub fn insert(&mut self, fan_id: String, assignment: FanAssignment)
        ensures
            final(self)@ == old(self)@.insert(fan_id@, assignment@),
    {
        proof {
            use_type_invariant(&*self);
            lemma_table_of(self.entries.deep_view());
        }
        let found = self.position(&fan_id);
        let entry = FanAssignmentInfo { fan_id, assignment };
        let mut entries: Vec<FanAssignmentInfo> = Vec::new();
        std::mem::swap(&mut entries, &mut self.entries);
        let ghost before = entries.deep_view();
        match found {
            Some(i) => {
                proof {
                    assert(before[i as int] == entries@[i as int]@);
                    lemma_table_of_update(before, i as int, entry@);
                }
                entries.set(i, entry);
                assert(entries.deep_view() =~= before.update(i as int, entry@));
            },
            None => {
                entries.push(entry);
                proof {
                    let after = entries.deep_view();
                    assert(after =~= before.push(entry@));
                    assert(after.drop_last() =~= before);
                    assert forall|i: int, j: int| 0 <= i < j < after.len() implies (
                    #[trigger] after[i]).fan_id != (#[trigger] after[j]).fan_id by {
                        assert(before[i] == entries@[i]@);
                        if j < before.len() {
                            assert(after[i] == before[i] && after[j] == before[j]);
                        }
                    }
                }
            },
        }
        self.entries = entries;
    }

    /// Every assignment, once per fan, in no order that callers may rely
    /// on.
    pub fn entries(&self) -> (list: &Vec<FanAssignmentInfo>)
        ensures
            list.deep_view() == self.order(),
            distinct_ids(list.deep_view()),
            table_of(list.deep_view()) == self@,
    {
        proof {
            use_type_invariant(self);
        }
        &self.entries
    }

    /// How many fans the table manages.
    pub fn len(&self) -> (n: usize)
        ensures
            n == self@.len(),
            self@.dom().finite(),
    {
        proof {
            use_type_invariant(self);
            lemma_table_len(self.entries.deep_view());
        }
        self.entries.len()
    }
}

/// A table without repeated fans has as many fans as entries.
pub proof fn lemma_table_len(entries: Seq<FanAssignmentInfoView>)
    requires
        distinct_ids(entries),
    ensures
        table_of(entries).dom().finite(),
        table_of(entries).len() == entries.len(),
    decreases entries.len(),
{
    lemma_table_of(entries);
    if entries.len() > 0 {
        let front = entries.drop_last();
        assert forall|i: int, j: int| 0 <= i < j < front.len() implies (#[trigger] front[i]).fan_id
            != (#[trigger] front[j]).fan_id by {
            assert(front[i] == entries[i] && front[j] == entries[j]);
        }
        lemma_table_len(front);
        lemma_table_of(front);
        assert(!table_of(front).contains_key(entries.last().fan_id)) by {
            if table_of(front).contains_key(entries.last().fan_id) {
                let i = choose|i: int|
                    0 <= i < front.len() && (#[trigger] front[i]).fan_id == entries.last().fan_id;
                assert(front[i] == entries[i]);
                assert(entries[i].fan_id != entries[entries.len() - 1].fan_id);
            }
        }
    }
}

impl Clone for AssignmentTable {
    fn clone(&self) -> (r: Self)
        ensures
            r@ == self@,
    {
        proof {
            use_type_invariant(self);
        }
        let mut entries: Vec<FanAssignmentInfo> = Vec::new();
        let mut i: usize = 0;
        while i < self.entries.len()
            invariant
                i <= self.entries@.len(),
                entries@.len() == i,
                entries.deep_view() == self.entries.deep_view().subrange(0, i as int),
            decreases self.entries@.len() - i,
        {
            let ghost before = entries.deep_view();
            let ghost prev = entries@;
            let entry = self.entries[i].clone();
            entries.push(entry);
            i += 1;
            proof {
                let target = self.entries.deep_view().subrange(0, i as int);
                assert forall|j: int| 0 <= j < i implies entries.deep_view()[j] == target[j] by {
                    if j < i - 1 {
                        assert(entries@[j] == prev[j]);
                        assert(before[j] == prev[j].deep_view());
                    }
                }
                assert(entries.deep_view() =~= target);
            }
        }
        assert(entries.deep_view() =~= self.entries.deep_view());
        AssignmentTable { entries }
    }
}

/// A copy of `curves`.
pub fn clone_curves(curves: &Vec<FanCurve>) -> (r: Vec<FanCurve>)
    ensures
        r.deep_view() == curves.deep_view(),
{
    let mut out: Vec<FanCurve> = Vec::new();
    let mut i: usize = 0;
    while i < curves.len()
        invariant
            i <= curves@.len(),
            out@.len() == i,
            out.deep_view() == curves.deep_view().subrange(0, i as int),
        decreases curves@.len() - i,
    {
        let ghost before = out.deep_view();
        let ghost prev = out@;
        let curve = curves[i].clone();
        out.push(curve);
        i += 1;
        proof {
            let target = curves.deep_view().subrange(0, i as int);
            assert forall|j: int| 0 <= j < i implies out.deep_view()[j] == target[j] by {
                if j < i - 1 {
                    assert(out@[j] == prev[j]);
                    assert(before[j] == prev[j].deep_view());
                }
            }
            assert(out.deep_view() =~= target);
        }
    }
    assert(out.deep_view() =~= curves.deep_view());
    out
}

/// Top-level configuration.
#[derive(Debug)]
pub struct Config {
    /// Daemon settings.
    pub daemon: DaemonConfig,
    /// Named fan curves.
    pub curves: Vec<FanCurve>,
    /// Per-fan assignments, keyed by fan id (e.g. "hwmon3/pwm1").
    pub fans: AssignmentTable,
}

/// What a [`Config`] holds, as mathematical values.
pub struct ConfigView {
    pub daemon: DaemonConfigView,
    pub curves: Seq<FanCurveView>,
    pub fans: Map<Seq<char>, FanAssignmentView>,
}

impl View for Config {
    type V = ConfigView;

    open spec fn view(&self) -> ConfigView {
        ConfigView { daemon: self.daemon@, curves: self.curves.deep_view(), fans: self.fans@ }
    }
}

impl Clone for Config {
    fn clone(&self) -> (r: Self)
        ensures
            r@ == self@,
    {
        Config {
            daemon: self.daemon.clone(),
            curves: clone_curves(&self.curves),
            fans: self.fans.clone(),
        }
    }
}

/// The configuration of a daemon that has no configuration file: default
/// settings, the two default curves, and no fan managed.
pub open spec fn default_config() -> ConfigView {
    ConfigView {
        daemon: DaemonConfigView {
            poll_interval_ms: DEFAULT_POLL_INTERVAL_MS,
            socket_path: DEFAULT_SOCKET_PATH@,
            restore_on_exit: true,
        },
        curves: seq![
            FanCurveView { name: "silent"@, points: crate::curve::silent_points() },
            FanCurveView { name: "performance"@, points: crate::curve::performance_points() },
        ],
        fans: Map::empty(),
    }
}

impl Default for Config {
    fn default() -> (r: Self)
        ensures
            r@ == default_config(),
    {
        let mut curves: Vec<FanCurve> = Vec::new();
        curves.push(default_silent_curve());
        curves.push(default_performance_curve());
        assert(curves.deep_view() =~= default_config().curves);
        Config { daemon: DaemonConfig::default(), curves, fans: AssignmentTable::new() }
    }
}

/// What was found at the path of the configuration file.
#[derive(Debug)]
pub enum ConfigFile {
    /// No file is there.
    Absent,
    /// The file could not be read.
    Unreadable { detail: String },
    /// The file holds no valid configuration.
    Malformed { detail: String },
    /// The file holds this configuration.
    Parsed { config: Config },
}

/// How the error for a malformed configuration file begins.
pub open spec fn parse_failure_prefix() -> Seq<char> {
    "Failed to parse config: "@
}

/// Load the configuration from what was found at its path: the default
/// configuration if no file is there, the configuration in the file if it
/// holds one, and otherwise the reason why there is none.
pub fn load_config(file: ConfigFile) -> (r: Result<Config, String>)
    ensures
        match file {
            ConfigFile::Absent => r is Ok && r->Ok_0@ == default_config(),
            ConfigFile::Unreadable { detail } => r is Err && r->Err_0@ == detail@,
            ConfigFile::Malformed { detail } => r is Err && r->Err_0@ == parse_failure_prefix()
                + detail@,
            ConfigFile::Parsed { config } => r == Ok::<Config, String>(config),
        },
{
    match file {
        ConfigFile::Absent => Ok(Config::default()),
        ConfigFile::Unreadable { detail } => Err(detail),
        ConfigFile::Malformed { detail } => {
            let mut message = String::from_str("Failed to parse config: ");
            message.append(detail.as_str());
            Err(message)
        },
        ConfigFile::Parsed { config } => Ok(config),
    }
}

/// What came of writing the configuration to its file.
#[derive(Debug, Clone, PartialEq, Eq)]
pub enum ConfigWrite {
    /// The file holds the configuration.
    Written,
    /// The configuration could not be put into the form of the file.
    Unserializable { detail: String },
    /// The directory or the file could not be written.
    Failed { detail: String },
}

/// How the error for a configuration that cannot be serialised begins.
pub open spec fn serialize_failure_prefix() -> Seq<char> {
    "Failed to serialize config: "@
}

/// Whether the configuration was saved, from what came of writing it; the
/// error says why it was not.
pub fn save_config(write: ConfigWrite) -> (r: Result<(), String>)
    ensures
        match write {
            ConfigWrite::Written => r is Ok,
            ConfigWrite::Unserializable { detail } => r is Err && r->Err_0@
                == serialize_failure_prefix() + detail@,
            ConfigWrite::Failed { detail } => r is Err && r->Err_0@ == detail@,
        },
{
    match write {
        ConfigWrite::Written => Ok(()),
        ConfigWrite::Unserializable { detail } => {
            let mut message = String::from_str("Failed to serialize config: ");
            message.append(detail.as_str());
            Err(message)
        },
        ConfigWrite::Failed { detail } => Err(detail),
    }
}

} // verus!
