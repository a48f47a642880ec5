//! State and input handling for the interactive TUI.
//!
//! A key press changes the state and may leave an [`Action`] to be performed;
//! what came of the action is handed back through the method that the action
//! names. Keys, devices and files are on the other side.

use crate::config::Config;
use crate::error;
use crate::error::Error;
use crate::error::Fault;
use crate::error::Problem;
use crate::history;
use crate::history::History;
use crate::history::HistoryView;
use crate::notify::Alert;
use crate::notify::Notifier;
use crate::profile;
use crate::profile::Profile;
use crate::profile::ProfileView;
use crate::profile::Profiles;
use crate::sensors;
use crate::sensors::Fan;
use crate::sensors::FanView;
use crate::sensors::Temps;
use crate::sysfs;
use crate::sysfs::HwState;
use crate::sysfs::Write;
use crate::text;
use vstd::prelude::*;
use vstd::string::StrSliceExecFns;
use vstd::string::StringExecFns;

verus! {

/// Whether the event loop should keep running after a key press.
#[derive(Clone, Copy, Debug, PartialEq, Eq, Structural)]
pub enum Flow {
    Continue,
    Exit,
}

/// The keys that mean something here.
#[derive(Clone, Copy, Debug, PartialEq, Eq, Structural)]
pub enum KeyCode {
    Char(char),
    Enter,
    Esc,
    Backspace,
    Up,
    Down,
    Left,
    Right,
    Other,
}

/// A key press.
#[derive(Clone, Copy, Debug, PartialEq, Eq, Structural)]
pub struct KeyEvent {
    pub code: KeyCode,
    /// Whether Ctrl was held.
    pub control: bool,
}

/// A row in the control list.
#[derive(Clone, Copy, Debug, PartialEq, Eq, Structural)]
pub enum Item {
    FanMode,
    FanCustomSpeed,
    ChargeMode,
    ChargeLimit,
    GpuBoost,
    FanCurveView,
    FanCurveEdit,
    History,
    Profiles,
    Refresh,
    Quit,
}

/// The number of rows in the control list.
pub const ITEMS: usize = 11;

pub open spec fn item_title(item: Item) -> Seq<char> {
    match item {
        Item::FanMode => "Fan mode"@,
        Item::FanCustomSpeed => "Fan custom speed"@,
        Item::ChargeMode => "Charging mode"@,
        Item::ChargeLimit => "Charging limit"@,
        Item::GpuBoost => "GPU boost"@,
        Item::FanCurveView => "Fan curve (View)"@,
        Item::FanCurveEdit => "Fan curve (Edit)"@,
        Item::History => "History graph"@,
        Item::Profiles => "Profiles"@,
        Item::Refresh => "Refresh values"@,
        Item::Quit => "Quit"@,
    }
}

pub open spec fn item_hint(item: Item) -> Seq<char> {
    match item {
        Item::FanMode => "Left/Right to cycle names"@,
        Item::FanCustomSpeed => "Enter 0..255"@,
        Item::ChargeMode => "Left/Right toggles Normal/Custom"@,
        Item::ChargeLimit => "Enter 60..100"@,
        Item::GpuBoost => "Left/Right toggles ON/OFF"@,
        Item::FanCurveView => "Shows a visual graph of the current fan curve"@,
        Item::FanCurveEdit => "Press Enter to edit the fan curve table"@,
        Item::History => "Live CPU/GPU temperature and fan RPM over time"@,
        Item::Profiles => "Press Enter to apply, save, update, or delete saved profiles"@,
        Item::Refresh => "Reload all sysfs nodes"@,
        Item::Quit => "Exit the app"@,
    }
}

/// True while this item shows the fan curve, which is only read from the device
/// when something is displaying it.
pub open spec fn displays_curve(item: Item) -> bool {
    item is FanCurveView || item is FanCurveEdit
}

impl Item {
    pub const ALL: [Item; 11] = [
        Item::FanMode,
        Item::FanCustomSpeed,
        Item::ChargeMode,
        Item::ChargeLimit,
        Item::GpuBoost,
        Item::FanCurveView,
        Item::FanCurveEdit,
        Item::History,
        Item::Profiles,
        Item::Refresh,
        Item::Quit,
    ];

    pub fn title(self) -> (r: &'static str)
        ensures
            r@ == item_title(self),
    {
        match self {
            Item::FanMode => "Fan mode",
            Item::FanCustomSpeed => "Fan custom speed",
            Item::ChargeMode => "Charging mode",
            Item::ChargeLimit => "Charging limit",
            Item::GpuBoost => "GPU boost",
            Item::FanCurveView => "Fan curve (View)",
            Item::FanCurveEdit => "Fan curve (Edit)",
            Item::History => "History graph",
            Item::Profiles => "Profiles",
            Item::Refresh => "Refresh values",
            Item::Quit => "Quit",
        }
    }

    pub fn hint(self) -> (r: &'static str)
        ensures
            r@ == item_hint(self),
    {
        match self {
            Item::FanMode => "Left/Right to cycle names",
            Item::FanCustomSpeed => "Enter 0..255",
            Item::ChargeMode => "Left/Right toggles Normal/Custom",
            Item::ChargeLimit => "Enter 60..100",
            Item::GpuBoost => "Left/Right toggles ON/OFF",
            Item::FanCurveView => "Shows a visual graph of the current fan curve",
            Item::FanCurveEdit => "Press Enter to edit the fan curve table",
            Item::History => "Live CPU/GPU temperature and fan RPM over time",
            Item::Profiles => "Press Enter to apply, save, update, or delete saved profiles",
            Item::Refresh => "Reload all sysfs nodes",
            Item::Quit => "Exit the app",
        }
    }

    pub fn shows_fan_curve(self) -> (r: bool)
        ensures
            r == displays_curve(self),
    {
        match self {
            Item::FanCurveView | Item::FanCurveEdit => true,
            _ => false,
        }
    }
}

/// Which column of the fan curve table is active.
#[derive(Clone, Copy, Debug, PartialEq, Eq, Structural)]
pub enum CurveColumn {
    Temp,
    Speed,
}

/// The value currently being typed into the edit popup.
#[derive(Clone, Copy, Debug, PartialEq, Eq, Structural)]
pub enum EditTarget {
    FanCustomSpeed,
    ChargeLimit,
    FanCurve(usize, CurveColumn),
    /// Name for a profile saved from the current hardware state.
    NewProfileName,
}

/// The lowest and the highest value that the device accepts for a field, for the
/// numeric targets.
pub open spec fn allowed(target: EditTarget) -> Option<(i32, i32)> {
    match target {
        EditTarget::FanCustomSpeed => Some((sysfs::FAN_SPEED_MIN, sysfs::FAN_SPEED_MAX)),
        EditTarget::ChargeLimit => Some((sysfs::CHARGE_LIMIT_MIN, sysfs::CHARGE_LIMIT_MAX)),
        EditTarget::FanCurve(_, CurveColumn::Temp) => Some(
            (sysfs::CURVE_TEMP_MIN, sysfs::CURVE_TEMP_MAX),
        ),
        EditTarget::FanCurve(_, CurveColumn::Speed) => Some(
            (sysfs::CURVE_SPEED_MIN, sysfs::CURVE_SPEED_MAX),
        ),
        EditTarget::NewProfileName => None,
    }
}

pub open spec fn prompt_text(target: EditTarget) -> Seq<char> {
    match target {
        EditTarget::FanCustomSpeed => "Enter fan custom speed"@,
        EditTarget::ChargeLimit => "Enter charge limit"@,
        EditTarget::FanCurve(index, CurveColumn::Temp) => "Enter temp for idx "@ + text::decimal(
            index as nat,
        ),
        EditTarget::FanCurve(index, CurveColumn::Speed) => "Enter speed for idx "@ + text::decimal(
            index as nat,
        ),
        EditTarget::NewProfileName => "Name for the new profile"@,
    }
}

pub open spec fn target_hint(target: EditTarget) -> Seq<char> {
    match allowed(target) {
        Some((min, max)) => "Allowed: "@ + text::decimal_int(min as int) + ".."@
            + text::decimal_int(max as int),
        None => "Any name; Enter saves, Esc cancels"@,
    }
}

impl EditTarget {
    /// The values the device accepts for this field, for the numeric targets.
    pub fn range(self) -> (r: Option<(i32, i32)>)
        ensures
            r == allowed(self),
    {
        match self {
            EditTarget::FanCustomSpeed => Some((sysfs::FAN_SPEED_MIN, sysfs::FAN_SPEED_MAX)),
            EditTarget::ChargeLimit => Some((sysfs::CHARGE_LIMIT_MIN, sysfs::CHARGE_LIMIT_MAX)),
            EditTarget::FanCurve(_, CurveColumn::Temp) => Some(
                (sysfs::CURVE_TEMP_MIN, sysfs::CURVE_TEMP_MAX),
            ),
            EditTarget::FanCurve(_, CurveColumn::Speed) => Some(
                (sysfs::CURVE_SPEED_MIN, sysfs::CURVE_SPEED_MAX),
            ),
            EditTarget::NewProfileName => None,
        }
    }

    /// Whether this field takes a number, which is also what the editor accepts
    /// keystrokes for.
    pub fn is_numeric(self) -> (r: bool)
        ensures
            r == !(self is NewProfileName),
    {
        self.range().is_some()
    }

    pub fn prompt(self) -> (r: String)
        ensures
            r@ == prompt_text(self),
    {
        match self {
            EditTarget::FanCustomSpeed => "Enter fan custom speed".to_owned(),
            EditTarget::ChargeLimit => "Enter charge limit".to_owned(),
            EditTarget::FanCurve(index, CurveColumn::Temp) => {
                let mut r: String = "Enter temp for idx ".to_owned();
                r.append(text::decimal_of(index as u64).as_str());
                r
            },
            EditTarget::FanCurve(index, CurveColumn::Speed) => {
                let mut r: String = "Enter speed for idx ".to_owned();
                r.append(text::decimal_of(index as u64).as_str());
                r
            },
            EditTarget::NewProfileName => "Name for the new profile".to_owned(),
        }
    }

    /// What the editor tells the user is acceptable.
    pub fn hint(self) -> (r: String)
        ensures
            r@ == target_hint(self),
    {
        match self.range() {
            Some((min, max)) => {
                let mut r: String = "Allowed: ".to_owned();
                r.append(text::decimal_of_int(min as i64).as_str());
                r.append("..");
                r.append(text::decimal_of_int(max as i64).as_str());
                r
            },
            None => "Any name; Enter saves, Esc cancels".to_owned(),
        }
    }
}

/// Which part of the UI has the keyboard.
#[derive(Clone, Copy, Debug, PartialEq, Eq, Structural)]
pub enum Focus {
    Normal,
    Editing,
    FanCurveList,
    ProfileList,
    /// A yes/no question is on screen; nothing else takes keys until answered.
    Confirm,
}

/// A destructive action held until the user confirms it.
#[derive(Debug)]
pub struct Confirm {
    pub message: String,
    pub action: ConfirmAction,
}

#[derive(Debug)]
pub enum ConfirmAction {
    DeleteProfile(String),
}

/// What is to be done next, outside the state.
#[derive(Debug)]
pub enum Action {
    /// Read the hardware and hand the readings to [`App::refreshed`].
    Refresh,
    /// Read the fan curve and hand it to [`App::curve_loaded`].
    LoadCurve,
    /// Read the profiles file and hand it to [`App::profiles_loaded`], which
    /// then selects the given profile.
    LoadProfiles { select: Option<String>, refresh: bool },
    /// Write these values in order, up to the first that fails, and hand the
    /// outcome to [`App::written`].
    Write { writes: Vec<Write>, done: String, close: bool },
    /// Write a profile's values, likewise.
    Apply { name: String, writes: Vec<Write>, power: Option<String> },
    /// Switch the system power profile and hand the outcome to
    /// [`App::power_set`].
    SetPower { name: String, power: String },
    /// Read a profile off the hardware and hand it to [`App::captured`].
    Capture { name: String },
    /// Write the profiles file and hand the outcome to [`App::stored`].
    Store { profiles: Profiles, done: String, select: Option<String> },
}

#[allow(inconsistent_fields)]
#[verifier::ext_equal]
pub enum ActionView {
    Refresh,
    LoadCurve,
    LoadProfiles { select: Option<Seq<char>>, refresh: bool },
    Write { writes: Seq<Write>, done: Seq<char>, close: bool },
    Apply { name: Seq<char>, writes: Seq<Write>, power: Option<Seq<char>> },
    SetPower { name: Seq<char>, power: Seq<char> },
    Capture { name: Seq<char> },
    Store {
        profiles: Seq<(Seq<char>, ProfileView)>,
        done: Seq<char>,
        select: Option<Seq<char>>,
    },
}

impl View for Action {
    type V = ActionView;

    open spec fn view(&self) -> ActionView {
        match *self {
            Action::Refresh => ActionView::Refresh,
            Action::LoadCurve => ActionView::LoadCurve,
            Action::LoadProfiles { select, refresh } => ActionView::LoadProfiles {
                select: sysfs::text_view(select),
                refresh,
            },
            Action::Write { writes, done, close } => ActionView::Write {
                writes: writes@,
                done: done@,
                close,
            },
            Action::Apply { name, writes, power } => ActionView::Apply {
                name: name@,
                writes: writes@,
                power: sysfs::text_view(power),
            },
            Action::SetPower { name, power } => ActionView::SetPower {
                name: name@,
                power: power@,
            },
            Action::Capture { name } => ActionView::Capture { name: name@ },
            Action::Store { profiles, done, select } => ActionView::Store {
                profiles: profiles@,
                done: done@,
                select: sysfs::text_view(select),
            },
        }
    }
}

/// A question on screen: its words and the profile that it is about.
#[verifier::ext_equal]
pub struct ConfirmView {
    pub message: Seq<char>,
    pub name: Seq<char>,
}

impl View for Confirm {
    type V = ConfirmView;

    open spec fn view(&self) -> ConfirmView {
        ConfirmView {
            message: self.message@,
            name: match self.action {
                ConfirmAction::DeleteProfile(name) => name@,
            },
        }
    }
}

#[derive(Debug)]
pub struct App {
    pub selected: usize,
    pub focus: Focus,
    pub status: String,
    pub input: String,
    pub editing: Option<EditTarget>,
    pub hw: HwState,
    pub fan_curve: Option<Vec<(i32, i32)>>,
    pub curve_row: usize,
    pub curve_column: CurveColumn,
    /// Saved profiles, sorted by name so the list order is stable.
    pub profiles: Profiles,
    pub profile_row: usize,
    pub confirm: Option<Confirm>,
    pub fans: Vec<Fan>,
    pub temps: Temps,
    pub history: History,
    pub config: Config,
    /// When the readings were taken, in nanoseconds since the start.
    pub last_refresh: u128,
    pub notifier: Notifier,
    /// The newer release that was found, if any.
    pub update: Option<String>,
    /// What is to be done next.
    pub pending: Option<Action>,
}

/// The state as plain values.
#[verifier::ext_equal]
pub struct AppView {
    pub selected: int,
    pub focus: Focus,
    pub status: Seq<char>,
    pub input: Seq<char>,
    pub editing: Option<EditTarget>,
    pub hw: HwState,
    pub fan_curve: Option<Seq<(i32, i32)>>,
    pub curve_row: int,
    pub curve_column: CurveColumn,
    pub profiles: Seq<(Seq<char>, ProfileView)>,
    pub profile_row: int,
    pub confirm: Option<ConfirmView>,
    pub fans: Seq<FanView>,
    pub temps: Temps,
    pub history: HistoryView,
    pub config: Config,
    pub last_refresh: u128,
    pub notifier: Notifier,
    pub update: Option<Seq<char>>,
    pub pending: Option<ActionView>,
}

impl View for App {
    type V = AppView;

    open spec fn view(&self) -> AppView {
        AppView {
            selected: self.selected as int,
            focus: self.focus,
            status: self.status@,
            input: self.input@,
            editing: self.editing,
            hw: self.hw,
            fan_curve: profile::curve_view(self.fan_curve),
            curve_row: self.curve_row as int,
            curve_column: self.curve_column,
            profiles: self.profiles@,
            profile_row: self.profile_row as int,
            confirm: match self.confirm {
                Some(c) => Some(c@),
                None => None,
            },
            fans: sensors::fan_views(self.fans@),
            temps: self.temps,
            history: self.history@,
            config: self.config,
            last_refresh: self.last_refresh,
            notifier: self.notifier,
            update: sysfs::text_view(self.update),
            pending: match self.pending {
                Some(a) => Some(a@),
                None => None,
            },
        }
    }
}

// --- What the state does, as a function of the state ---

/// Steps through `count` values, wrapping around at both ends.
pub open spec fn wrapped(from: int, delta: int, count: int) -> int {
    (from + delta) % count
}

/// The row that is left when a list has become `len` long.
pub open spec fn clamped(row: int, len: nat) -> int {
    if row < len {
        row
    } else if len > 0 {
        len - 1
    } else {
        0
    }
}

pub open spec fn orzero(value: Option<i32>) -> int {
    match value {
        Some(v) => v as int,
        None => 0,
    }
}

/// The one write that sets a node.
pub open spec fn one_write(path: &'static str, value: int) -> Seq<Write> {
    seq![Write { path, value: value as i32 }]
}

impl AppView {
    /// Rows are within their lists.
    pub open spec fn tidy(self) -> bool {
        &&& 0 <= self.selected < ITEMS
        &&& 0 <= self.curve_row < sysfs::FAN_CURVE_POINTS
        &&& profile::ascending(self.profiles)
        &&& 0 <= self.profile_row
        &&& self.profile_row == 0 || self.profile_row < self.profiles.len()
    }

    /// The editor is open exactly while something is being edited, and a
    /// question is up exactly while there is one to answer.
    pub open spec fn coherent(self) -> bool {
        &&& (self.focus is Editing) == (self.editing is Some)
        &&& (self.focus is Confirm) == (self.confirm is Some)
    }

    pub open spec fn item(self) -> Item {
        Item::ALL@[self.selected]
    }

    pub open spec fn shows_curve(self) -> bool {
        self.focus is FanCurveList || displays_curve(self.item())
    }

    /// The profile in the selected row.
    pub open spec fn chosen(self) -> Option<(Seq<char>, ProfileView)> {
        if 0 <= self.profile_row < self.profiles.len() {
            Some(self.profiles[self.profile_row])
        } else {
            None
        }
    }

    pub open spec fn says(self, status: Seq<char>) -> AppView {
        AppView { status, ..self }
    }

    pub open spec fn awaits(self, action: ActionView) -> AppView {
        AppView { pending: Some(action), ..self }
    }

    pub open spec fn moved(self, delta: int) -> AppView {
        let next = AppView { selected: wrapped(self.selected, delta, ITEMS as int), ..self };
        if next.shows_curve() && next.fan_curve is None {
            next.awaits(ActionView::LoadCurve)
        } else {
            next
        }
    }

    pub open spec fn opened(self, target: EditTarget, seed: Option<i32>) -> AppView {
        AppView {
            focus: Focus::Editing,
            editing: Some(target),
            input: match seed {
                Some(value) => text::decimal_int(value as int),
                None => ""@,
            },
            ..self
        }
    }

    pub open spec fn cancelled(self) -> AppView {
        AppView {
            focus: match self.editing {
                Some(EditTarget::FanCurve(_, _)) => Focus::FanCurveList,
                Some(EditTarget::NewProfileName) => Focus::ProfileList,
                _ => Focus::Normal,
            },
            editing: None,
            input: ""@,
            ..self
        }
    }

    /// The point that an edit of the curve would write.
    pub open spec fn edited_point(self, index: usize, column: CurveColumn, value: int) -> (int, int) {
        let point = self.fan_curve->0[index as int];
        match column {
            CurveColumn::Temp => (value, point.1 as int),
            CurveColumn::Speed => (point.0 as int, value),
        }
    }

    /// Why a typed number cannot be written.
    pub open spec fn number_fault(self, target: EditTarget, value: int) -> Option<Fault> {
        match target {
            EditTarget::FanCustomSpeed => sysfs::fan_speed_fault(value as i32),
            EditTarget::ChargeLimit => sysfs::charge_limit_fault(value as i32),
            EditTarget::FanCurve(index, column) => if self.fan_curve is None || index
                >= self.fan_curve->0.len() {
                Some(Fault::CurveNotLoaded)
            } else {
                let point = self.edited_point(index, column, value);
                sysfs::edit_fault(self.fan_curve->0, index, point.0 as i32, point.1 as i32)
            },
            EditTarget::NewProfileName => None,
        }
    }

    /// What a typed number writes.
    pub open spec fn number_writes(self, target: EditTarget, value: int) -> Seq<Write> {
        match target {
            EditTarget::FanCustomSpeed => one_write(sysfs::FAN_CUSTOM_SPEED, value),
            EditTarget::ChargeLimit => one_write(sysfs::CHARGE_LIMIT, value),
            EditTarget::FanCurve(index, column) => {
                let point = self.edited_point(index, column, value);
                sysfs::point_writes(index as int, point.0, point.1)
            },
            EditTarget::NewProfileName => seq![],
        }
    }

    /// Enter in the edit popup.
    pub open spec fn entered(self) -> AppView {
        match self.editing {
            None => self,
            Some(EditTarget::NewProfileName) => {
                let name = text::trimmed(self.input);
                if name.len() == 0 {
                    self.says("Profile name cannot be empty"@)
                } else {
                    self.cancelled().saving(name)
                }
            },
            Some(target) => match text::parsed_int(
                text::trimmed(self.input),
                i32::MIN as int,
                i32::MAX as nat,
            ) {
                None => self.says("Invalid number"@),
                Some(value) => match self.number_fault(target, value) {
                    Some(fault) => self.says(error::fault_text(fault)),
                    None => self.awaits(
                        ActionView::Write {
                            writes: self.number_writes(target, value),
                            done: "Applied "@ + text::decimal_int(value),
                            close: true,
                        },
                    ),
                },
            },
        }
    }

    /// Saving the hardware's state under a name.
    pub open spec fn saving(self, name: Seq<char>) -> AppView {
        if text::trimmed(name).len() == 0 {
            self.says("Profile name cannot be empty"@)
        } else {
            self.awaits(ActionView::Capture { name: text::trimmed(name) })
        }
    }

    pub open spec fn deleting(self, name: Seq<char>) -> AppView {
        self.awaits(
            ActionView::Store {
                profiles: profile::without_entry(self.profiles, name),
                done: "Deleted profile '"@ + name + "'"@,
                select: None,
            },
        )
    }

    pub open spec fn applying(self) -> AppView {
        match self.chosen() {
            None => self.says("No profiles saved yet - press s to save the current settings"@),
            Some((name, p)) => match p.fault() {
                Some(fault) => self.says(error::fault_text(fault)),
                None => self.awaits(
                    ActionView::Apply { name, writes: p.writes(), power: p.ppd_profile },
                ),
            },
        }
    }

    pub open spec fn cycled(
        self,
        node: &'static str,
        current: Option<i32>,
        names: Seq<&'static str>,
        delta: int,
        label: Seq<char>,
    ) -> AppView {
        let next = wrapped(orzero(current), delta, names.len() as int);
        self.awaits(
            ActionView::Write {
                writes: one_write(node, next),
                done: label + " -> "@ + names[next]@,
                close: false,
            },
        )
    }

    pub open spec fn boost_toggled(self) -> AppView {
        let next: int = if orzero(self.hw.gpu_boost) == 0 {
            1
        } else {
            0
        };
        self.awaits(
            ActionView::Write {
                writes: one_write(sysfs::GPU_BOOST, next),
                done: "GPU boost -> "@ + sysfs::boost_text(Some(next as i32)),
                close: false,
            },
        )
    }

    pub open spec fn stepped(self, delta: int) -> AppView {
        match self.item() {
            Item::FanMode => self.cycled(
                sysfs::FAN_MODE,
                self.hw.fan_mode,
                sysfs::FAN_MODES@,
                delta,
                "Fan mode"@,
            ),
            Item::ChargeMode => self.cycled(
                sysfs::CHARGE_MODE,
                self.hw.charge_mode,
                sysfs::CHARGE_MODES@,
                delta,
                "Charge mode"@,
            ),
            Item::GpuBoost => self.boost_toggled(),
            _ => self,
        }
    }

    pub open spec fn refreshing(self) -> AppView {
        self.says("Refreshed values"@).awaits(ActionView::Refresh)
    }

    pub open spec fn curve_editor(self) -> AppView {
        let next = AppView { focus: Focus::FanCurveList, ..self };
        if self.fan_curve is None {
            next.awaits(ActionView::LoadCurve)
        } else {
            next
        }
    }

    pub open spec fn in_editor(self, code: KeyCode) -> AppView {
        match code {
            KeyCode::Esc => self.cancelled(),
            KeyCode::Enter => self.entered(),
            KeyCode::Backspace => AppView {
                input: if self.input.len() > 0 {
                    self.input.drop_last()
                } else {
                    self.input
                },
                ..self
            },
            KeyCode::Char(c) => if (if self.editing is Some && !(
            self.editing->0 is NewProfileName) {
                text::is_digit(c)
            } else {
                !text::is_control(c)
            }) {
                AppView { input: self.input.push(c), ..self }
            } else {
                self
            },
            _ => self,
        }
    }

    pub open spec fn in_curve(self, code: KeyCode) -> AppView {
        match code {
            KeyCode::Esc => AppView { focus: Focus::Normal, ..self },
            KeyCode::Up => AppView {
                curve_row: if self.curve_row > 0 {
                    self.curve_row - 1
                } else {
                    0
                },
                ..self
            },
            KeyCode::Down => AppView {
                curve_row: clamped(self.curve_row + 1, sysfs::FAN_CURVE_POINTS as nat),
                ..self
            },
            KeyCode::Left => AppView { curve_column: CurveColumn::Temp, ..self },
            KeyCode::Right => AppView { curve_column: CurveColumn::Speed, ..self },
            KeyCode::Enter => if self.fan_curve is Some && self.curve_row
                < self.fan_curve->0.len() {
                let point = self.fan_curve->0[self.curve_row];
                self.opened(
                    EditTarget::FanCurve(self.curve_row as usize, self.curve_column),
                    Some(
                        match self.curve_column {
                            CurveColumn::Temp => point.0,
                            CurveColumn::Speed => point.1,
                        },
                    ),
                )
            } else {
                self
            },
            _ => self,
        }
    }

    pub open spec fn in_profiles(self, code: KeyCode) -> AppView {
        match code {
            KeyCode::Esc => AppView { focus: Focus::Normal, ..self },
            KeyCode::Up => AppView {
                profile_row: if self.profile_row > 0 {
                    self.profile_row - 1
                } else {
                    0
                },
                ..self
            },
            KeyCode::Down => AppView {
                profile_row: clamped(self.profile_row + 1, self.profiles.len()),
                ..self
            },
            KeyCode::Enter => self.applying(),
            KeyCode::Char(c) => if c == 's' {
                self.opened(EditTarget::NewProfileName, None)
            } else if c == 'u' {
                match self.chosen() {
                    Some((name, _)) => self.saving(name),
                    None => self.says("No profile selected"@),
                }
            } else if c == 'd' {
                match self.chosen() {
                    Some((name, _)) => AppView {
                        confirm: Some(
                            ConfirmView {
                                message: "Delete profile '"@ + name + "'? [y/N]"@,
                                name,
                            },
                        ),
                        focus: Focus::Confirm,
                        ..self
                    },
                    None => self.says("No profile selected"@),
                }
            } else {
                self
            },
            _ => self,
        }
    }

    pub open spec fn in_question(self, code: KeyCode) -> AppView {
        let yes = code == KeyCode::Char('y') || code == KeyCode::Char('Y');
        let no = code == KeyCode::Char('n') || code == KeyCode::Char('N') || code is Esc
            || code is Enter;
        let next = AppView { confirm: None, focus: Focus::ProfileList, ..self };
        if !yes && !no {
            self
        } else if self.confirm is None {
            next
        } else if yes {
            next.deleting(self.confirm->0.name)
        } else {
            next.says("Cancelled"@)
        }
    }

    pub open spec fn in_list(self, code: KeyCode) -> (AppView, Flow) {
        match code {
            KeyCode::Char(c) => if c == 'q' {
                (self, Flow::Exit)
            } else if c == 'r' {
                (self.refreshing(), Flow::Continue)
            } else if c == 'e' {
                self.activated(false)
            } else {
                (self, Flow::Continue)
            },
            KeyCode::Up => (self.moved(-1), Flow::Continue),
            KeyCode::Down => (self.moved(1), Flow::Continue),
            KeyCode::Left => (self.stepped(-1), Flow::Continue),
            KeyCode::Right => (self.stepped(1), Flow::Continue),
            KeyCode::Enter => self.activated(true),
            _ => (self, Flow::Continue),
        }
    }

    /// Enter acts on the selected item; `e` only opens editors.
    pub open spec fn activated(self, enter: bool) -> (AppView, Flow) {
        match self.item() {
            Item::FanCustomSpeed => (
                self.opened(EditTarget::FanCustomSpeed, self.hw.fan_custom_speed),
                Flow::Continue,
            ),
            Item::ChargeLimit => (
                self.opened(EditTarget::ChargeLimit, self.hw.charge_limit),
                Flow::Continue,
            ),
            Item::FanCurveEdit => (self.curve_editor(), Flow::Continue),
            Item::Profiles => (
                (AppView { focus: Focus::ProfileList, ..self }).awaits(
                    ActionView::LoadProfiles { select: None, refresh: false },
                ),
                Flow::Continue,
            ),
            Item::Refresh => if enter {
                (self.refreshing(), Flow::Continue)
            } else {
                (self, Flow::Continue)
            },
            Item::Quit => if enter {
                (self, Flow::Exit)
            } else {
                (self, Flow::Continue)
            },
            _ => if enter {
                (self.stepped(1), Flow::Continue)
            } else {
                (self, Flow::Continue)
            },
        }
    }

    /// A key press. An action that was not performed is forgotten.
    pub open spec fn pressed(self, key: KeyEvent) -> (AppView, Flow) {
        let now = AppView { pending: None, ..self };
        if key.control && key.code == KeyCode::Char('c') {
            (now, Flow::Exit)
        } else {
            match self.focus {
                Focus::Editing => (now.in_editor(key.code), Flow::Continue),
                Focus::FanCurveList => (now.in_curve(key.code), Flow::Continue),
                Focus::ProfileList => (now.in_profiles(key.code), Flow::Continue),
                Focus::Confirm => (now.in_question(key.code), Flow::Continue),
                Focus::Normal => now.in_list(key.code),
            }
        }
    }

    /// New readings.
    pub open spec fn updated(
        self,
        now: u128,
        hw: HwState,
        fans: Seq<FanView>,
        temps: Temps,
        curve: Option<Seq<(i32, i32)>>,
    ) -> AppView {
        AppView {
            hw,
            fans,
            temps,
            history: self.history.extended(now, temps, fans),
            notifier: self.notifier.notified(temps, now),
            fan_curve: if self.shows_curve() {
                curve
            } else {
                self.fan_curve
            },
            last_refresh: now,
            pending: None,
            ..self
        }
    }

    /// The fan curve was read, as was asked for.
    pub open spec fn with_curve(self, curve: Option<Seq<(i32, i32)>>) -> AppView {
        match self.pending {
            Some(ActionView::LoadCurve) => AppView { fan_curve: curve, pending: None, ..self },
            _ => self,
        }
    }

    /// The profiles file was read, as was asked for.
    pub open spec fn with_profiles(
        self,
        loaded: Result<Seq<(Seq<char>, ProfileView)>, Seq<char>>,
    ) -> AppView {
        match self.pending {
            Some(ActionView::LoadProfiles { select, refresh }) => {
                let entries = match loaded {
                    Ok(entries) => entries,
                    Err(_) => Seq::empty(),
                };
                AppView {
                    profiles: entries,
                    profile_row: match select {
                        Some(name) => match row_of(entries, name) {
                            Some(row) => row,
                            None => clamped(self.profile_row, entries.len()),
                        },
                        None => clamped(self.profile_row, entries.len()),
                    },
                    status: match loaded {
                        Ok(_) => self.status,
                        Err(e) => "Could not load profiles: "@ + e,
                    },
                    pending: if refresh {
                        Some(ActionView::Refresh)
                    } else {
                        None
                    },
                    ..self
                }
            },
            _ => self,
        }
    }

    /// Values were written, or could not be.
    pub open spec fn after_write(self, fault: Option<Fault>) -> AppView {
        let now = AppView { pending: None, ..self };
        match self.pending {
            Some(ActionView::Write { writes, done, close }) => match fault {
                Some(f) => now.says(error::fault_text(f)),
                None => {
                    let next = now.says(done).awaits(ActionView::Refresh);
                    if close {
                        next.cancelled()
                    } else {
                        next
                    }
                },
            },
            Some(ActionView::Apply { name, writes, power }) => match fault {
                Some(f) => now.says(error::fault_text(f)),
                None => match power {
                    Some(power) => now.awaits(ActionView::SetPower { name, power }),
                    None => now.says("Applied profile '"@ + name + "'"@).awaits(ActionView::Refresh),
                },
            },
            _ => self,
        }
    }

    /// The power profile was switched, or could not be.
    pub open spec fn after_power(self, failure: Option<Seq<char>>) -> AppView {
        match self.pending {
            Some(ActionView::SetPower { name, power }) => self.says(
                "Applied profile '"@ + name + "'"@ + match failure {
                    None => ", power profile -> "@ + power,
                    Some(e) => " (power profile unchanged: "@ + e + ")"@,
                },
            ).awaits(ActionView::Refresh),
            _ => self,
        }
    }

    /// The profile that is saved under `name` when the hardware is in the state
    /// `p`: the mapping of a profile that is replaced stays.
    pub open spec fn merged(self, name: Seq<char>, p: ProfileView) -> ProfileView {
        match profile::lookup(self.profiles, name) {
            Some(existing) => ProfileView { ppd_profile: existing.ppd_profile, ..p },
            None => p,
        }
    }

    /// A profile was read off the hardware, as was asked for.
    pub open spec fn with_capture(self, p: ProfileView) -> AppView {
        match self.pending {
            Some(ActionView::Capture { name }) => self.awaits(
                ActionView::Store {
                    profiles: profile::with_entry(self.profiles, name, self.merged(name, p)),
                    done: (if profile::lookup(self.profiles, name) is Some {
                        "Updated"@
                    } else {
                        "Saved"@
                    }) + " profile '"@ + name + "'"@,
                    select: Some(name),
                },
            ),
            _ => self,
        }
    }

    /// The profiles file was written, or could not be.
    pub open spec fn after_store(self, failure: Option<Seq<char>>) -> AppView {
        match self.pending {
            Some(ActionView::Store { profiles, done, select }) => match failure {
                None => self.says(done).awaits(ActionView::LoadProfiles { select, refresh: false }),
                Some(e) => (AppView { pending: None, ..self }).says(e),
            },
            _ => self,
        }
    }
}

/// The row of the entry with a name.
pub open spec fn row_of(entries: Seq<(Seq<char>, ProfileView)>, name: Seq<char>) -> Option<int>
    decreases entries.len(),
{
    if entries.len() == 0 {
        None
    } else if entries.last().0 == name {
        Some(entries.len() - 1)
    } else {
        row_of(entries.drop_last(), name)
    }
}

proof fn lemma_row_of(entries: Seq<(Seq<char>, ProfileView)>, name: Seq<char>, row: int)
    requires
        profile::ascending(entries),
    ensures
        row_of(entries, name) matches Some(r) ==> 0 <= r < entries.len() && entries[r].0 == name,
        (row_of(entries, name) is Some) == (profile::lookup(entries, name) is Some),
        0 <= row < entries.len() && entries[row].0 == name ==> row_of(entries, name) == Some(row),
    decreases entries.len(),
{
    if entries.len() > 0 {
        let shorter = entries.drop_last();
        assert(profile::ascending(shorter)) by {
            assert forall|a: int, b: int| 0 <= a < b < shorter.len() implies text::precedes(
                (#[trigger] shorter[a]).0,
                (#[trigger] shorter[b]).0,
            ) by {
                assert(text::precedes(entries[a].0, entries[b].0));
            }
        }
        lemma_row_of(shorter, name, row);
        if 0 <= row < entries.len() - 1 {
            assert(text::precedes(entries[row].0, entries[entries.len() - 1].0));
            text::lemma_precedes_irreflexive(entries[row].0);
        }
    }
}

// --- The state itself ---

fn step_around(from: i128, delta: i128, count: i128) -> (r: usize)
    requires
        0 < count <= 1000,
        -0x1_0000_0000_0000_0000 <= from <= 0x1_0000_0000_0000_0000,
        -0x1_0000_0000_0000_0000 <= delta <= 0x1_0000_0000_0000_0000,
    ensures
        r == wrapped(from as int, delta as int, count as int),
        r < count,
{
    let sum: i128 = from + delta;
    if sum >= 0 {
        (sum % count) as usize
    } else {
        let back: i128 = (-(sum + 1)) % count;
        proof {
            let s = sum as int;
            let n = count as int;
            let b = back as int;
            let q = (-(s + 1)) / n;
            assert(-(s + 1) == n * q + b) by {
                vstd::arithmetic::div_mod::lemma_fundamental_div_mod(-(s + 1), n);
            }
            assert(s == n * (-q - 1) + (n - 1 - b)) by (nonlinear_arith)
                requires
                    -(s + 1) == n * q + b,
            ;
            vstd::arithmetic::div_mod::lemma_fundamental_div_mod_converse(s, n, -q - 1, n - 1 - b);
        }
        (count - 1 - back) as usize
    }
}

fn single(path: &'static str, value: i32) -> (r: Vec<Write>)
    ensures
        r@ == one_write(path, value as int),
{
    let mut writes: Vec<Write> = Vec::new();
    writes.push(Write { path, value });
    proof {
        assert(writes@ =~= one_write(path, value as int));
    }
    writes
}

impl App {
    pub open spec fn well_formed(&self) -> bool {
        &&& self@.tidy()
        &&& self.history.well_formed()
    }

    /// The state on starting. What it shows is still to be read: first the
    /// profiles, then everything else.
    pub fn new(config: Config) -> (r: Self)
        ensures
            r.well_formed(),
            r@.coherent(),
            r@ == (AppView {
                selected: 0,
                focus: Focus::Normal,
                status: "Ready. Managing nodes in "@ + sysfs::ROOT@,
                input: ""@,
                editing: None,
                hw: HwState::unread(),
                fan_curve: None,
                curve_row: 0,
                curve_column: CurveColumn::Temp,
                profiles: Seq::empty(),
                profile_row: 0,
                confirm: None,
                fans: Seq::empty(),
                temps: Temps { cpu: None, gpu: None },
                history: HistoryView::empty(history::kept(config.history_length)),
                config,
                last_refresh: 0,
                notifier: Notifier {
                    config: config.notifications,
                    last_cpu: None,
                    last_gpu: None,
                },
                update: None,
                pending: Some(ActionView::LoadProfiles { select: None, refresh: true }),
            }),
    {
        let mut status: String = "Ready. Managing nodes in ".to_owned();
        status.append(sysfs::ROOT);
        let app: App = App {
            selected: 0,
            focus: Focus::Normal,
            status,
            input: "".to_owned(),
            editing: None,
            hw: HwState::default(),
            fan_curve: None,
            curve_row: 0,
            curve_column: CurveColumn::Temp,
            profiles: Profiles::new(),
            profile_row: 0,
            confirm: None,
            fans: Vec::new(),
            temps: Temps::default(),
            history: History::new(config.history_length),
            config,
            last_refresh: 0,
            notifier: Notifier::new(&config.notifications),
            update: None,
            pending: Some(Action::LoadProfiles { select: None, refresh: true }),
        };
        proof {
            assert(app@.fans =~= Seq::empty());
        }
        app
    }

    pub fn selected_profile(&self) -> (r: Option<&(String, Profile)>)
        ensures
            match r {
                Some(entry) => self@.chosen() == Some((entry.0@, entry.1@)),
                None => self@.chosen() is None,
            },
    {
        if self.profile_row < self.profiles.entries.len() {
            Some(&self.profiles.entries[self.profile_row])
        } else {
            None
        }
    }

    pub fn selected_item(&self) -> (r: Item)
        requires
            self.selected < ITEMS,
        ensures
            r == self@.item(),
    {
        Item::ALL[self.selected]
    }

    pub fn shows_fan_curve(&self) -> (r: bool)
        requires
            self.selected < ITEMS,
        ensures
            r == self@.shows_curve(),
    {
        self.focus == Focus::FanCurveList || self.selected_item().shows_fan_curve()
    }

    fn set_status(&mut self, message: String)
        ensures
            final(self)@ == old(self)@.says(message@),
            final(self).history == old(self).history,
    {
        self.status = message;
    }

    pub fn move_selection(&mut self, delta: isize)
        requires
            old(self).well_formed(),
        ensures
            final(self).well_formed(),
            final(self)@ == old(self)@.moved(delta as int),
    {
        self.selected = step_around(self.selected as i128, delta as i128, ITEMS as i128);
        // Load the curve as soon as its view is selected, not on the next tick.
        if self.shows_fan_curve() && self.fan_curve.is_none() {
            self.pending = Some(Action::LoadCurve);
        }
    }

    fn start_edit(&mut self, target: EditTarget, seed: Option<i32>)
        requires
            old(self).well_formed(),
        ensures
            final(self).well_formed(),
            final(self)@ == old(self)@.opened(target, seed),
    {
        self.focus = Focus::Editing;
        self.editing = Some(target);
        self.input = match seed {
            Some(value) => text::decimal_of_int(value as i64),
            None => "".to_owned(),
        };
    }

    fn cancel_edit(&mut self)
        requires
            old(self).well_formed(),
        ensures
            final(self).well_formed(),
            final(self)@ == old(self)@.cancelled(),
    {
        self.focus = match self.editing {
            Some(EditTarget::FanCurve(_, _)) => Focus::FanCurveList,
            Some(EditTarget::NewProfileName) => Focus::ProfileList,
            _ => Focus::Normal,
        };
        self.editing = None;
        self.input = "".to_owned();
    }

    /// What a typed number writes to the device, or why it cannot be written.
    fn number_edit(&self, target: EditTarget, value: i32) -> (r: Result<Vec<Write>, Error>)
        requires
            self.well_formed(),
        ensures
            sysfs::reports(r, self@.number_fault(target, value as int)),
            r matches Ok(writes) ==> writes@ == self@.number_writes(target, value as int),
    {
        match target {
            EditTarget::FanCustomSpeed => {
                sysfs::validate_fan_speed(value)?;
                Ok(single(sysfs::FAN_CUSTOM_SPEED, value))
            },
            EditTarget::ChargeLimit => {
                sysfs::validate_charge_limit(value)?;
                Ok(single(sysfs::CHARGE_LIMIT, value))
            },
            EditTarget::FanCurve(index, column) => self.write_curve_value(index, column, value),
            // It does not take a number.
            EditTarget::NewProfileName => Ok(Vec::new()),
        }
    }

    /// The writes for one curve point, keeping the column that was not edited
    /// and refusing edits that would put the curve out of order.
    fn write_curve_value(&self, index: usize, column: CurveColumn, value: i32) -> (r: Result<
        Vec<Write>,
        Error,
    >)
        requires
            self.well_formed(),
        ensures
            sysfs::reports(
                r,
                self@.number_fault(EditTarget::FanCurve(index, column), value as int),
            ),
            r matches Ok(writes) ==> writes@ == self@.number_writes(
                EditTarget::FanCurve(index, column),
                value as int,
            ),
    {
        let curve: &Vec<(i32, i32)> = match &self.fan_curve {
            Some(curve) => curve,
            None => {
                return Err(Problem::CurveNotLoaded);
            },
        };
        if index >= curve.len() {
            return Err(Problem::CurveNotLoaded);
        }
        let point: (i32, i32) = match column {
            CurveColumn::Temp => (value, curve[index].1),
            CurveColumn::Speed => (curve[index].0, value),
        };
        sysfs::validate_curve_point_in(curve.as_slice(), index, point.0, point.1)?;
        sysfs::write_fan_curve_point(index, point.0, point.1)
    }

    /// Asks for the typed value to be written to the device, keeping the popup
    /// open on error so the entry can be corrected.
    fn apply_edit(&mut self)
        requires
            old(self).well_formed(),
        ensures
            final(self).well_formed(),
            final(self)@ == old(self)@.entered(),
    {
        let target: EditTarget = match self.editing {
            Some(target) => target,
            None => {
                return ;
            },
        };
        if target == EditTarget::NewProfileName {
            let name: String = text::trim(self.input.as_str()).to_owned();
            if name.as_str().is_empty() {
                self.set_status("Profile name cannot be empty".to_owned());
                return ;
            }
            self.cancel_edit();
            self.save_profile(name.as_str());
            return ;
        }
        let value: i32 = match text::parse_i32(text::trim(self.input.as_str())) {
            Some(value) => value,
            None => {
                self.set_status("Invalid number".to_owned());
                return ;
            },
        };
        match self.number_edit(target, value) {
            Ok(writes) => {
                let mut done: String = "Applied ".to_owned();
                done.append(text::decimal_of_int(value as i64).as_str());
                self.pending = Some(Action::Write { writes, done, close: true });
            },
            Err(e) => self.set_status(e.message()),
        }
    }

    /// Asks for the hardware's state to be saved under `name`, replacing any
    /// profile already using it.
    fn save_profile(&mut self, name: &str)
        requires
            old(self).well_formed(),
        ensures
            final(self).well_formed(),
            final(self)@ == old(self)@.saving(name@),
    {
        let name: &str = text::trim(name);
        if name.is_empty() {
            self.set_status("Profile name cannot be empty".to_owned());
            return ;
        }
        self.pending = Some(Action::Capture { name: name.to_owned() });
    }

    fn delete_profile(&mut self, name: &str)
        requires
            old(self).well_formed(),
        ensures
            final(self).well_formed(),
            final(self)@ == old(self)@.deleting(name@),
    {
        let mut profiles: Profiles = self.profiles.clone();
        profiles.remove(name);
        self.pending = Some(
            Action::Store {
                profiles,
                done: text::concat3("Deleted profile '", name, "'"),
                select: None,
            },
        );
    }

    fn ask(&mut self, message: String, action: ConfirmAction)
        requires
            old(self).well_formed(),
        ensures
            final(self).well_formed(),
            final(self)@ == (AppView {
                confirm: Some(Confirm { message, action }@),
                focus: Focus::Confirm,
                ..old(self)@
            }),
    {
        self.confirm = Some(Confirm { message, action });
        self.focus = Focus::Confirm;
    }

    /// Asks for the selected profile to be applied.
    fn apply_selected_profile(&mut self)
        requires
            old(self).well_formed(),
        ensures
            final(self).well_formed(),
            final(self)@ == old(self)@.applying(),
    {
        let action: Result<Action, String> = match self.selected_profile() {
            Some(entry) => match entry.1.apply() {
                Ok(writes) => Ok(
                    Action::Apply {
                        name: entry.0.clone(),
                        writes,
                        power: profile::copy_text(&entry.1.ppd_profile),
                    },
                ),
                Err(e) => Err(e.message()),
            },
            None => Err(
                "No profiles saved yet - press s to save the current settings".to_owned(),
            ),
        };
        match action {
            Ok(action) => {
                self.pending = Some(action);
            },
            Err(message) => self.set_status(message),
        }
    }

    /// Steps a named node forwards or backwards through `names`, wrapping around.
    fn cycle(
        &mut self,
        node: &'static str,
        current: Option<i32>,
        names: &[&'static str],
        delta: i32,
        label: &str,
    )
        requires
            old(self).well_formed(),
            0 < names@.len() <= 1000,
        ensures
            final(self).well_formed(),
            final(self)@ == old(self)@.cycled(node, current, names@, delta as int, label@),
    {
        let from: i32 = match current {
            Some(value) => value,
            None => 0,
        };
        let next: usize = step_around(from as i128, delta as i128, names.len() as i128);
        self.pending = Some(
            Action::Write {
                writes: single(node, next as i32),
                done: text::concat3(label, " -> ", names[next]),
                close: false,
            },
        );
    }

    fn toggle_gpu_boost(&mut self)
        requires
            old(self).well_formed(),
        ensures
            final(self).well_formed(),
            final(self)@ == old(self)@.boost_toggled(),
    {
        let off: bool = match self.hw.gpu_boost {
            Some(value) => value == 0,
            None => true,
        };
        let next: i32 = if off {
            1
        } else {
            0
        };
        let mut done: String = "GPU boost -> ".to_owned();
        done.append(sysfs::gpu_boost_name(Some(next)));
        self.pending = Some(
            Action::Write { writes: single(sysfs::GPU_BOOST, next), done, close: false },
        );
    }

    /// Left/Right (and Enter on a cycling item) move the selected value.
    fn step_selected(&mut self, delta: i32)
        requires
            old(self).well_formed(),
        ensures
            final(self).well_formed(),
            final(self)@ == old(self)@.stepped(delta as int),
    {
        match self.selected_item() {
            Item::FanMode => self.cycle(
                sysfs::FAN_MODE,
                self.hw.fan_mode,
                &sysfs::FAN_MODES,
                delta,
                "Fan mode",
            ),
            Item::ChargeMode => self.cycle(
                sysfs::CHARGE_MODE,
                self.hw.charge_mode,
                &sysfs::CHARGE_MODES,
                delta,
                "Charge mode",
            ),
            Item::GpuBoost => self.toggle_gpu_boost(),
            _ => {},
        }
    }

    fn refresh_with_status(&mut self)
        requires
            old(self).well_formed(),
        ensures
            final(self).well_formed(),
            final(self)@ == old(self)@.refreshing(),
    {
        self.pending = Some(Action::Refresh);
        self.set_status("Refreshed values".to_owned());
    }

    pub fn open_fan_curve_editor(&mut self)
        requires
            old(self).well_formed(),
        ensures
            final(self).well_formed(),
            final(self)@ == old(self)@.curve_editor(),
    {
        self.focus = Focus::FanCurveList;
        if self.fan_curve.is_none() {
            self.pending = Some(Action::LoadCurve);
        }
    }

    // --- Input ---

    pub fn handle_key(&mut self, key: KeyEvent) -> (r: Flow)
        requires
            old(self).well_formed(),
        ensures
            final(self).well_formed(),
            (final(self)@, r) == old(self)@.pressed(key),
    {
        self.pending = None;
        // Raw mode delivers Ctrl-C as a key event rather than a signal, so it
        // has to be handled explicitly or the TUI cannot be interrupted.
        if key.control && key.code == KeyCode::Char('c') {
            return Flow::Exit;
        }
        match self.focus {
            Focus::Editing => self.key_editing(key.code),
            Focus::FanCurveList => self.key_fan_curve(key.code),
            Focus::ProfileList => self.key_profiles(key.code),
            Focus::Confirm => self.key_confirm(key.code),
            Focus::Normal => {
                return self.key_normal(key.code);
            },
        }
        Flow::Continue
    }

    fn key_editing(&mut self, code: KeyCode)
        requires
            old(self).well_formed(),
        ensures
            final(self).well_formed(),
            final(self)@ == old(self)@.in_editor(code),
    {
        match code {
            KeyCode::Esc => self.cancel_edit(),
            KeyCode::Enter => self.apply_edit(),
            KeyCode::Backspace => {
                let n: usize = self.input.as_str().unicode_len();
                if n > 0 {
                    let rest: String = self.input.as_str().substring_char(0, n - 1).to_owned();
                    proof {
                        assert(rest@ =~= self.input@.drop_last());
                    }
                    self.input = rest;
                }
            },
            KeyCode::Char(c) => {
                // Numeric fields take digits only; the profile name takes text.
                let numeric: bool = match self.editing {
                    Some(target) => target.is_numeric(),
                    None => false,
                };
                if numeric {
                    if text::char_is_digit(c) {
                        self.input.push(c);
                    }
                } else if !text::char_is_control(c) {
                    self.input.push(c);
                }
            },
            _ => {},
        }
    }

    fn key_fan_curve(&mut self, code: KeyCode)
        requires
            old(self).well_formed(),
        ensures
            final(self).well_formed(),
            final(self)@ == old(self)@.in_curve(code),
    {
        match code {
            KeyCode::Esc => {
                self.focus = Focus::Normal;
            },
            KeyCode::Up => {
                if self.curve_row > 0 {
                    self.curve_row = self.curve_row - 1;
                }
            },
            KeyCode::Down => {
                if self.curve_row + 1 < sysfs::FAN_CURVE_POINTS {
                    self.curve_row = self.curve_row + 1;
                }
            },
            KeyCode::Left => {
                self.curve_column = CurveColumn::Temp;
            },
            KeyCode::Right => {
                self.curve_column = CurveColumn::Speed;
            },
            KeyCode::Enter => {
                let point: Option<(i32, i32)> = match &self.fan_curve {
                    Some(curve) => if self.curve_row < curve.len() {
                        Some(curve[self.curve_row])
                    } else {
                        None
                    },
                    None => None,
                };
                match point {
                    Some((temp, speed)) => {
                        let seed: i32 = match self.curve_column {
                            CurveColumn::Temp => temp,
                            CurveColumn::Speed => speed,
                        };
                        self.start_edit(
                            EditTarget::FanCurve(self.curve_row, self.curve_column),
                            Some(seed),
                        );
                    },
                    None => {},
                }
            },
            _ => {},
        }
    }

    fn selected_name(&self) -> (r: Option<String>)
        ensures
            match r {
                Some(name) => self@.chosen() matches Some(entry) && entry.0 == name@,
                None => self@.chosen() is None,
            },
    {
        match self.selected_profile() {
            Some(entry) => Some(entry.0.clone()),
            None => None,
        }
    }

    fn key_profiles(&mut self, code: KeyCode)
        requires
            old(self).well_formed(),
        ensures
            final(self).well_formed(),
            final(self)@ == old(self)@.in_profiles(code),
    {
        match code {
            KeyCode::Esc => {
                self.focus = Focus::Normal;
            },
            KeyCode::Up => {
                if self.profile_row > 0 {
                    self.profile_row = self.profile_row - 1;
                }
            },
            KeyCode::Down => {
                let count: usize = self.profiles.entries.len();
                if count > 0 && self.profile_row < count - 1 {
                    self.profile_row = self.profile_row + 1;
                }
            },
            KeyCode::Enter => self.apply_selected_profile(),
            KeyCode::Char(c) => {
                if c == 's' {
                    self.start_edit(EditTarget::NewProfileName, None);
                } else if c == 'u' {
                    match self.selected_name() {
                        Some(name) => self.save_profile(name.as_str()),
                        None => self.set_status("No profile selected".to_owned()),
                    }
                } else if c == 'd' {
                    match self.selected_name() {
                        Some(name) => {
                            let message: String = text::concat3(
                                "Delete profile '",
                                name.as_str(),
                                "'? [y/N]",
                            );
                            self.ask(message, ConfirmAction::DeleteProfile(name));
                        },
                        None => self.set_status("No profile selected".to_owned()),
                    }
                }
            },
            _ => {},
        }
    }

    fn key_confirm(&mut self, code: KeyCode)
        requires
            old(self).well_formed(),
        ensures
            final(self).well_formed(),
            final(self)@ == old(self)@.in_question(code),
    {
        let confirmed: bool = match code {
            KeyCode::Char(c) => c == 'y' || c == 'Y',
            _ => false,
        };
        let dismissed: bool = match code {
            KeyCode::Char(c) => confirmed || c == 'n' || c == 'N',
            KeyCode::Esc | KeyCode::Enter => true,
            _ => false,
        };
        if !dismissed {
            return ;
        }
        let pending: Option<Confirm> = self.confirm.take();
        self.focus = Focus::ProfileList;
        match pending {
            Some(confirm) => {
                if !confirmed {
                    self.set_status("Cancelled".to_owned());
                    return ;
                }
                match confirm.action {
                    ConfirmAction::DeleteProfile(name) => self.delete_profile(name.as_str()),
                }
            },
            None => {},
        }
    }

    fn key_normal(&mut self, code: KeyCode) -> (r: Flow)
        requires
            old(self).well_formed(),
        ensures
            final(self).well_formed(),
            (final(self)@, r) == old(self)@.in_list(code),
    {
        match code {
            KeyCode::Char(c) => {
                if c == 'q' {
                    return Flow::Exit;
                } else if c == 'r' {
                    self.refresh_with_status();
                } else if c == 'e' {
                    return self.activate(false);
                }
            },
            KeyCode::Up => self.move_selection(-1),
            KeyCode::Down => self.move_selection(1),
            KeyCode::Left => self.step_selected(-1),
            KeyCode::Right => self.step_selected(1),
            KeyCode::Enter => {
                return self.activate(true);
            },
            _ => {},
        }
        Flow::Continue
    }

    /// Enter acts on the selected item; `e` only opens editors, so that holding
    /// a value key cannot cycle a mode by accident.
    fn activate(&mut self, enter: bool) -> (r: Flow)
        requires
            old(self).well_formed(),
        ensures
            final(self).well_formed(),
            (final(self)@, r) == old(self)@.activated(enter),
    {
        match self.selected_item() {
            Item::FanCustomSpeed => self.start_edit(
                EditTarget::FanCustomSpeed,
                self.hw.fan_custom_speed,
            ),
            Item::ChargeLimit => self.start_edit(EditTarget::ChargeLimit, self.hw.charge_limit),
            Item::FanCurveEdit => self.open_fan_curve_editor(),
            Item::Profiles => {
                self.pending = Some(Action::LoadProfiles { select: None, refresh: false });
                self.focus = Focus::ProfileList;
            },
            Item::Refresh => {
                if enter {
                    self.refresh_with_status();
                }
            },
            Item::Quit => {
                if enter {
                    return Flow::Exit;
                }
            },
            _ => {
                if enter {
                    self.step_selected(1);
                }
            },
        }
        Flow::Continue
    }

    // --- Outcomes ---

    /// Takes in new readings, and says which alerts they raise. `curve` counts
    /// only while [`App::shows_fan_curve`]: reading it means writing an index to
    /// the device fifteen times, so it only happens while the curve is on screen.
    pub fn refreshed(
        &mut self,
        now: u128,
        hw: HwState,
        fans: Vec<Fan>,
        temps: Temps,
        curve: Option<Vec<(i32, i32)>>,
    ) -> (r: Vec<Alert>)
        requires
            old(self).well_formed(),
        ensures
            final(self).well_formed(),
            final(self)@ == old(self)@.updated(
                now,
                hw,
                sensors::fan_views(fans@),
                temps,
                profile::curve_view(curve),
            ),
            r@ == old(self)@.notifier.alerts(temps, now),
    {
        self.hw = hw;
        self.history.push(now, temps, fans.as_slice());
        self.fans = fans;
        self.temps = temps;
        let alerts: Vec<Alert> = self.notifier.check(temps, now);
        if self.shows_fan_curve() {
            self.fan_curve = curve;
        }
        self.last_refresh = now;
        self.pending = None;
        alerts
    }

    /// Takes in the fan curve, if it was asked for.
    pub fn curve_loaded(&mut self, curve: Option<Vec<(i32, i32)>>)
        requires
            old(self).well_formed(),
        ensures
            final(self).well_formed(),
            final(self)@ == old(self)@.with_curve(profile::curve_view(curve)),
    {
        match self.pending {
            Some(Action::LoadCurve) => {
                self.fan_curve = curve;
                self.pending = None;
            },
            _ => {},
        }
    }

    /// Takes in the saved profiles, if they were asked for. Failures leave the
    /// list empty rather than taking down the UI.
    pub fn profiles_loaded(&mut self, loaded: Result<Profiles, String>)
        requires
            old(self).well_formed(),
            loaded matches Ok(profiles) ==> profiles.well_formed(),
        ensures
            final(self).well_formed(),
            final(self)@ == old(self)@.with_profiles(
                match loaded {
                    Ok(profiles) => Ok(profiles@),
                    Err(e) => Err(e@),
                },
            ),
    {
        let asked: Option<(Option<String>, bool)> = match &self.pending {
            Some(Action::LoadProfiles { select, refresh }) => Some(
                (profile::copy_text(select), *refresh),
            ),
            _ => None,
        };
        match asked {
            Some((select, refresh)) => {
                match loaded {
                    Ok(profiles) => {
                        self.profiles = profiles;
                    },
                    Err(e) => {
                        self.profiles = Profiles::new();
                        let mut message: String = "Could not load profiles: ".to_owned();
                        message.append(e.as_str());
                        self.status = message;
                    },
                }
                let count: usize = self.profiles.entries.len();
                if self.profile_row >= count {
                    self.profile_row = if count > 0 {
                        count - 1
                    } else {
                        0
                    };
                }
                match select {
                    Some(name) => {
                        let row: Option<usize> = self.profiles.position(name.as_str());
                        proof {
                            lemma_row_of(
                                self.profiles@,
                                name@,
                                match row {
                                    Some(r) => r as int,
                                    None => -1,
                                },
                            );
                        }
                        match row {
                            Some(row) => {
                                self.profile_row = row;
                            },
                            None => {},
                        }
                    },
                    None => {},
                }
                self.pending = if refresh {
                    Some(Action::Refresh)
                } else {
                    None
                };
            },
            None => {},
        }
    }

    /// Takes in whether the values that were asked for could be written.
    pub fn written(&mut self, result: Result<(), Error>)
        requires
            old(self).well_formed(),
        ensures
            final(self).well_formed(),
            final(self)@ == old(self)@.after_write(
                match result {
                    Ok(_) => None,
                    Err(e) => Some(e@),
                },
            ),
    {
        match self.pending.take() {
            Some(Action::Write { writes, done, close }) => match result {
                Ok(_) => {
                    self.set_status(done);
                    if close {
                        self.cancel_edit();
                    }
                    self.pending = Some(Action::Refresh);
                },
                Err(e) => self.set_status(e.message()),
            },
            Some(Action::Apply { name, writes, power }) => match result {
                Ok(_) => match power {
                    Some(power) => {
                        self.pending = Some(Action::SetPower { name, power });
                    },
                    None => {
                        self.set_status(text::concat3("Applied profile '", name.as_str(), "'"));
                        self.pending = Some(Action::Refresh);
                    },
                },
                Err(e) => self.set_status(e.message()),
            },
            other => {
                self.pending = other;
            },
        }
    }

    /// Takes in whether the system power profile could be switched.
    pub fn power_set(&mut self, result: Result<(), String>)
        requires
            old(self).well_formed(),
        ensures
            final(self).well_formed(),
            final(self)@ == old(self)@.after_power(
                match result {
                    Ok(_) => None,
                    Err(e) => Some(e@),
                },
            ),
    {
        match self.pending.take() {
            Some(Action::SetPower { name, power }) => {
                let mut message: String = text::concat3("Applied profile '", name.as_str(), "'");
                match result {
                    Ok(_) => {
                        let mut tail: String = ", power profile -> ".to_owned();
                        tail.append(power.as_str());
                        message.append(tail.as_str());
                    },
                    Err(e) => {
                        message.append(
                            text::concat3(" (power profile unchanged: ", e.as_str(), ")").as_str(),
                        );
                    },
                }
                self.set_status(message);
                self.pending = Some(Action::Refresh);
            },
            other => {
                self.pending = other;
            },
        }
    }

    /// Takes in the state of the hardware, and asks for it to be saved. The
    /// power profile mapping stays when overwriting, since it is not something
    /// the hardware can report back.
    pub fn captured(&mut self, captured: Profile)
        requires
            old(self).well_formed(),
        ensures
            final(self).well_formed(),
            final(self)@ == old(self)@.with_capture(captured@),
    {
        match self.pending.take() {
            Some(Action::Capture { name }) => {
                let mut profile: Profile = captured;
                match self.profiles.get(name.as_str()) {
                    Some(existing) => {
                        profile.ppd_profile = profile::copy_text(&existing.ppd_profile);
                    },
                    None => {},
                }
                let mut profiles: Profiles = self.profiles.clone();
                let replaced: bool = profiles.insert(name.as_str(), profile);
                let verb: &str = if replaced {
                    "Updated"
                } else {
                    "Saved"
                };
                let mut done: String = text::concat3(verb, " profile '", name.as_str());
                done.append("'");
                self.pending = Some(Action::Store { profiles, done, select: Some(name) });
            },
            other => {
                self.pending = other;
            },
        }
    }

    /// Takes in whether the profiles file could be written.
    pub fn stored(&mut self, result: Result<(), String>)
        requires
            old(self).well_formed(),
        ensures
            final(self).well_formed(),
            final(self)@ == old(self)@.after_store(
                match result {
                    Ok(_) => None,
                    Err(e) => Some(e@),
                },
            ),
    {
        match self.pending.take() {
            Some(Action::Store { profiles, done, select }) => match result {
                Ok(_) => {
                    self.set_status(done);
                    self.pending = Some(Action::LoadProfiles { select, refresh: false });
                },
                Err(e) => self.set_status(e),
            },
            other => {
                self.pending = other;
            },
        }
    }
}

// --- Laws ---

/// Whatever is pressed, the editor is open exactly while something is being
/// edited, and a question is up exactly while there is one to answer. That still
/// holds when the outcome of a write that the key asked for comes in.
#[verifier::rlimit(30)]
pub proof fn law_focus_follows_what_is_open(state: AppView, key: KeyEvent, fault: Option<Fault>)
    requires
        state.coherent(),
    ensures
        state.pressed(key).0.coherent(),
        state.pressed(key).0.after_write(fault).coherent(),
{
}

/// A profile is removed from the file only after the question about it was
/// answered with yes, and no key changes the list by itself.
#[verifier::rlimit(30)]
pub proof fn law_deleting_takes_a_confirmation(state: AppView, key: KeyEvent)
    ensures
        state.pressed(key).0.profiles == state.profiles,
        state.pressed(key).0.pending matches Some(ActionView::Store { profiles, .. }) ==> {
            &&& state.focus is Confirm
            &&& state.confirm is Some
            &&& key.code == KeyCode::Char('y') || key.code == KeyCode::Char('Y')
            &&& profiles == profile::without_entry(state.profiles, state.confirm->0.name)
        },
{
}

/// The loop ends on Ctrl-C, and in the control list on `q` and on Enter at the
/// last row; on nothing else.
pub proof fn law_what_ends_the_loop(state: AppView, key: KeyEvent)
    ensures
        state.pressed(key).1 is Exit <==> {
            ||| key.control && key.code == KeyCode::Char('c')
            ||| state.focus is Normal && key.code == KeyCode::Char('q')
            ||| state.focus is Normal && key.code is Enter && state.item() is Quit
        },
{
}

/// No key asks for a value that the device does not take.
pub proof fn law_keys_write_only_valid_values(state: AppView, key: KeyEvent)
    requires
        state.tidy(),
    ensures
        state.pressed(key).0.pending matches Some(ActionView::Write { writes, .. })
            ==> profile::all_fit(writes),
        state.pressed(key).0.pending matches Some(ActionView::Apply { writes, .. })
            ==> profile::all_fit(writes),
{
    let now = AppView { pending: None, ..state };
    let next = state.pressed(key).0;
    if next.pending is Some && next.pending->0 is Apply {
        let (name, p) = state.chosen()->0;
        profile::law_applied_profiles_write_only_valid_values(p);
    }
    if next.pending is Some && next.pending->0 is Write {
        if state.focus is Editing {
            let target = state.editing->0;
            let value = text::parsed_int(
                text::trimmed(state.input),
                i32::MIN as int,
                i32::MAX as nat,
            )->0;
            match target {
                EditTarget::FanCurve(index, column) => {
                    let point = now.edited_point(index, column, value);
                    sysfs::law_packed_points_unpack(point.0, point.1);
                },
                _ => {},
            }
        } else {
            match state.item() {
                Item::FanMode => {
                    lemma_wrapped_in_range(orzero(state.hw.fan_mode), 1, 6);
                    lemma_wrapped_in_range(orzero(state.hw.fan_mode), -1, 6);
                },
                Item::ChargeMode => {
                    lemma_wrapped_in_range(orzero(state.hw.charge_mode), 1, 2);
                    lemma_wrapped_in_range(orzero(state.hw.charge_mode), -1, 2);
                },
                _ => {},
            }
        }
    }
}

proof fn lemma_wrapped_in_range(from: int, delta: int, count: int)
    requires
        count > 0,
    ensures
        0 <= wrapped(from, delta, count) < count,
{
}

/// The control list wraps around: as many steps back as were taken lead to the
/// row where they began.
pub proof fn law_steps_up_and_down_cancel(state: AppView, delta: int)
    requires
        state.tidy(),
    ensures
        state.moved(delta).moved(-delta).selected == state.selected,
{
    law_cycling_back_restores_the_value(state.selected, delta, ITEMS as int);
}

/// Stepping back as far as was stepped on restores every value that has a name.
pub proof fn law_cycling_back_restores_the_value(value: int, delta: int, count: int)
    requires
        0 <= value < count,
    ensures
        wrapped(wrapped(value, delta, count), -delta, count) == value,
        0 <= wrapped(value, delta, count) < count,
{
    let sum = value + delta;
    let turns = sum / count;
    vstd::arithmetic::div_mod::lemma_fundamental_div_mod(sum, count);
    assert(sum % count - delta == (-turns) * count + value) by (nonlinear_arith)
        requires
            sum == count * turns + sum % count,
            sum == value + delta,
    ;
    vstd::arithmetic::div_mod::lemma_fundamental_div_mod_converse(
        sum % count - delta,
        count,
        -turns,
        value,
    );
}

/// Typing into a numeric field adds digits and nothing else.
pub proof fn law_numeric_fields_take_only_digits(state: AppView, c: char, control: bool)
    requires
        state.focus is Editing,
        state.editing is Some,
        !(state.editing->0 is NewProfileName),
    ensures
        ({
            let next = state.pressed((KeyEvent { code: KeyCode::Char(c), control })).0;
            next.input == state.input || text::is_digit(c) && next.input == state.input.push(c)
        }),
{
}

/// Escape in the editor leads back to where the edit was started from, and
/// leaves nothing typed.
pub proof fn law_escape_returns_to_where_the_edit_began(
    state: AppView,
    target: EditTarget,
    seed: Option<i32>,
    control: bool,
)
    ensures
        ({
            let next = state.opened(target, seed).pressed(
                (KeyEvent { code: KeyCode::Esc, control }),
            ).0;
            &&& next.input == ""@
            &&& next.editing is None
            &&& next.focus == match target {
                EditTarget::FanCurve(_, _) => Focus::FanCurveList,
                EditTarget::NewProfileName => Focus::ProfileList,
                _ => Focus::Normal,
            }
        }),
{
}

/// Nothing but an answer takes a question off the screen.
pub proof fn law_a_question_stays_until_answered(state: AppView, key: KeyEvent)
    requires
        state.focus is Confirm,
        !(key.control && key.code == KeyCode::Char('c')),
        key.code != KeyCode::Char('y'),
        key.code != KeyCode::Char('Y'),
        key.code != KeyCode::Char('n'),
        key.code != KeyCode::Char('N'),
        !(key.code is Esc),
        !(key.code is Enter),
    ensures
        state.pressed(key).0 == (AppView { pending: None, ..state }),
{
}

/// A profile that was just saved is the selected one once the list has been
/// read again.
pub proof fn law_a_saved_profile_is_selected(
    state: AppView,
    name: Seq<char>,
    captured: ProfileView,
    entries: Seq<(Seq<char>, ProfileView)>,
)
    requires
        state.pending == Some((ActionView::Capture { name })),
        profile::ascending(entries),
        profile::lookup(entries, name) is Some,
    ensures
        state.with_capture(captured).after_store(None).with_profiles(Ok(entries)).chosen()
            matches Some(entry) && entry.0 == name,
{
    lemma_row_of(entries, name, -1);
}

/// A power profile mapping survives the profile's being saved again.
pub proof fn law_saving_again_keeps_the_mapping(
    state: AppView,
    name: Seq<char>,
    captured: ProfileView,
)
    requires
        profile::lookup(state.profiles, name) is Some,
    ensures
        state.merged(name, captured).ppd_profile == profile::lookup(
            state.profiles,
            name,
        )->0.ppd_profile,
        state.merged(name, captured).writes() == captured.writes(),
{
}

/// A value that is refused, by the rules or by the device, leaves the editor open
/// with what was typed, so that it can be corrected.
pub proof fn law_a_refused_value_can_be_corrected(state: AppView, control: bool, fault: Fault)
    requires
        state.focus is Editing,
        state.editing is Some,
        !(state.editing->0 is NewProfileName),
    ensures
        ({
            let next = state.pressed((KeyEvent { code: KeyCode::Enter, control })).0;
            let failed = next.after_write(Some(fault));
            &&& next.focus == state.focus
            &&& next.editing == state.editing
            &&& next.input == state.input
            &&& failed.focus == state.focus
            &&& failed.editing == state.editing
            &&& failed.input == state.input
        }),
{
}

/// The key `e` opens editors and changes nothing on the device, so that holding
/// it down cannot cycle a mode by accident.
pub proof fn law_e_only_opens_editors(state: AppView)
    requires
        state.focus is Normal,
    ensures
        ({
            let next = state.pressed((KeyEvent { code: KeyCode::Char('e'), control: false }));
            &&& next.1 is Continue
            &&& next.0.pending matches Some(action) ==> action is LoadCurve
                || action is LoadProfiles
            &&& next.0.selected == state.selected
        }),
{
}

/// The curve is read only when something shows it.
#[verifier::rlimit(30)]
pub proof fn law_the_curve_is_read_only_while_shown(state: AppView, key: KeyEvent)
    ensures
        state.pressed(key).0.pending == Some(ActionView::LoadCurve)
            ==> state.pressed(key).0.shows_curve() && state.pressed(key).0.fan_curve is None,
{
}

/// The control list has eleven rows in a fixed order. Down goes to the next row,
/// and from the last to the first; Up goes back. Nothing else changes but that
/// the curve is asked for when a row that shows it is reached without it.
pub proof fn law_arrows_walk_the_list(state: AppView, control: bool)
    requires
        state.tidy(),
        state.focus is Normal,
    ensures
        ({
            let down = state.pressed((KeyEvent { code: KeyCode::Down, control })).0;
            let up = state.pressed((KeyEvent { code: KeyCode::Up, control })).0;
            &&& state.selected < 10 ==> down.selected == state.selected + 1
            &&& state.selected == 10 ==> down.selected == 0
            &&& state.selected > 0 ==> up.selected == state.selected - 1
            &&& state.selected == 0 ==> up.selected == 10
            &&& down == (AppView { selected: down.selected, pending: down.pending, ..state })
            &&& up == (AppView { selected: up.selected, pending: up.pending, ..state })
            &&& down.pending == if (down.selected == 5 || down.selected == 6)
                && state.fan_curve is None {
                Some(ActionView::LoadCurve)
            } else {
                None
            }
        }),
        state.selected == 0 ==> state.item() is FanMode,
        state.selected == 1 ==> state.item() is FanCustomSpeed,
        state.selected == 2 ==> state.item() is ChargeMode,
        state.selected == 3 ==> state.item() is ChargeLimit,
        state.selected == 4 ==> state.item() is GpuBoost,
        state.selected == 5 ==> state.item() is FanCurveView,
        state.selected == 6 ==> state.item() is FanCurveEdit,
        state.selected == 7 ==> state.item() is History,
        state.selected == 8 ==> state.item() is Profiles,
        state.selected == 9 ==> state.item() is Refresh,
        state.selected == 10 ==> state.item() is Quit,
{
    assert((state.selected + 1) % 11 == if state.selected == 10 {
        0
    } else {
        state.selected + 1
    });
    assert((state.selected - 1) % 11 == if state.selected == 0 {
        10
    } else {
        state.selected - 1
    });
}

/// Whether the action is one write.
pub open spec fn writes_once(action: Option<ActionView>, path: &'static str, value: int) -> bool {
    action matches Some(ActionView::Write { writes, close, .. }) && !close && writes.len() == 1
        && writes[0].path == path && writes[0].value == value
}

/// On the row of a mode, Right and Enter set the next mode and Left the one
/// before, around the ends; a mode that could not be read counts as the first. GPU
/// boost is switched over. On other rows Left and Right do nothing.
pub proof fn law_arrows_step_the_modes(state: AppView, control: bool, mode: int)
    requires
        state.tidy(),
        state.focus is Normal,
    ensures
        ({
            let right = state.pressed((KeyEvent { code: KeyCode::Right, control })).0;
            let left = state.pressed((KeyEvent { code: KeyCode::Left, control })).0;
            let enter = state.pressed((KeyEvent { code: KeyCode::Enter, control })).0;
            &&& state.item() is FanMode && 0 <= mode < 6 && (state.hw.fan_mode == Some(mode as i32)
                || state.hw.fan_mode is None && mode == 0) ==> {
                let next = if mode == 5 {
                    0
                } else {
                    mode + 1
                };
                let back = if mode == 0 {
                    5
                } else {
                    mode - 1
                };
                &&& writes_once(right.pending, sysfs::FAN_MODE, next)
                &&& writes_once(enter.pending, sysfs::FAN_MODE, next)
                &&& writes_once(left.pending, sysfs::FAN_MODE, back)
            }
            &&& state.item() is ChargeMode && 0 <= mode < 2 && (state.hw.charge_mode == Some(
                mode as i32,
            ) || state.hw.charge_mode is None && mode == 0) ==> {
                &&& writes_once(right.pending, sysfs::CHARGE_MODE, 1 - mode)
                &&& writes_once(enter.pending, sysfs::CHARGE_MODE, 1 - mode)
                &&& writes_once(left.pending, sysfs::CHARGE_MODE, 1 - mode)
            }
            &&& state.item() is GpuBoost ==> {
                let on = state.hw.gpu_boost is Some && state.hw.gpu_boost->0 != 0;
                let next: int = if on {
                    0
                } else {
                    1
                };
                &&& writes_once(right.pending, sysfs::GPU_BOOST, next)
                &&& writes_once(enter.pending, sysfs::GPU_BOOST, next)
                &&& writes_once(left.pending, sysfs::GPU_BOOST, next)
            }
            &&& !(state.item() is FanMode || state.item() is ChargeMode || state.item() is GpuBoost)
                ==> {
                &&& right == (AppView { pending: None, ..state })
                &&& left == (AppView { pending: None, ..state })
            }
        }),
{
    if 0 <= mode < 6 {
        assert((mode + 1) % 6 == if mode == 5 {
            0
        } else {
            mode + 1
        });
        assert((mode - 1) % 6 == if mode == 0 {
            5
        } else {
            mode - 1
        });
    }
    if 0 <= mode < 2 {
        assert((mode + 1) % 2 == 1 - mode);
        assert((mode - 1) % 2 == 1 - mode);
    }
}

/// A number typed into an editor is written, once, to the node that the editor is
/// for, exactly when it is in range; the editor is then closed. Otherwise nothing
/// is written and the reason is shown.
pub proof fn law_a_typed_number_goes_to_its_node(state: AppView, control: bool, value: i32)
    requires
        state.focus is Editing,
        state.input == text::decimal_int(value as int),
    ensures
        ({
            let next = state.pressed((KeyEvent { code: KeyCode::Enter, control })).0;
            let speed = state.editing == Some(EditTarget::FanCustomSpeed);
            let limit = state.editing == Some(EditTarget::ChargeLimit);
            &&& speed && 0 <= value <= 255 ==> {
                &&& next.pending matches Some(ActionView::Write { writes, close, .. })
                &&& writes.len() == 1
                &&& writes[0] == (Write { path: sysfs::FAN_CUSTOM_SPEED, value })
                &&& close
            }
            &&& speed && !(0 <= value <= 255) ==> next.pending is None
            &&& limit && 60 <= value <= 100 ==> {
                &&& next.pending matches Some(ActionView::Write { writes, close, .. })
                &&& writes.len() == 1
                &&& writes[0] == (Write { path: sysfs::CHARGE_LIMIT, value })
                &&& close
            }
            &&& limit && !(60 <= value <= 100) ==> next.pending is None
        }),
{
    lemma_typed_number(value);
}

proof fn lemma_typed_number(value: i32)
    ensures
        text::parsed_int(
            text::trimmed(text::decimal_int(value as int)),
            i32::MIN as int,
            i32::MAX as nat,
        ) == Some(value as int),
{
    let s = text::decimal_int(value as int);
    if value < 0 {
        text::lemma_decimal_shape((-value) as nat);
        let digits = text::decimal((-value) as nat);
        assert(s =~= seq!['-'] + digits);
        assert(text::is_digit(digits[digits.len() - 1]));
        assert(s[0] == '-');
        assert(s[s.len() - 1] == digits[digits.len() - 1]);
        assert(text::trimmed(s) == s);
    } else {
        text::law_decimal_is_trimmed(value as nat);
    }
    text::law_decimal_int_reads_back(value as int, i32::MIN as int, i32::MAX as nat);
}

/// A number typed into a cell of the curve changes that half of that point and
/// leaves the other half: the point is selected and written, exactly when the
/// number is in range and does not pass the points before and after.
pub proof fn law_a_typed_cell_changes_half_a_point(
    state: AppView,
    control: bool,
    value: i32,
    index: usize,
    column: CurveColumn,
)
    requires
        state.focus is Editing,
        state.input == text::decimal_int(value as int),
        state.editing == Some(EditTarget::FanCurve(index, column)),
        state.fan_curve is Some,
        state.fan_curve->0.len() == 15,
        index < 15,
        forall|i: int|
            0 <= i < 15 ==> 0 <= (#[trigger] state.fan_curve->0[i]).0 <= 100 && 0
                <= state.fan_curve->0[i].1 <= 255,
        forall|i: int, j: int|
            0 <= i < j < 15 ==> (#[trigger] state.fan_curve->0[i]).0 <= (
            #[trigger] state.fan_curve->0[j]).0 && state.fan_curve->0[i].1
                <= state.fan_curve->0[j].1,
    ensures
        ({
            let next = state.pressed((KeyEvent { code: KeyCode::Enter, control })).0;
            let curve = state.fan_curve->0;
            let at = index as int;
            let temp = if column is Temp {
                value as int
            } else {
                curve[at].0 as int
            };
            let speed = if column is Speed {
                value as int
            } else {
                curve[at].1 as int
            };
            let fits = {
                &&& 0 <= temp <= 100
                &&& 0 <= speed <= 255
                &&& at > 0 ==> curve[at - 1].0 <= temp && curve[at - 1].1 <= speed
                &&& at < 14 ==> temp <= curve[at + 1].0 && speed <= curve[at + 1].1
            };
            &&& !fits ==> next.pending is None
            &&& fits ==> {
                &&& next.pending matches Some(ActionView::Write { writes, close, .. })
                &&& close
                &&& writes.len() == 2
                &&& writes[0] == (Write { path: sysfs::FAN_CURVE_INDEX, value: index as i32 })
                &&& writes[1].path == sysfs::FAN_CURVE_DATA
                &&& writes[1].value == speed * 256 + temp
            }
        }),
{
    lemma_typed_number(value);
    let curve = state.fan_curve->0;
    let at = index as int;
    if at > 0 {
        assert(curve[at - 1].0 <= curve[at].0);
    }
    if at < 14 {
        assert(curve[at].0 <= curve[at + 1].0);
    }
}

/// Enter, and `e`, open the editor of the row with the value that was read; on the
/// row of the curve they lead to its table and on that of the profiles to their
/// list, which is then read. Enter on the row of the refresh reads everything
/// again, as `r` does anywhere in the list.
pub proof fn law_rows_open_their_editors(state: AppView, control: bool, enter: bool)
    requires
        state.tidy(),
        state.focus is Normal,
    ensures
        ({
            let code = if enter {
                KeyCode::Enter
            } else {
                KeyCode::Char('e')
            };
            let next = state.pressed((KeyEvent { code, control })).0;
            let reread = state.pressed((KeyEvent { code: KeyCode::Char('r'), control })).0;
            &&& state.item() is FanCustomSpeed ==> {
                &&& next.focus is Editing
                &&& next.editing == Some(EditTarget::FanCustomSpeed)
                &&& next.input == match state.hw.fan_custom_speed {
                    Some(v) => text::decimal_int(v as int),
                    None => ""@,
                }
            }
            &&& state.item() is ChargeLimit ==> {
                &&& next.focus is Editing
                &&& next.editing == Some(EditTarget::ChargeLimit)
                &&& next.input == match state.hw.charge_limit {
                    Some(v) => text::decimal_int(v as int),
                    None => ""@,
                }
            }
            &&& state.item() is FanCurveEdit ==> {
                &&& next.focus is FanCurveList
                &&& state.fan_curve is None ==> next.pending == Some(ActionView::LoadCurve)
            }
            &&& state.item() is Profiles ==> {
                &&& next.focus is ProfileList
                &&& next.pending is Some
                &&& next.pending->0 is LoadProfiles
            }
            &&& state.item() is Refresh && enter ==> next.pending == Some(ActionView::Refresh)
            &&& reread.pending == Some(ActionView::Refresh)
        }),
{
}

/// What is typed goes behind what stands there, digits alone in a field for a
/// number and everything printable in one for a name; Backspace takes the last
/// character away. Nothing else changes.
pub proof fn law_typing_adds_and_backspace_takes_away(state: AppView, c: char)
    requires
        state.focus is Editing,
        state.editing is Some,
    ensures
        ({
            let typed = state.pressed((KeyEvent { code: KeyCode::Char(c), control: false })).0;
            let erased = state.pressed(
                (KeyEvent { code: KeyCode::Backspace, control: false }),
            ).0;
            let name = state.editing->0 is NewProfileName;
            &&& !name && '0' <= c <= '9' ==> typed.input == state.input.push(c)
            &&& !name && !('0' <= c <= '9') ==> typed.input == state.input
            &&& name && ' ' <= c <= '~' ==> typed.input == state.input.push(c)
            &&& name && (c as u32) < 32 ==> typed.input == state.input
            &&& state.input.len() > 0 ==> erased.input == state.input.drop_last()
            &&& state.input.len() == 0 ==> erased.input == state.input
            &&& typed == (AppView { input: typed.input, pending: None, ..state })
            &&& erased == (AppView { input: erased.input, pending: None, ..state })
        }),
{
}

/// In the table of the curve the arrows move between its fifteen rows and two
/// columns, without leaving them; Enter opens the cell with what is in it.
pub proof fn law_arrows_walk_the_table(state: AppView, control: bool)
    requires
        state.tidy(),
        state.focus is FanCurveList,
    ensures
        ({
            let up = state.pressed((KeyEvent { code: KeyCode::Up, control })).0;
            let down = state.pressed((KeyEvent { code: KeyCode::Down, control })).0;
            let left = state.pressed((KeyEvent { code: KeyCode::Left, control })).0;
            let right = state.pressed((KeyEvent { code: KeyCode::Right, control })).0;
            let enter = state.pressed((KeyEvent { code: KeyCode::Enter, control })).0;
            let leave = state.pressed((KeyEvent { code: KeyCode::Esc, control })).0;
            &&& state.curve_row > 0 ==> up.curve_row == state.curve_row - 1
            &&& state.curve_row == 0 ==> up.curve_row == 0
            &&& state.curve_row < 14 ==> down.curve_row == state.curve_row + 1
            &&& state.curve_row == 14 ==> down.curve_row == 14
            &&& left.curve_column is Temp
            &&& right.curve_column is Speed
            &&& leave.focus is Normal
            &&& state.fan_curve is Some && state.curve_row < state.fan_curve->0.len() ==> {
                let point = state.fan_curve->0[state.curve_row];
                &&& enter.focus is Editing
                &&& enter.editing == Some(
                    EditTarget::FanCurve(state.curve_row as usize, state.curve_column),
                )
                &&& state.curve_column is Temp ==> enter.input == text::decimal_int(point.0 as int)
                &&& state.curve_column is Speed ==> enter.input == text::decimal_int(
                    point.1 as int,
                )
            }
            &&& state.fan_curve is None ==> enter == (AppView { pending: None, ..state })
        }),
{
}

/// In the list of profiles the arrows move between its rows, without leaving it.
/// Enter applies the selected profile, exactly when it is sound: its writes, and
/// then the power profile that it names. `u` saves over it, `d` asks whether to
/// delete it, and `s` asks for the name of a new one.
pub proof fn law_keys_act_on_the_selected_profile(state: AppView, control: bool)
    requires
        state.tidy(),
        state.focus is ProfileList,
        0 <= state.profile_row < state.profiles.len(),
    ensures
        ({
            let (name, p) = state.profiles[state.profile_row];
            let up = state.pressed((KeyEvent { code: KeyCode::Up, control })).0;
            let down = state.pressed((KeyEvent { code: KeyCode::Down, control })).0;
            let enter = state.pressed((KeyEvent { code: KeyCode::Enter, control })).0;
            let update = state.pressed((KeyEvent { code: KeyCode::Char('u'), control })).0;
            let delete = state.pressed((KeyEvent { code: KeyCode::Char('d'), control })).0;
            let fresh = state.pressed((KeyEvent { code: KeyCode::Char('s'), control })).0;
            &&& state.profile_row > 0 ==> up.profile_row == state.profile_row - 1
            &&& state.profile_row == 0 ==> up.profile_row == 0
            &&& state.profile_row + 1 < state.profiles.len() ==> down.profile_row
                == state.profile_row + 1
            &&& state.profile_row + 1 == state.profiles.len() ==> down.profile_row
                == state.profile_row
            &&& p.fault() is None ==> enter.pending == Some(
                ActionView::Apply { name, writes: p.writes(), power: p.ppd_profile },
            )
            &&& p.fault() is Some ==> enter.pending is None
            &&& text::trimmed(name).len() > 0 ==> update.pending == Some(
                ActionView::Capture { name: text::trimmed(name) },
            )
            &&& delete.pending is None
            &&& delete.focus is Confirm
            &&& delete.confirm matches Some(question) && question.name == name
            &&& fresh.focus is Editing
            &&& fresh.editing == Some(EditTarget::NewProfileName)
            &&& fresh.input == ""@
        }),
{
}

/// The name typed for a new profile is the one that the state of the hardware is
/// saved under, without the white space around it; an empty one is not taken.
pub proof fn law_a_new_profile_gets_the_typed_name(state: AppView, control: bool)
    requires
        state.focus is Editing,
        state.editing == Some(EditTarget::NewProfileName),
    ensures
        ({
            let next = state.pressed((KeyEvent { code: KeyCode::Enter, control })).0;
            let name = text::trimmed(state.input);
            &&& name.len() > 0 ==> next.pending == Some(ActionView::Capture { name })
                && next.focus is ProfileList && next.editing is None
            &&& name.len() == 0 ==> next.pending is None && next.focus is Editing && next.input
                == state.input
        }),
{
    if text::trimmed(state.input).len() > 0 {
        lemma_trimmed_twice(state.input);
    }
}

proof fn lemma_trimmed_twice(s: Seq<char>)
    ensures
        text::trimmed(text::trimmed(s)) == text::trimmed(s),
{
    text::law_trimming_takes_the_margins(s);
    let t = text::trimmed(s);
    let (i, j) = choose|i: int, j: int|
        {
            &&& 0 <= i <= j <= s.len()
            &&& t == #[trigger] s.subrange(i, j)
            &&& forall|k: int| 0 <= k < i || j <= k < s.len() ==> text::is_space(#[trigger] s[k])
            &&& i < j ==> !text::is_space(s[i]) && !text::is_space(s[j - 1])
        };
    if t.len() > 0 {
        assert(t[0] == s[i]);
        assert(t[t.len() - 1] == s[j - 1]);
    }
}

/// A question is answered with yes by `y` alone, in either case: the profile that
/// it is about is then taken out of the list that is stored, and no other. `n`,
/// Escape and Enter leave everything as it was.
pub proof fn law_only_a_yes_deletes(state: AppView, code: KeyCode, other: Seq<char>)
    requires
        state.tidy(),
        state.focus is Confirm,
        state.confirm is Some,
    ensures
        ({
            let name = state.confirm->0.name;
            let next = state.pressed((KeyEvent { code, control: false })).0;
            let yes = code == KeyCode::Char('y') || code == KeyCode::Char('Y');
            let no = code == KeyCode::Char('n') || code == KeyCode::Char('N') || code is Esc
                || code is Enter;
            &&& yes ==> {
                &&& next.pending matches Some(ActionView::Store { profiles, .. })
                &&& profile::lookup(profiles, name) is None
                &&& other != name ==> profile::lookup(profiles, other) == profile::lookup(
                    state.profiles,
                    other,
                )
            }
            &&& !yes ==> next.pending is None
            &&& yes || no ==> next.confirm is None && next.focus is ProfileList
        }),
{
    let name = state.confirm->0.name;
    profile::lemma_lookup_without(state.profiles, name, name);
    profile::lemma_lookup_without(state.profiles, name, other);
}

/// After a write succeeded it is reported and everything is read again, and the
/// editor that asked for it is closed; after one that failed nothing more is done.
/// An applied profile goes on to the power profile that it names.
pub proof fn law_a_write_is_followed_through(state: AppView, fault: Option<Fault>)
    ensures
        ({
            let next = state.after_write(fault);
            &&& state.pending matches Some(ActionView::Write { done, close, .. }) ==> {
                &&& fault is None ==> next.pending == Some(ActionView::Refresh) && next.status
                    == done
                &&& fault is None && close ==> next.editing is None && next.input == ""@
                &&& fault is None && !close ==> next.editing == state.editing && next.focus
                    == state.focus
                &&& fault is Some ==> next.pending is None && next.editing == state.editing
                    && next.focus == state.focus
            }
            &&& state.pending matches Some(ActionView::Apply { name, power, .. }) ==> {
                &&& fault is None && power is Some ==> next.pending == Some(
                    ActionView::SetPower { name, power: power->0 },
                )
                &&& fault is None && power is None ==> next.pending == Some(ActionView::Refresh)
                &&& fault is Some ==> next.pending is None
            }
            &&& next.profiles == state.profiles
            &&& next.hw == state.hw
        }),
{
}

/// Whether or not the power profile could be switched, everything is read again
/// and it is said which profile was applied.
pub proof fn law_the_power_profile_is_reported(
    state: AppView,
    failure: Option<Seq<char>>,
    name: Seq<char>,
    power: Seq<char>,
)
    requires
        state.pending == Some((ActionView::SetPower { name, power })),
    ensures
        state.after_power(failure).pending == Some(ActionView::Refresh),
        text::begins(state.after_power(failure).status, "Applied profile '"@ + name + "'"@),
        failure is None ==> text::finishes(state.after_power(failure).status, power),
{
    let status = state.after_power(failure).status;
    let start = "Applied profile '"@ + name + "'"@;
    assert(status.take(start.len() as int) =~= start);
    if failure is None {
        assert(status.skip(status.len() - power.len()) =~= power);
    }
}

/// A state of the hardware that was read to be saved is stored under its name,
/// with the mapping that the profile of that name had before; the other profiles
/// stay, and the saved one is selected afterwards.
pub proof fn law_a_capture_is_stored_under_its_name(
    state: AppView,
    name: Seq<char>,
    captured: ProfileView,
    other: Seq<char>,
)
    requires
        state.tidy(),
        state.pending == Some((ActionView::Capture { name })),
    ensures
        ({
            let next = state.with_capture(captured);
            &&& next.pending matches Some(ActionView::Store { profiles, select, .. })
            &&& select == Some(name)
            &&& profile::lookup(profiles, name) matches Some(saved)
            &&& saved.fan_mode == captured.fan_mode
            &&& saved.fan_custom_speed == captured.fan_custom_speed
            &&& saved.charge_mode == captured.charge_mode
            &&& saved.charge_limit == captured.charge_limit
            &&& saved.gpu_boost == captured.gpu_boost
            &&& saved.fan_curve == captured.fan_curve
            &&& saved.ppd_profile == match profile::lookup(state.profiles, name) {
                Some(existing) => existing.ppd_profile,
                None => captured.ppd_profile,
            }
            &&& other != name ==> profile::lookup(profiles, other) == profile::lookup(
                state.profiles,
                other,
            )
        }),
{
    let saved = state.merged(name, captured);
    profile::lemma_lookup_with(state.profiles, name, saved, name);
    profile::lemma_lookup_with(state.profiles, name, saved, other);
}

/// Once the profiles were stored the list is read again, with the right one
/// selected; where they could not be, that is said and nothing more is done.
pub proof fn law_a_stored_list_is_read_again(
    state: AppView,
    failure: Option<Seq<char>>,
    profiles: Seq<(Seq<char>, ProfileView)>,
    done: Seq<char>,
    select: Option<Seq<char>>,
)
    requires
        state.pending == Some((ActionView::Store { profiles, done, select })),
    ensures
        failure is None ==> state.after_store(failure).pending == Some(
            ActionView::LoadProfiles { select, refresh: false },
        ) && state.after_store(failure).status == done,
        failure matches Some(e) ==> state.after_store(failure).pending is None
            && state.after_store(failure).status == e,
        state.after_store(failure).profiles == state.profiles,
{
}

/// The list is what was read, and a row of it is selected: the one that was asked
/// for if it is there, and otherwise the one that was, or the last. A list that
/// could not be read is empty.
pub proof fn law_the_list_is_what_was_read(
    state: AppView,
    entries: Seq<(Seq<char>, ProfileView)>,
    select: Option<Seq<char>>,
    refresh: bool,
    i: int,
    failure: Seq<char>,
)
    requires
        state.tidy(),
        profile::ascending(entries),
        state.pending == Some((ActionView::LoadProfiles { select, refresh })),
    ensures
        ({
            let next = state.with_profiles(Ok(entries));
            let none = state.with_profiles(Err(failure));
            &&& next.profiles == entries
            &&& 0 <= i < entries.len() && select == Some(entries[i].0) ==> next.profile_row == i
            &&& select is None && state.profile_row < entries.len() ==> next.profile_row
                == state.profile_row
            &&& select is None && 0 < entries.len() <= state.profile_row ==> next.profile_row
                == entries.len() - 1
            &&& next.pending == if refresh {
                Some(ActionView::Refresh)
            } else {
                None
            }
            &&& none.profiles.len() == 0
            &&& none.profile_row == 0
            &&& text::finishes(none.status, failure)
        }),
{
    lemma_row_of(
        entries,
        if select is Some {
            select->0
        } else {
            failure
        },
        i,
    );
    let none = state.with_profiles(Err(failure));
    let nothing = Seq::<(Seq<char>, ProfileView)>::empty();
    assert(profile::ascending(nothing));
    lemma_row_of(
        nothing,
        if select is Some {
            select->0
        } else {
            failure
        },
        0,
    );
    assert(none.status.skip(none.status.len() - failure.len()) =~= failure);
}

/// New readings replace the old ones and go into the history and to the alerts.
/// The curve changes only while something shows it, and what is selected, open or
/// typed stays.
pub proof fn law_readings_are_taken_in(
    state: AppView,
    now: u128,
    hw: HwState,
    fans: Seq<FanView>,
    temps: Temps,
    curve: Option<Seq<(i32, i32)>>,
)
    requires
        state.tidy(),
        state.history.limit >= 2,
    ensures
        ({
            let next = state.updated(now, hw, fans, temps, curve);
            let shown = state.focus is FanCurveList || state.selected == 5 || state.selected == 6;
            &&& next.hw == hw
            &&& next.fans == fans
            &&& next.temps == temps
            &&& next.last_refresh == now
            &&& next.pending is None
            &&& shown ==> next.fan_curve == curve
            &&& !shown ==> next.fan_curve == state.fan_curve
            &&& temps.cpu matches Some(t) ==> next.history.cpu.last() == (now, t.bits)
            &&& temps.gpu matches Some(t) ==> next.history.gpu.last() == (now, t.bits)
            &&& next.notifier == state.notifier.notified(temps, now)
            &&& next.selected == state.selected
            &&& next.focus == state.focus
            &&& next.editing == state.editing
            &&& next.input == state.input
            &&& next.profiles == state.profiles
            &&& next.confirm == state.confirm
            &&& next.config == state.config
        }),
{
}

/// The alerts of a refresh are those that the notifier raises for its readings.
pub proof fn law_a_refresh_raises_the_alerts(
    app: &mut App,
    now: u128,
    hw: HwState,
    fans: Vec<Fan>,
    temps: Temps,
    curve: Option<Vec<(i32, i32)>>,
    alerts: Vec<Alert>,
    notifier: &mut Notifier,
    raised: Vec<Alert>,
)
    requires
        call_ensures(App::refreshed, (app, now, hw, fans, temps, curve), alerts),
        call_ensures(Notifier::check, (notifier, temps, now), raised),
        *old(notifier) == old(app).notifier,
    ensures
        alerts@ == raised@,
        final(app).notifier == *final(notifier),
{
}

/// A curve that was asked for is shown as it was read; one that was not asked for
/// is not.
pub proof fn law_a_curve_is_shown_as_it_was_read(state: AppView, curve: Option<Seq<(i32, i32)>>)
    ensures
        state.pending == Some(ActionView::LoadCurve) ==> state.with_curve(curve).fan_curve == curve
            && state.with_curve(curve).pending is None,
        state.pending != Some(ActionView::LoadCurve) ==> state.with_curve(curve) == state,
{
}

/// An editor says which numbers it takes and, for a point of the curve, which one
/// it is for; only the editor of a name takes anything.
pub proof fn law_an_editor_says_what_it_takes(
    target: EditTarget,
    range: Option<(i32, i32)>,
    numeric: bool,
    hint: String,
    prompt: String,
)
    requires
        call_ensures(EditTarget::range, (target,), range),
        call_ensures(EditTarget::is_numeric, (target,), numeric),
        call_ensures(EditTarget::hint, (target,), hint),
        call_ensures(EditTarget::prompt, (target,), prompt),
    ensures
        target is FanCustomSpeed ==> range == Some((0i32, 255i32)),
        target is ChargeLimit ==> range == Some((60i32, 100i32)),
        target matches EditTarget::FanCurve(_, CurveColumn::Temp) ==> range == Some((0i32, 100i32)),
        target matches EditTarget::FanCurve(_, CurveColumn::Speed) ==> range == Some(
            (0i32, 255i32),
        ),
        target is NewProfileName <==> range is None,
        numeric <==> range is Some,
        range matches Some((least, most)) ==> text::finishes(
            hint@,
            text::decimal_int(least as int) + ".."@ + text::decimal_int(most as int),
        ),
        target matches EditTarget::FanCurve(index, _) ==> text::finishes(
            prompt@,
            text::decimal(index as nat),
        ),
{
    if let Some((least, most)) = range {
        let tail = text::decimal_int(least as int) + ".."@ + text::decimal_int(most as int);
        assert(hint@ =~= "Allowed: "@ + tail);
        assert(hint@.skip(hint@.len() - tail.len()) =~= tail);
    }
    if let EditTarget::FanCurve(index, _) = target {
        let tail = text::decimal(index as nat);
        assert(prompt@.skip(prompt@.len() - tail.len()) =~= tail);
    }
}

/// No two rows have the same title.
pub proof fn law_rows_are_told_apart(a: Item, b: Item, first: &'static str, second: &'static str)
    requires
        call_ensures(Item::title, (a,), first),
        call_ensures(Item::title, (b,), second),
    ensures
        a == b <==> first@ == second@,
{
    reveal_strlit("Fan mode");
    reveal_strlit("Fan custom speed");
    reveal_strlit("Charging mode");
    reveal_strlit("Charging limit");
    reveal_strlit("GPU boost");
    reveal_strlit("Fan curve (View)");
    reveal_strlit("Fan curve (Edit)");
    reveal_strlit("History graph");
    reveal_strlit("Profiles");
    reveal_strlit("Refresh values");
    reveal_strlit("Quit");
    assert("Fan mode"@.len() == 8 && "Profiles"@.len() == 8);
    assert("Fan custom speed"@.len() == 16 && "Fan curve (View)"@.len() == 16
        && "Fan curve (Edit)"@.len() == 16);
    assert("Charging mode"@.len() == 13 && "History graph"@.len() == 13);
    assert("Charging limit"@.len() == 14 && "Refresh values"@.len() == 14);
    assert("GPU boost"@.len() == 9 && "Quit"@.len() == 4);
    assert("Fan mode"@[0] == 'F' && "Profiles"@[0] == 'P');
    assert("Fan custom speed"@[6] == 's' && "Fan curve (View)"@[6] == 'r');
    assert("Fan curve (Edit)"@[6] == 'r');
    assert("Fan curve (View)"@[11] == 'V' && "Fan curve (Edit)"@[11] == 'E');
    assert("Charging mode"@[0] == 'C' && "History graph"@[0] == 'H');
    assert("Charging limit"@[0] == 'C' && "Refresh values"@[0] == 'R');
}

/// Moving the selection goes round the rows, one per step, and changes nothing
/// else but whether the curve is to be read.
pub proof fn law_moving_goes_round(app: &mut App, delta: isize, done: ())
    requires
        call_ensures(App::move_selection, (app, delta), done),
        old(app).well_formed(),
    ensures
        final(app).selected < 11,
        (final(app).selected - old(app).selected - delta) % 11 == 0,
        final(app).focus == old(app).focus,
        final(app).profile_row == old(app).profile_row,
        final(app).curve_row == old(app).curve_row,
        final(app)@.input == old(app)@.input,
{
}

} // verus!
