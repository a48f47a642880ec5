//! The one-shot commands: what each of them reads, writes and prints.

use crate::config;
use crate::config::Config;
use crate::config::Environment;
use crate::config::Notifications;
use crate::error;
use crate::error::Error;
use crate::error::Fault;
use crate::error::Problem;
use crate::ppd;
use crate::profile;
use crate::profile::Profile;
use crate::profile::ProfileView;
use crate::profile::Profiles;
use crate::sensors;
use crate::sensors::Fan;
use crate::sensors::FanView;
use crate::sysfs;
use crate::sysfs::Dependent;
use crate::sysfs::HwState;
use crate::sysfs::Write;
use crate::text;
use crate::text::Cut;
use vstd::prelude::*;
use vstd::string::StringExecFns;

verus! {

// --- Arguments ---

#[derive(Debug)]
pub enum Commands {
    /// Show current status of all controllable values
    Status { json: bool },
    /// Get or set the fan mode
    FanMode { action: FanModeAction },
    /// Get or set the custom fan speed (0..255)
    FanSpeed { action: ValueAction },
    /// Get or set the charging mode
    ChargeMode { action: ChargeModeAction },
    /// Get or set the charge limit (60..100)
    ChargeLimit { action: ValueAction },
    /// Get or set GPU boost
    GpuBoost { action: OnOffAction },
    /// Show the battery cycle count
    BatteryCycle,
    /// Show light sensor data
    LightSensor,
    /// Show current CPU fan PWM
    FanPwm,
    /// Show live fan RPM readings
    Fans,
    /// Get or set fan curve points
    FanCurve { action: FanCurveAction },
    /// Continuously print temps and fan RPM. The interval is in nanoseconds.
    Monitor { interval: Option<u128>, json: bool, csv: bool, count: Option<u64> },
    /// Apply, list, or save profiles
    Profile(ProfileArgs),
    /// Background service
    Sync { once: bool },
    /// Read or change settings in config.toml
    Config(ConfigArgs),
    /// Report driver, sensor, and configuration state for this machine
    Doctor,
    /// Generate shell completions
    Completions { shell: Shell },
    /// Install and enable the sync systemd service
    InstallService,
    /// Manage this installation itself (update or uninstall)
    Manage { action: ManageAction },
}

/// A shell to generate completions for.
#[derive(Clone, Copy, Debug, PartialEq, Eq, Structural)]
pub enum Shell {
    Bash,
    Elvish,
    Fish,
    PowerShell,
    Zsh,
}

#[derive(Clone, Copy, Debug, PartialEq, Eq, Structural)]
pub enum ManageAction {
    /// Check GitHub for a newer release and install it over this binary
    Update { check: bool, dry_run: bool },
    /// Remove the binary, its configuration, and the systemd service
    Uninstall { yes: bool, dry_run: bool, keep_config: bool },
}

#[derive(Debug)]
pub struct ProfileArgs {
    /// Name of the profile to apply
    pub name: Option<String>,
    /// List available profiles
    pub list: bool,
    /// Save the current hardware settings as a new profile with this name
    pub save: Option<String>,
    /// Delete a saved profile
    pub delete: Option<String>,
    /// Print a saved profile
    pub show: Option<String>,
    /// power-profiles-daemon profile to map to, used with `save`
    pub ppd: Option<String>,
    /// Copy profiles to /etc/gigabytectl so the root-run sync service sees them
    pub sync_system: bool,
}

#[derive(Debug)]
pub struct ConfigArgs {
    pub action: ConfigAction,
}

#[derive(Debug)]
pub enum ConfigAction {
    /// Print the effective configuration
    Show,
    /// List the keys that can be read and written
    Keys,
    /// Print one value
    Get { key: String },
    /// Change one value
    Put { key: String, value: String, system: bool },
    /// Print where the configuration is read from and written to
    Path { system: bool },
}

#[derive(Clone, Copy, Debug, PartialEq, Eq, Structural)]
pub enum FanModeAction {
    Get,
    Put { mode: FanModeArg },
}

#[derive(Clone, Copy, Debug, PartialEq, Eq, Structural)]
pub enum ValueAction {
    Get,
    Put { value: i32 },
}

#[derive(Clone, Copy, Debug, PartialEq, Eq, Structural)]
pub enum ChargeModeAction {
    Get,
    Put { mode: ChargeModeArg },
}

#[derive(Clone, Copy, Debug, PartialEq, Eq, Structural)]
pub enum OnOffAction {
    Get,
    Put { state: OnOff },
}

#[derive(Clone, Copy, Debug, PartialEq, Eq, Structural)]
pub enum FanCurveAction {
    /// Print one point (if index given) or the whole curve
    Get { index: Option<usize> },
    /// Set the (temp, speed) pair at an index (0..15); with `force`, even if it
    /// leaves the curve out of order
    Put { index: usize, temp: i32, speed: i32, force: bool },
}

#[derive(Clone, Copy, Debug, PartialEq, Eq, Structural)]
pub enum FanModeArg {
    Normal,
    Silent,
    Gaming,
    Custom,
    Auto,
    Fixed,
}

#[derive(Clone, Copy, Debug, PartialEq, Eq, Structural)]
pub enum ChargeModeArg {
    Normal,
    Custom,
}

#[derive(Clone, Copy, Debug, PartialEq, Eq, Structural)]
pub enum OnOff {
    On,
    Off,
}

pub open spec fn fan_mode_code(mode: FanModeArg) -> i32 {
    match mode {
        FanModeArg::Normal => 0,
        FanModeArg::Silent => 1,
        FanModeArg::Gaming => 2,
        FanModeArg::Custom => 3,
        FanModeArg::Auto => 4,
        FanModeArg::Fixed => 5,
    }
}

pub open spec fn charge_mode_code(mode: ChargeModeArg) -> i32 {
    match mode {
        ChargeModeArg::Normal => 0,
        ChargeModeArg::Custom => 1,
    }
}

pub open spec fn switch_code(state: OnOff) -> i32 {
    match state {
        OnOff::On => 1,
        OnOff::Off => 0,
    }
}

impl FanModeArg {
    pub fn value(self) -> (r: i32)
        ensures
            r == fan_mode_code(self),
    {
        match self {
            FanModeArg::Normal => 0,
            FanModeArg::Silent => 1,
            FanModeArg::Gaming => 2,
            FanModeArg::Custom => 3,
            FanModeArg::Auto => 4,
            FanModeArg::Fixed => 5,
        }
    }
}

impl ChargeModeArg {
    pub fn value(self) -> (r: i32)
        ensures
            r == charge_mode_code(self),
    {
        match self {
            ChargeModeArg::Normal => 0,
            ChargeModeArg::Custom => 1,
        }
    }
}

impl OnOff {
    pub fn value(self) -> (r: i32)
        ensures
            r == switch_code(self),
    {
        match self {
            OnOff::On => 1,
            OnOff::Off => 0,
        }
    }
}

impl Commands {
    pub open spec fn touches_hardware(self) -> bool {
        match self {
            Commands::Status { .. } => true,
            Commands::FanMode { .. } => true,
            Commands::FanSpeed { .. } => true,
            Commands::ChargeMode { .. } => true,
            Commands::ChargeLimit { .. } => true,
            Commands::GpuBoost { .. } => true,
            Commands::BatteryCycle => true,
            Commands::LightSensor => true,
            Commands::FanPwm => true,
            Commands::Fans => true,
            Commands::FanCurve { .. } => true,
            _ => false,
        }
    }

    /// Whether the command touches the driver, and so needs root and a loaded
    /// `gigabyte-laptop-wmi` module. The rest read only sensors or user config,
    /// or check their own requirements as they go.
    pub fn needs_hardware(&self) -> (r: bool)
        ensures
            r == self.touches_hardware(),
    {
        match self {
            Commands::Monitor { .. } => false,
            Commands::Profile(_) => false,
            Commands::Config(_) => false,
            Commands::Doctor => false,
            Commands::Sync { .. } => false,
            Commands::Completions { .. } => false,
            Commands::InstallService => false,
            Commands::Manage { .. } => false,
            _ => true,
        }
    }
}

// --- Dispatch ---

/// A node whose value is printed.
#[derive(Clone, Copy, Debug, PartialEq, Eq, Structural)]
pub enum Reading {
    FanMode,
    FanSpeed,
    ChargeMode,
    ChargeLimit,
    GpuBoost,
    BatteryCycle,
    LightSensor,
    FanPwm,
}

impl Reading {
    pub open spec fn node(self) -> Seq<char> {
        match self {
            Reading::FanMode => sysfs::FAN_MODE@,
            Reading::FanSpeed => sysfs::FAN_CUSTOM_SPEED@,
            Reading::ChargeMode => sysfs::CHARGE_MODE@,
            Reading::ChargeLimit => sysfs::CHARGE_LIMIT@,
            Reading::GpuBoost => sysfs::GPU_BOOST@,
            Reading::BatteryCycle => sysfs::BATTERY_CYCLE@,
            Reading::LightSensor => sysfs::LIGHT_SENSOR@,
            Reading::FanPwm => sysfs::FAN_PWM@,
        }
    }

    /// What is printed when the node holds `contents`; `None` where it could
    /// not be read.
    pub open spec fn printed(self, contents: Option<Seq<char>>) -> Seq<char> {
        let number = match sysfs::node_value(contents) {
            Some(n) => Some(n as i32),
            None => None,
        };
        let word = match contents {
            Some(t) => Some(text::trimmed(t)),
            None => None,
        };
        match self {
            Reading::FanMode => text::lowered(sysfs::name_text(sysfs::FAN_MODES@, number)),
            Reading::FanSpeed => sysfs::value_text(number),
            Reading::ChargeMode => text::lowered(sysfs::name_text(sysfs::CHARGE_MODES@, number)),
            Reading::ChargeLimit => sysfs::value_text(number),
            Reading::GpuBoost => text::lowered(sysfs::boost_text(number)),
            Reading::BatteryCycle => sysfs::cycle_text(word),
            Reading::LightSensor => sysfs::light_text(word),
            Reading::FanPwm => sysfs::value_text(number),
        }
    }

    pub fn path(self) -> (r: &'static str)
        ensures
            r@ == self.node(),
    {
        match self {
            Reading::FanMode => sysfs::FAN_MODE,
            Reading::FanSpeed => sysfs::FAN_CUSTOM_SPEED,
            Reading::ChargeMode => sysfs::CHARGE_MODE,
            Reading::ChargeLimit => sysfs::CHARGE_LIMIT,
            Reading::GpuBoost => sysfs::GPU_BOOST,
            Reading::BatteryCycle => sysfs::BATTERY_CYCLE,
            Reading::LightSensor => sysfs::LIGHT_SENSOR,
            Reading::FanPwm => sysfs::FAN_PWM,
        }
    }

    pub fn show(self, contents: Option<&str>) -> (r: String)
        ensures
            r@ == self.printed(sysfs::str_view(contents)),
    {
        match self {
            Reading::FanMode => text::lowercase(
                sysfs::fan_mode_name(sysfs::read_i32(contents)).as_str(),
            ),
            Reading::FanSpeed => sysfs::value_or_na(sysfs::read_i32(contents)),
            Reading::ChargeMode => text::lowercase(
                sysfs::charge_mode_name(sysfs::read_i32(contents)).as_str(),
            ),
            Reading::ChargeLimit => sysfs::value_or_na(sysfs::read_i32(contents)),
            Reading::GpuBoost => text::lowercase(sysfs::gpu_boost_name(sysfs::read_i32(contents))),
            Reading::BatteryCycle => match contents {
                Some(t) => sysfs::battery_cycle_text(Some(text::trim(t))),
                None => sysfs::battery_cycle_text(None),
            },
            Reading::LightSensor => match contents {
                Some(t) => sysfs::light_sensor_text(Some(text::trim(t))),
                None => sysfs::light_sensor_text(None),
            },
            Reading::FanPwm => sysfs::value_or_na(sysfs::read_i32(contents)),
        }
    }
}

#[derive(Clone, Copy, Debug, PartialEq, Eq, Structural)]
pub enum SampleFormat {
    Text,
    Json,
    Csv,
}

/// What a command comes down to.
#[derive(Debug)]
pub enum Step {
    Status { json: bool },
    /// Read the node and print [`Reading::show`].
    Show(Reading),
    /// Write the value; then print what [`warn_if_inactive`] says of the
    /// setting.
    Write { write: Write, warn: Option<Dependent> },
    Fans,
    FanCurve(FanCurveAction),
    /// Print samples; the period is in nanoseconds.
    Monitor { period: u128, format: SampleFormat, count: Option<u64> },
    Profile(ProfileArgs),
    Config(ConfigAction),
    Doctor,
    Sync { once: bool },
    Completions(Shell),
    InstallService,
    Update { check: bool, dry_run: bool },
    Uninstall { yes: bool, dry_run: bool, keep_config: bool },
}

/// The shortest time between two samples, in nanoseconds.
pub const MIN_MONITOR_PERIOD: u128 = 100_000_000;

/// The time between two samples.
pub open spec fn period_of(interval: Option<u128>, config: Config) -> int {
    match interval {
        Some(nanos) => (if nanos < MIN_MONITOR_PERIOD {
            MIN_MONITOR_PERIOD
        } else {
            nanos
        }) as int,
        None => (if config.refresh_interval_ms < config::MIN_REFRESH_INTERVAL {
            config::MIN_REFRESH_INTERVAL
        } else {
            config.refresh_interval_ms
        }) * 1_000_000,
    }
}

/// Why a command refuses its argument.
pub open spec fn argument_fault(command: Commands) -> Option<Fault> {
    match command {
        Commands::FanSpeed { action: ValueAction::Put { value } } => sysfs::fan_speed_fault(value),
        Commands::ChargeLimit { action: ValueAction::Put { value } } => sysfs::charge_limit_fault(
            value,
        ),
        _ => None,
    }
}

/// What a command comes down to.
pub open spec fn step_of(command: Commands, config: Config) -> Step {
    match command {
        Commands::Status { json } => Step::Status { json },
        Commands::FanMode { action } => match action {
            FanModeAction::Get => Step::Show(Reading::FanMode),
            FanModeAction::Put { mode } => Step::Write {
                write: Write { path: sysfs::FAN_MODE, value: fan_mode_code(mode) },
                warn: None,
            },
        },
        Commands::FanSpeed { action } => match action {
            ValueAction::Get => Step::Show(Reading::FanSpeed),
            ValueAction::Put { value } => Step::Write {
                write: Write { path: sysfs::FAN_CUSTOM_SPEED, value },
                warn: Some(Dependent::FanCustomSpeed),
            },
        },
        Commands::ChargeMode { action } => match action {
            ChargeModeAction::Get => Step::Show(Reading::ChargeMode),
            ChargeModeAction::Put { mode } => Step::Write {
                write: Write { path: sysfs::CHARGE_MODE, value: charge_mode_code(mode) },
                warn: None,
            },
        },
        Commands::ChargeLimit { action } => match action {
            ValueAction::Get => Step::Show(Reading::ChargeLimit),
            ValueAction::Put { value } => Step::Write {
                write: Write { path: sysfs::CHARGE_LIMIT, value },
                warn: Some(Dependent::ChargeLimit),
            },
        },
        Commands::GpuBoost { action } => match action {
            OnOffAction::Get => Step::Show(Reading::GpuBoost),
            OnOffAction::Put { state } => Step::Write {
                write: Write { path: sysfs::GPU_BOOST, value: switch_code(state) },
                warn: None,
            },
        },
        Commands::BatteryCycle => Step::Show(Reading::BatteryCycle),
        Commands::LightSensor => Step::Show(Reading::LightSensor),
        Commands::FanPwm => Step::Show(Reading::FanPwm),
        Commands::Fans => Step::Fans,
        Commands::FanCurve { action } => Step::FanCurve(action),
        Commands::Monitor { interval, json, csv, count } => Step::Monitor {
            period: period_of(interval, config) as u128,
            format: if json {
                SampleFormat::Json
            } else if csv {
                SampleFormat::Csv
            } else {
                SampleFormat::Text
            },
            count,
        },
        Commands::Profile(args) => Step::Profile(args),
        Commands::Config(args) => Step::Config(args.action),
        Commands::Doctor => Step::Doctor,
        Commands::Sync { once } => Step::Sync { once },
        Commands::Completions { shell } => Step::Completions(shell),
        Commands::InstallService => Step::InstallService,
        Commands::Manage { action } => match action {
            ManageAction::Update { check, dry_run } => Step::Update { check, dry_run },
            ManageAction::Uninstall { yes, dry_run, keep_config } => Step::Uninstall {
                yes,
                dry_run,
                keep_config,
            },
        },
    }
}

/// Why the driver cannot be used.
pub open spec fn hardware_fault(is_root: bool, driver: bool) -> Option<Fault> {
    if !is_root {
        Some(Fault::NotRoot)
    } else if !driver {
        Some(Fault::DriverMissing)
    } else {
        None
    }
}

pub fn require_hardware(is_root: bool, driver: bool) -> (r: Result<(), Error>)
    ensures
        sysfs::reports(r, hardware_fault(is_root, driver)),
{
    if !is_root {
        Err(Problem::NotRoot)
    } else if !driver {
        Err(Problem::DriverMissing)
    } else {
        Ok(())
    }
}

/// What a command comes down to, given whether the process is root and whether
/// the driver is loaded.
pub fn run(command: Commands, config: &Config, is_root: bool, driver: bool) -> (r: Result<
    Step,
    Error,
>)
    ensures
        if command.touches_hardware() && hardware_fault(is_root, driver) is Some {
            sysfs::reports(r, hardware_fault(is_root, driver))
        } else if argument_fault(command) is Some {
            sysfs::reports(r, argument_fault(command))
        } else {
            r == Ok::<Step, Error>(step_of(command, *config))
        },
{
    if command.needs_hardware() {
        require_hardware(is_root, driver)?;
    }
    let step: Step = match command {
        Commands::Status { json } => Step::Status { json },
        Commands::FanMode { action } => match action {
            FanModeAction::Get => Step::Show(Reading::FanMode),
            FanModeAction::Put { mode } => Step::Write {
                write: Write { path: sysfs::FAN_MODE, value: mode.value() },
                warn: None,
            },
        },
        Commands::FanSpeed { action } => match action {
            ValueAction::Get => Step::Show(Reading::FanSpeed),
            ValueAction::Put { value } => {
                sysfs::validate_fan_speed(value)?;
                Step::Write {
                    write: Write { path: sysfs::FAN_CUSTOM_SPEED, value },
                    warn: Some(Dependent::FanCustomSpeed),
                }
            },
        },
        Commands::ChargeMode { action } => match action {
            ChargeModeAction::Get => Step::Show(Reading::ChargeMode),
            ChargeModeAction::Put { mode } => Step::Write {
                write: Write { path: sysfs::CHARGE_MODE, value: mode.value() },
                warn: None,
            },
        },
        Commands::ChargeLimit { action } => match action {
            ValueAction::Get => Step::Show(Reading::ChargeLimit),
            ValueAction::Put { value } => {
                sysfs::validate_charge_limit(value)?;
                Step::Write {
                    write: Write { path: sysfs::CHARGE_LIMIT, value },
                    warn: Some(Dependent::ChargeLimit),
                }
            },
        },
        Commands::GpuBoost { action } => match action {
            OnOffAction::Get => Step::Show(Reading::GpuBoost),
            OnOffAction::Put { state } => Step::Write {
                write: Write { path: sysfs::GPU_BOOST, value: state.value() },
                warn: None,
            },
        },
        Commands::BatteryCycle => Step::Show(Reading::BatteryCycle),
        Commands::LightSensor => Step::Show(Reading::LightSensor),
        Commands::FanPwm => Step::Show(Reading::FanPwm),
        Commands::Fans => Step::Fans,
        Commands::FanCurve { action } => Step::FanCurve(action),
        Commands::Monitor { interval, json, csv, count } => {
            let format: SampleFormat = if json {
                SampleFormat::Json
            } else if csv {
                SampleFormat::Csv
            } else {
                SampleFormat::Text
            };
            let period: u128 = match interval {
                Some(nanos) => if nanos < MIN_MONITOR_PERIOD {
                    MIN_MONITOR_PERIOD
                } else {
                    nanos
                },
                None => (config.refresh_interval() as u128) * 1_000_000,
            };
            Step::Monitor { period, format, count }
        },
        Commands::Profile(args) => Step::Profile(args),
        Commands::Config(args) => Step::Config(args.action),
        Commands::Doctor => Step::Doctor,
        Commands::Sync { once } => Step::Sync { once },
        Commands::Completions { shell } => Step::Completions(shell),
        Commands::InstallService => Step::InstallService,
        Commands::Manage { action } => match action {
            ManageAction::Update { check, dry_run } => Step::Update { check, dry_run },
            ManageAction::Uninstall { yes, dry_run, keep_config } => Step::Uninstall {
                yes,
                dry_run,
                keep_config,
            },
        },
    };
    Ok(step)
}

/// The warning when a value was written to a node that is currently being
/// ignored, so a set that appears to work but does nothing is not silent.
pub fn warn_if_inactive(hw: &HwState, setting: Dependent) -> (r: Option<String>)
    ensures
        sysfs::text_view(r) == match hw.inert_text(setting) {
            Some(reason) => Some(
                "Warning: value saved, but it has no effect right now - it "@ + reason,
            ),
            None => None,
        },
{
    match hw.inactive_reason(setting) {
        Some(reason) => {
            let mut r: String =
                "Warning: value saved, but it has no effect right now - it ".to_owned();
            r.append(reason);
            Some(r)
        },
        None => None,
    }
}

// --- Fan curve ---

/// What a fan curve command does next.
#[derive(Debug)]
pub enum CurveStep {
    /// Read the curve and print [`fan_curve_lines`].
    Print { index: Option<usize> },
    /// Write these values.
    Write(Vec<Write>),
    /// Read the curve and write [`checked_curve_writes`].
    Check { index: usize, temp: i32, speed: i32 },
}

pub fn run_fan_curve(action: FanCurveAction) -> (r: Result<CurveStep, Error>)
    ensures
        match action {
            FanCurveAction::Get { index } => r == Ok::<CurveStep, Error>(CurveStep::Print { index }),
            FanCurveAction::Put { index, temp, speed, force } => if force {
                &&& sysfs::reports(r, sysfs::write_fault(index, temp, speed))
                &&& r matches Ok(step) ==> step matches CurveStep::Write(writes) && writes@
                    == sysfs::point_writes(index as int, temp as int, speed as int)
            } else {
                &&& sysfs::reports(r, sysfs::index_fault(index))
                &&& r matches Ok(step) ==> step == (CurveStep::Check { index, temp, speed })
            },
        },
{
    match action {
        FanCurveAction::Get { index } => Ok(CurveStep::Print { index }),
        FanCurveAction::Put { index, temp, speed, force } => {
            if force {
                let writes: Vec<Write> = sysfs::write_fan_curve_point(index, temp, speed)?;
                Ok(CurveStep::Write(writes))
            } else {
                sysfs::validate_curve_index(index)?;
                Ok(CurveStep::Check { index, temp, speed })
            }
        },
    }
}

/// A point of the curve as it is printed.
pub open spec fn point_text(index: int, point: (i32, i32)) -> Seq<char> {
    text::decimal(index as nat) + " "@ + text::decimal_int(point.0 as int) + " "@
        + text::decimal_int(point.1 as int)
}

fn point_line(index: usize, point: (i32, i32)) -> (r: String)
    ensures
        r@ == point_text(index as int, point),
{
    text::concat5(
        text::decimal_of(index as u64).as_str(),
        " ",
        text::decimal_of_int(point.0 as i64).as_str(),
        " ",
        text::decimal_of_int(point.1 as i64).as_str(),
    )
}

/// The lines that show one point of the curve, or all of them.
pub fn fan_curve_lines(index: Option<usize>, curve: &[(i32, i32)]) -> (r: Result<
    Vec<String>,
    Error,
>)
    requires
        curve@.len() == sysfs::FAN_CURVE_POINTS,
    ensures
        match index {
            Some(i) => {
                &&& sysfs::reports(r, sysfs::index_fault(i))
                &&& r matches Ok(lines) ==> text::views(lines@) == seq![
                    point_text(i as int, curve@[i as int]),
                ]
            },
            None => r matches Ok(lines) && text::views(lines@) == Seq::new(
                curve@.len(),
                |i: int| point_text(i, curve@[i]),
            ),
        },
{
    let mut lines: Vec<String> = Vec::new();
    match index {
        Some(i) => {
            sysfs::validate_curve_index(i)?;
            lines.push(point_line(i, curve[i]));
            proof {
                assert(text::views(lines@) =~= seq![point_text(i as int, curve@[i as int])]);
            }
        },
        None => {
            let ghost all = Seq::new(curve@.len(), |i: int| point_text(i, curve@[i]));
            let mut i: usize = 0;
            proof {
                assert(text::views(lines@) =~= all.take(0));
            }
            while i < curve.len()
                invariant
                    i <= curve@.len(),
                    all == Seq::new(curve@.len(), |i: int| point_text(i, curve@[i])),
                    text::views(lines@) == all.take(i as int),
                decreases curve@.len() - i,
            {
                text::push_text(&mut lines, point_line(i, curve[i]).as_str());
                i = i + 1;
                proof {
                    assert(all.take(i as int) =~= all.take(i - 1).push(all[i - 1]));
                }
            }
            proof {
                assert(all.take(i as int) =~= all);
            }
        },
    }
    Ok(lines)
}

/// Checks an edit against the curve already on the device, so a point cannot be
/// dropped below its neighbours by accident, and gives the writes for it.
pub fn checked_curve_writes(
    curve: &[(i32, i32)],
    index: usize,
    temp: i32,
    speed: i32,
) -> (r: Result<Vec<Write>, Error>)
    ensures
        match sysfs::edit_fault(curve@, index, temp, speed) {
            Some(f) => r is Err && r->Err_0@ == (Fault::CurveRefused {
                cause: error::fault_text(f),
            }),
            None => r matches Ok(writes) && writes@ == sysfs::point_writes(
                index as int,
                temp as int,
                speed as int,
            ),
        },
{
    match sysfs::validate_curve_point_in(curve, index, temp, speed) {
        Ok(_) => sysfs::write_fan_curve_point(index, temp, speed),
        Err(e) => Err(Problem::CurveRefused { cause: e.message() }),
    }
}

// --- Fans ---

/// A fan with its reading, behind an indent.
pub open spec fn fan_text(indent: Seq<char>, fan: FanView) -> Seq<char> {
    indent + fan.name + ": "@ + sensors::reading_text(fan.rpm, fan.pwm)
}

pub open spec fn fan_texts(indent: Seq<char>, fans: Seq<FanView>) -> Seq<Seq<char>> {
    Seq::new(fans.len(), |i: int| fan_text(indent, fans[i]))
}

fn push_fans(lines: &mut Vec<String>, indent: &str, fans: &[Fan])
    ensures
        text::views(final(lines)@) == text::views(old(lines)@) + fan_texts(
            indent@,
            sensors::fan_views(fans@),
        ),
{
    let ghost start = text::views(lines@);
    let ghost all = fan_texts(indent@, sensors::fan_views(fans@));
    let mut i: usize = 0;
    proof {
        assert(text::views(lines@) =~= start + all.take(0));
    }
    while i < fans.len()
        invariant
            i <= fans@.len(),
            all == fan_texts(indent@, sensors::fan_views(fans@)),
            text::views(lines@) == start + all.take(i as int),
        decreases fans@.len() - i,
    {
        let mut line: String = text::concat3(indent, fans[i].name.as_str(), ": ");
        line.append(fans[i].reading().as_str());
        proof {
            assert(sensors::fan_views(fans@)[i as int] == fans@[i as int]@);
            assert(line@ == all[i as int]);
        }
        text::push_text(lines, line.as_str());
        i = i + 1;
        proof {
            assert(all.take(i as int) =~= all.take(i - 1).push(all[i - 1]));
            assert(start + all.take(i as int) =~= (start + all.take(i - 1)).push(all[i - 1]));
        }
    }
    proof {
        assert(all.take(i as int) =~= all);
    }
}

/// The lines that `fans` prints.
pub fn print_fans(fans: &[Fan]) -> (r: Vec<String>)
    ensures
        text::views(r@) == if fans@.len() == 0 {
            seq!["No live fan readings available"@]
        } else {
            fan_texts(""@, sensors::fan_views(fans@))
        },
{
    let mut lines: Vec<String> = Vec::new();
    if fans.len() == 0 {
        text::push_text(&mut lines, "No live fan readings available");
        proof {
            assert(text::views(lines@) =~= seq!["No live fan readings available"@]);
        }
        return lines;
    }
    push_fans(&mut lines, "", fans);
    proof {
        let all = fan_texts(""@, sensors::fan_views(fans@));
        assert(text::views(lines@) =~= all);
    }
    lines
}

/// A fan as it is reported to programs.
#[derive(Debug, PartialEq, Eq)]
pub struct FanJson {
    pub channel: u32,
    pub name: String,
    pub rpm: u32,
    pub pwm: Option<u32>,
}

impl View for FanJson {
    type V = FanView;

    open spec fn view(&self) -> FanView {
        FanView { channel: self.channel, name: self.name@, rpm: self.rpm, pwm: self.pwm }
    }
}

pub open spec fn json_views(fans: Seq<FanJson>) -> Seq<FanView> {
    Seq::new(fans.len(), |i: int| fans[i]@)
}

pub fn fans_json(fans: &[Fan]) -> (r: Vec<FanJson>)
    ensures
        json_views(r@) == sensors::fan_views(fans@),
{
    let ghost all = sensors::fan_views(fans@);
    let mut r: Vec<FanJson> = Vec::new();
    let mut i: usize = 0;
    proof {
        assert(json_views(r@) =~= all.take(0));
    }
    while i < fans.len()
        invariant
            i <= fans@.len(),
            all == sensors::fan_views(fans@),
            r@.len() == i,
            json_views(r@) == all.take(i as int),
        decreases fans@.len() - i,
    {
        let fan: &Fan = &fans[i];
        let ghost before = r@;
        r.push(
            FanJson { channel: fan.channel, name: fan.name.clone(), rpm: fan.rpm, pwm: fan.pwm },
        );
        i = i + 1;
        proof {
            assert(r@[i - 1]@ =~= all[i - 1]);
            assert(json_views(r@) =~= json_views(before).push(all[i - 1]));
            assert(all.take(i as int) =~= all.take(i - 1).push(all[i - 1]));
        }
    }
    proof {
        assert(all.take(i as int) =~= all);
    }
    r
}

// --- Status ---

/// What `status` reports to programs, but for the temperatures.
#[derive(Debug, PartialEq, Eq)]
pub struct StatusRecord {
    pub fan_mode: String,
    pub fan_speed: String,
    pub charge_mode: String,
    pub charge_limit: String,
    pub gpu_boost: String,
    pub battery_cycle: String,
    pub light_sensor: String,
    pub fan_pwm: String,
    /// False when the fan mode means fan_speed is currently ignored.
    pub fan_speed_active: bool,
    /// False when the charge mode means charge_limit is currently ignored.
    pub charge_limit_active: bool,
    pub fans: Vec<FanJson>,
}

pub fn status_record(hw: &HwState, fans: &[Fan]) -> (r: StatusRecord)
    ensures
        r.fan_mode@ == text::lowered(sysfs::name_text(sysfs::FAN_MODES@, hw.fan_mode)),
        r.fan_speed@ == sysfs::value_text(hw.fan_custom_speed),
        r.charge_mode@ == text::lowered(sysfs::name_text(sysfs::CHARGE_MODES@, hw.charge_mode)),
        r.charge_limit@ == sysfs::value_text(hw.charge_limit),
        r.gpu_boost@ == text::lowered(sysfs::boost_text(hw.gpu_boost)),
        r.battery_cycle@ == sysfs::cycle_text(sysfs::text_view(hw.battery_cycle)),
        r.light_sensor@ == sysfs::light_text(sysfs::text_view(hw.light_sensor)),
        r.fan_pwm@ == sysfs::value_text(hw.fan_pwm),
        r.fan_speed_active == hw.takes_effect(Dependent::FanCustomSpeed),
        r.charge_limit_active == hw.takes_effect(Dependent::ChargeLimit),
        json_views(r.fans@) == sensors::fan_views(fans@),
{
    StatusRecord {
        fan_mode: text::lowercase(sysfs::fan_mode_name(hw.fan_mode).as_str()),
        fan_speed: sysfs::value_or_na(hw.fan_custom_speed),
        charge_mode: text::lowercase(sysfs::charge_mode_name(hw.charge_mode).as_str()),
        charge_limit: sysfs::value_or_na(hw.charge_limit),
        gpu_boost: text::lowercase(sysfs::gpu_boost_name(hw.gpu_boost)),
        battery_cycle: hw.battery_cycle_text(),
        light_sensor: hw.light_sensor_text(),
        fan_pwm: sysfs::value_or_na(hw.fan_pwm),
        fan_speed_active: hw.is_active(Dependent::FanCustomSpeed),
        charge_limit_active: hw.is_active(Dependent::ChargeLimit),
        fans: fans_json(fans),
    }
}

pub open spec fn annotated(value: Seq<char>, reason: Option<Seq<char>>) -> Seq<char> {
    match reason {
        Some(reason) => value + "  (inactive - "@ + reason + ")"@,
        None => value,
    }
}

/// `"80  (inactive - requires Custom charge mode)"` when a setting is inert.
pub fn annotate(value: &str, reason: Option<&str>) -> (r: String)
    ensures
        r@ == annotated(value@, sysfs::str_view(reason)),
{
    match reason {
        Some(reason) => {
            let mut r: String = text::concat3(value, "  (inactive - ", reason);
            r.append(")");
            r
        },
        None => value.to_owned(),
    }
}

/// A line of the report: the label, padded, and the value.
pub open spec fn status_text(label: Seq<char>, value: Seq<char>) -> Seq<char> {
    text::left_aligned(label + ":"@, 15) + value
}

fn status_line(label: &str, value: &str) -> (r: String)
    ensures
        r@ == status_text(label@, value@),
{
    let mut head: String = label.to_owned();
    head.append(":");
    let mut r: String = text::pad_right(head.as_str(), 15);
    r.append(value);
    r
}

/// The lines of the report on the settings.
pub open spec fn setting_texts(hw: HwState, cpu_temp: Seq<char>, gpu_temp: Seq<char>) -> Seq<
    Seq<char>,
> {
    seq![
        status_text("Fan mode"@, sysfs::name_text(sysfs::FAN_MODES@, hw.fan_mode)),
        status_text(
            "Fan speed"@,
            annotated(
                sysfs::value_text(hw.fan_custom_speed),
                hw.inert_text(Dependent::FanCustomSpeed),
            ),
        ),
        status_text("Charge mode"@, sysfs::name_text(sysfs::CHARGE_MODES@, hw.charge_mode)),
        status_text(
            "Charge limit"@,
            annotated(sysfs::value_text(hw.charge_limit), hw.inert_text(Dependent::ChargeLimit)),
        ),
        status_text("GPU boost"@, sysfs::boost_text(hw.gpu_boost)),
        status_text("Battery cycle"@, sysfs::cycle_text(sysfs::text_view(hw.battery_cycle))),
        status_text("Light sensor"@, sysfs::light_text(sysfs::text_view(hw.light_sensor))),
        status_text("Fan PWM"@, sysfs::value_text(hw.fan_pwm)),
        status_text("CPU temp"@, cpu_temp),
        status_text("GPU temp"@, gpu_temp),
    ]
}

/// The lines that `status` prints, given the temperatures as text.
pub fn print_status(hw: &HwState, cpu_temp: &str, gpu_temp: &str, fans: &[Fan]) -> (r: Vec<String>)
    ensures
        text::views(r@) == setting_texts(*hw, cpu_temp@, gpu_temp@) + if fans@.len() == 0 {
            Seq::empty()
        } else {
            seq!["Fans:"@] + fan_texts("  "@, sensors::fan_views(fans@))
        },
{
    let fan_speed: String = annotate(
        sysfs::value_or_na(hw.fan_custom_speed).as_str(),
        hw.inactive_reason(Dependent::FanCustomSpeed),
    );
    let charge_limit: String = annotate(
        sysfs::value_or_na(hw.charge_limit).as_str(),
        hw.inactive_reason(Dependent::ChargeLimit),
    );
    let mut r: Vec<String> = Vec::new();
    text::push_text(
        &mut r,
        status_line("Fan mode", sysfs::fan_mode_name(hw.fan_mode).as_str()).as_str(),
    );
    text::push_text(&mut r, status_line("Fan speed", fan_speed.as_str()).as_str());
    text::push_text(
        &mut r,
        status_line("Charge mode", sysfs::charge_mode_name(hw.charge_mode).as_str()).as_str(),
    );
    text::push_text(&mut r, status_line("Charge limit", charge_limit.as_str()).as_str());
    text::push_text(
        &mut r,
        status_line("GPU boost", sysfs::gpu_boost_name(hw.gpu_boost)).as_str(),
    );
    text::push_text(
        &mut r,
        status_line("Battery cycle", hw.battery_cycle_text().as_str()).as_str(),
    );
    text::push_text(&mut r, status_line("Light sensor", hw.light_sensor_text().as_str()).as_str());
    text::push_text(
        &mut r,
        status_line("Fan PWM", sysfs::value_or_na(hw.fan_pwm).as_str()).as_str(),
    );
    text::push_text(&mut r, status_line("CPU temp", cpu_temp).as_str());
    text::push_text(&mut r, status_line("GPU temp", gpu_temp).as_str());
    let ghost settings = setting_texts(*hw, cpu_temp@, gpu_temp@);
    proof {
        assert(text::views(r@) =~= settings);
    }
    if fans.len() > 0 {
        text::push_text(&mut r, "Fans:");
        push_fans(&mut r, "  ", fans);
        proof {
            let rows = fan_texts("  "@, sensors::fan_views(fans@));
            assert(text::views(r@) =~= settings + (seq!["Fans:"@] + rows));
        }
    } else {
        proof {
            assert(text::views(r@) =~= settings + Seq::<Seq<char>>::empty());
        }
    }
    r
}

// --- Monitor ---

/// A run of `monitor`.
#[derive(Debug)]
pub struct Monitor {
    pub format: SampleFormat,
    pub count: Option<u64>,
    /// Samples printed so far.
    pub taken: u64,
    /// CSV columns are fixed by the first sample so the table stays rectangular
    /// even if a fan stops and drops out of later readings.
    pub csv_channels: Option<Vec<u32>>,
}

/// What `monitor` does next.
#[derive(Clone, Copy, Debug, PartialEq, Eq, Structural)]
pub enum MonitorStep {
    Stop,
    /// Take a sample, after waiting for one period where `wait` is set.
    Take { wait: bool },
}

/// What `monitor` prints for a sample.
#[derive(Debug)]
pub enum Sample {
    Lines(Vec<String>),
    /// The fans of one JSON object.
    Json(Vec<FanJson>),
}

/// The channels of the fans, in order.
pub open spec fn channels_of(fans: Seq<FanView>) -> Seq<u32> {
    Seq::new(fans.len(), |i: int| fans[i].channel)
}

fn fan_channels(fans: &[Fan]) -> (r: Vec<u32>)
    ensures
        r@ == channels_of(sensors::fan_views(fans@)),
{
    let ghost all = channels_of(sensors::fan_views(fans@));
    let mut r: Vec<u32> = Vec::new();
    let mut i: usize = 0;
    while i < fans.len()
        invariant
            i <= fans@.len(),
            all == channels_of(sensors::fan_views(fans@)),
            r@ == all.take(i as int),
        decreases fans@.len() - i,
    {
        r.push(fans[i].channel);
        i = i + 1;
        proof {
            assert(all.take(i as int) =~= all.take(i - 1).push(all[i - 1]));
        }
    }
    proof {
        assert(all.take(i as int) =~= all);
    }
    r
}

/// The readings of the fans on one line.
pub open spec fn speeds_text(fans: Seq<FanView>) -> Seq<char> {
    if fans.len() == 0 {
        "no fan data"@
    } else {
        text::joined(
            Seq::new(
                fans.len(),
                |i: int| fans[i].name + ": "@ + text::decimal(fans[i].rpm as nat) + " RPM"@,
            ),
            "   "@,
        )
    }
}

fn speeds(fans: &[Fan]) -> (r: String)
    ensures
        r@ == speeds_text(sensors::fan_views(fans@)),
{
    if fans.len() == 0 {
        return "no fan data".to_owned();
    }
    let ghost views = sensors::fan_views(fans@);
    let ghost all = Seq::new(
        views.len(),
        |i: int| views[i].name + ": "@ + text::decimal(views[i].rpm as nat) + " RPM"@,
    );
    let mut parts: Vec<String> = Vec::new();
    let mut i: usize = 0;
    proof {
        assert(text::views(parts@) =~= all.take(0));
    }
    while i < fans.len()
        invariant
            i <= fans@.len(),
            views == sensors::fan_views(fans@),
            all == Seq::new(
                views.len(),
                |i: int| views[i].name + ": "@ + text::decimal(views[i].rpm as nat) + " RPM"@,
            ),
            text::views(parts@) == all.take(i as int),
        decreases fans@.len() - i,
    {
        let mut part: String = text::concat3(
            fans[i].name.as_str(),
            ": ",
            text::decimal_of(fans[i].rpm as u64).as_str(),
        );
        part.append(" RPM");
        proof {
            assert(part@ == all[i as int]);
        }
        text::push_text(&mut parts, part.as_str());
        i = i + 1;
        proof {
            assert(all.take(i as int) =~= all.take(i - 1).push(all[i - 1]));
        }
    }
    proof {
        assert(all.take(i as int) =~= all);
    }
    text::join(parts.as_slice(), "   ")
}

impl Monitor {
    pub fn new(format: SampleFormat, count: Option<u64>) -> (r: Self)
        ensures
            r == (Monitor { format, count, taken: 0, csv_channels: None }),
    {
        Monitor { format, count, taken: 0, csv_channels: None }
    }

    pub fn next(&self) -> (r: MonitorStep)
        ensures
            r == if self.count is Some && self.taken >= self.count->0 {
                MonitorStep::Stop
            } else {
                MonitorStep::Take { wait: self.taken > 0 }
            },
    {
        match self.count {
            Some(limit) => {
                if self.taken >= limit {
                    return MonitorStep::Stop;
                }
            },
            None => {},
        }
        MonitorStep::Take { wait: self.taken > 0 }
    }

    /// The channels that the table has columns for once `fans` were sampled.
    pub open spec fn columns(self, fans: Seq<FanView>) -> Seq<u32> {
        match self.csv_channels {
            Some(channels) => channels@,
            None => channels_of(fans),
        }
    }

    /// What a sample prints. The temperatures are given as text.
    pub open spec fn output(
        self,
        timestamp: u64,
        cpu: Seq<char>,
        gpu: Seq<char>,
        fans: Seq<FanView>,
    ) -> Seq<Seq<char>> {
        match self.format {
            SampleFormat::Text => seq![
                "CPU "@ + cpu + "   GPU "@ + gpu + "   "@ + speeds_text(fans),
            ],
            SampleFormat::Csv => (if self.csv_channels is None {
                seq![text::joined(header_columns(channels_of(fans)), ","@)]
            } else {
                Seq::empty()
            }).push(
                text::joined(row_columns(timestamp, cpu, gpu, self.columns(fans), fans), ","@),
            ),
            SampleFormat::Json => Seq::empty(),
        }
    }

    /// Takes a sample and says what to print for it. For CSV the temperatures
    /// are plain numbers, or empty.
    pub fn sample(&mut self, timestamp: u64, cpu: &str, gpu: &str, fans: &[Fan]) -> (r: Sample)
        requires
            old(self).taken < u64::MAX,
        ensures
            match r {
                Sample::Lines(lines) => !(old(self).format is Json) && text::views(lines@) == old(
                    self,
                ).output(timestamp, cpu@, gpu@, sensors::fan_views(fans@)),
                Sample::Json(list) => old(self).format is Json && json_views(list@)
                    == sensors::fan_views(fans@),
            },
            final(self).format == old(self).format,
            final(self).count == old(self).count,
            final(self).taken == old(self).taken + 1,
            if old(self).format is Csv {
                final(self).csv_channels matches Some(channels) && channels@ == old(self).columns(
                    sensors::fan_views(fans@),
                )
            } else {
                final(self).csv_channels == old(self).csv_channels
            },
    {
        self.taken = self.taken + 1;
        let ghost view = sensors::fan_views(fans@);
        match self.format {
            SampleFormat::Json => Sample::Json(fans_json(fans)),
            SampleFormat::Csv => {
                let mut lines: Vec<String> = Vec::new();
                let channels: Vec<u32> = match self.csv_channels.take() {
                    Some(channels) => channels,
                    None => {
                        let channels: Vec<u32> = fan_channels(fans);
                        text::push_text(&mut lines, csv_header(channels.as_slice()).as_str());
                        channels
                    },
                };
                let row: String = csv_row(timestamp, cpu, gpu, channels.as_slice(), fans);
                text::push_text(&mut lines, row.as_str());
                proof {
                    assert(text::views(lines@) =~= old(self).output(timestamp, cpu@, gpu@, view));
                }
                self.csv_channels = Some(channels);
                Sample::Lines(lines)
            },
            SampleFormat::Text => {
                let mut line: String = text::concat5("CPU ", cpu, "   GPU ", gpu, "   ");
                line.append(speeds(fans).as_str());
                let mut lines: Vec<String> = Vec::new();
                text::push_text(&mut lines, line.as_str());
                proof {
                    assert(text::views(lines@) =~= old(self).output(timestamp, cpu@, gpu@, view));
                }
                Sample::Lines(lines)
            },
        }
    }
}

/// The names of the columns.
pub open spec fn header_columns(channels: Seq<u32>) -> Seq<Seq<char>>
    decreases channels.len(),
{
    if channels.len() == 0 {
        seq!["timestamp"@, "cpu_temp"@, "gpu_temp"@]
    } else {
        let fan = "fan"@ + text::decimal(channels.last() as nat);
        header_columns(channels.drop_last()).push(fan + "_rpm"@).push(fan + "_pwm"@)
    }
}

/// The first fan of a channel.
pub open spec fn fan_of(fans: Seq<FanView>, channel: u32) -> Option<FanView>
    decreases fans.len(),
{
    if fans.len() == 0 {
        None
    } else if fans[0].channel == channel {
        Some(fans[0])
    } else {
        fan_of(fans.skip(1), channel)
    }
}

pub open spec fn rpm_cell(fan: Option<FanView>) -> Seq<char> {
    match fan {
        Some(f) => text::decimal(f.rpm as nat),
        None => ""@,
    }
}

pub open spec fn pwm_cell(fan: Option<FanView>) -> Seq<char> {
    match fan {
        Some(f) => match f.pwm {
            Some(pwm) => text::decimal(pwm as nat),
            None => ""@,
        },
        None => ""@,
    }
}

/// The cells of a row.
pub open spec fn row_columns(
    timestamp: u64,
    cpu: Seq<char>,
    gpu: Seq<char>,
    channels: Seq<u32>,
    fans: Seq<FanView>,
) -> Seq<Seq<char>>
    decreases channels.len(),
{
    if channels.len() == 0 {
        seq![text::decimal(timestamp as nat), cpu, gpu]
    } else {
        let fan = fan_of(fans, channels.last());
        row_columns(timestamp, cpu, gpu, channels.drop_last(), fans).push(rpm_cell(fan)).push(
            pwm_cell(fan),
        )
    }
}

pub fn csv_header(channels: &[u32]) -> (r: String)
    ensures
        r@ == text::joined(header_columns(channels@), ","@),
{
    let mut columns: Vec<String> = Vec::new();
    text::push_text(&mut columns, "timestamp");
    text::push_text(&mut columns, "cpu_temp");
    text::push_text(&mut columns, "gpu_temp");
    let mut i: usize = 0;
    proof {
        assert(text::views(columns@) =~= header_columns(channels@.take(0)));
    }
    while i < channels.len()
        invariant
            i <= channels@.len(),
            text::views(columns@) == header_columns(channels@.take(i as int)),
        decreases channels@.len() - i,
    {
        let number: String = text::decimal_of(channels[i] as u64);
        text::push_text(&mut columns, text::concat3("fan", number.as_str(), "_rpm").as_str());
        text::push_text(&mut columns, text::concat3("fan", number.as_str(), "_pwm").as_str());
        i = i + 1;
        proof {
            assert(channels@.take(i as int).drop_last() =~= channels@.take(i - 1));
        }
    }
    proof {
        assert(channels@.take(i as int) =~= channels@);
    }
    text::join(columns.as_slice(), ",")
}

fn find_fan(fans: &[Fan], channel: u32) -> (r: Option<(u32, Option<u32>)>)
    ensures
        match fan_of(sensors::fan_views(fans@), channel) {
            Some(f) => r == Some((f.rpm, f.pwm)),
            None => r is None,
        },
{
    let ghost all = sensors::fan_views(fans@);
    let mut i: usize = 0;
    proof {
        assert(all.skip(0) =~= all);
    }
    while i < fans.len()
        invariant
            i <= fans@.len(),
            all == sensors::fan_views(fans@),
            fan_of(all, channel) == fan_of(all.skip(i as int), channel),
        decreases fans@.len() - i,
    {
        proof {
            assert(all.skip(i as int)[0] == fans@[i as int]@);
            assert(all.skip(i as int).skip(1) =~= all.skip(i + 1));
        }
        if fans[i].channel == channel {
            return Some((fans[i].rpm, fans[i].pwm));
        }
        i = i + 1;
    }
    None
}

pub fn csv_row(timestamp: u64, cpu: &str, gpu: &str, channels: &[u32], fans: &[Fan]) -> (r: String)
    ensures
        r@ == text::joined(
            row_columns(timestamp, cpu@, gpu@, channels@, sensors::fan_views(fans@)),
            ","@,
        ),
{
    let ghost view = sensors::fan_views(fans@);
    let mut columns: Vec<String> = Vec::new();
    text::push_text(&mut columns, text::decimal_of(timestamp).as_str());
    text::push_text(&mut columns, cpu);
    text::push_text(&mut columns, gpu);
    let mut i: usize = 0;
    proof {
        assert(text::views(columns@) =~= row_columns(
            timestamp,
            cpu@,
            gpu@,
            channels@.take(0),
            view,
        ));
    }
    while i < channels.len()
        invariant
            i <= channels@.len(),
            view == sensors::fan_views(fans@),
            text::views(columns@) == row_columns(
                timestamp,
                cpu@,
                gpu@,
                channels@.take(i as int),
                view,
            ),
        decreases channels@.len() - i,
    {
        let fan: Option<(u32, Option<u32>)> = find_fan(fans, channels[i]);
        let rpm: String = match fan {
            Some((rpm, _)) => text::decimal_of(rpm as u64),
            None => "".to_owned(),
        };
        let pwm: String = match fan {
            Some((_, Some(pwm))) => text::decimal_of(pwm as u64),
            _ => "".to_owned(),
        };
        text::push_text(&mut columns, rpm.as_str());
        text::push_text(&mut columns, pwm.as_str());
        i = i + 1;
        proof {
            assert(channels@.take(i as int).drop_last() =~= channels@.take(i - 1));
        }
    }
    proof {
        assert(channels@.take(i as int) =~= channels@);
    }
    text::join(columns.as_slice(), ",")
}

// --- Profiles ---

/// What `profile` does.
#[derive(Debug)]
pub enum ProfileStep {
    /// Read the hardware and the profiles file, [`save_profile`], write the file.
    Save { name: String, ppd: Option<String> },
    /// Read the profiles file, [`delete_profile`], write the file.
    Delete { name: String },
    /// Print the profile that [`find_profile`] gives.
    Show { name: String },
    /// Copy the profiles to the system-wide location.
    SyncSystem,
    /// Print [`profile_list`].
    List,
    /// Apply the profile that [`find_profile`] gives.
    Apply { name: String },
}

#[verifier::ext_equal]
pub enum ProfileStepView {
    Save { name: Seq<char>, ppd: Option<Seq<char>> },
    Delete { name: Seq<char> },
    Show { name: Seq<char> },
    SyncSystem,
    List,
    Apply { name: Seq<char> },
}

impl View for ProfileStep {
    type V = ProfileStepView;

    open spec fn view(&self) -> ProfileStepView {
        match *self {
            ProfileStep::Save { name, ppd } => ProfileStepView::Save {
                name: name@,
                ppd: sysfs::text_view(ppd),
            },
            ProfileStep::Delete { name } => ProfileStepView::Delete { name: name@ },
            ProfileStep::Show { name } => ProfileStepView::Show { name: name@ },
            ProfileStep::SyncSystem => ProfileStepView::SyncSystem,
            ProfileStep::List => ProfileStepView::List,
            ProfileStep::Apply { name } => ProfileStepView::Apply { name: name@ },
        }
    }
}

/// What the arguments of `profile` ask for: the first that is there of saving,
/// deleting, showing, copying, listing and applying.
pub open spec fn profile_step(args: ProfileArgs, is_root: bool, driver: bool) -> Result<
    ProfileStepView,
    Fault,
> {
    if args.save is Some {
        if is_root {
            Ok(
                ProfileStepView::Save {
                    name: args.save->0@,
                    ppd: sysfs::text_view(args.ppd),
                },
            )
        } else {
            Err(Fault::SaveNeedsRoot { name: args.save->0@ })
        }
    } else if args.delete is Some {
        Ok(ProfileStepView::Delete { name: args.delete->0@ })
    } else if args.show is Some {
        Ok(ProfileStepView::Show { name: args.show->0@ })
    } else if args.sync_system {
        if is_root {
            Ok(ProfileStepView::SyncSystem)
        } else {
            Err(Fault::SyncNeedsRoot)
        }
    } else if args.list {
        Ok(ProfileStepView::List)
    } else if args.name is None {
        Err(Fault::NoProfileChosen)
    } else {
        match hardware_fault(is_root, driver) {
            Some(f) => Err(f),
            None => Ok(ProfileStepView::Apply { name: args.name->0@ }),
        }
    }
}

pub fn run_profile(args: ProfileArgs, is_root: bool, driver: bool) -> (r: Result<
    ProfileStep,
    Error,
>)
    ensures
        match profile_step(args, is_root, driver) {
            Ok(step) => r is Ok && r->Ok_0@ == step,
            Err(f) => r is Err && r->Err_0@ == f,
        },
{
    if let Some(name) = args.save {
        if !is_root {
            return Err(Problem::SaveNeedsRoot { name });
        }
        return Ok(ProfileStep::Save { name, ppd: args.ppd });
    }
    if let Some(name) = args.delete {
        return Ok(ProfileStep::Delete { name });
    }
    if let Some(name) = args.show {
        return Ok(ProfileStep::Show { name });
    }
    if args.sync_system {
        if !is_root {
            return Err(Problem::SyncNeedsRoot);
        }
        return Ok(ProfileStep::SyncSystem);
    }
    if args.list {
        return Ok(ProfileStep::List);
    }
    match args.name {
        Some(name) => {
            require_hardware(is_root, driver)?;
            Ok(ProfileStep::Apply { name })
        },
        None => Err(Problem::NoProfileChosen),
    }
}

/// Saves the state of the hardware under `name`, mapped to a power profile where
/// one was given, and says what was done.
pub fn save_profile(
    profiles: &mut Profiles,
    name: &str,
    captured: Profile,
    ppd: Option<String>,
) -> (r: String)
    requires
        old(profiles).well_formed(),
    ensures
        final(profiles).well_formed(),
        final(profiles)@ == profile::with_entry(
            old(profiles)@,
            name@,
            ProfileView {
                ppd_profile: match ppd {
                    Some(p) => Some(p@),
                    None => captured@.ppd_profile,
                },
                ..captured@
            },
        ),
        r@ == (if profile::lookup(old(profiles)@, name@) is Some {
            "Updated"@
        } else {
            "Saved"@
        }) + " profile '"@ + name@ + "'"@,
{
    let mut saved: Profile = captured;
    if ppd.is_some() {
        saved.ppd_profile = ppd;
    }
    let replaced: bool = profiles.insert(name, saved);
    let verb: &str = if replaced {
        "Updated"
    } else {
        "Saved"
    };
    let mut r: String = text::concat3(verb, " profile '", name);
    r.append("'");
    r
}

/// Removes the profile named `name`; `path` is where the profiles come from.
pub fn delete_profile(profiles: &mut Profiles, name: &str, path: &str) -> (r: Result<String, Error>)
    requires
        old(profiles).well_formed(),
    ensures
        final(profiles).well_formed(),
        match profile::lookup(old(profiles)@, name@) {
            Some(_) => {
                &&& r matches Ok(message)
                &&& message@ == "Deleted profile '"@ + name@ + "'"@
                &&& final(profiles)@ == profile::without_entry(old(profiles)@, name@)
            },
            None => {
                &&& r is Err
                &&& r->Err_0@ == (Fault::ProfileNotFound { name: name@, path: path@ })
                &&& final(profiles)@ == old(profiles)@
            },
        },
{
    if profiles.get(name).is_none() {
        return Err(Problem::ProfileNotFound { name: name.to_owned(), path: path.to_owned() });
    }
    profiles.remove(name);
    Ok(text::concat3("Deleted profile '", name, "'"))
}

/// The profile named `name`; `path` is where the profiles come from.
pub fn find_profile<'a>(profiles: &'a Profiles, name: &str, path: &str) -> (r: Result<
    &'a Profile,
    Error,
>)
    requires
        profiles.well_formed(),
    ensures
        match profile::lookup(profiles@, name@) {
            Some(p) => r is Ok && r->Ok_0@ == p,
            None => r is Err && r->Err_0@ == (Fault::ProfileNotFound { name: name@, path: path@ }),
        },
{
    match profiles.get(name) {
        Some(p) => Ok(p),
        None => Err(Problem::ProfileNotFound { name: name.to_owned(), path: path.to_owned() }),
    }
}

/// The power profile to switch to, and what is printed when that was done.
#[derive(Debug)]
pub struct Switch {
    pub power: String,
    pub message: String,
}

/// What applying a profile takes: the values to write, what is printed once they
/// are, and then the power profile to switch to, if the profile maps to one.
#[derive(Debug)]
pub struct Applied {
    pub writes: Vec<Write>,
    pub message: String,
    pub switch: Option<Switch>,
}

/// Applies the profile named `name`, and follows it through to the system power
/// profile when the profile maps to one. `path` is where the profiles come from.
pub fn apply_profile(profiles: &Profiles, name: &str, path: &str) -> (r: Result<Applied, Error>)
    requires
        profiles.well_formed(),
    ensures
        match profile::lookup(profiles@, name@) {
            None => r is Err && r->Err_0@ == (Fault::ProfileNotFound { name: name@, path: path@ }),
            Some(p) => {
                &&& sysfs::reports(r, p.fault())
                &&& r matches Ok(applied) ==> {
                    &&& applied.writes@ == p.writes()
                    &&& applied.message@ == "Applied profile '"@ + name@ + "'"@
                    &&& match (p.ppd_profile, applied.switch) {
                        (Some(power), Some(switch)) => switch.power@ == power && switch.message@
                            == "Set power profile -> "@ + power,
                        (None, None) => true,
                        _ => false,
                    }
                }
            },
        },
{
    let found: &Profile = find_profile(profiles, name, path)?;
    let writes: Vec<Write> = found.apply()?;
    let switch: Option<Switch> = match &found.ppd_profile {
        Some(power) => {
            let mut message: String = "Set power profile -> ".to_owned();
            message.append(power.as_str());
            Some(Switch { power: power.clone(), message })
        },
        None => None,
    };
    Ok(Applied { writes, message: text::concat3("Applied profile '", name, "'"), switch })
}

/// The names of the profiles, or that there are none.
pub fn profile_list(profiles: &Profiles, path: &str) -> (r: Vec<String>)
    requires
        profiles.well_formed(),
    ensures
        text::views(r@) == if profiles@.len() == 0 {
            seq!["No profiles defined in "@ + path@]
        } else {
            profiles.names_view()
        },
{
    if profiles.is_empty() {
        let mut line: String = "No profiles defined in ".to_owned();
        line.append(path);
        let mut r: Vec<String> = Vec::new();
        text::push_text(&mut r, line.as_str());
        proof {
            assert(text::views(r@) =~= seq!["No profiles defined in "@ + path@]);
        }
        r
    } else {
        profiles.names()
    }
}

// --- Settings ---

/// Whether a setting may be changed: the system-wide ones only by root.
pub fn run_config_set(env: &Environment, key: &str, value: &str, system: bool, is_root: bool) -> (r:
    Result<(), Error>)
    ensures
        sysfs::reports(
            r,
            if system && !is_root {
                Some(
                    Fault::SetNeedsRoot {
                        path: crate::path::joined_path(
                            config::settings_dir(*env, true),
                            config::CONFIG_FILE@,
                        ),
                        key: key@,
                        value: value@,
                    },
                )
            } else {
                None
            },
        ),
{
    if system && !is_root {
        return Err(
            Problem::SetNeedsRoot {
                path: config::config_path(env, true),
                key: key.to_owned(),
                value: value.to_owned(),
            },
        );
    }
    Ok(())
}

/// What is printed when a setting was changed.
pub fn config_set_line(key: &str, value: &str, path: &str) -> (r: String)
    ensures
        r@ == key@ + " = "@ + value@ + " ("@ + path@ + ")"@,
{
    let mut r: String = text::concat5(key, " = ", value, " (", path);
    r.append(")");
    r
}

/// The keys that can be read and written, one per line.
pub fn config_keys() -> (r: Vec<String>)
    ensures
        text::views(r@) == error::name_views(Config::KEYS@),
{
    let mut r: Vec<String> = Vec::new();
    let keys: [&'static str; 9] = Config::KEYS;
    let mut i: usize = 0;
    let ghost all = error::name_views(Config::KEYS@);
    proof {
        assert(text::views(r@) =~= all.take(0));
    }
    while i < 9
        invariant
            i <= 9,
            keys == Config::KEYS,
            all == error::name_views(Config::KEYS@),
            all.len() == 9,
            text::views(r@) == all.take(i as int),
        decreases 9 - i,
    {
        text::push_text(&mut r, keys[i]);
        i = i + 1;
        proof {
            assert(all.take(i as int) =~= all.take(i - 1).push(all[i - 1]));
        }
    }
    proof {
        assert(all.take(i as int) =~= all);
    }
    r
}

// --- Service ---

/// How `sync` goes about its work.
#[derive(Clone, Copy, Debug, PartialEq, Eq, Structural)]
pub enum SyncPlan {
    /// Ask whether power-profiles-daemon is there, and go on with
    /// [`run_sync_once`].
    Once,
    /// Wait for power-profiles-daemon, and go on with [`run_sync`].
    Serve,
}

/// What `sync` does first, before it looks for power-profiles-daemon: it writes
/// to the hardware, so it takes root and the driver.
pub open spec fn sync_plan(is_root: bool, driver: bool, once: bool) -> Result<SyncPlan, Fault> {
    match hardware_fault(is_root, driver) {
        Some(f) => Err(f),
        None => Ok(
            if once {
                SyncPlan::Once
            } else {
                SyncPlan::Serve
            },
        ),
    }
}

pub fn plan_sync(is_root: bool, driver: bool, once: bool) -> (r: Result<SyncPlan, Error>)
    ensures
        sysfs::reports(r, hardware_fault(is_root, driver)),
        r matches Ok(plan) ==> sync_plan(is_root, driver, once) == Ok::<SyncPlan, Fault>(plan),
{
    require_hardware(is_root, driver)?;
    if once {
        Ok(SyncPlan::Once)
    } else {
        Ok(SyncPlan::Serve)
    }
}

/// What the long-running service does.
#[derive(Clone, Copy, Debug, PartialEq, Eq, Structural)]
pub enum Service {
    /// Raise temperature alerts only.
    Alerts,
    /// Follow the power profile, raising alerts alongside where `alerts` is set.
    Follow { alerts: bool },
}

/// Whether `sync --once` can do its work. Run by hand, so it reports a missing
/// power-profiles-daemon immediately rather than waiting one out.
pub fn run_sync_once(available: bool) -> (r: Result<(), Error>)
    ensures
        sysfs::reports(
            r,
            if available {
                None
            } else {
                Some(Fault::NoPowerProfiles)
            },
        ),
{
    if available {
        Ok(())
    } else {
        Err(Problem::NoPowerProfiles)
    }
}

/// What the service does, once it is known whether power-profiles-daemon is
/// there.
///
/// Alerts alone are a legitimate reason to run this service, so the daemon is
/// only required when there would otherwise be nothing to do. Alerts stay
/// opt-in.
pub fn run_sync(available: bool, notifications: &Notifications) -> (r: Result<Service, Error>)
    ensures
        if available {
            r == Ok::<Service, Error>(Service::Follow { alerts: notifications.enabled })
        } else if notifications.enabled {
            r == Ok::<Service, Error>(Service::Alerts)
        } else {
            r is Err && r->Err_0@ == Fault::NothingToServe
        },
{
    if available {
        Ok(Service::Follow { alerts: notifications.enabled })
    } else if notifications.enabled {
        Ok(Service::Alerts)
    } else {
        Err(Problem::NothingToServe)
    }
}

/// What a change of the power profile leads to.
#[derive(Debug)]
pub enum Mapped {
    /// Write these values, then print the message.
    Apply { name: String, writes: Vec<Write>, message: String },
    /// Print the message.
    Nothing { message: String },
}

/// A failure to apply the profile named `name`.
pub fn mapped_failure(name: &str, cause: Error) -> (r: Error)
    ensures
        r@ == (Fault::MappedProfile { name: name@, cause: error::fault_text(cause@) }),
{
    Problem::MappedProfile { name: name.to_owned(), cause: cause.message() }
}

/// Whether `name` is the alphabetically first profile that maps to `power`.
pub open spec fn first_mapped(
    entries: Seq<(Seq<char>, ProfileView)>,
    power: Seq<char>,
    name: Seq<char>,
) -> bool {
    &&& profile::lookup(entries, name) is Some
    &&& ppd::maps_to(profile::lookup(entries, name)->0, power)
    &&& forall|other: Seq<char>|
        (#[trigger] profile::lookup(entries, other)) is Some && ppd::maps_to(
            profile::lookup(entries, other)->0,
            power,
        ) && other != name ==> text::precedes(name, other)
}

/// Applies the saved profile mapped to `power_profile` (hardware only — it
/// deliberately does not touch the daemon, so there is no feedback loop).
pub fn apply_mapped_profile(profiles: &Profiles, power_profile: &str) -> (r: Result<Mapped, Error>)
    requires
        profiles.well_formed(),
    ensures
        match r {
            Ok(Mapped::Apply { name, writes, message }) => {
                &&& first_mapped(profiles@, power_profile@, name@)
                &&& profile::lookup(profiles@, name@)->0.fault() is None
                &&& writes@ == profile::lookup(profiles@, name@)->0.writes()
                &&& message@ == "Power profile '"@ + power_profile@
                    + "' -> applied gigabytectl profile '"@ + name@ + "'"@
            },
            Ok(Mapped::Nothing { message }) => {
                &&& forall|other: Seq<char>|
                    (#[trigger] profile::lookup(profiles@, other)) is Some ==> !ppd::maps_to(
                        profile::lookup(profiles@, other)->0,
                        power_profile@,
                    )
                &&& message@ == "Power profile '"@ + power_profile@
                    + "' has no mapped gigabytectl profile; nothing to apply"@
            },
            Err(e) => exists|name: Seq<char>|
                #![trigger first_mapped(profiles@, power_profile@, name)]
                {
                    &&& first_mapped(profiles@, power_profile@, name)
                    &&& profile::lookup(profiles@, name)->0.fault() matches Some(f) && e@ == (
                    Fault::MappedProfile { name, cause: error::fault_text(f) })
                },
        },
{
    match ppd::mapped_profile(profiles, power_profile) {
        Some((name, p)) => {
            proof {
                assert(first_mapped(profiles@, power_profile@, name@));
            }
            match p.apply() {
                Ok(writes) => {
                    let message: String = text::concat5(
                        "Power profile '",
                        power_profile,
                        "' -> applied gigabytectl profile '",
                        name.as_str(),
                        "'",
                    );
                    Ok(Mapped::Apply { name: name.clone(), writes, message })
                },
                Err(e) => Err(mapped_failure(name.as_str(), e)),
            }
        },
        None => Ok(
            Mapped::Nothing {
                message: text::concat3(
                    "Power profile '",
                    power_profile,
                    "' has no mapped gigabytectl profile; nothing to apply",
                ),
            },
        ),
    }
}

// --- Installing the service ---

pub const SERVICE_NAME: &'static str = "gigabytectl-ppd-sync.service";

pub const SERVICE_PATH: &'static str = "/etc/systemd/system/gigabytectl-ppd-sync.service";

/// Whether the sync service may be installed.
pub fn install_service(is_root: bool) -> (r: Result<(), Error>)
    ensures
        sysfs::reports(
            r,
            if is_root {
                None
            } else {
                Some(Fault::InstallNeedsRoot)
            },
        ),
{
    if is_root {
        Ok(())
    } else {
        Err(Problem::InstallNeedsRoot)
    }
}

/// What is said after the settings were copied to `path`. The thresholds are
/// given as rounded numbers.
pub fn seed_system_config(path: &str, enabled: bool, cpu_temp: &str, gpu_temp: &str) -> (r: Vec<
    String,
>)
    ensures
        text::views(r@) == seq!["Copied settings to "@ + path@] + if enabled {
            seq![
                "Temperature alerts are on: the service will notify logged-in desktops (CPU >= "@
                    + cpu_temp@ + "C, GPU >= "@ + gpu_temp@ + "C)."@,
            ]
        } else {
            seq![
                "Temperature alerts are off. Turn them on with:"@,
                "      gigabytectl config set notifications.enabled true"@,
                "      sudo systemctl restart "@ + SERVICE_NAME@,
            ]
        },
{
    let mut copied: String = "Copied settings to ".to_owned();
    copied.append(path);
    let mut r: Vec<String> = Vec::new();
    text::push_text(&mut r, copied.as_str());
    if enabled {
        let line: String = text::concat5(
            "Temperature alerts are on: the service will notify logged-in desktops (CPU >= ",
            cpu_temp,
            "C, GPU >= ",
            gpu_temp,
            "C).",
        );
        text::push_text(&mut r, line.as_str());
        proof {
            assert(text::views(r@) =~= seq!["Copied settings to "@ + path@] + seq![line@]);
        }
    } else {
        let mut restart: String = "      sudo systemctl restart ".to_owned();
        restart.append(SERVICE_NAME);
        text::push_text(&mut r, "Temperature alerts are off. Turn them on with:");
        text::push_text(&mut r, "      gigabytectl config set notifications.enabled true");
        text::push_text(&mut r, restart.as_str());
        proof {
            assert(text::views(r@) =~= seq!["Copied settings to "@ + path@] + seq![
                "Temperature alerts are off. Turn them on with:"@,
                "      gigabytectl config set notifications.enabled true"@,
                restart@,
            ]);
        }
    }
    r
}

/// What becomes of the system-wide profiles when the service is installed.
#[derive(Clone, Copy, Debug, PartialEq, Eq, Structural)]
pub enum Seed {
    /// The user's profiles are copied over them.
    Copy,
    /// There are none of the user's; those already there stay.
    Keep,
    /// There are none at all.
    Missing,
}

pub fn seed_system_profiles(readable: bool, exists_already: bool) -> (r: Seed)
    ensures
        r == if readable {
            Seed::Copy
        } else if exists_already {
            Seed::Keep
        } else {
            Seed::Missing
        },
{
    if readable {
        Seed::Copy
    } else if exists_already {
        Seed::Keep
    } else {
        Seed::Missing
    }
}

/// What is said about it.
pub fn seed_lines(seed: Seed, user: &str, system: &str) -> (r: Vec<String>)
    ensures
        text::views(r@) == match seed {
            Seed::Copy => seq!["Copied profiles: "@ + user@ + " -> "@ + system@],
            Seed::Keep => seq!["Keeping existing profiles at "@ + system@],
            Seed::Missing => seq![
                "Note: no profiles found at "@ + user@ + " yet."@,
                "      Save one with `sudo gigabytectl profile --save <name>`, then re-run `sudo gigabytectl install-service`"@,
                "      (or edit "@ + system@ + " directly)."@,
            ],
        },
{
    let mut r: Vec<String> = Vec::new();
    match seed {
        Seed::Copy => {
            let mut line: String = text::concat3("Copied profiles: ", user, " -> ");
            line.append(system);
            text::push_text(&mut r, line.as_str());
            proof {
                assert(text::views(r@) =~= seq![line@]);
            }
        },
        Seed::Keep => {
            let mut line: String = "Keeping existing profiles at ".to_owned();
            line.append(system);
            text::push_text(&mut r, line.as_str());
            proof {
                assert(text::views(r@) =~= seq![line@]);
            }
        },
        Seed::Missing => {
            text::push_text(
                &mut r,
                text::concat3("Note: no profiles found at ", user, " yet.").as_str(),
            );
            text::push_text(
                &mut r,
                "      Save one with `sudo gigabytectl profile --save <name>`, then re-run `sudo gigabytectl install-service`",
            );
            text::push_text(
                &mut r,
                text::concat3("      (or edit ", system, " directly).").as_str(),
            );
            proof {
                assert(text::views(r@) =~= seq![
                    "Note: no profiles found at "@ + user@ + " yet."@,
                    "      Save one with `sudo gigabytectl profile --save <name>`, then re-run `sudo gigabytectl install-service`"@,
                    "      (or edit "@ + system@ + " directly)."@,
                ]);
            }
        },
    }
    r
}

/// The unit up to the line that starts the program.
pub const UNIT_HEAD: &'static str =
    "[Unit]
Description=gigabytectl power-profiles-daemon sync and temperature alerts
Documentation=https://github.com/Code-Sapling/gigabytectl
# Apply the mapped gigabytectl profile whenever the system power profile changes,
# and raise temperature alerts when notifications are enabled in the config.
#
# Deliberately not ordered After=power-profiles-daemon.service: PPD's own unit is
# After=multi-user.target and this one is WantedBy=multi-user.target, so that
# ordering closes a cycle and systemd silently drops this unit's start job at
# boot. `gigabytectl sync` waits for PPD on the bus instead.
Wants=power-profiles-daemon.service

[Service]
Type=simple
# Adjust the path if you installed elsewhere (e.g. /usr/bin/gigabytectl).
# This runs as root, so it reads profiles and settings from /etc/gigabytectl
# (not any user's ~/.config). `gigabytectl install-service` sets this up for you.";

/// The unit behind the line that starts the program.
pub const UNIT_TAIL: &'static str =
    "Restart=on-failure
RestartSec=2

[Install]
# multi-user.target so temperature alerts still run on machines without
# power-profiles-daemon; the PPD unit so sync starts with it when it is there.
WantedBy=multi-user.target power-profiles-daemon.service
";

/// The unit that starts the program at `exe`.
pub open spec fn unit_text(exe: Seq<char>) -> Seq<char> {
    UNIT_HEAD@ + "\nExecStart="@ + exe + " sync\n"@ + UNIT_TAIL@
}

/// The systemd unit installed by `install-service`.
pub fn service_unit(exe: &str) -> (r: String)
    ensures
        r@ == unit_text(exe@),
{
    text::concat5(UNIT_HEAD, "\nExecStart=", exe, " sync\n", UNIT_TAIL)
}

// --- Laws ---

/// A command changes a node only to a value that the node takes.
pub proof fn law_commands_write_only_valid_values(command: Commands, config: Config)
    requires
        argument_fault(command) is None,
    ensures
        step_of(command, config) matches Step::Write { write, .. } ==> profile::fits(write),
{
}

/// The table stays rectangular: every row has the columns that the header names,
/// whichever fans were read for it.
pub proof fn law_csv_rows_match_the_header(
    channels: Seq<u32>,
    timestamp: u64,
    cpu: Seq<char>,
    gpu: Seq<char>,
    fans: Seq<FanView>,
)
    ensures
        header_columns(channels).len() == 3 + 2 * channels.len(),
        row_columns(timestamp, cpu, gpu, channels, fans).len() == header_columns(channels).len(),
    decreases channels.len(),
{
    if channels.len() > 0 {
        law_csv_rows_match_the_header(channels.drop_last(), timestamp, cpu, gpu, fans);
    }
}

proof fn lemma_digits_hold_no_comma(n: nat, i: int)
    requires
        0 <= i < text::decimal(n).len(),
    ensures
        text::decimal(n)[i] != ',',
{
    text::lemma_decimal_shape(n);
}

/// Two columns belong to each channel: in the header they bear its number, in a
/// row they hold the speed and the duty cycle of its fan. Both are empty where
/// there is no such fan, the second where its duty cycle is unknown.
pub proof fn law_csv_columns_belong_to_channels(
    channels: Seq<u32>,
    timestamp: u64,
    cpu: Seq<char>,
    gpu: Seq<char>,
    fans: Seq<FanView>,
    k: int,
)
    requires
        0 <= k < channels.len(),
    ensures
        ({
            let header = header_columns(channels);
            let row = row_columns(timestamp, cpu, gpu, channels, fans);
            let fan = fan_of(fans, channels[k]);
            &&& header[3 + 2 * k] == "fan"@ + text::decimal(channels[k] as nat) + "_rpm"@
            &&& header[4 + 2 * k] == "fan"@ + text::decimal(channels[k] as nat) + "_pwm"@
            &&& row[3 + 2 * k] == match fan {
                Some(f) => text::decimal(f.rpm as nat),
                None => ""@,
            }
            &&& row[4 + 2 * k] == match fan {
                Some(f) => match f.pwm {
                    Some(pwm) => text::decimal(pwm as nat),
                    None => ""@,
                },
                None => ""@,
            }
        }),
    decreases channels.len(),
{
    let front = channels.drop_last();
    law_csv_rows_match_the_header(front, timestamp, cpu, gpu, fans);
    if k < front.len() {
        law_csv_columns_belong_to_channels(front, timestamp, cpu, gpu, fans, k);
    }
}

/// The fan of a channel is the first that is on it; there is none where no fan
/// is.
pub proof fn law_the_first_fan_of_a_channel_counts(fans: Seq<FanView>, channel: u32)
    ensures
        match fan_of(fans, channel) {
            Some(fan) => exists|i: int|
                {
                    &&& 0 <= i < fans.len()
                    &&& #[trigger] fans[i] == fan
                    &&& fan.channel == channel
                    &&& forall|j: int| 0 <= j < i ==> (#[trigger] fans[j]).channel != channel
                },
            None => forall|i: int| 0 <= i < fans.len() ==> (#[trigger] fans[i]).channel != channel,
        },
    decreases fans.len(),
{
    if fans.len() > 0 && fans[0].channel != channel {
        let rest = fans.skip(1);
        law_the_first_fan_of_a_channel_counts(rest, channel);
        assert(forall|i: int| 0 < i < fans.len() ==> #[trigger] fans[i] == rest[i - 1]);
        if fan_of(fans, channel) is Some {
            let fan = fan_of(fans, channel)->0;
            let i = choose|i: int|
                {
                    &&& 0 <= i < rest.len()
                    &&& #[trigger] rest[i] == fan
                    &&& fan.channel == channel
                    &&& forall|j: int| 0 <= j < i ==> (#[trigger] rest[j]).channel != channel
                };
            assert(fans[i + 1] == fan);
        }
    }
}

/// A fan on a channel that has no columns does not show in a row.
pub proof fn law_csv_rows_leave_other_fans_out(
    channels: Seq<u32>,
    timestamp: u64,
    cpu: Seq<char>,
    gpu: Seq<char>,
    fans: Seq<FanView>,
    i: int,
)
    requires
        0 <= i < fans.len(),
        !channels.contains(fans[i].channel),
    ensures
        row_columns(timestamp, cpu, gpu, channels, fans) == row_columns(
            timestamp,
            cpu,
            gpu,
            channels,
            fans.remove(i),
        ),
    decreases channels.len(),
{
    if channels.len() > 0 {
        let front = channels.drop_last();
        assert(channels[channels.len() - 1] == channels.last());
        assert(forall|k: int| 0 <= k < front.len() ==> #[trigger] front[k] == channels[k]);
        law_csv_rows_leave_other_fans_out(front, timestamp, cpu, gpu, fans, i);
        lemma_other_fans_do_not_count(fans, channels.last(), i);
    }
}

proof fn lemma_other_fans_do_not_count(fans: Seq<FanView>, channel: u32, i: int)
    requires
        0 <= i < fans.len(),
        fans[i].channel != channel,
    ensures
        fan_of(fans.remove(i), channel) == fan_of(fans, channel),
    decreases fans.len(),
{
    if i == 0 {
        assert(fans.remove(0) =~= fans.skip(1));
    } else {
        lemma_other_fans_do_not_count(fans.skip(1), channel, i - 1);
        assert(fans.remove(i).skip(1) =~= fans.skip(1).remove(i - 1));
    }
}

/// The header reads back as the names of its columns, and so does a row as its
/// cells, where the temperatures hold no comma.
pub proof fn law_csv_rows_read_back(
    channels: Seq<u32>,
    timestamp: u64,
    cpu: Seq<char>,
    gpu: Seq<char>,
    fans: Seq<FanView>,
)
    requires
        !cpu.contains(','),
        !gpu.contains(','),
    ensures
        text::pieces(text::joined(header_columns(channels), ","@), Cut::At(',')) == header_columns(
            channels,
        ),
        text::pieces(
            text::joined(row_columns(timestamp, cpu, gpu, channels, fans), ","@),
            Cut::At(','),
        ) == row_columns(timestamp, cpu, gpu, channels, fans),
{
    let names = header_columns(channels);
    let cells = row_columns(timestamp, cpu, gpu, channels, fans);
    law_csv_rows_match_the_header(channels, timestamp, cpu, gpu, fans);
    reveal_strlit(",");
    assert(","@ =~= seq![',']);
    assert forall|i: int, j: int|
        0 <= i < cells.len() && 0 <= j < cells[i].len() implies #[trigger] cells[i][j] != ',' by {
        lemma_cells_hold_no_comma(channels, timestamp, cpu, gpu, fans, i, j);
    }
    text::law_joined_texts_split_again(cells, ',');
    assert forall|i: int, j: int|
        0 <= i < names.len() && 0 <= j < names[i].len() implies #[trigger] names[i][j] != ',' by {
        lemma_column_names_hold_no_comma(channels, i, j);
    }
    text::law_joined_texts_split_again(names, ',');
}

proof fn lemma_column_names_hold_no_comma(channels: Seq<u32>, i: int, j: int)
    requires
        0 <= i < header_columns(channels).len(),
        0 <= j < header_columns(channels)[i].len(),
    ensures
        header_columns(channels)[i][j] != ',',
    decreases channels.len(),
{
    reveal_strlit("timestamp");
    reveal_strlit("cpu_temp");
    reveal_strlit("gpu_temp");
    reveal_strlit("fan");
    reveal_strlit("_rpm");
    reveal_strlit("_pwm");
    if channels.len() > 0 {
        let names = header_columns(channels);
        let number = text::decimal(channels.last() as nat);
        if i < names.len() - 2 {
            lemma_column_names_hold_no_comma(channels.drop_last(), i, j);
        } else if 3 <= j < 3 + number.len() {
            lemma_digits_hold_no_comma(channels.last() as nat, j - 3);
            assert(names[i][j] == number[j - 3]);
        }
    }
}

proof fn lemma_cells_hold_no_comma(
    channels: Seq<u32>,
    timestamp: u64,
    cpu: Seq<char>,
    gpu: Seq<char>,
    fans: Seq<FanView>,
    i: int,
    j: int,
)
    requires
        !cpu.contains(','),
        !gpu.contains(','),
        0 <= i < row_columns(timestamp, cpu, gpu, channels, fans).len(),
        0 <= j < row_columns(timestamp, cpu, gpu, channels, fans)[i].len(),
    ensures
        row_columns(timestamp, cpu, gpu, channels, fans)[i][j] != ',',
    decreases channels.len(),
{
    let cells = row_columns(timestamp, cpu, gpu, channels, fans);
    reveal_strlit("");
    if channels.len() == 0 {
        if i == 0 {
            lemma_digits_hold_no_comma(timestamp as nat, j);
        }
    } else {
        let front = channels.drop_last();
        law_csv_rows_match_the_header(front, timestamp, cpu, gpu, fans);
        law_csv_rows_match_the_header(channels, timestamp, cpu, gpu, fans);
        let fan = fan_of(fans, channels.last());
        if i < cells.len() - 2 {
            lemma_cells_hold_no_comma(front, timestamp, cpu, gpu, fans, i, j);
        } else if i == cells.len() - 2 {
            assert(cells[i] == rpm_cell(fan));
            lemma_digits_hold_no_comma(fan->0.rpm as nat, j);
        } else {
            assert(cells[i] == pwm_cell(fan));
            lemma_digits_hold_no_comma(fan->0.pwm->0 as nat, j);
        }
    }
}

/// The columns of the table are those of its first sample, whatever fans come
/// and go later.
pub proof fn law_csv_columns_are_fixed_by_the_first_sample(
    first: Monitor,
    next: Monitor,
    fans: Seq<FanView>,
    later: Seq<FanView>,
)
    requires
        first.format is Csv,
        next.csv_channels matches Some(channels) && channels@ == first.columns(fans),
    ensures
        next.columns(later) == first.columns(fans),
{
}

/// The codes of the modes and switches are the ones that their names stand for.
pub proof fn law_words_and_codes_agree()
    ensures
        forall|mode: FanModeArg| #[trigger]
            sysfs::FAN_MODES@[fan_mode_code(mode) as int]@ == match mode {
                FanModeArg::Normal => "Normal"@,
                FanModeArg::Silent => "Silent"@,
                FanModeArg::Gaming => "Gaming"@,
                FanModeArg::Custom => "Custom"@,
                FanModeArg::Auto => "Auto"@,
                FanModeArg::Fixed => "Fixed"@,
            },
        forall|mode: ChargeModeArg| #[trigger]
            sysfs::CHARGE_MODES@[charge_mode_code(mode) as int]@ == match mode {
                ChargeModeArg::Normal => "Normal"@,
                ChargeModeArg::Custom => "Custom"@,
            },
        sysfs::boost_text(Some(switch_code(OnOff::On))) == "ON"@,
        sysfs::boost_text(Some(switch_code(OnOff::Off))) == "OFF"@,
{
}

/// What only reads sensors and settings, or looks for an update, needs neither
/// root nor the driver.
pub proof fn law_reading_sensors_and_settings_needs_no_root(command: Commands)
    requires
        command is Monitor || command is Doctor || command is Config || command is Completions || (
        command matches Commands::Manage { action } && action is Update),
    ensures
        !command.touches_hardware(),
        argument_fault(command) is None,
{
}

/// Listing the profiles needs neither root nor the driver.
pub proof fn law_listing_profiles_needs_no_root(args: ProfileArgs, is_root: bool, driver: bool)
    requires
        args.list,
        args.save is None,
        args.delete is None,
        args.show is None,
        !args.sync_system,
    ensures
        profile_step(args, is_root, driver) == Ok::<ProfileStepView, Fault>(ProfileStepView::List),
{
}

/// Without root no command gets to change the hardware, nor to read it for a
/// profile; the service does not even start.
pub proof fn law_the_hardware_needs_root(
    command: Commands,
    config: Config,
    args: ProfileArgs,
    once: bool,
    driver: bool,
)
    ensures
        sync_plan(false, driver, once) == Err::<SyncPlan, Fault>(Fault::NotRoot),
        hardware_fault(false, driver) is Some,
        step_of(command, config) is Write || step_of(command, config) is FanCurve
            ==> command.touches_hardware(),
        profile_step(args, false, driver) matches Ok(step) ==> !(step is Save) && !(step is Apply)
            && !(step is SyncSystem),
{
}

/// Setting the fan mode takes one write, of the number that its name stands for;
/// it goes to the node that getting the fan mode reads, and what was written is
/// then shown by that name.
pub proof fn law_a_fan_mode_that_was_set_is_shown(
    mode: FanModeArg,
    config: Config,
    put: Result<Step, Error>,
    get: Result<Step, Error>,
    line: &str,
    shown: String,
)
    requires
        call_ensures(
            run,
            ((Commands::FanMode { action: FanModeAction::Put { mode } }), &config, true, true),
            put,
        ),
        call_ensures(
            run,
            ((Commands::FanMode { action: FanModeAction::Get }), &config, true, true),
            get,
        ),
        put matches Ok(Step::Write { write, .. }) ==> line@ == text::decimal_int(
            write.value as int,
        ) + "\n"@,
        get matches Ok(Step::Show(reading)) ==> call_ensures(
            Reading::show,
            (reading, Some(line)),
            shown,
        ),
    ensures
        put matches Ok(Step::Write { write, .. }) && write.path == sysfs::FAN_MODE,
        get matches Ok(Step::Show(reading)) && reading.node() == sysfs::FAN_MODE@,
        shown@ == text::lowered(
            match mode {
                FanModeArg::Normal => "Normal"@,
                FanModeArg::Silent => "Silent"@,
                FanModeArg::Gaming => "Gaming"@,
                FanModeArg::Custom => "Custom"@,
                FanModeArg::Auto => "Auto"@,
                FanModeArg::Fixed => "Fixed"@,
            },
        ),
{
    sysfs::law_a_written_value_reads_back(fan_mode_code(mode));
}

/// The same for the charging mode.
pub proof fn law_a_charge_mode_that_was_set_is_shown(
    mode: ChargeModeArg,
    config: Config,
    put: Result<Step, Error>,
    get: Result<Step, Error>,
    line: &str,
    shown: String,
)
    requires
        call_ensures(
            run,
            ((Commands::ChargeMode { action: ChargeModeAction::Put { mode } }), &config, true, true),
            put,
        ),
        call_ensures(
            run,
            ((Commands::ChargeMode { action: ChargeModeAction::Get }), &config, true, true),
            get,
        ),
        put matches Ok(Step::Write { write, .. }) ==> line@ == text::decimal_int(
            write.value as int,
        ) + "\n"@,
        get matches Ok(Step::Show(reading)) ==> call_ensures(
            Reading::show,
            (reading, Some(line)),
            shown,
        ),
    ensures
        put matches Ok(Step::Write { write, .. }) && write.path == sysfs::CHARGE_MODE,
        get matches Ok(Step::Show(reading)) && reading.node() == sysfs::CHARGE_MODE@,
        shown@ == text::lowered(
            match mode {
                ChargeModeArg::Normal => "Normal"@,
                ChargeModeArg::Custom => "Custom"@,
            },
        ),
{
    sysfs::law_a_written_value_reads_back(charge_mode_code(mode));
}

/// The same for GPU boost.
pub proof fn law_a_boost_that_was_set_is_shown(
    state: OnOff,
    config: Config,
    put: Result<Step, Error>,
    get: Result<Step, Error>,
    line: &str,
    shown: String,
)
    requires
        call_ensures(
            run,
            ((Commands::GpuBoost { action: OnOffAction::Put { state } }), &config, true, true),
            put,
        ),
        call_ensures(
            run,
            ((Commands::GpuBoost { action: OnOffAction::Get }), &config, true, true),
            get,
        ),
        put matches Ok(Step::Write { write, .. }) ==> line@ == text::decimal_int(
            write.value as int,
        ) + "\n"@,
        get matches Ok(Step::Show(reading)) ==> call_ensures(
            Reading::show,
            (reading, Some(line)),
            shown,
        ),
    ensures
        put matches Ok(Step::Write { write, .. }) && write.path == sysfs::GPU_BOOST && write.value
            == match state {
            OnOff::On => 1i32,
            OnOff::Off => 0i32,
        },
        get matches Ok(Step::Show(reading)) && reading.node() == sysfs::GPU_BOOST@,
        shown@ == text::lowered(
            match state {
                OnOff::On => "ON"@,
                OnOff::Off => "OFF"@,
            },
        ),
{
    sysfs::law_a_written_value_reads_back(switch_code(state));
}

/// Setting the charge limit takes one write, of the limit itself, from 60 to 100;
/// any other is refused. It goes to the node that getting the limit reads, and
/// what was written is then shown. A limit that the charging mode ignores is
/// warned of.
pub proof fn law_a_charge_limit_that_was_set_is_shown(
    value: i32,
    config: Config,
    put: Result<Step, Error>,
    get: Result<Step, Error>,
    line: &str,
    shown: String,
)
    requires
        call_ensures(
            run,
            ((Commands::ChargeLimit { action: ValueAction::Put { value } }), &config, true, true),
            put,
        ),
        call_ensures(
            run,
            ((Commands::ChargeLimit { action: ValueAction::Get }), &config, true, true),
            get,
        ),
        line@ == text::decimal_int(value as int) + "\n"@,
        get matches Ok(Step::Show(reading)) ==> call_ensures(
            Reading::show,
            (reading, Some(line)),
            shown,
        ),
    ensures
        put is Ok <==> 60 <= value <= 100,
        put matches Ok(step) ==> (step matches Step::Write { write, warn } && write == (Write {
            path: sysfs::CHARGE_LIMIT,
            value,
        }) && warn == Some(Dependent::ChargeLimit)),
        get matches Ok(Step::Show(reading)) && reading.node() == sysfs::CHARGE_LIMIT@,
        shown@ == text::decimal_int(value as int),
{
    sysfs::law_a_written_value_reads_back(value);
}

/// The same for the custom fan speed, from 0 to 255.
pub proof fn law_a_fan_speed_that_was_set_is_shown(
    value: i32,
    config: Config,
    put: Result<Step, Error>,
    get: Result<Step, Error>,
    line: &str,
    shown: String,
)
    requires
        call_ensures(
            run,
            ((Commands::FanSpeed { action: ValueAction::Put { value } }), &config, true, true),
            put,
        ),
        call_ensures(
            run,
            ((Commands::FanSpeed { action: ValueAction::Get }), &config, true, true),
            get,
        ),
        line@ == text::decimal_int(value as int) + "\n"@,
        get matches Ok(Step::Show(reading)) ==> call_ensures(
            Reading::show,
            (reading, Some(line)),
            shown,
        ),
    ensures
        put is Ok <==> 0 <= value <= 255,
        put matches Ok(step) ==> (step matches Step::Write { write, warn } && write == (Write {
            path: sysfs::FAN_CUSTOM_SPEED,
            value,
        }) && warn == Some(Dependent::FanCustomSpeed)),
        get matches Ok(Step::Show(reading)) && reading.node() == sysfs::FAN_CUSTOM_SPEED@,
        shown@ == text::decimal_int(value as int),
{
    sysfs::law_a_written_value_reads_back(value);
}

/// What can only be read is read from its own node, and a duty is shown as the
/// number in the node.
pub proof fn law_readings_come_from_their_own_nodes(
    config: Config,
    cycle: Result<Step, Error>,
    light: Result<Step, Error>,
    duty: Result<Step, Error>,
    n: i32,
)
    requires
        call_ensures(run, (Commands::BatteryCycle, &config, true, true), cycle),
        call_ensures(run, (Commands::LightSensor, &config, true, true), light),
        call_ensures(run, (Commands::FanPwm, &config, true, true), duty),
    ensures
        cycle matches Ok(Step::Show(reading)) && reading.node() == sysfs::BATTERY_CYCLE@,
        light matches Ok(Step::Show(reading)) && reading.node() == sysfs::LIGHT_SENSOR@,
        duty matches Ok(Step::Show(reading)) && reading.node() == sysfs::FAN_PWM@
            && reading.printed(Some(text::decimal_int(n as int) + "\n"@)) == text::decimal_int(
            n as int,
        ),
{
    sysfs::law_a_written_value_reads_back(n);
}

/// The node that is read is the one that is meant.
pub proof fn law_a_reading_names_its_node(reading: Reading, path: &'static str)
    requires
        call_ensures(Reading::path, (reading,), path),
    ensures
        path@ == match reading {
            Reading::FanMode => sysfs::FAN_MODE@,
            Reading::FanSpeed => sysfs::FAN_CUSTOM_SPEED@,
            Reading::ChargeMode => sysfs::CHARGE_MODE@,
            Reading::ChargeLimit => sysfs::CHARGE_LIMIT@,
            Reading::GpuBoost => sysfs::GPU_BOOST@,
            Reading::BatteryCycle => sysfs::BATTERY_CYCLE@,
            Reading::LightSensor => sysfs::LIGHT_SENSOR@,
            Reading::FanPwm => sysfs::FAN_PWM@,
        },
{
}

/// Whatever reads or writes the driver's nodes is refused without root, and with
/// root where the driver is missing; what does not is never refused for that.
pub proof fn law_the_driver_takes_root(
    command: Commands,
    config: Config,
    is_root: bool,
    driver: bool,
    r: Result<Step, Error>,
)
    requires
        call_ensures(run, (command, &config, is_root, driver), r),
    ensures
        ({
            let hardware = {
                ||| command is Status || command is FanMode || command is FanSpeed
                ||| command is ChargeMode || command is ChargeLimit || command is GpuBoost
                ||| command is BatteryCycle || command is LightSensor || command is FanPwm
                ||| command is Fans || command is FanCurve
            };
            &&& hardware && !is_root ==> r is Err && r->Err_0@ == Fault::NotRoot
            &&& hardware && is_root && !driver ==> r is Err && r->Err_0@ == Fault::DriverMissing
            &&& !hardware ==> r is Ok
            &&& hardware && is_root && driver && !(command is FanSpeed) && !(
            command is ChargeLimit) ==> r is Ok
        }),
{
}

/// Samples are a tenth of a second apart at least; an interval that was given
/// counts from there on, and where none was it is the one in the settings. The
/// number of samples is handed on, and the format is the one that was asked for.
pub proof fn law_samples_keep_their_distance(
    interval: Option<u128>,
    json: bool,
    csv: bool,
    count: Option<u64>,
    config: Config,
    r: Result<Step, Error>,
)
    requires
        call_ensures(
            run,
            ((Commands::Monitor { interval, json, csv, count }), &config, false, false),
            r,
        ),
    ensures
        r is Ok,
        r->Ok_0 matches Step::Monitor { period, format, count: n } && {
            &&& period >= 100_000_000
            &&& interval matches Some(nanos) ==> (nanos >= 100_000_000 ==> period == nanos) && (nanos
                < 100_000_000 ==> period == 100_000_000)
            &&& interval is None ==> (config.refresh_interval_ms >= 100 ==> period
                == config.refresh_interval_ms * 1_000_000) && (config.refresh_interval_ms < 100
                ==> period == 100_000_000)
            &&& json ==> format is Json
            &&& !json && csv ==> format is Csv
            &&& !json && !csv ==> format is Text
            &&& n == count
        },
{
}

/// As many samples are taken as were asked for, without an end where no number
/// was given; there is a wait before each but the first.
pub proof fn law_the_right_number_of_samples_is_taken(monitor: Monitor, r: MonitorStep)
    requires
        call_ensures(Monitor::next, (&monitor,), r),
    ensures
        monitor.count is None ==> !(r is Stop),
        monitor.count matches Some(n) ==> (r is Stop <==> monitor.taken >= n),
        r matches MonitorStep::Take { wait } ==> (wait <==> monitor.taken > 0),
{
}

/// A point of the curve that is set by force is selected and written as it is;
/// otherwise the curve is read first, to check the point against it.
pub proof fn law_a_point_is_set_where_it_was_asked_for(
    index: usize,
    temp: i32,
    speed: i32,
    forced: Result<CurveStep, Error>,
    careful: Result<CurveStep, Error>,
)
    requires
        call_ensures(
            run_fan_curve,
            ((FanCurveAction::Put { index, temp, speed, force: true }),),
            forced,
        ),
        call_ensures(
            run_fan_curve,
            ((FanCurveAction::Put { index, temp, speed, force: false }),),
            careful,
        ),
    ensures
        forced is Ok <==> index < 15 && 0 <= temp <= 100 && 0 <= speed <= 255,
        forced matches Ok(step) ==> (step matches CurveStep::Write(writes) && {
            &&& writes@.len() == 2
            &&& writes@[0] == (Write { path: sysfs::FAN_CURVE_INDEX, value: index as i32 })
            &&& writes@[1].path == sysfs::FAN_CURVE_DATA
            &&& writes@[1].value == speed * 256 + temp
        }),
        careful is Ok <==> index < 15,
        careful matches Ok(step) ==> step == (CurveStep::Check { index, temp, speed }),
{
}

/// A point is set in a curve that never falls exactly when the curve still never
/// falls with it; it is then selected and written.
pub proof fn law_a_checked_point_keeps_the_curve_rising(
    curve: &[(i32, i32)],
    index: usize,
    temp: i32,
    speed: i32,
    r: Result<Vec<Write>, Error>,
)
    requires
        call_ensures(checked_curve_writes, (curve, index, temp, speed), r),
        curve@.len() == 15,
        index < 15,
        forall|i: int|
            0 <= i < 15 ==> 0 <= (#[trigger] curve@[i]).0 <= 100 && 0 <= curve@[i].1 <= 255,
        forall|i: int, j: int|
            0 <= i < j < 15 ==> (#[trigger] curve@[i]).0 <= (#[trigger] curve@[j]).0 && curve@[i].1
                <= curve@[j].1,
    ensures
        ({
            let edited = curve@.update(index as int, (temp, speed));
            r is Ok <==> {
                &&& forall|i: int|
                    0 <= i < 15 ==> 0 <= (#[trigger] edited[i]).0 <= 100 && 0 <= edited[i].1 <= 255
                &&& forall|i: int, j: int|
                    0 <= i < j < 15 ==> (#[trigger] edited[i]).0 <= (#[trigger] edited[j]).0
                        && edited[i].1 <= edited[j].1
            }
        }),
        r matches Ok(writes) ==> {
            &&& writes@.len() == 2
            &&& writes@[0] == (Write { path: sysfs::FAN_CURVE_INDEX, value: index as i32 })
            &&& writes@[1].path == sysfs::FAN_CURVE_DATA
            &&& writes@[1].value == speed * 256 + temp
        },
{
    let edited = curve@.update(index as int, (temp, speed));
    assert(sysfs::sound_curve(curve@));
    sysfs::law_accepted_edits_keep_the_curve_sound(curve@, index, temp, speed);
    assert(edited.len() == 15);
}

/// Each point of the curve is printed with its place, and one alone on request.
pub proof fn law_points_are_printed_with_their_place(
    index: Option<usize>,
    curve: &[(i32, i32)],
    r: Result<Vec<String>, Error>,
    k: int,
)
    requires
        call_ensures(fan_curve_lines, (index, curve), r),
        curve@.len() == 15,
        0 <= k < 15,
    ensures
        ({
            let line = text::decimal(k as nat) + " "@ + text::decimal_int(curve@[k].0 as int)
                + " "@ + text::decimal_int(curve@[k].1 as int);
            &&& index is None ==> (r matches Ok(lines) && lines@.len() == 15 && lines@[k]@ == line)
            &&& index == Some(k as usize) ==> (r matches Ok(lines) && lines@.len() == 1
                && lines@[0]@ == line)
            &&& index matches Some(i) ==> (i >= 15 ==> r is Err)
        }),
{
    if r is Ok {
        let lines = text::views(r->Ok_0@);
        assert(lines.len() == r->Ok_0@.len());
        if index is None {
            assert(lines[k] == r->Ok_0@[k]@);
        }
        if index == Some(k as usize) {
            assert(lines[0] == r->Ok_0@[0]@);
        }
    }
}

/// Of what the arguments of `profile` ask for, saving goes before deleting,
/// deleting before showing, showing before copying, copying before listing, and
/// listing before applying; each concerns the profile that was named for it.
pub proof fn law_one_thing_is_done_at_a_time(
    args: ProfileArgs,
    r: Result<ProfileStep, Error>,
)
    requires
        call_ensures(run_profile, (args, true, true), r),
    ensures
        args.save matches Some(name) ==> (r matches Ok(ProfileStep::Save { name: n, ppd }) && n@
            == name@ && sysfs::text_view(ppd) == sysfs::text_view(args.ppd)),
        args.save is None ==> (args.delete matches Some(name) ==> (r matches Ok(
            ProfileStep::Delete { name: n },
        ) && n@ == name@)),
        args.save is None && args.delete is None ==> (args.show matches Some(name) ==> (r matches Ok(
            ProfileStep::Show { name: n },
        ) && n@ == name@)),
        args.save is None && args.delete is None && args.show is None && args.sync_system
            ==> r matches Ok(ProfileStep::SyncSystem),
        args.save is None && args.delete is None && args.show is None && !args.sync_system
            && args.list ==> r matches Ok(ProfileStep::List),
        args.save is None && args.delete is None && args.show is None && !args.sync_system
            && !args.list ==> {
            &&& args.name is None ==> r is Err
            &&& args.name matches Some(name) ==> (r matches Ok(ProfileStep::Apply { name: n })
                && n@ == name@)
        },
{
}

/// Saving the hardware's state keeps it under its name, with the power profile
/// that was given, or else the one that was read; it is called an update where
/// the name was taken. The profiles of other names stay.
pub proof fn law_a_saved_profile_can_be_found(
    profiles: &mut Profiles,
    name: &str,
    captured: Profile,
    ppd: Option<String>,
    r: String,
    other: Seq<char>,
)
    requires
        call_ensures(save_profile, (profiles, name, captured, ppd), r),
        old(profiles).well_formed(),
    ensures
        ({
            let saved = profile::lookup(final(profiles)@, name@);
            &&& saved is Some
            &&& saved->0.ppd_profile == match ppd {
                Some(power) => Some(power@),
                None => sysfs::text_view(captured.ppd_profile),
            }
            &&& saved->0.fan_mode == captured@.fan_mode
            &&& saved->0.fan_custom_speed == captured@.fan_custom_speed
            &&& saved->0.charge_mode == captured@.charge_mode
            &&& saved->0.charge_limit == captured@.charge_limit
            &&& saved->0.gpu_boost == captured@.gpu_boost
            &&& saved->0.fan_curve == captured@.fan_curve
        }),
        other != name@ ==> profile::lookup(final(profiles)@, other) == profile::lookup(
            old(profiles)@,
            other,
        ),
        r@ == if profile::lookup(old(profiles)@, name@) is Some {
            "Updated"@ + " profile '"@ + name@ + "'"@
        } else {
            "Saved"@ + " profile '"@ + name@ + "'"@
        },
{
    let saved = ProfileView {
        ppd_profile: match ppd {
            Some(p) => Some(p@),
            None => captured@.ppd_profile,
        },
        ..captured@
    };
    profile::lemma_lookup_with(old(profiles)@, name@, saved, name@);
    profile::lemma_lookup_with(old(profiles)@, name@, saved, other);
}

/// Deleting a profile takes it away and leaves the others; where there is none of
/// the name it is refused and nothing changes.
pub proof fn law_a_deleted_profile_is_gone(
    profiles: &mut Profiles,
    name: &str,
    path: &str,
    r: Result<String, Error>,
    other: Seq<char>,
)
    requires
        call_ensures(delete_profile, (profiles, name, path), r),
        old(profiles).well_formed(),
    ensures
        r is Ok <==> profile::lookup(old(profiles)@, name@) is Some,
        profile::lookup(final(profiles)@, name@) is None,
        other != name@ ==> profile::lookup(final(profiles)@, other) == profile::lookup(
            old(profiles)@,
            other,
        ),
{
    profile::lemma_lookup_without(old(profiles)@, name@, name@);
    profile::lemma_lookup_without(old(profiles)@, name@, other);
}

/// Applying a profile by its name does what applying that profile does, and then
/// switches to the power profile that it names, if it names one; without such a
/// profile, or with one that is not sound, nothing is done.
pub proof fn law_the_named_profile_is_applied(
    profiles: Profiles,
    name: &str,
    path: &str,
    r: Result<Applied, Error>,
    profile: Profile,
    alone: Result<Vec<Write>, Error>,
)
    requires
        call_ensures(apply_profile, (&profiles, name, path), r),
        call_ensures(Profile::apply, (&profile,), alone),
        profiles.well_formed(),
        profile::lookup(profiles@, name@) == Some(profile@),
    ensures
        r is Ok <==> alone is Ok,
        r matches Ok(applied) ==> {
            &&& applied.writes@ == alone->Ok_0@
            &&& profile.ppd_profile is None ==> applied.switch is None
            &&& profile.ppd_profile matches Some(power) ==> (applied.switch matches Some(switch)
                && switch.power@ == power@)
        },
{
}

/// A name without a profile is not applied.
pub proof fn law_an_unknown_profile_is_not_applied(
    profiles: Profiles,
    name: &str,
    path: &str,
    r: Result<Applied, Error>,
)
    requires
        call_ensures(apply_profile, (&profiles, name, path), r),
        profiles.well_formed(),
        forall|i: int| 0 <= i < profiles@.len() ==> (#[trigger] profiles@[i]).0 != name@,
    ensures
        r is Err,
{
    profile::lemma_lookup_in(profiles@, name@);
}

/// When the power profile changes, the first profile that names it is applied,
/// and nothing where there is none.
pub proof fn law_the_mapped_profile_is_applied(
    profiles: &Profiles,
    power: &str,
    r: Result<Mapped, Error>,
    i: int,
)
    requires
        call_ensures(apply_mapped_profile, (profiles, power), r),
        profiles.well_formed(),
    ensures
        r matches Ok(Mapped::Apply { name, writes, .. }) ==> exists|k: int|
            {
                &&& 0 <= k < profiles@.len()
                &&& (#[trigger] profiles@[k]).0 == name@
                &&& profiles@[k].1.ppd_profile is Some
                &&& text::lowered(profiles@[k].1.ppd_profile->0) == text::lowered(power@)
                &&& writes@ == profiles@[k].1.writes()
                &&& profiles@[k].1.fault() is None
            },
        r is Err ==> exists|k: int|
            {
                &&& 0 <= k < profiles@.len()
                &&& (#[trigger] profiles@[k]).1.ppd_profile is Some
                &&& text::lowered(profiles@[k].1.ppd_profile->0) == text::lowered(power@)
                &&& profiles@[k].1.fault() is Some
            },
        0 <= i < profiles@.len() && profiles@[i].1.ppd_profile is Some && text::lowered(
            profiles@[i].1.ppd_profile->0,
        ) == text::lowered(power@) ==> {
            &&& !(r matches Ok(Mapped::Nothing { .. }))
            &&& r matches Ok(Mapped::Apply { name, .. }) ==> name@ == profiles@[i].0
                || text::precedes(name@, profiles@[i].0)
        },
{
    if let Ok(Mapped::Apply { name, .. }) = r {
        profile::lemma_lookup_in(profiles@, name@);
        let k = choose|k: int|
            0 <= k < profiles@.len() && (#[trigger] profiles@[k]).0 == name@ && profiles@[k].1
                == profile::lookup(profiles@, name@)->0;
        assert(profiles@[k].0 == name@);
    }
    if r is Err {
        let name = choose|name: Seq<char>|
            #![trigger first_mapped(profiles@, power@, name)]
            first_mapped(profiles@, power@, name) && profile::lookup(
                profiles@,
                name,
            )->0.fault() is Some;
        profile::lemma_lookup_in(profiles@, name);
        let k = choose|k: int|
            0 <= k < profiles@.len() && (#[trigger] profiles@[k]).0 == name && profiles@[k].1
                == profile::lookup(profiles@, name)->0;
        assert(profiles@[k].1.ppd_profile is Some);
    }
    if 0 <= i < profiles@.len() {
        profile::lemma_lookup_at(profiles@, i);
        assert(profile::lookup(profiles@, profiles@[i].0) == Some(profiles@[i].1));
    }
}

/// The service follows the power profile where the daemon is there, and raises
/// alerts where they are on; with neither it has nothing to do.
pub proof fn law_the_service_does_what_it_can(
    available: bool,
    notifications: Notifications,
    r: Result<Service, Error>,
    once: Result<(), Error>,
)
    requires
        call_ensures(run_sync, (available, &notifications), r),
        call_ensures(run_sync_once, (available,), once),
    ensures
        r is Err <==> !available && !notifications.enabled,
        available ==> r == Ok::<Service, Error>(Service::Follow { alerts: notifications.enabled }),
        !available && notifications.enabled ==> r == Ok::<Service, Error>(Service::Alerts),
        once is Ok <==> available,
{
}

/// The service starts only as root and with the driver.
pub proof fn law_the_service_takes_root(
    is_root: bool,
    driver: bool,
    once: bool,
    r: Result<SyncPlan, Error>,
)
    requires
        call_ensures(plan_sync, (is_root, driver, once), r),
    ensures
        r is Ok <==> is_root && driver,
        r == Ok::<SyncPlan, Error>(SyncPlan::Once) <==> is_root && driver && once,
        r == Ok::<SyncPlan, Error>(SyncPlan::Serve) <==> is_root && driver && !once,
{
}

/// The record of the state says of each setting what was read of it.
pub proof fn law_the_record_says_what_was_read(
    hw: HwState,
    fans: &[Fan],
    r: StatusRecord,
    n: i32,
    i: int,
)
    requires
        call_ensures(status_record, (&hw, fans), r),
    ensures
        hw.fan_custom_speed == Some(n) ==> r.fan_speed@ == text::decimal_int(n as int),
        hw.charge_limit == Some(n) ==> r.charge_limit@ == text::decimal_int(n as int),
        hw.fan_pwm == Some(n) ==> r.fan_pwm@ == text::decimal_int(n as int),
        hw.fan_mode == Some(n) && 0 <= n < 6 ==> r.fan_mode@ == text::lowered(
            sysfs::FAN_MODES@[n as int]@,
        ),
        hw.charge_mode == Some(n) && 0 <= n < 2 ==> r.charge_mode@ == text::lowered(
            sysfs::CHARGE_MODES@[n as int]@,
        ),
        hw.gpu_boost == Some(n) ==> r.gpu_boost@ == text::lowered(
            if n == 0 {
                "OFF"@
            } else {
                "ON"@
            },
        ),
        hw.fan_custom_speed is None ==> r.fan_speed@ == "N/A"@,
        hw.charge_limit is None ==> r.charge_limit@ == "N/A"@,
        hw.fan_pwm is None ==> r.fan_pwm@ == "N/A"@,
        hw.battery_cycle matches Some(cycles) ==> (cycles@ != "0"@ ==> r.battery_cycle@ == cycles@),
        r.fan_speed_active <==> hw.fan_mode == Some(4i32) || hw.fan_mode == Some(5i32),
        r.charge_limit_active <==> hw.charge_mode == Some(1i32),
        r.fans@.len() == fans@.len(),
        0 <= i < fans@.len() ==> r.fans@[i]@ == fans@[i]@,
{
    let list = json_views(r.fans@);
    assert(list.len() == fans@.len());
    if 0 <= i < fans@.len() {
        assert(list[i] == r.fans@[i]@);
        assert(sensors::fan_views(fans@)[i] == fans@[i]@);
    }
}

/// The report shows each setting behind its own label; a setting without effect
/// is marked. The fans come last, each with its name and reading.
pub proof fn law_the_report_shows_each_setting(
    hw: HwState,
    cpu: &str,
    gpu: &str,
    fans: &[Fan],
    r: Vec<String>,
    i: int,
)
    requires
        call_ensures(print_status, (&hw, cpu, gpu, fans), r),
    ensures
        r@.len() == 10 + if fans@.len() == 0 {
            0int
        } else {
            1 + fans@.len() as int
        },
        text::finishes(r@[0]@, sysfs::name_text(sysfs::FAN_MODES@, hw.fan_mode)),
        text::begins(r@[1]@, "Fan speed:"@),
        hw.inert_text(Dependent::FanCustomSpeed) is None ==> text::finishes(
            r@[1]@,
            sysfs::value_text(hw.fan_custom_speed),
        ),
        text::finishes(r@[2]@, sysfs::name_text(sysfs::CHARGE_MODES@, hw.charge_mode)),
        text::begins(r@[3]@, "Charge limit:"@),
        hw.inert_text(Dependent::ChargeLimit) is None ==> text::finishes(
            r@[3]@,
            sysfs::value_text(hw.charge_limit),
        ),
        text::finishes(r@[4]@, sysfs::boost_text(hw.gpu_boost)),
        text::finishes(r@[7]@, sysfs::value_text(hw.fan_pwm)),
        text::finishes(r@[8]@, cpu@),
        text::finishes(r@[9]@, gpu@),
        0 <= i < fans@.len() ==> r@[11 + i]@ == "  "@ + fans@[i].name@ + ": "@
            + sensors::reading_text(fans@[i].rpm, fans@[i].pwm),
{
    let lines = text::views(r@);
    assert(lines.len() == r@.len());
    assert(forall|k: int| 0 <= k < lines.len() ==> #[trigger] lines[k] == r@[k]@);
    let rows = setting_texts(hw, cpu@, gpu@);
    assert forall|k: int| 0 <= k < 10 implies #[trigger] rows[k] == r@[k]@ by {
        assert(lines[k] == r@[k]@);
        assert(lines[k] == rows[k]);
    }
    assert(rows[0] == r@[0]@);
    lemma_status_ends("Fan mode"@, sysfs::name_text(sysfs::FAN_MODES@, hw.fan_mode));
    assert(rows[1] == r@[1]@);
    lemma_status_ends(
        "Fan speed"@,
        annotated(
            sysfs::value_text(hw.fan_custom_speed),
            hw.inert_text(Dependent::FanCustomSpeed),
        ),
    );
    lemma_label("Fan speed"@, "Fan speed:"@);
    assert(rows[2] == r@[2]@);
    lemma_status_ends("Charge mode"@, sysfs::name_text(sysfs::CHARGE_MODES@, hw.charge_mode));
    assert(rows[3] == r@[3]@);
    lemma_status_ends(
        "Charge limit"@,
        annotated(sysfs::value_text(hw.charge_limit), hw.inert_text(Dependent::ChargeLimit)),
    );
    lemma_label("Charge limit"@, "Charge limit:"@);
    assert(rows[4] == r@[4]@);
    lemma_status_ends("GPU boost"@, sysfs::boost_text(hw.gpu_boost));
    assert(rows[7] == r@[7]@);
    lemma_status_ends("Fan PWM"@, sysfs::value_text(hw.fan_pwm));
    assert(rows[8] == r@[8]@);
    lemma_status_ends("CPU temp"@, cpu@);
    assert(rows[9] == r@[9]@);
    lemma_status_ends("GPU temp"@, gpu@);
    if 0 <= i < fans@.len() {
        let shown = fan_texts("  "@, sensors::fan_views(fans@));
        assert(lines[11 + i] == r@[11 + i]@);
        assert(lines[11 + i] == shown[i]);
        assert(sensors::fan_views(fans@)[i] == fans@[i]@);
    }
}

proof fn lemma_status_ends(label: Seq<char>, value: Seq<char>)
    ensures
        text::finishes(status_text(label, value), value),
        text::begins(status_text(label, value), label + ":"@),
{
    let line = status_text(label, value);
    assert(line.skip(line.len() - value.len()) =~= value);
    assert(line.take((label + ":"@).len() as int) =~= label + ":"@);
}

proof fn lemma_label(label: Seq<char>, full: Seq<char>)
    requires
        label == "Fan speed"@ && full == "Fan speed:"@ || label == "Charge limit"@ && full
            == "Charge limit:"@,
    ensures
        label + ":"@ == full,
{
    reveal_strlit(":");
    reveal_strlit("Fan speed");
    reveal_strlit("Fan speed:");
    reveal_strlit("Charge limit");
    reveal_strlit("Charge limit:");
    assert(label + ":"@ =~= full);
}

/// A value that was saved to no effect is pointed out with the reason, and no
/// other is.
pub proof fn law_values_without_effect_are_pointed_out(
    hw: HwState,
    setting: Dependent,
    r: Option<String>,
    reason: Option<&'static str>,
)
    requires
        call_ensures(warn_if_inactive, (&hw, setting), r),
        call_ensures(HwState::inactive_reason, (&hw, setting), reason),
    ensures
        r is Some <==> reason is Some,
        r matches Some(warning) ==> text::finishes(warning@, reason->0@),
{
    if r is Some {
        let head = "Warning: value saved, but it has no effect right now - it "@;
        let warning = r->0@;
        assert(warning == head + reason->0@);
        assert(warning.skip(warning.len() - reason->0@.len()) =~= reason->0@);
    }
}

/// System-wide settings are changed by root alone.
pub proof fn law_system_settings_take_root(
    env: Environment,
    key: &str,
    value: &str,
    system: bool,
    is_root: bool,
    r: Result<(), Error>,
)
    requires
        call_ensures(run_config_set, (&env, key, value, system, is_root), r),
    ensures
        r is Ok <==> !system || is_root,
{
}

/// The user's profiles are copied where they can be read, and those already there
/// are kept where not. Installing takes root.
pub proof fn law_profiles_are_copied_for_the_service(
    readable: bool,
    present: bool,
    is_root: bool,
    seed: Seed,
    r: Result<(), Error>,
)
    requires
        call_ensures(seed_system_profiles, (readable, present), seed),
        call_ensures(install_service, (is_root,), r),
    ensures
        seed is Copy <==> readable,
        seed is Keep <==> !readable && present,
        seed is Missing <==> !readable && !present,
        r is Ok <==> is_root,
{
}

/// A sample in plain text shows both temperatures and the speed of every fan; in
/// JSON it is the fans as they were read. Each counts as one.
pub proof fn law_a_sample_shows_what_was_read(
    monitor: &mut Monitor,
    timestamp: u64,
    cpu: &str,
    gpu: &str,
    fans: &[Fan],
    r: Sample,
    i: int,
)
    requires
        call_ensures(Monitor::sample, (monitor, timestamp, cpu, gpu, fans), r),
        old(monitor).taken < u64::MAX,
    ensures
        final(monitor).taken == old(monitor).taken + 1,
        old(monitor).format is Json ==> (r matches Sample::Json(list) && list@.len() == fans@.len()
            && (0 <= i < fans@.len() ==> list@[i]@ == fans@[i]@)),
        old(monitor).format is Text ==> (r matches Sample::Lines(lines) && lines@.len() == 1
            && text::begins(lines@[0]@, "CPU "@ + cpu@ + "   GPU "@ + gpu@) && (0 <= i
            < fans@.len() ==> text::includes(
            lines@[0]@,
            fans@[i].name@ + ": "@ + text::decimal(fans@[i].rpm as nat) + " RPM"@,
        ))),
        old(monitor).format is Csv ==> (r matches Sample::Lines(lines) && lines@.len() == if old(
            monitor,
        ).csv_channels is None {
            2int
        } else {
            1int
        }),
{
    match r {
        Sample::Json(list) => {
            let shown = json_views(list@);
            assert(shown.len() == list@.len());
            if 0 <= i < fans@.len() {
                assert(shown[i] == list@[i]@);
                assert(sensors::fan_views(fans@)[i] == fans@[i]@);
            }
        },
        Sample::Lines(lines) => {
            let shown = text::views(lines@);
            assert(shown.len() == lines@.len());
            if old(monitor).format is Text {
                let head = "CPU "@ + cpu@ + "   GPU "@ + gpu@;
                assert(shown[0] == lines@[0]@);
                assert(shown[0].take(head.len() as int) =~= head);
                if 0 <= i < fans@.len() {
                    let views = sensors::fan_views(fans@);
                    assert(views[i] == fans@[i]@);
                    let parts = Seq::new(
                        views.len(),
                        |k: int|
                            views[k].name + ": "@ + text::decimal(views[k].rpm as nat) + " RPM"@,
                    );
                    let none = Seq::<char>::empty();
                    assert(speeds_text(views) == text::joined(parts, "   "@));
                    text::law_joined_texts_are_all_there(parts, "   "@, i);
                    text::lemma_includes_within(
                        head + "   "@,
                        speeds_text(views),
                        none,
                        parts[i],
                    );
                    assert(head + "   "@ + speeds_text(views) + none =~= shown[0]);
                }
            }
        },
    }
}

} // verus!
