//! Everything that can be refused, and how it is reported.

use crate::config::Config;
use crate::config::SYSTEM_CONFIG_DIR;
use crate::sysfs;
use crate::sysfs::CHARGE_MODES;
use crate::sysfs::FAN_MODES;
use crate::text;
use vstd::prelude::*;
use vstd::string::StringExecFns;

verus! {

/// A quantity with a fixed range.
#[derive(Clone, Copy, Debug, PartialEq, Eq, Structural)]
pub enum Quantity {
    FanSpeed,
    ChargeLimit,
    Temperature,
    Speed,
}

impl Quantity {
    pub open spec fn text(self) -> Seq<char> {
        match self {
            Quantity::FanSpeed => "Fan speed"@,
            Quantity::ChargeLimit => "Charge limit"@,
            Quantity::Temperature => "Temperature"@,
            Quantity::Speed => "Speed"@,
        }
    }

    pub fn label(self) -> (r: &'static str)
        ensures
            r@ == self.text(),
    {
        match self {
            Quantity::FanSpeed => "Fan speed",
            Quantity::ChargeLimit => "Charge limit",
            Quantity::Temperature => "Temperature",
            Quantity::Speed => "Speed",
        }
    }
}

/// A table of names.
#[derive(Clone, Copy, Debug, PartialEq, Eq, Structural)]
pub enum NameKind {
    FanMode,
    ChargeMode,
}

impl NameKind {
    pub open spec fn text(self) -> Seq<char> {
        match self {
            NameKind::FanMode => "fan mode"@,
            NameKind::ChargeMode => "charge mode"@,
        }
    }

    /// The names of the table, in the order of their node values.
    pub open spec fn names(self) -> Seq<&'static str> {
        match self {
            NameKind::FanMode => FAN_MODES@,
            NameKind::ChargeMode => CHARGE_MODES@,
        }
    }

    pub fn label(self) -> (r: &'static str)
        ensures
            r@ == self.text(),
    {
        match self {
            NameKind::FanMode => "fan mode",
            NameKind::ChargeMode => "charge mode",
        }
    }

    pub fn table(self) -> (r: Vec<&'static str>)
        ensures
            r@ == self.names(),
    {
        let mut r: Vec<&'static str> = Vec::new();
        match self {
            NameKind::FanMode => {
                let mut i: usize = 0;
                while i < 6
                    invariant
                        i <= 6,
                        r@ == FAN_MODES@.take(i as int),
                    decreases 6 - i,
                {
                    r.push(FAN_MODES[i]);
                    i = i + 1;
                }
            },
            NameKind::ChargeMode => {
                let mut i: usize = 0;
                while i < 2
                    invariant
                        i <= 2,
                        r@ == CHARGE_MODES@.take(i as int),
                    decreases 2 - i,
                {
                    r.push(CHARGE_MODES[i]);
                    i = i + 1;
                }
            },
        }
        r
    }
}

/// The characters of each entry of a table of fixed names.
pub open spec fn name_views(table: Seq<&'static str>) -> Seq<Seq<char>> {
    table.map_values(|s: &'static str| s@)
}

pub fn join_names(table: &[&'static str], separator: &str) -> (r: String)
    ensures
        r@ == text::joined(name_views(table@), separator@),
{
    let mut r: String = String::new();
    let mut i: usize = 0;
    let ghost all = name_views(table@);
    while i < table.len()
        invariant
            all == name_views(table@),
            i <= table@.len(),
            r@ == text::joined(all.take(i as int), separator@),
        decreases table@.len() - i,
    {
        proof {
            assert(all.take(i + 1).drop_last() =~= all.take(i as int));
            assert(all.take(i + 1).last() == table@[i as int]@);
        }
        if i > 0 {
            r.append(separator);
        }
        r.append(table[i]);
        i = i + 1;
        proof {
            assert(r@ =~= text::joined(all.take(i as int), separator@));
        }
    }
    proof {
        assert(all.take(i as int) =~= all);
    }
    r
}

/// What went wrong, over the type that stands for text: `String` in an
/// [`Error`], a sequence of characters in its model, a [`Fault`].
#[allow(inconsistent_fields)]
#[derive(Clone, Debug)]
pub enum Problem<T> {
    OutOfRange { what: Quantity, min: i32, max: i32 },
    CurveIndex,
    UnknownName { kind: NameKind, name: T },
    NotOnOff { got: T },
    CurvePointFormat,
    CurveDataMissing { index: usize },
    CurveDataFormat { index: usize, data: T },
    TempDrops { index: usize, temp: i32, previous: i32 },
    SpeedDrops { index: usize, speed: i32, previous: i32 },
    TempCrowded { min: i32, max: i32 },
    SpeedCrowded { min: i32, max: i32 },
    NodeMissing { path: T },
    NodeDenied { path: T },
    NodeWrite { path: T, value: i32, cause: T },
    CurveLength { got: usize },
    CurveNotLoaded,
    UnknownKey { key: T },
    BadValue { key: T, value: T },
    NotBool { key: T, got: T },
    BadUnits { got: T },
    Unparsable { path: T, cause: T },
    SystemConfigNeedsRoot { path: T },
    SystemProfilesNeedRoot { path: T },
    CommandFailed { command: T, cause: T },
    StatusFailed { command: T, status: T },
    NoPowerProfiles,
    PropertyFormat { out: T },
    NotRoot,
    DriverMissing,
    CurveRefused { cause: T },
    SaveNeedsRoot { name: T },
    ProfileNotFound { name: T, path: T },
    SyncNeedsRoot,
    NoProfileChosen,
    SetNeedsRoot { path: T, key: T, value: T },
    NothingToServe,
    MappedProfile { name: T, cause: T },
    InstallNeedsRoot,
    NoAsset { tag: T, arch: T, assets: T },
    PackageOwned { exe: T, package: T },
    NotWritable { dir: T, cause: T },
    NoBinary { asset: T },
    DidNotRun,
    WrongVersion { reported: T, version: T },
    UninstallNeedsRoot,
    NotInteractive,
    Aborted,
}

pub type Error = Problem<String>;

pub type Fault = Problem<Seq<char>>;

impl View for Problem<String> {
    type V = Problem<Seq<char>>;

    open spec fn view(&self) -> Problem<Seq<char>> {
        match *self {
            Problem::OutOfRange { what, min, max } => Problem::OutOfRange { what, min, max },
            Problem::CurveIndex => Problem::CurveIndex,
            Problem::UnknownName { kind, name } => Problem::UnknownName { kind, name: name@ },
            Problem::NotOnOff { got } => Problem::NotOnOff { got: got@ },
            Problem::CurvePointFormat => Problem::CurvePointFormat,
            Problem::CurveDataMissing { index } => Problem::CurveDataMissing { index },
            Problem::CurveDataFormat { index, data } => Problem::CurveDataFormat {
                index,
                data: data@,
            },
            Problem::TempDrops { index, temp, previous } => Problem::TempDrops {
                index,
                temp,
                previous,
            },
            Problem::SpeedDrops { index, speed, previous } => Problem::SpeedDrops {
                index,
                speed,
                previous,
            },
            Problem::TempCrowded { min, max } => Problem::TempCrowded { min, max },
            Problem::SpeedCrowded { min, max } => Problem::SpeedCrowded { min, max },
            Problem::NodeMissing { path } => Problem::NodeMissing { path: path@ },
            Problem::NodeDenied { path } => Problem::NodeDenied { path: path@ },
            Problem::NodeWrite { path, value, cause } => Problem::NodeWrite {
                path: path@,
                value,
                cause: cause@,
            },
            Problem::CurveLength { got } => Problem::CurveLength { got },
            Problem::CurveNotLoaded => Problem::CurveNotLoaded,
            Problem::UnknownKey { key } => Problem::UnknownKey { key: key@ },
            Problem::BadValue { key, value } => Problem::BadValue { key: key@, value: value@ },
            Problem::NotBool { key, got } => Problem::NotBool { key: key@, got: got@ },
            Problem::BadUnits { got } => Problem::BadUnits { got: got@ },
            Problem::Unparsable { path, cause } => Problem::Unparsable {
                path: path@,
                cause: cause@,
            },
            Problem::SystemConfigNeedsRoot { path } => Problem::SystemConfigNeedsRoot {
                path: path@,
            },
            Problem::SystemProfilesNeedRoot { path } => Problem::SystemProfilesNeedRoot {
                path: path@,
            },
            Problem::CommandFailed { command, cause } => Problem::CommandFailed {
                command: command@,
                cause: cause@,
            },
            Problem::StatusFailed { command, status } => Problem::StatusFailed {
                command: command@,
                status: status@,
            },
            Problem::NoPowerProfiles => Problem::NoPowerProfiles,
            Problem::PropertyFormat { out } => Problem::PropertyFormat { out: out@ },
            Problem::NotRoot => Problem::NotRoot,
            Problem::DriverMissing => Problem::DriverMissing,
            Problem::CurveRefused { cause } => Problem::CurveRefused { cause: cause@ },
            Problem::SaveNeedsRoot { name } => Problem::SaveNeedsRoot { name: name@ },
            Problem::ProfileNotFound { name, path } => Problem::ProfileNotFound {
                name: name@,
                path: path@,
            },
            Problem::SyncNeedsRoot => Problem::SyncNeedsRoot,
            Problem::NoProfileChosen => Problem::NoProfileChosen,
            Problem::SetNeedsRoot { path, key, value } => Problem::SetNeedsRoot {
                path: path@,
                key: key@,
                value: value@,
            },
            Problem::NothingToServe => Problem::NothingToServe,
            Problem::MappedProfile { name, cause } => Problem::MappedProfile {
                name: name@,
                cause: cause@,
            },
            Problem::InstallNeedsRoot => Problem::InstallNeedsRoot,
            Problem::NoAsset { tag, arch, assets } => Problem::NoAsset {
                tag: tag@,
                arch: arch@,
                assets: assets@,
            },
            Problem::PackageOwned { exe, package } => Problem::PackageOwned {
                exe: exe@,
                package: package@,
            },
            Problem::NotWritable { dir, cause } => Problem::NotWritable { dir: dir@, cause: cause@ },
            Problem::DidNotRun => Problem::DidNotRun,
            Problem::NoBinary { asset } => Problem::NoBinary { asset: asset@ },
            Problem::WrongVersion { reported, version } => Problem::WrongVersion {
                reported: reported@,
                version: version@,
            },
            Problem::UninstallNeedsRoot => Problem::UninstallNeedsRoot,
            Problem::NotInteractive => Problem::NotInteractive,
            Problem::Aborted => Problem::Aborted,
        }
    }
}

/// The message a fault is reported with.
pub open spec fn fault_text(fault: Fault) -> Seq<char> {
    match fault {
        Problem::OutOfRange { what, min, max } => what.text() + " must be "@ + text::decimal_int(
            min as int,
        ) + ".."@ + text::decimal_int(max as int),
        Problem::CurveIndex => "Index must be 0..15"@,
        Problem::UnknownName { kind, name } => "Unknown "@ + kind.text() + " '"@ + name
            + "' (expected one of: "@ + text::lowered(text::joined(name_views(kind.names()), ", "@)) + ")"@,
        Problem::NotOnOff { got } => "Expected on/off, got '"@ + got + "'"@,
        Problem::CurvePointFormat => "expected two integers"@,
        Problem::CurveDataMissing { index } => "reading fan curve data at index "@ + text::decimal(
            index as nat,
        ),
        Problem::CurveDataFormat { index, data } => "parsing fan curve data "@ + text::quoted(data)
            + " at index "@ + text::decimal(index as nat) + ": expected two integers"@,
        Problem::TempDrops { index, temp, previous } => drop_text(
            index,
            " temperature "@,
            temp,
            previous,
        ),
        Problem::SpeedDrops { index, speed, previous } => drop_text(
            index,
            " speed "@,
            speed,
            previous,
        ),
        Problem::TempCrowded { min, max } => "Temperature must be "@ + crowd_text(min, max),
        Problem::SpeedCrowded { min, max } => "Speed must be "@ + crowd_text(min, max),
        Problem::NodeMissing { path } => "Node not found: "@ + path,
        Problem::NodeDenied { path } => "Permission denied writing "@ + path + " (run as root)"@,
        Problem::NodeWrite { path, value, cause } => "writing "@ + text::decimal_int(value as int)
            + " to "@ + path + (": "@ + cause),
        Problem::CurveLength { got } => "Fan curve must have 15 points, got "@ + text::decimal(
            got as nat,
        ),
        Problem::CurveNotLoaded => "Curve not loaded"@,
        Problem::UnknownKey { key } => "Unknown config key '"@ + key + "' (known keys: "@ + text::joined(
            name_views(Config::KEYS@),
            ", "@,
        ) + ")"@,
        Problem::BadValue { key, value } => "'"@ + value + "' is not a valid value for "@ + key,
        Problem::NotBool { key, got } => key + " must be true or false, got '"@ + got + "'"@,
        Problem::BadUnits { got } => "units must be celsius or fahrenheit, got '"@ + got + "'"@,
        Problem::Unparsable { path, cause } => "parsing "@ + path + ": "@ + cause,
        Problem::SystemConfigNeedsRoot { path } => path
            + " needs root to update (re-run with sudo)"@,
        Problem::SystemProfilesNeedRoot { path } => path
            + " needs root to update (re-run with sudo, or `sudo gigabytectl profile --sync-system`)"@,
        Problem::CommandFailed { command, cause } => "`"@ + command + "` failed: "@ + cause,
        Problem::StatusFailed { command, status } => "`"@ + command + "` failed ("@ + status + ")"@,
        Problem::NoPowerProfiles =>
            "power-profiles-daemon is not available on the system bus (is it installed and running?)"@,
        Problem::PropertyFormat { out } => "parsing ActiveProfile from "@ + text::quoted(out),
        Problem::NotRoot => "gigabytectl: must be run as root (try: sudo gigabytectl ...)"@,
        Problem::DriverMissing => sysfs::missing_text(),
        Problem::CurveRefused { cause } =>
            "refusing to write a fan curve that goes backwards (use --force to override): "@
                + cause,
        Problem::SaveNeedsRoot { name } =>
            "gigabytectl: saving a profile reads hardware state; run as root (try: sudo gigabytectl profile --save "@
                + name + ")"@,
        Problem::ProfileNotFound { name, path } => "profile '"@ + name + "' not found in "@ + path,
        Problem::SyncNeedsRoot => "gigabytectl: writing "@ + SYSTEM_CONFIG_DIR@
            + " needs root (try: sudo gigabytectl profile --sync-system)"@,
        Problem::NoProfileChosen =>
            "Specify a profile to apply, or use --list / --save / --show / --delete <name>"@,
        Problem::SetNeedsRoot { path, key, value } => "gigabytectl: writing "@ + path
            + " needs root (try: sudo gigabytectl config set --system "@ + key + (" "@ + value
            + ")"@),
        Problem::NothingToServe =>
            "power-profiles-daemon is not available on the system bus (is it installed and running?)\nTurn on temperature alerts (gigabytectl config set notifications.enabled true) to run this service for alerts alone."@,
        Problem::MappedProfile { name, cause } => "applying gigabytectl profile '"@ + name + "': "@
            + cause,
        Problem::InstallNeedsRoot =>
            "gigabytectl: installing the sync service writes to /etc; run as root (try: sudo gigabytectl install-service)"@,
        Problem::NoAsset { tag, arch, assets } => "release "@ + tag + " has no "@ + arch
            + " Linux tarball (assets: "@ + (assets + ")"@),
        Problem::PackageOwned { exe, package } => exe + " is owned by the package '"@ + package
            + "'; update it with your package manager instead"@,
        Problem::NotWritable { dir, cause } => "cannot write to "@ + dir + " ("@ + cause
            + "); re-run with sudo (try: sudo gigabytectl self update)"@,
        Problem::DidNotRun =>
            "the downloaded binary did not run (wrong architecture, or a corrupt download)"@,
        Problem::NoBinary { asset } => asset + " did not contain a `gigabytectl` binary"@,
        Problem::WrongVersion { reported, version } => "the downloaded binary reports "@ + text::quoted(
            reported,
        ) + ", not version "@ + version,
        Problem::UninstallNeedsRoot =>
            "gigabytectl: uninstalling touches /etc and the installed binary; run as root (try: sudo gigabytectl self uninstall)"@,
        Problem::NotInteractive => "not running interactively; pass --yes to confirm"@,
        Problem::Aborted => "Aborted; nothing was removed."@,
    }
}

/// How a curve point that falls below the one before it is described.
pub open spec fn drop_text(index: usize, what: Seq<char>, now: i32, previous: i32) -> Seq<char> {
    "Fan curve must not go backwards: point "@ + text::decimal(index as nat) + what + text::decimal_int(
        now as int,
    ) + " is below point "@ + (text::decimal_int(index - 1) + " ("@ + text::decimal_int(previous as int) + ")"@)
}

/// The range a point may take between its neighbours.
pub open spec fn crowd_text(min: i32, max: i32) -> Seq<char> {
    text::decimal_int(min as int) + ".."@ + text::decimal_int(max as int)
        + " to keep the curve in order (neighbouring points)"@
}

fn drop_message(index: usize, what: &str, now: i32, previous: i32) -> (r: String)
    ensures
        r@ == drop_text(index, what@, now, previous),
{
    let mut r: String = text::concat5(
        "Fan curve must not go backwards: point ",
        text::decimal_of(index as u64).as_str(),
        what,
        text::decimal_of_int(now as i64).as_str(),
        " is below point ",
    );
    let before: String = if index == 0 {
        text::decimal_of_int(-1)
    } else {
        text::decimal_of((index - 1) as u64)
    };
    let mut tail: String = text::concat3(
        before.as_str(),
        " (",
        text::decimal_of_int(previous as i64).as_str(),
    );
    tail.append(")");
    r.append(tail.as_str());
    r
}

fn crowd_message(min: i32, max: i32) -> (r: String)
    ensures
        r@ == crowd_text(min, max),
{
    let mut r: String = text::concat3(
        text::decimal_of_int(min as i64).as_str(),
        "..",
        text::decimal_of_int(max as i64).as_str(),
    );
    r.append(" to keep the curve in order (neighbouring points)");
    r
}

fn concat2(a: &str, b: &str) -> (r: String)
    ensures
        r@ == a@ + b@,
{
    let mut r: String = a.to_owned();
    r.append(b);
    r
}

impl Problem<String> {
    /// The message to show, with the cause after the context it was met in.
    pub fn message(&self) -> (r: String)
        ensures
            r@ == fault_text(self@),
    {
        match self {
            Problem::OutOfRange { what, min, max } => text::concat5(
                what.label(),
                " must be ",
                text::decimal_of_int(*min as i64).as_str(),
                "..",
                text::decimal_of_int(*max as i64).as_str(),
            ),
            Problem::CurveIndex => "Index must be 0..15".to_owned(),
            Problem::UnknownName { kind, name } => {
                let mut r: String = text::concat5(
                    "Unknown ",
                    kind.label(),
                    " '",
                    name.as_str(),
                    "' (expected one of: ",
                );
                let names: String = join_names(kind.table().as_slice(), ", ");
                r.append(text::lowercase(names.as_str()).as_str());
                r.append(")");
                r
            },
            Problem::NotOnOff { got } => text::concat3("Expected on/off, got '", got.as_str(), "'"),
            Problem::CurvePointFormat => "expected two integers".to_owned(),
            Problem::CurveDataMissing { index } => concat2(
                "reading fan curve data at index ",
                text::decimal_of(*index as u64).as_str(),
            ),
            Problem::CurveDataFormat { index, data } => text::concat5(
                "parsing fan curve data ",
                text::quote(data.as_str()).as_str(),
                " at index ",
                text::decimal_of(*index as u64).as_str(),
                ": expected two integers",
            ),
            Problem::TempDrops { index, temp, previous } => drop_message(
                *index,
                " temperature ",
                *temp,
                *previous,
            ),
            Problem::SpeedDrops { index, speed, previous } => drop_message(
                *index,
                " speed ",
                *speed,
                *previous,
            ),
            Problem::TempCrowded { min, max } => concat2(
                "Temperature must be ",
                crowd_message(*min, *max).as_str(),
            ),
            Problem::SpeedCrowded { min, max } => concat2(
                "Speed must be ",
                crowd_message(*min, *max).as_str(),
            ),
            Problem::NodeMissing { path } => concat2("Node not found: ", path.as_str()),
            Problem::NodeDenied { path } => text::concat3(
                "Permission denied writing ",
                path.as_str(),
                " (run as root)",
            ),
            Problem::NodeWrite { path, value, cause } => text::concat5(
                "writing ",
                text::decimal_of_int(*value as i64).as_str(),
                " to ",
                path.as_str(),
                concat2(": ", cause.as_str()).as_str(),
            ),
            Problem::CurveLength { got } => concat2(
                "Fan curve must have 15 points, got ",
                text::decimal_of(*got as u64).as_str(),
            ),
            Problem::CurveNotLoaded => "Curve not loaded".to_owned(),
            Problem::UnknownKey { key } => text::concat5(
                "Unknown config key '",
                key.as_str(),
                "' (known keys: ",
                join_names(&Config::KEYS, ", ").as_str(),
                ")",
            ),
            Problem::BadValue { key, value } => {
                let mut r: String = text::concat3("'", value.as_str(), "' is not a valid value for ");
                r.append(key.as_str());
                r
            },
            Problem::NotBool { key, got } => {
                let mut r: String = text::concat3(
                    key.as_str(),
                    " must be true or false, got '",
                    got.as_str(),
                );
                r.append("'");
                r
            },
            Problem::BadUnits { got } => text::concat3(
                "units must be celsius or fahrenheit, got '",
                got.as_str(),
                "'",
            ),
            Problem::Unparsable { path, cause } => {
                let mut r: String = text::concat3("parsing ", path.as_str(), ": ");
                r.append(cause.as_str());
                r
            },
            Problem::SystemConfigNeedsRoot { path } => concat2(
                path.as_str(),
                " needs root to update (re-run with sudo)",
            ),
            Problem::SystemProfilesNeedRoot { path } => concat2(
                path.as_str(),
                " needs root to update (re-run with sudo, or `sudo gigabytectl profile --sync-system`)",
            ),
            Problem::CommandFailed { command, cause } => {
                let mut r: String = text::concat3("`", command.as_str(), "` failed: ");
                r.append(cause.as_str());
                r
            },
            Problem::StatusFailed { command, status } => text::concat5(
                "`",
                command.as_str(),
                "` failed (",
                status.as_str(),
                ")",
            ),
            Problem::NoPowerProfiles =>
                "power-profiles-daemon is not available on the system bus (is it installed and running?)".to_owned(),
            Problem::PropertyFormat { out } => concat2(
                "parsing ActiveProfile from ",
                text::quote(out.as_str()).as_str(),
            ),
            Problem::NotRoot =>
                "gigabytectl: must be run as root (try: sudo gigabytectl ...)".to_owned(),
            Problem::DriverMissing => sysfs::driver_missing_message(),
            Problem::CurveRefused { cause } => concat2(
                "refusing to write a fan curve that goes backwards (use --force to override): ",
                cause.as_str(),
            ),
            Problem::SaveNeedsRoot { name } => text::concat3(
                "gigabytectl: saving a profile reads hardware state; run as root (try: sudo gigabytectl profile --save ",
                name.as_str(),
                ")",
            ),
            Problem::ProfileNotFound { name, path } => {
                let mut r: String = text::concat3("profile '", name.as_str(), "' not found in ");
                r.append(path.as_str());
                r
            },
            Problem::SyncNeedsRoot => text::concat3(
                "gigabytectl: writing ",
                SYSTEM_CONFIG_DIR,
                " needs root (try: sudo gigabytectl profile --sync-system)",
            ),
            Problem::NoProfileChosen =>
                "Specify a profile to apply, or use --list / --save / --show / --delete <name>".to_owned(),
            Problem::SetNeedsRoot { path, key, value } => {
                let mut r: String = text::concat3(
                    "gigabytectl: writing ",
                    path.as_str(),
                    " needs root (try: sudo gigabytectl config set --system ",
                );
                r.append(key.as_str());
                r.append(text::concat3(" ", value.as_str(), ")").as_str());
                r
            },
            Problem::NothingToServe =>
                "power-profiles-daemon is not available on the system bus (is it installed and running?)\nTurn on temperature alerts (gigabytectl config set notifications.enabled true) to run this service for alerts alone.".to_owned(),
            Problem::MappedProfile { name, cause } => {
                let mut r: String = text::concat3(
                    "applying gigabytectl profile '",
                    name.as_str(),
                    "': ",
                );
                r.append(cause.as_str());
                r
            },
            Problem::InstallNeedsRoot =>
                "gigabytectl: installing the sync service writes to /etc; run as root (try: sudo gigabytectl install-service)".to_owned(),
            Problem::NoAsset { tag, arch, assets } => {
                let mut r: String = text::concat5(
                    "release ",
                    tag.as_str(),
                    " has no ",
                    arch.as_str(),
                    " Linux tarball (assets: ",
                );
                r.append(concat2(assets.as_str(), ")").as_str());
                r
            },
            Problem::PackageOwned { exe, package } => {
                let mut r: String = text::concat3(
                    exe.as_str(),
                    " is owned by the package '",
                    package.as_str(),
                );
                r.append("'; update it with your package manager instead");
                r
            },
            Problem::NotWritable { dir, cause } => text::concat5(
                "cannot write to ",
                dir.as_str(),
                " (",
                cause.as_str(),
                "); re-run with sudo (try: sudo gigabytectl self update)",
            ),
            Problem::DidNotRun =>
                "the downloaded binary did not run (wrong architecture, or a corrupt download)".to_owned(),
            Problem::NoBinary { asset } => concat2(
                asset.as_str(),
                " did not contain a `gigabytectl` binary",
            ),
            Problem::WrongVersion { reported, version } => {
                let mut r: String = text::concat3(
                    "the downloaded binary reports ",
                    text::quote(reported.as_str()).as_str(),
                    ", not version ",
                );
                r.append(version.as_str());
                r
            },
            Problem::UninstallNeedsRoot =>
                "gigabytectl: uninstalling touches /etc and the installed binary; run as root (try: sudo gigabytectl self uninstall)".to_owned(),
            Problem::NotInteractive =>
                "not running interactively; pass --yes to confirm".to_owned(),
            Problem::Aborted => "Aborted; nothing was removed.".to_owned(),
        }
    }
}

// --- Laws ---

proof fn lemma_includes(before: Seq<char>, part: Seq<char>, after: Seq<char>, full: Seq<char>)
    requires
        full =~= before + part + after,
    ensures
        text::includes(full, part),
{
    let at = before.len() as int;
    assert(full.subrange(at, at + part.len()) =~= part);
    assert(text::occurs_at(full, part, at));
}

/// A value that is refused is refused by its name and with the range that would be
/// taken, the lower end first.
pub proof fn law_a_range_is_named(e: Error, name: &str, r: String)
    requires
        call_ensures(Error::message, (&e,), r),
        e matches Problem::OutOfRange { what, .. } && call_ensures(Quantity::label, (what,), name),
    ensures
        e matches Problem::OutOfRange { what, min, max } && r@ == name@ + " must be "@
            + text::decimal_int(min as int) + ".."@ + text::decimal_int(max as int),
{
}

/// A complaint names what it is about: what was typed, the file or the node, and
/// the cause where there is one.
pub proof fn law_a_complaint_names_its_subject(e: Error, r: String)
    requires
        call_ensures(Error::message, (&e,), r),
    ensures
        e matches Problem::UnknownName { name, .. } ==> text::includes(r@, name@),
        e matches Problem::NotOnOff { got } ==> text::includes(r@, got@),
        e matches Problem::NodeMissing { path } ==> text::includes(r@, path@),
        e matches Problem::NodeDenied { path } ==> text::includes(r@, path@),
        e matches Problem::NodeWrite { path, value, cause } ==> text::includes(r@, path@)
            && text::includes(r@, cause@) && text::includes(r@, text::decimal_int(value as int)),
        e matches Problem::UnknownKey { key } ==> text::includes(r@, key@),
        e matches Problem::BadValue { key, value } ==> text::includes(r@, key@) && text::includes(
            r@,
            value@,
        ),
        e matches Problem::NotBool { key, got } ==> text::includes(r@, key@) && text::includes(
            r@,
            got@,
        ),
        e matches Problem::Unparsable { path, cause } ==> text::includes(r@, path@)
            && text::includes(r@, cause@),
        e matches Problem::CommandFailed { command, cause } ==> text::includes(r@, command@)
            && text::includes(r@, cause@),
        e matches Problem::StatusFailed { command, status } ==> text::includes(r@, command@)
            && text::includes(r@, status@),
        e matches Problem::CurveRefused { cause } ==> text::includes(r@, cause@),
        e matches Problem::ProfileNotFound { name, path } ==> text::includes(r@, name@)
            && text::includes(r@, path@),
        e matches Problem::MappedProfile { name, cause } ==> text::includes(r@, name@)
            && text::includes(r@, cause@),
        e matches Problem::PackageOwned { exe, package } ==> text::includes(r@, exe@)
            && text::includes(r@, package@),
        e matches Problem::NotWritable { dir, cause } ==> text::includes(r@, dir@)
            && text::includes(r@, cause@),
{
    let none = Seq::<char>::empty();
    match e {
        Problem::UnknownName { kind, name } => {
            let names = text::lowered(text::joined(name_views(kind.names()), ", "@));
            lemma_includes(
                "Unknown "@ + kind.text() + " '"@,
                name@,
                "' (expected one of: "@ + names + ")"@,
                r@,
            );
        },
        Problem::NotOnOff { got } => {
            lemma_includes("Expected on/off, got '"@, got@, "'"@, r@);
        },
        Problem::NodeMissing { path } => {
            lemma_includes("Node not found: "@, path@, none, r@);
        },
        Problem::NodeDenied { path } => {
            lemma_includes("Permission denied writing "@, path@, " (run as root)"@, r@);
        },
        Problem::NodeWrite { path, value, cause } => {
            let number = text::decimal_int(value as int);
            lemma_includes("writing "@, number, " to "@ + path@ + ": "@ + cause@, r@);
            lemma_includes("writing "@ + number + " to "@, path@, ": "@ + cause@, r@);
            lemma_includes("writing "@ + number + " to "@ + path@ + ": "@, cause@, none, r@);
        },
        Problem::UnknownKey { key } => {
            let keys = text::joined(name_views(Config::KEYS@), ", "@);
            lemma_includes("Unknown config key '"@, key@, "' (known keys: "@ + keys + ")"@, r@);
        },
        Problem::BadValue { key, value } => {
            let between = "' is not a valid value for "@;
            lemma_includes("'"@, value@, between + key@, r@);
            lemma_includes("'"@ + value@ + between, key@, none, r@);
        },
        Problem::NotBool { key, got } => {
            let between = " must be true or false, got '"@;
            lemma_includes(none, key@, between + got@ + "'"@, r@);
            lemma_includes(key@ + between, got@, "'"@, r@);
        },
        Problem::Unparsable { path, cause } => {
            lemma_includes("parsing "@, path@, ": "@ + cause@, r@);
            lemma_includes("parsing "@ + path@ + ": "@, cause@, none, r@);
        },
        Problem::CommandFailed { command, cause } => {
            lemma_includes("`"@, command@, "` failed: "@ + cause@, r@);
            lemma_includes("`"@ + command@ + "` failed: "@, cause@, none, r@);
        },
        Problem::StatusFailed { command, status } => {
            lemma_includes("`"@, command@, "` failed ("@ + status@ + ")"@, r@);
            lemma_includes("`"@ + command@ + "` failed ("@, status@, ")"@, r@);
        },
        Problem::CurveRefused { cause } => {
            let refusing =
                "refusing to write a fan curve that goes backwards (use --force to override): "@;
            lemma_includes(refusing, cause@, none, r@);
        },
        Problem::ProfileNotFound { name, path } => {
            lemma_includes("profile '"@, name@, "' not found in "@ + path@, r@);
            lemma_includes("profile '"@ + name@ + "' not found in "@, path@, none, r@);
        },
        Problem::MappedProfile { name, cause } => {
            let applying = "applying gigabytectl profile '"@;
            lemma_includes(applying, name@, "': "@ + cause@, r@);
            lemma_includes(applying + name@ + "': "@, cause@, none, r@);
        },
        Problem::PackageOwned { exe, package } => {
            let owned = " is owned by the package '"@;
            let rest = "'; update it with your package manager instead"@;
            lemma_includes(none, exe@, owned + package@ + rest, r@);
            lemma_includes(exe@ + owned, package@, rest, r@);
        },
        Problem::NotWritable { dir, cause } => {
            let rest = "); re-run with sudo (try: sudo gigabytectl self update)"@;
            lemma_includes("cannot write to "@, dir@, " ("@ + cause@ + rest, r@);
            lemma_includes("cannot write to "@ + dir@ + " ("@, cause@, rest, r@);
        },
        _ => {},
    }
}

} // verus!
