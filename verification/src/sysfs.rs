//! The attributes of the `gigabyte-laptop-wmi` sysfs interface: what their
//! values mean, which values they take, and what has to be written to them.
//!
//! Every attribute is a file under [`ROOT`] that holds one value as text. The
//! functions here take the text that was read and give the values to write.

use crate::error::Error;
use crate::error::Fault;
use crate::error::NameKind;
use crate::error::Problem;
use crate::error::Quantity;
use crate::text;
use vstd::prelude::*;
use vstd::string::StringExecFns;

verus! {

/// Platform directory exposed by the `gigabyte-laptop-wmi` module.
pub const ROOT: &'static str = "/sys/devices/platform/aorus_laptop";

pub const FAN_MODE: &'static str = "/sys/devices/platform/aorus_laptop/fan_mode";

pub const FAN_CUSTOM_SPEED: &'static str = "/sys/devices/platform/aorus_laptop/fan_custom_speed";

pub const FAN_PWM: &'static str = "/sys/devices/platform/aorus_laptop/fan_pwm";

pub const FAN_CURVE_INDEX: &'static str = "/sys/devices/platform/aorus_laptop/fan_curve_index";

pub const FAN_CURVE_DATA: &'static str = "/sys/devices/platform/aorus_laptop/fan_curve_data";

pub const CHARGE_MODE: &'static str = "/sys/devices/platform/aorus_laptop/charge_mode";

pub const CHARGE_LIMIT: &'static str = "/sys/devices/platform/aorus_laptop/charge_limit";

pub const BATTERY_CYCLE: &'static str = "/sys/devices/platform/aorus_laptop/battery_cycle";

pub const GPU_BOOST: &'static str = "/sys/devices/platform/aorus_laptop/gpu_boost";

pub const LIGHT_SENSOR: &'static str = "/sys/devices/platform/aorus_laptop/light_sensor";

/// The names of the attributes, in the order they are reported.
pub const NODE_NAMES: [&'static str; 10] = [
    "fan_mode",
    "fan_custom_speed",
    "fan_pwm",
    "fan_curve_index",
    "fan_curve_data",
    "charge_mode",
    "charge_limit",
    "battery_cycle",
    "gpu_boost",
    "light_sensor",
];

/// The paths of the attributes, in the order of [`NODE_NAMES`].
pub const NODE_PATHS: [&'static str; 10] = [
    FAN_MODE,
    FAN_CUSTOM_SPEED,
    FAN_PWM,
    FAN_CURVE_INDEX,
    FAN_CURVE_DATA,
    CHARGE_MODE,
    CHARGE_LIMIT,
    BATTERY_CYCLE,
    GPU_BOOST,
    LIGHT_SENSOR,
];

/// Fan modes, indexed by the value stored in [`FAN_MODE`].
pub const FAN_MODES: [&'static str; 6] = ["Normal", "Silent", "Gaming", "Custom", "Auto", "Fixed"];

/// Charging modes, indexed by the value stored in [`CHARGE_MODE`].
pub const CHARGE_MODES: [&'static str; 2] = ["Normal", "Custom"];

/// Number of (temperature, speed) points in the hardware fan curve.
pub const FAN_CURVE_POINTS: usize = 15;

pub const FAN_SPEED_MIN: i32 = 0;

pub const FAN_SPEED_MAX: i32 = 255;

pub const CHARGE_LIMIT_MIN: i32 = 60;

pub const CHARGE_LIMIT_MAX: i32 = 100;

pub const CURVE_TEMP_MIN: i32 = 0;

pub const CURVE_TEMP_MAX: i32 = 100;

pub const CURVE_SPEED_MIN: i32 = 0;

pub const CURVE_SPEED_MAX: i32 = 255;

/// A value to be written to an attribute.
#[derive(Clone, Copy, Debug, PartialEq, Eq)]
pub struct Write {
    pub path: &'static str,
    pub value: i32,
}

// --- Node access ---

pub open spec fn missing_text() -> Seq<char> {
    ROOT@ + " does not exist. Please install gigabyte-laptop-wmi and ensure it is running."@
}

pub fn driver_missing_message() -> (r: String)
    ensures
        r@ == missing_text(),
{
    let mut r: String = ROOT.to_owned();
    r.append(" does not exist. Please install gigabyte-laptop-wmi and ensure it is running.");
    r
}

/// The characters of an optional text.
pub open spec fn text_view(text: Option<String>) -> Option<Seq<char>> {
    match text {
        Some(t) => Some(t@),
        None => None,
    }
}

/// The characters of an optional borrowed text.
pub open spec fn str_view(text: Option<&str>) -> Option<Seq<char>> {
    match text {
        Some(t) => Some(t@),
        None => None,
    }
}

/// A node as a trimmed string, or `None` if it could not be read.
pub fn read_trimmed(contents: Option<&str>) -> (r: Option<String>)
    ensures
        text_view(r) == match str_view(contents) {
            Some(t) => Some(text::trimmed(t)),
            None => None,
        },
{
    match contents {
        Some(t) => Some(text::trim(t).to_owned()),
        None => None,
    }
}

/// The integer that a node's contents stand for.
pub open spec fn node_value(contents: Option<Seq<char>>) -> Option<int> {
    match contents {
        Some(t) => text::parsed_int(text::trimmed(t), i32::MIN as int, i32::MAX as nat),
        None => None,
    }
}

pub open spec fn as_int(value: Option<i32>) -> Option<int> {
    match value {
        Some(v) => Some(v as int),
        None => None,
    }
}

/// A node as an integer, or `None` if it could not be read or is not a number.
pub fn read_i32(contents: Option<&str>) -> (r: Option<i32>)
    ensures
        as_int(r) == node_value(str_view(contents)),
{
    match contents {
        Some(t) => text::parse_i32(text::trim(t)),
        None => None,
    }
}

/// The line that writes a value to a node.
pub fn node_line(value: i32) -> (r: String)
    ensures
        r@ == text::decimal_int(value as int) + "\n"@,
{
    let mut r: String = text::decimal_of_int(value as i64);
    r.append("\n");
    r
}

/// How writing to a node failed.
#[derive(Clone, Debug)]
pub enum WriteFailure {
    NotFound,
    PermissionDenied,
    Other(String),
}

/// The outcome of writing `value` to the node at `path`, with the common
/// failures turned into messages that say what to do about them.
pub fn write_value(path: &str, value: i32, failure: Option<WriteFailure>) -> (r: Result<(), Error>)
    ensures
        match failure {
            None => r is Ok,
            Some(WriteFailure::NotFound) => r is Err && r->Err_0@ == (Fault::NodeMissing {
                path: path@,
            }),
            Some(WriteFailure::PermissionDenied) => r is Err && r->Err_0@ == (Fault::NodeDenied {
                path: path@,
            }),
            Some(WriteFailure::Other(cause)) => r is Err && r->Err_0@ == (Fault::NodeWrite {
                path: path@,
                value,
                cause: cause@,
            }),
        },
{
    match failure {
        None => Ok(()),
        Some(WriteFailure::NotFound) => Err(Problem::NodeMissing { path: path.to_owned() }),
        Some(WriteFailure::PermissionDenied) => Err(Problem::NodeDenied { path: path.to_owned() }),
        Some(WriteFailure::Other(cause)) => Err(
            Problem::NodeWrite { path: path.to_owned(), value, cause },
        ),
    }
}

// --- Validation ---

/// The complaint about a value outside its range, if it is.
pub open spec fn range_fault(value: i32, min: i32, max: i32, what: Quantity) -> Option<Fault> {
    if min <= value <= max {
        None
    } else {
        Some(Fault::OutOfRange { what, min, max })
    }
}

/// Whether a result is the complaint `fault`, or success where there is none.
pub open spec fn reports<T>(r: Result<T, Error>, fault: Option<Fault>) -> bool {
    match fault {
        None => r is Ok,
        Some(f) => r is Err && r->Err_0@ == f,
    }
}

fn check_range(value: i32, min: i32, max: i32, what: Quantity) -> (r: Result<(), Error>)
    ensures
        reports(r, range_fault(value, min, max, what)),
{
    if min <= value && value <= max {
        Ok(())
    } else {
        Err(Problem::OutOfRange { what, min, max })
    }
}

pub open spec fn fan_speed_fault(value: i32) -> Option<Fault> {
    range_fault(value, FAN_SPEED_MIN, FAN_SPEED_MAX, Quantity::FanSpeed)
}

pub open spec fn charge_limit_fault(value: i32) -> Option<Fault> {
    range_fault(value, CHARGE_LIMIT_MIN, CHARGE_LIMIT_MAX, Quantity::ChargeLimit)
}

pub open spec fn temp_fault(value: i32) -> Option<Fault> {
    range_fault(value, CURVE_TEMP_MIN, CURVE_TEMP_MAX, Quantity::Temperature)
}

pub open spec fn speed_fault(value: i32) -> Option<Fault> {
    range_fault(value, CURVE_SPEED_MIN, CURVE_SPEED_MAX, Quantity::Speed)
}

pub open spec fn index_fault(index: usize) -> Option<Fault> {
    if index < FAN_CURVE_POINTS {
        None
    } else {
        Some(Fault::CurveIndex)
    }
}

pub fn validate_fan_speed(value: i32) -> (r: Result<(), Error>)
    ensures
        reports(r, fan_speed_fault(value)),
{
    check_range(value, FAN_SPEED_MIN, FAN_SPEED_MAX, Quantity::FanSpeed)
}

pub fn validate_charge_limit(value: i32) -> (r: Result<(), Error>)
    ensures
        reports(r, charge_limit_fault(value)),
{
    check_range(value, CHARGE_LIMIT_MIN, CHARGE_LIMIT_MAX, Quantity::ChargeLimit)
}

pub fn validate_curve_index(index: usize) -> (r: Result<(), Error>)
    ensures
        reports(r, index_fault(index)),
{
    if index < FAN_CURVE_POINTS {
        Ok(())
    } else {
        Err(Problem::CurveIndex)
    }
}

// --- Named values ---

/// The display name for a node value.
pub open spec fn name_text(names: Seq<&'static str>, value: Option<i32>) -> Seq<char> {
    match value {
        None => "N/A"@,
        Some(i) => if 0 <= i < names.len() {
            names[i as int]@
        } else {
            "Unknown ("@ + text::decimal_int(i as int) + ")"@
        },
    }
}

/// The position of the first of `n` names that is `name` up to case.
pub open spec fn position_among(names: Seq<&'static str>, name: Seq<char>, n: nat) -> Option<int>
    decreases n,
{
    if n == 0 {
        None
    } else {
        match position_among(names, name, (n - 1) as nat) {
            Some(i) => Some(i),
            None => if text::alike(names[n - 1]@, name) {
                Some(n - 1)
            } else {
                None
            },
        }
    }
}

/// The node value that a name stands for.
pub open spec fn named_value(names: Seq<&'static str>, name: Seq<char>) -> Option<int> {
    position_among(names, text::trimmed(name), names.len())
}

/// The outcome of looking a name up.
pub open spec fn name_fault(kind: NameKind, name: Seq<char>) -> Option<Fault> {
    if named_value(kind.names(), name) is Some {
        None
    } else {
        Some(Fault::UnknownName { kind, name })
    }
}

/// Looks up the display name for a node value in `table`.
fn name_of(table: &[&'static str], value: Option<i32>) -> (r: String)
    ensures
        r@ == name_text(table@, value),
{
    match value {
        None => "N/A".to_owned(),
        Some(i) => {
            if i >= 0 && (i as usize) < table.len() {
                table[i as usize].to_owned()
            } else {
                let mut r: String = "Unknown (".to_owned();
                r.append(text::decimal_of_int(i as i64).as_str());
                r.append(")");
                r
            }
        },
    }
}

/// Resolves a case-insensitive name back to its node value.
fn value_of(kind: NameKind, name: &str) -> (r: Result<i32, Error>)
    ensures
        reports(r, name_fault(kind, name@)),
        r matches Ok(v) ==> named_value(kind.names(), name@) == Some(v as int),
{
    let table: Vec<&'static str> = kind.table();
    let wanted: &str = text::trim(name);
    let mut i: usize = 0;
    while i < table.len()
        invariant
            table@ == kind.names(),
            table@.len() <= 6,
            wanted@ == text::trimmed(name@),
            i <= table@.len(),
            position_among(table@, wanted@, i as nat) is None,
        decreases table@.len() - i,
    {
        if text::same_ignoring_case(table[i], wanted) {
            proof {
                lemma_position_stays(table@, wanted@, (i + 1) as nat, table@.len());
            }
            return Ok(i as i32);
        }
        i = i + 1;
    }
    Err(Problem::UnknownName { kind, name: name.to_owned() })
}

proof fn lemma_position_stays(names: Seq<&'static str>, name: Seq<char>, n: nat, m: nat)
    requires
        n <= m,
        position_among(names, name, n) is Some,
    ensures
        position_among(names, name, m) == position_among(names, name, n),
    decreases m,
{
    if n < m {
        lemma_position_stays(names, name, n, (m - 1) as nat);
    }
}

pub fn fan_mode_name(value: Option<i32>) -> (r: String)
    ensures
        r@ == name_text(FAN_MODES@, value),
{
    name_of(&FAN_MODES, value)
}

pub fn charge_mode_name(value: Option<i32>) -> (r: String)
    ensures
        r@ == name_text(CHARGE_MODES@, value),
{
    name_of(&CHARGE_MODES, value)
}

pub fn fan_mode_value(name: &str) -> (r: Result<i32, Error>)
    ensures
        reports(r, name_fault(NameKind::FanMode, name@)),
        r matches Ok(v) ==> named_value(FAN_MODES@, name@) == Some(v as int),
{
    value_of(NameKind::FanMode, name)
}

pub fn charge_mode_value(name: &str) -> (r: Result<i32, Error>)
    ensures
        reports(r, name_fault(NameKind::ChargeMode, name@)),
        r matches Ok(v) ==> named_value(CHARGE_MODES@, name@) == Some(v as int),
{
    value_of(NameKind::ChargeMode, name)
}

pub open spec fn boost_text(value: Option<i32>) -> Seq<char> {
    match value {
        Some(v) => if v == 0 {
            "OFF"@
        } else {
            "ON"@
        },
        None => "N/A"@,
    }
}

pub fn gpu_boost_name(value: Option<i32>) -> (r: &'static str)
    ensures
        r@ == boost_text(value),
{
    match value {
        Some(v) => {
            if v == 0 {
                "OFF"
            } else {
                "ON"
            }
        },
        None => "N/A",
    }
}

/// The boolean spellings: 1 for the affirmative ones, 0 for the negative ones.
pub open spec fn switch_value(word: Seq<char>) -> Option<int> {
    if word == "on"@ || word == "1"@ || word == "true"@ || word == "yes"@ {
        Some(1)
    } else if word == "off"@ || word == "0"@ || word == "false"@ || word == "no"@ {
        Some(0)
    } else {
        None
    }
}

/// The outcome of reading a switch.
pub open spec fn switch_fault(name: Seq<char>) -> Option<Fault> {
    let word = text::lowered(text::trimmed(name));
    if switch_value(word) is Some {
        None
    } else {
        Some(Fault::NotOnOff { got: word })
    }
}

/// Parses the boolean spellings accepted in profiles (`on`/`off`, `1`/`0`, ...).
pub fn on_off_value(name: &str) -> (r: Result<i32, Error>)
    ensures
        reports(r, switch_fault(name@)),
        r matches Ok(v) ==> switch_value(text::lowered(text::trimmed(name@))) == Some(v as int),
{
    let word: String = text::lowercase(text::trim(name));
    let w: &str = word.as_str();
    if text::same(w, "on") || text::same(w, "1") || text::same(w, "true") || text::same(w, "yes") {
        Ok(1)
    } else if text::same(w, "off") || text::same(w, "0") || text::same(w, "false") || text::same(
        w,
        "no",
    ) {
        Ok(0)
    } else {
        Err(Problem::NotOnOff { got: word })
    }
}

pub open spec fn value_text(value: Option<i32>) -> Seq<char> {
    match value {
        Some(v) => text::decimal_int(v as int),
        None => "N/A"@,
    }
}

/// Formats an optional node value for display.
pub fn value_or_na(value: Option<i32>) -> (r: String)
    ensures
        r@ == value_text(value),
{
    match value {
        Some(v) => text::decimal_of_int(v as i64),
        None => "N/A".to_owned(),
    }
}

pub open spec fn cycle_text(value: Option<Seq<char>>) -> Seq<char> {
    match value {
        Some(t) => if t == "0"@ {
            "Device does not support this feature"@
        } else {
            t
        },
        None => "N/A"@,
    }
}

/// The driver reports `0` cycles on models without a battery cycle counter.
pub fn battery_cycle_text(value: Option<&str>) -> (r: String)
    ensures
        r@ == cycle_text(str_view(value)),
{
    match value {
        Some(t) => {
            if text::same(t, "0") {
                "Device does not support this feature".to_owned()
            } else {
                t.to_owned()
            }
        },
        None => "N/A".to_owned(),
    }
}

// --- Light sensor ---

/// A word as an unsigned 32-bit number.
pub open spec fn word_value(word: Seq<char>) -> Option<nat> {
    text::parsed_nat(word, u32::MAX as nat)
}

/// Four bytes as reported by newer models, recombined without the first.
pub open spec fn recombined(low: u32, medium: u32, high: u32) -> u32 {
    (high << 16u32) | (medium << 8u32) | low
}

/// The reading that the text of the `light_sensor` node stands for.
pub open spec fn light_reading(raw: Seq<char>) -> Option<u32> {
    let parts = text::words_of(raw);
    if forall|i: int| 0 <= i < parts.len() ==> word_value(#[trigger] parts[i]) is Some {
        if parts.len() == 1 {
            Some(word_value(parts[0])->0 as u32)
        } else if parts.len() == 4 {
            Some(
                recombined(
                    word_value(parts[1])->0 as u32,
                    word_value(parts[2])->0 as u32,
                    word_value(parts[3])->0 as u32,
                ),
            )
        } else {
            None
        }
    } else {
        None
    }
}

/// Decodes the `light_sensor` node.
///
/// Newer models (VE and later) report four bytes as `<version> <low> <medium>
/// <high>`, where the reading is the last three recombined; older models report
/// a single 32-bit value. Either way `0` means no sensor is fitted.
pub fn parse_light_sensor(raw: &str) -> (r: Option<u32>)
    ensures
        r == light_reading(raw@),
{
    let parts: Vec<String> = text::words(raw);
    let ghost all = text::words_of(raw@);
    let mut numbers: Vec<u32> = Vec::new();
    let mut i: usize = 0;
    while i < parts.len()
        invariant
            text::views(parts@) == all,
            all == text::words_of(raw@),
            i <= parts@.len(),
            numbers@.len() == i,
            forall|j: int| 0 <= j < i ==> word_value(#[trigger] all[j]) == Some(numbers@[j] as nat),
        decreases parts@.len() - i,
    {
        proof {
            assert(all[i as int] == parts@[i as int]@);
        }
        match text::parse_u32(parts[i].as_str()) {
            Some(n) => numbers.push(n),
            None => {
                return None;
            },
        }
        i = i + 1;
    }
    proof {
        assert(all.len() == parts@.len());
    }
    if numbers.len() == 1 {
        proof {
            assert(word_value(all[0]) == Some(numbers@[0] as nat));
        }
        Some(numbers[0])
    } else if numbers.len() == 4 {
        let low: u32 = numbers[1];
        let medium: u32 = numbers[2];
        let high: u32 = numbers[3];
        proof {
            assert(word_value(all[1]) == Some(low as nat));
            assert(word_value(all[2]) == Some(medium as nat));
            assert(word_value(all[3]) == Some(high as nat));
        }
        Some((high << 16u32) | (medium << 8u32) | low)
    } else {
        None
    }
}

/// Three bytes recombine into the number they are the base 256 digits of.
pub proof fn law_light_bytes_recombine(low: u32, medium: u32, high: u32)
    requires
        low < 256,
        medium < 256,
        high < 256,
    ensures
        recombined(low, medium, high) == high * 65536 + medium * 256 + low,
{
    assert((high << 16u32) | (medium << 8u32) | low == high * 65536 + medium * 256 + low)
        by (bit_vector)
        requires
            low < 256,
            medium < 256,
            high < 256,
    ;
}

pub open spec fn light_text(raw: Option<Seq<char>>) -> Seq<char> {
    match raw {
        None => "N/A"@,
        Some(t) => match light_reading(text::trimmed(t)) {
            Some(v) => if v == 0 {
                "Not equipped"@
            } else {
                text::decimal(v as nat)
            },
            None => "Unknown ("@ + text::trimmed(t) + ")"@,
        },
    }
}

/// Human-readable light sensor reading. A format that is not known is shown as
/// the driver reported it.
pub fn light_sensor_text(raw: Option<&str>) -> (r: String)
    ensures
        r@ == light_text(str_view(raw)),
{
    match raw {
        None => "N/A".to_owned(),
        Some(t) => {
            let t: &str = text::trim(t);
            match parse_light_sensor(t) {
                Some(v) => {
                    if v == 0 {
                        "Not equipped".to_owned()
                    } else {
                        text::decimal_of(v as u64)
                    }
                },
                None => text::concat3("Unknown (", t, ")"),
            }
        },
    }
}

// --- Fan curve ---

/// The point that the text of the fan curve data node stands for: its first two
/// words as integers.
pub open spec fn curve_point(data: Seq<char>) -> Option<(int, int)> {
    let parts = text::words_of(data);
    if parts.len() >= 2 && word_int(parts[0]) is Some && word_int(parts[1]) is Some {
        Some((word_int(parts[0])->0, word_int(parts[1])->0))
    } else {
        None
    }
}

/// A word as a signed 32-bit number.
pub open spec fn word_int(word: Seq<char>) -> Option<int> {
    text::parsed_int(word, i32::MIN as int, i32::MAX as nat)
}

/// Parses the `"<temp> <speed>"` pair reported by [`FAN_CURVE_DATA`].
pub fn parse_fan_curve_point(data: &str) -> (r: Result<(i32, i32), Error>)
    ensures
        match r {
            Ok(p) => curve_point(data@) == Some((p.0 as int, p.1 as int)),
            Err(e) => curve_point(data@) is None && e@ == Fault::CurvePointFormat,
        },
{
    let parts: Vec<String> = text::words(data);
    let ghost all = text::words_of(data@);
    proof {
        assert(text::views(parts@).len() == parts@.len());
        assert(forall|i: int| 0 <= i < parts@.len() ==> all[i] == #[trigger] parts@[i]@);
    }
    if parts.len() < 2 {
        return Err(Problem::CurvePointFormat);
    }
    match (text::parse_i32(parts[0].as_str()), text::parse_i32(parts[1].as_str())) {
        (Some(temp), Some(speed)) => Ok((temp, speed)),
        _ => Err(Problem::CurvePointFormat),
    }
}

/// What goes wrong with the data read for one point, if anything does.
pub open spec fn data_fault(index: usize, data: Option<Seq<char>>) -> Option<Fault> {
    match data {
        None => Some(Fault::CurveDataMissing { index }),
        Some(t) => if curve_point(text::trimmed(t)) is Some {
            None
        } else {
            Some(Fault::CurveDataFormat { index, data: text::trimmed(t) })
        },
    }
}

/// One point of the curve, from what the data node held once its index had been
/// written to [`FAN_CURVE_INDEX`].
pub fn read_fan_curve_point(index: usize, data: Option<&str>) -> (r: Result<(i32, i32), Error>)
    ensures
        reports(r, data_fault(index, str_view(data))),
        r matches Ok(p) ==> data is Some && curve_point(text::trimmed(data->0@)) == Some(
            (p.0 as int, p.1 as int),
        ),
{
    match data {
        None => Err(Problem::CurveDataMissing { index }),
        Some(t) => {
            let t: &str = text::trim(t);
            match parse_fan_curve_point(t) {
                Ok(p) => Ok(p),
                Err(_) => Err(Problem::CurveDataFormat { index, data: t.to_owned() }),
            }
        },
    }
}

/// The first fault among the first `n` points read.
pub open spec fn read_fault(data: Seq<Option<Seq<char>>>, n: nat) -> Option<Fault>
    decreases n,
{
    if n == 0 {
        None
    } else {
        match read_fault(data, (n - 1) as nat) {
            Some(f) => Some(f),
            None => data_fault((n - 1) as usize, answer(data, n - 1)),
        }
    }
}

/// The characters of what was read for each point.
pub open spec fn data_views(data: Seq<Option<String>>) -> Seq<Option<Seq<char>>> {
    data.map_values(|t: Option<String>| text_view(t))
}

/// Selects a point of the curve, for the data node to show it.
pub open spec fn selection(index: int) -> Write {
    Write { path: FAN_CURVE_INDEX, value: index as i32 }
}

/// The write that reading the curve begins with: it selects the first point.
pub fn first_curve_point() -> (r: Write)
    ensures
        r == selection(0),
{
    Write { path: FAN_CURVE_INDEX, value: 0 }
}

/// The point that was read as the text of the data node.
pub open spec fn point_in(data: Option<Seq<char>>) -> (i32, i32) {
    let point = curve_point(text::trimmed(data->0))->0;
    (point.0 as i32, point.1 as i32)
}

/// The write that selects the point behind `read` points, while there is one.
pub open spec fn next_selection(read: nat) -> Option<Write> {
    if read < FAN_CURVE_POINTS {
        Some(selection(read as int))
    } else {
        None
    }
}

/// Takes in what the data node held for the point that was selected last, the one
/// behind those in `done`. The result is the write that selects the next point,
/// or `None` once the curve is complete. Nothing more is to be selected after an
/// error.
pub fn next_curve_point(done: &mut Vec<(i32, i32)>, data: Option<&str>) -> (r: Result<
    Option<Write>,
    Error,
>)
    requires
        old(done)@.len() < FAN_CURVE_POINTS,
    ensures
        reports(r, data_fault(old(done)@.len() as usize, str_view(data))),
        match r {
            Ok(next) => {
                &&& final(done)@ == old(done)@.push(point_in(str_view(data)))
                &&& next == next_selection(final(done)@.len())
            },
            Err(_) => final(done)@ == old(done)@,
        },
{
    let point: (i32, i32) = read_fan_curve_point(done.len(), data)?;
    done.push(point);
    if done.len() < FAN_CURVE_POINTS {
        Ok(Some(Write { path: FAN_CURVE_INDEX, value: done.len() as i32 }))
    } else {
        Ok(None)
    }
}

/// What the data node held for point `i`; nothing where it was not read.
pub open spec fn answer(data: Seq<Option<Seq<char>>>, i: int) -> Option<Seq<char>> {
    if 0 <= i < data.len() {
        data[i]
    } else {
        None
    }
}

/// All points of the curve, from what the data node held for each of them in
/// turn. The first point that was not read or does not parse is reported; there
/// is no shorter curve.
pub fn read_fan_curve(data: &[Option<String>]) -> (r: Result<Vec<(i32, i32)>, Error>)
    ensures
        reports(r, read_fault(data_views(data@), FAN_CURVE_POINTS as nat)),
        r matches Ok(curve) ==> curve@.len() == FAN_CURVE_POINTS && forall|i: int|
            0 <= i < FAN_CURVE_POINTS ==> #[trigger] curve@[i] == point_in(
                answer(data_views(data@), i),
            ),
{
    let mut curve: Vec<(i32, i32)> = Vec::new();
    let ghost all = data_views(data@);
    while curve.len() < FAN_CURVE_POINTS
        invariant
            all == data_views(data@),
            curve@.len() <= FAN_CURVE_POINTS,
            read_fault(all, curve@.len()) is None,
            forall|j: int| 0 <= j < curve@.len() ==> #[trigger] curve@[j] == point_in(answer(all, j)),
        decreases FAN_CURVE_POINTS - curve@.len(),
    {
        let i: usize = curve.len();
        let contents: Option<&str> = if i < data.len() {
            proof {
                assert(all[i as int] == text_view(data@[i as int]));
            }
            match &data[i] {
                Some(t) => Some(t.as_str()),
                None => None,
            }
        } else {
            None
        };
        match next_curve_point(&mut curve, contents) {
            Ok(_) => {},
            Err(e) => {
                proof {
                    lemma_read_fault_stays(all, (i + 1) as nat, FAN_CURVE_POINTS as nat);
                }
                return Err(e);
            },
        }
    }
    Ok(curve)
}

proof fn lemma_read_fault_stays(data: Seq<Option<Seq<char>>>, n: nat, m: nat)
    requires
        n <= m,
        read_fault(data, n) is Some,
    ensures
        read_fault(data, m) == read_fault(data, n),
    decreases m,
{
    if n < m {
        lemma_read_fault_stays(data, n, (m - 1) as nat);
    }
}

/// What is wrong with point `i` of a curve, if anything: a value out of range,
/// or one below that of the point before.
pub open spec fn point_fault(curve: Seq<(i32, i32)>, i: int) -> Option<Fault> {
    let temp = curve[i].0;
    let speed = curve[i].1;
    if temp_fault(temp) is Some {
        temp_fault(temp)
    } else if speed_fault(speed) is Some {
        speed_fault(speed)
    } else if i > 0 && temp < curve[i - 1].0 {
        Some(Fault::TempDrops { index: i as usize, temp, previous: curve[i - 1].0 })
    } else if i > 0 && speed < curve[i - 1].1 {
        Some(Fault::SpeedDrops { index: i as usize, speed, previous: curve[i - 1].1 })
    } else {
        None
    }
}

/// The first fault among the first `n` points.
pub open spec fn curve_fault(curve: Seq<(i32, i32)>, n: nat) -> Option<Fault>
    decreases n,
{
    if n == 0 {
        None
    } else {
        match curve_fault(curve, (n - 1) as nat) {
            Some(f) => Some(f),
            None => point_fault(curve, n - 1),
        }
    }
}

/// A curve the hardware expects: every point in range, and neither temperature
/// nor speed ever falling from one point to a later one.
pub open spec fn sound_curve(curve: Seq<(i32, i32)>) -> bool {
    &&& forall|i: int|
        0 <= i < curve.len() ==> CURVE_TEMP_MIN <= (#[trigger] curve[i]).0 <= CURVE_TEMP_MAX
            && CURVE_SPEED_MIN <= curve[i].1 <= CURVE_SPEED_MAX
    &&& forall|i: int, j: int|
        0 <= i <= j < curve.len() ==> (#[trigger] curve[i]).0 <= (#[trigger] curve[j]).0
            && curve[i].1 <= curve[j].1
}

/// Checks that a whole curve is non-decreasing in both temperature and speed,
/// which is what the driver documents the hardware expects. A curve that dips
/// can make the fans slow down as the machine gets hotter.
pub fn validate_fan_curve(curve: &[(i32, i32)]) -> (r: Result<(), Error>)
    ensures
        reports(r, curve_fault(curve@, curve@.len())),
        r is Ok <==> sound_curve(curve@),
{
    proof {
        law_valid_curves_are_sound(curve@);
    }
    let mut i: usize = 0;
    while i < curve.len()
        invariant
            i <= curve@.len(),
            curve_fault(curve@, i as nat) is None,
            curve_fault(curve@, curve@.len()) is None <==> sound_curve(curve@),
        decreases curve@.len() - i,
    {
        let temp: i32 = curve[i].0;
        let speed: i32 = curve[i].1;
        proof {
            if point_fault(curve@, i as int) is Some {
                lemma_curve_fault_stays(curve@, (i + 1) as nat, curve@.len());
            }
        }
        check_range(temp, CURVE_TEMP_MIN, CURVE_TEMP_MAX, Quantity::Temperature)?;
        check_range(speed, CURVE_SPEED_MIN, CURVE_SPEED_MAX, Quantity::Speed)?;
        if i > 0 {
            let previous_temp: i32 = curve[i - 1].0;
            let previous_speed: i32 = curve[i - 1].1;
            if temp < previous_temp {
                return Err(Problem::TempDrops { index: i, temp, previous: previous_temp });
            }
            if speed < previous_speed {
                return Err(Problem::SpeedDrops { index: i, speed, previous: previous_speed });
            }
        }
        i = i + 1;
    }
    Ok(())
}

proof fn lemma_curve_fault_stays(curve: Seq<(i32, i32)>, n: nat, m: nat)
    requires
        n <= m,
        curve_fault(curve, n) is Some,
    ensures
        curve_fault(curve, m) == curve_fault(curve, n),
    decreases m,
{
    if n < m {
        lemma_curve_fault_stays(curve, n, (m - 1) as nat);
    }
}

proof fn lemma_no_fault_means_sound(curve: Seq<(i32, i32)>, n: nat)
    requires
        n <= curve.len(),
    ensures
        curve_fault(curve, n) is None <==> sound_curve(curve.take(n as int)),
    decreases n,
{
    if n > 0 {
        lemma_no_fault_means_sound(curve, (n - 1) as nat);
        let shorter = curve.take(n - 1);
        let longer = curve.take(n as int);
        assert(forall|i: int| 0 <= i < n - 1 ==> #[trigger] shorter[i] == longer[i]);
        assert(longer[n - 1] == curve[n - 1]);
        if sound_curve(longer) {
            assert forall|i: int| 0 <= i < shorter.len() implies CURVE_TEMP_MIN <= (
            #[trigger] shorter[i]).0 <= CURVE_TEMP_MAX && CURVE_SPEED_MIN <= shorter[i].1
                <= CURVE_SPEED_MAX by {
                assert(shorter[i] == longer[i]);
            }
            assert forall|i: int, j: int| 0 <= i <= j < shorter.len() implies (
            #[trigger] shorter[i]).0 <= (#[trigger] shorter[j]).0 && shorter[i].1 <= shorter[j].1 by {
                assert(longer[i].0 <= longer[j].0);
            }
            if n > 1 {
                assert(longer[n - 2].0 <= longer[n - 1].0);
            }
        }
        if curve_fault(curve, n) is None {
            assert forall|i: int, j: int| 0 <= i <= j < longer.len() implies (
            #[trigger] longer[i]).0 <= (#[trigger] longer[j]).0 && longer[i].1 <= longer[j].1 by {
                if j == n - 1 && i < j {
                    assert(shorter[i].0 <= shorter[n - 2].0);
                    assert(longer[n - 2] == curve[n - 2]);
                } else if j < n - 1 {
                    assert(shorter[i].0 <= shorter[j].0);
                }
            }
        }
    }
}

/// Point by point checks find no fault exactly when the whole curve is sound:
/// in range everywhere, with no later point below an earlier one.
pub proof fn law_valid_curves_are_sound(curve: Seq<(i32, i32)>)
    ensures
        curve_fault(curve, curve.len()) is None <==> sound_curve(curve),
{
    lemma_no_fault_means_sound(curve, curve.len());
    assert(curve.take(curve.len() as int) =~= curve);
}

/// The lowest value that the point before leaves for point `index`.
pub open spec fn floor_of(curve: Seq<(i32, i32)>, index: int, least: (i32, i32)) -> (i32, i32) {
    if 0 < index <= curve.len() {
        curve[index - 1]
    } else {
        least
    }
}

/// The highest value that the point after leaves for point `index`.
pub open spec fn ceiling_of(curve: Seq<(i32, i32)>, index: int, most: (i32, i32)) -> (i32, i32) {
    if index + 1 < curve.len() {
        curve[index + 1]
    } else {
        most
    }
}

pub open spec fn point_floor(curve: Seq<(i32, i32)>, index: int) -> (i32, i32) {
    floor_of(curve, index, (CURVE_TEMP_MIN, CURVE_SPEED_MIN))
}

pub open spec fn point_ceiling(curve: Seq<(i32, i32)>, index: int) -> (i32, i32) {
    ceiling_of(curve, index, (CURVE_TEMP_MAX, CURVE_SPEED_MAX))
}

/// The values a single point may take without breaking the ordering of the rest
/// of `curve`, as `(min, max)` for each of temperature and speed.
fn curve_point_bounds(curve: &[(i32, i32)], index: usize) -> (r: ((i32, i32), (i32, i32)))
    requires
        index < usize::MAX,
    ensures
        r.0.0 == point_floor(curve@, index as int).0,
        r.0.1 == point_ceiling(curve@, index as int).0,
        r.1.0 == point_floor(curve@, index as int).1,
        r.1.1 == point_ceiling(curve@, index as int).1,
{
    let floor: (i32, i32) = if index > 0 && index - 1 < curve.len() {
        curve[index - 1]
    } else {
        (CURVE_TEMP_MIN, CURVE_SPEED_MIN)
    };
    let ceiling: (i32, i32) = if index + 1 < curve.len() {
        curve[index + 1]
    } else {
        (CURVE_TEMP_MAX, CURVE_SPEED_MAX)
    };
    ((floor.0, ceiling.0), (floor.1, ceiling.1))
}

/// What is wrong with putting `(temp, speed)` at `index` of `curve`.
pub open spec fn edit_fault(
    curve: Seq<(i32, i32)>,
    index: usize,
    temp: i32,
    speed: i32,
) -> Option<Fault> {
    let floor = point_floor(curve, index as int);
    let ceiling = point_ceiling(curve, index as int);
    if index_fault(index) is Some {
        index_fault(index)
    } else if temp_fault(temp) is Some {
        temp_fault(temp)
    } else if speed_fault(speed) is Some {
        speed_fault(speed)
    } else if !(floor.0 <= temp <= ceiling.0) {
        Some(Fault::TempCrowded { min: floor.0, max: ceiling.0 })
    } else if !(floor.1 <= speed <= ceiling.1) {
        Some(Fault::SpeedCrowded { min: floor.1, max: ceiling.1 })
    } else {
        None
    }
}

/// Checks one edited point against the curve it is going into, reporting the
/// range it may take so the value can be corrected without guesswork.
pub fn validate_curve_point_in(
    curve: &[(i32, i32)],
    index: usize,
    temp: i32,
    speed: i32,
) -> (r: Result<(), Error>)
    ensures
        reports(r, edit_fault(curve@, index, temp, speed)),
{
    validate_curve_index(index)?;
    check_range(temp, CURVE_TEMP_MIN, CURVE_TEMP_MAX, Quantity::Temperature)?;
    check_range(speed, CURVE_SPEED_MIN, CURVE_SPEED_MAX, Quantity::Speed)?;
    let ((temp_min, temp_max), (speed_min, speed_max)) = curve_point_bounds(curve, index);
    if temp < temp_min || temp > temp_max {
        return Err(Problem::TempCrowded { min: temp_min, max: temp_max });
    }
    if speed < speed_min || speed > speed_max {
        return Err(Problem::SpeedCrowded { min: speed_min, max: speed_max });
    }
    Ok(())
}

/// On a sound curve, an edit is accepted exactly when the edited curve is sound:
/// no accepted edit puts the curve out of order, and none that keeps it in order
/// is refused.
pub proof fn law_accepted_edits_keep_the_curve_sound(
    curve: Seq<(i32, i32)>,
    index: usize,
    temp: i32,
    speed: i32,
)
    requires
        sound_curve(curve),
        index < curve.len(),
        index < FAN_CURVE_POINTS,
    ensures
        edit_fault(curve, index, temp, speed) is None <==> sound_curve(
            curve.update(index as int, (temp, speed)),
        ),
{
    let edited = curve.update(index as int, (temp, speed));
    let k = index as int;
    assert(edited[k] == (temp, speed));
    if edit_fault(curve, index, temp, speed) is None {
        assert forall|i: int| 0 <= i < edited.len() implies CURVE_TEMP_MIN <= (
        #[trigger] edited[i]).0 <= CURVE_TEMP_MAX && CURVE_SPEED_MIN <= edited[i].1
            <= CURVE_SPEED_MAX by {
            if i != k {
                assert(edited[i] == curve[i]);
            }
        }
        assert forall|i: int, j: int| 0 <= i <= j < edited.len() implies (#[trigger] edited[i]).0
            <= (#[trigger] edited[j]).0 && edited[i].1 <= edited[j].1 by {
            if i != k {
                assert(edited[i] == curve[i]);
            }
            if j != k {
                assert(edited[j] == curve[j]);
            }
            if i < k && j == k {
                assert(curve[i].0 <= curve[k - 1].0);
                assert(curve[i].1 <= curve[k - 1].1);
            } else if i == k && j > k {
                assert(curve[k + 1].0 <= curve[j].0);
                assert(curve[k + 1].1 <= curve[j].1);
            } else if i != k && j != k {
                assert(curve[i].0 <= curve[j].0);
            }
        }
    }
    if sound_curve(edited) {
        if k > 0 {
            assert(edited[k - 1] == curve[k - 1]);
            assert(edited[k - 1].0 <= edited[k].0);
        }
        if k + 1 < curve.len() {
            assert(edited[k + 1] == curve[k + 1]);
            assert(edited[k].0 <= edited[k + 1].0);
        }
    }
}

/// Leaving a point of a sound curve as it is is always accepted.
pub proof fn law_an_unchanged_point_is_accepted(curve: Seq<(i32, i32)>, index: usize)
    requires
        sound_curve(curve),
        index < curve.len(),
        index < FAN_CURVE_POINTS,
    ensures
        edit_fault(curve, index, curve[index as int].0, curve[index as int].1) is None,
{
    let k = index as int;
    law_accepted_edits_keep_the_curve_sound(curve, index, curve[k].0, curve[k].1);
    assert(curve.update(k, (curve[k].0, curve[k].1)) =~= curve);
}

/// What is wrong with writing a point, without regard to its neighbours.
pub open spec fn write_fault(index: usize, temp: i32, speed: i32) -> Option<Fault> {
    if index_fault(index) is Some {
        index_fault(index)
    } else if temp_fault(temp) is Some {
        temp_fault(temp)
    } else {
        speed_fault(speed)
    }
}

/// The two writes that set one point: its index, then its data.
pub open spec fn point_writes(index: int, temp: int, speed: int) -> Seq<Write> {
    seq![
        Write { path: FAN_CURVE_INDEX, value: index as i32 },
        Write { path: FAN_CURVE_DATA, value: (speed * 256 + temp) as i32 },
    ]
}

/// The writes for one `(temperature, speed)` point of the fan curve.
///
/// This does not check the point against its neighbours; callers editing a
/// loaded curve should use [`validate_curve_point_in`] first.
pub fn write_fan_curve_point(index: usize, temp: i32, speed: i32) -> (r: Result<Vec<Write>, Error>)
    ensures
        reports(r, write_fault(index, temp, speed)),
        r matches Ok(writes) ==> writes@ == point_writes(index as int, temp as int, speed as int),
{
    validate_curve_index(index)?;
    check_range(temp, CURVE_TEMP_MIN, CURVE_TEMP_MAX, Quantity::Temperature)?;
    check_range(speed, CURVE_SPEED_MIN, CURVE_SPEED_MAX, Quantity::Speed)?;
    let mut writes: Vec<Write> = Vec::new();
    writes.push(Write { path: FAN_CURVE_INDEX, value: index as i32 });
    writes.push(Write { path: FAN_CURVE_DATA, value: pack_fan_curve_point(temp, speed) });
    proof {
        assert(writes@ =~= point_writes(index as int, temp as int, speed as int));
    }
    Ok(writes)
}

/// The data node takes both halves of a point packed into one integer.
pub fn pack_fan_curve_point(temp: i32, speed: i32) -> (r: i32)
    requires
        i32::MIN <= speed * 256 <= i32::MAX,
        i32::MIN <= speed * 256 + temp <= i32::MAX,
    ensures
        r == speed * 256 + temp,
{
    (speed * 256) + temp
}

/// A packed point can be taken apart again: nothing of it is lost in packing.
pub proof fn law_packed_points_unpack(temp: int, speed: int)
    requires
        CURVE_TEMP_MIN <= temp <= CURVE_TEMP_MAX,
        CURVE_SPEED_MIN <= speed <= CURVE_SPEED_MAX,
    ensures
        (speed * 256 + temp) % 256 == temp,
        (speed * 256 + temp) / 256 == speed,
{
}

// --- Setting dependencies ---

/// Fan mode values that other settings depend on.
const FAN_MODE_CUSTOM: i32 = 3;

const FAN_MODE_AUTO: i32 = 4;

const FAN_MODE_FIXED: i32 = 5;

const CHARGE_MODE_CUSTOM: i32 = 1;

/// A setting whose value only reaches the hardware while another node is in a
/// particular mode. Writing one of these otherwise succeeds and does nothing,
/// which is the most common source of confusion with this driver.
#[derive(Clone, Copy, Debug, PartialEq, Eq, Structural)]
pub enum Dependent {
    FanCustomSpeed,
    FanCurve,
    ChargeLimit,
}

impl Dependent {
    pub open spec fn requirement_text(self) -> Seq<char> {
        match self {
            Dependent::FanCustomSpeed => "requires Auto or Fixed fan mode"@,
            Dependent::FanCurve => "requires Custom fan mode"@,
            Dependent::ChargeLimit => "requires Custom charge mode"@,
        }
    }

    /// What has to be true for this setting to take effect.
    pub fn requirement(self) -> (r: &'static str)
        ensures
            r@ == self.requirement_text(),
    {
        match self {
            Dependent::FanCustomSpeed => "requires Auto or Fixed fan mode",
            Dependent::FanCurve => "requires Custom fan mode",
            Dependent::ChargeLimit => "requires Custom charge mode",
        }
    }
}

// --- Snapshot ---

/// What was read from each scalar node, as text; `None` where a node is missing
/// or unreadable.
#[derive(Clone, Debug)]
pub struct NodeTexts {
    pub fan_mode: Option<String>,
    pub fan_custom_speed: Option<String>,
    pub fan_pwm: Option<String>,
    pub charge_mode: Option<String>,
    pub charge_limit: Option<String>,
    pub battery_cycle: Option<String>,
    pub gpu_boost: Option<String>,
    pub light_sensor: Option<String>,
}

/// One read of every scalar node, taken together so the UI and the CLI show a
/// consistent picture.
#[derive(Clone, Debug)]
pub struct HwState {
    pub fan_mode: Option<i32>,
    pub fan_custom_speed: Option<i32>,
    pub fan_pwm: Option<i32>,
    pub charge_mode: Option<i32>,
    pub charge_limit: Option<i32>,
    pub battery_cycle: Option<String>,
    pub gpu_boost: Option<i32>,
    pub light_sensor: Option<String>,
}

impl Default for HwState {
    /// A snapshot in which nothing could be read.
    fn default() -> (r: Self)
        ensures
            r == HwState::unread(),
    {
        HwState {
            fan_mode: None,
            fan_custom_speed: None,
            fan_pwm: None,
            charge_mode: None,
            charge_limit: None,
            battery_cycle: None,
            gpu_boost: None,
            light_sensor: None,
        }
    }
}

/// The contents of a node as a borrowed text.
pub fn contents(text: &Option<String>) -> (r: Option<&str>)
    ensures
        str_view(r) == text_view(*text),
{
    match text {
        Some(t) => Some(t.as_str()),
        None => None,
    }
}

pub open spec fn trimmed_view(text: Option<String>) -> Option<Seq<char>> {
    match text {
        Some(t) => Some(text::trimmed(t@)),
        None => None,
    }
}

impl HwState {
    pub open spec fn unread() -> HwState {
        HwState {
            fan_mode: None,
            fan_custom_speed: None,
            fan_pwm: None,
            charge_mode: None,
            charge_limit: None,
            battery_cycle: None,
            gpu_boost: None,
            light_sensor: None,
        }
    }

    /// The snapshot that the texts of the nodes amount to.
    pub fn read(texts: &NodeTexts) -> (r: Self)
        ensures
            as_int(r.fan_mode) == node_value(text_view(texts.fan_mode)),
            as_int(r.fan_custom_speed) == node_value(text_view(texts.fan_custom_speed)),
            as_int(r.fan_pwm) == node_value(text_view(texts.fan_pwm)),
            as_int(r.charge_mode) == node_value(text_view(texts.charge_mode)),
            as_int(r.charge_limit) == node_value(text_view(texts.charge_limit)),
            as_int(r.gpu_boost) == node_value(text_view(texts.gpu_boost)),
            text_view(r.battery_cycle) == trimmed_view(texts.battery_cycle),
            text_view(r.light_sensor) == trimmed_view(texts.light_sensor),
    {
        HwState {
            fan_mode: read_i32(contents(&texts.fan_mode)),
            fan_custom_speed: read_i32(contents(&texts.fan_custom_speed)),
            fan_pwm: read_i32(contents(&texts.fan_pwm)),
            charge_mode: read_i32(contents(&texts.charge_mode)),
            charge_limit: read_i32(contents(&texts.charge_limit)),
            battery_cycle: read_trimmed(contents(&texts.battery_cycle)),
            gpu_boost: read_i32(contents(&texts.gpu_boost)),
            light_sensor: read_trimmed(contents(&texts.light_sensor)),
        }
    }

    pub fn battery_cycle_text(&self) -> (r: String)
        ensures
            r@ == cycle_text(text_view(self.battery_cycle)),
    {
        battery_cycle_text(contents(&self.battery_cycle))
    }

    pub fn light_sensor_text(&self) -> (r: String)
        ensures
            r@ == light_text(text_view(self.light_sensor)),
    {
        light_sensor_text(contents(&self.light_sensor))
    }

    /// The mode a setting depends on makes it take effect.
    pub open spec fn takes_effect(&self, setting: Dependent) -> bool {
        match setting {
            Dependent::FanCustomSpeed => self.fan_mode == Some(4i32) || self.fan_mode == Some(5i32),
            Dependent::FanCurve => self.fan_mode == Some(3i32),
            Dependent::ChargeLimit => self.charge_mode == Some(1i32),
        }
    }

    /// The mode a setting depends on could be read.
    pub open spec fn knows_mode_of(&self, setting: Dependent) -> bool {
        match setting {
            Dependent::FanCustomSpeed => self.fan_mode is Some,
            Dependent::FanCurve => self.fan_mode is Some,
            Dependent::ChargeLimit => self.charge_mode is Some,
        }
    }

    /// Why a setting is currently doing nothing, where it is known to.
    pub open spec fn inert_text(&self, setting: Dependent) -> Option<Seq<char>> {
        if self.knows_mode_of(setting) && !self.takes_effect(setting) {
            Some(setting.requirement_text())
        } else {
            None
        }
    }

    /// Whether a mode-dependent setting is currently doing anything.
    pub fn is_active(&self, setting: Dependent) -> (r: bool)
        ensures
            r == self.takes_effect(setting),
    {
        match setting {
            Dependent::FanCustomSpeed => match self.fan_mode {
                Some(mode) => mode == FAN_MODE_AUTO || mode == FAN_MODE_FIXED,
                None => false,
            },
            Dependent::FanCurve => match self.fan_mode {
                Some(mode) => mode == FAN_MODE_CUSTOM,
                None => false,
            },
            Dependent::ChargeLimit => match self.charge_mode {
                Some(mode) => mode == CHARGE_MODE_CUSTOM,
                None => false,
            },
        }
    }

    /// `Some(reason)` when the setting currently has no effect. Reads that
    /// failed are reported as active, so an unreadable node never produces a
    /// misleading warning.
    pub fn inactive_reason(&self, setting: Dependent) -> (r: Option<&'static str>)
        ensures
            str_view(r) == self.inert_text(setting),
    {
        let known: bool = match setting {
            Dependent::FanCustomSpeed => self.fan_mode.is_some(),
            Dependent::FanCurve => self.fan_mode.is_some(),
            Dependent::ChargeLimit => self.charge_mode.is_some(),
        };
        if known && !self.is_active(setting) {
            Some(setting.requirement())
        } else {
            None
        }
    }
}

// --- Laws of the name tables ---

proof fn lemma_fan_mode_names()
    ensures
        forall|i: int, j: int|
            0 <= i < 6 && 0 <= j < 6 && i != j ==> !text::alike(
                (#[trigger] FAN_MODES@[i])@,
                (#[trigger] FAN_MODES@[j])@,
            ),
        forall|i: int| 0 <= i < 6 ==> text::trimmed((#[trigger] FAN_MODES@[i])@) == FAN_MODES@[i]@,
{
    reveal_strlit("Normal");
    reveal_strlit("Silent");
    reveal_strlit("Gaming");
    reveal_strlit("Custom");
    reveal_strlit("Auto");
    reveal_strlit("Fixed");
    assert forall|i: int, j: int| 0 <= i < 6 && 0 <= j < 6 && i != j implies !text::alike(
        (#[trigger] FAN_MODES@[i])@,
        (#[trigger] FAN_MODES@[j])@,
    ) by {
        let a = FAN_MODES@[i]@;
        let b = FAN_MODES@[j]@;
        if a.len() == b.len() {
            assert(text::lowered(a)[0] == text::lower(a[0]));
            assert(text::lowered(b)[0] == text::lower(b[0]));
        } else {
            assert(text::lowered(a).len() == a.len());
            assert(text::lowered(b).len() == b.len());
        }
    }
}

/// Every fan mode value is found again under its own name, whatever the case and
/// the white space around it.
pub proof fn law_fan_mode_names_round_trip(value: i32, name: Seq<char>)
    requires
        0 <= value < 6,
        text::alike(text::trimmed(name), name_text(FAN_MODES@, Some(value))),
    ensures
        named_value(FAN_MODES@, name) == Some(value as int),
        named_value(FAN_MODES@, name_text(FAN_MODES@, Some(value))) == Some(value as int),
{
    lemma_fan_mode_names();
    reveal_with_fuel(position_among, 7);
    let own = FAN_MODES@[value as int];
    assert(FAN_MODES@.len() == 6);
    assert(forall|j: int| 0 <= j < 6 && j != value ==> !text::alike(#[trigger] FAN_MODES@[j]@, own@));
    assert(!text::alike(FAN_MODES@[0]@, own@) || value == 0);
    assert(!text::alike(FAN_MODES@[1]@, own@) || value == 1);
    assert(!text::alike(FAN_MODES@[2]@, own@) || value == 2);
    assert(!text::alike(FAN_MODES@[3]@, own@) || value == 3);
    assert(!text::alike(FAN_MODES@[4]@, own@) || value == 4);
}

/// Every charging mode value is found again under its own name, whatever the
/// case and the white space around it.
pub proof fn law_charge_mode_names_round_trip(value: i32, name: Seq<char>)
    requires
        0 <= value < 2,
        text::alike(text::trimmed(name), name_text(CHARGE_MODES@, Some(value))),
    ensures
        named_value(CHARGE_MODES@, name) == Some(value as int),
        named_value(CHARGE_MODES@, name_text(CHARGE_MODES@, Some(value))) == Some(value as int),
{
    reveal_strlit("Normal");
    reveal_strlit("Custom");
    reveal_with_fuel(position_among, 3);
    let a = CHARGE_MODES@[0]@;
    let b = CHARGE_MODES@[1]@;
    assert(text::lowered(a)[0] == text::lower(a[0]));
    assert(text::lowered(b)[0] == text::lower(b[0]));
}

/// What is written to a node reads back as the value that was written.
pub proof fn law_a_written_value_reads_back(value: i32)
    ensures
        node_value(Some(text::decimal_int(value as int) + "\n"@)) == Some(value as int),
{
    reveal_strlit("\n");
    assert(text::decimal_int(value as int) + "\n"@ =~= text::decimal_int(value as int).push('\n'));
    text::lemma_trimmed_number_line(value as int);
    text::law_decimal_int_reads_back(value as int, i32::MIN as int, i32::MAX as nat);
}

/// A mode that could not be read never makes a setting look inert.
pub proof fn law_unread_modes_give_no_warning(hw: HwState)
    ensures
        hw.fan_mode is None ==> hw.inert_text(Dependent::FanCustomSpeed) is None && hw.inert_text(
            Dependent::FanCurve,
        ) is None,
        hw.charge_mode is None ==> hw.inert_text(Dependent::ChargeLimit) is None,
{
}

/// How far reading the curve has come: the points read, the writes made, and what
/// went wrong.
pub struct CurveTrace {
    pub done: Seq<(i32, i32)>,
    pub writes: Seq<Write>,
    pub fault: Option<Fault>,
}

/// Reading the curve of a device, step by step: the first point is selected, and
/// then as long as [`next_curve_point`] gives a write it is made, and what the
/// device shows for the point that was selected last is handed in.
pub open spec fn curve_trace(device: Seq<Option<Seq<char>>>, steps: nat) -> CurveTrace
    decreases steps,
{
    if steps == 0 {
        CurveTrace { done: Seq::empty(), writes: seq![selection(0)], fault: None }
    } else {
        let before = curve_trace(device, (steps - 1) as nat);
        let data = device[before.writes.last().value as int];
        if before.fault is Some || before.done.len() >= FAN_CURVE_POINTS {
            before
        } else if data_fault(before.done.len() as usize, data) is Some {
            CurveTrace { fault: data_fault(before.done.len() as usize, data), ..before }
        } else {
            let done = before.done.push(point_in(data));
            CurveTrace {
                done,
                writes: match next_selection(done.len()) {
                    Some(write) => before.writes.push(write),
                    None => before.writes,
                },
                fault: None,
            }
        }
    }
}

/// The curve is read whole, each point selected before it is read and in order;
/// or there is an error, and nothing behind the point that failed is selected.
pub proof fn law_a_curve_is_read_whole_or_not_at_all(
    device: Seq<Option<Seq<char>>>,
    steps: nat,
    i: int,
)
    requires
        device.len() == FAN_CURVE_POINTS,
        steps <= FAN_CURVE_POINTS,
        0 <= i,
    ensures
        ({
            let trace = curve_trace(device, steps);
            &&& trace.fault == read_fault(device, steps)
            &&& trace.fault is None ==> trace.done.len() == steps
            &&& trace.fault is Some ==> trace.done.len() < steps && read_fault(
                device,
                trace.done.len(),
            ) is None && trace.writes.len() == trace.done.len() + 1
            &&& trace.fault is None ==> trace.writes.len() == if steps < FAN_CURVE_POINTS {
                steps + 1
            } else {
                FAN_CURVE_POINTS as nat
            }
            &&& i < trace.done.len() ==> trace.done[i] == point_in(device[i])
            &&& i < trace.writes.len() ==> trace.writes[i] == selection(i)
        }),
    decreases steps,
{
    if steps > 0 {
        let before = curve_trace(device, (steps - 1) as nat);
        law_a_curve_is_read_whole_or_not_at_all(device, (steps - 1) as nat, i);
        law_a_curve_is_read_whole_or_not_at_all(
            device,
            (steps - 1) as nat,
            before.writes.len() - 1,
        );
    }
}

/// The attributes lie in the driver's directory, each under its own name.
pub proof fn law_attributes_lie_in_the_drivers_directory(i: int)
    requires
        0 <= i < 10,
    ensures
        NODE_PATHS@[i]@ == "/sys/devices/platform/aorus_laptop/"@ + NODE_NAMES@[i]@,
        FAN_MODE@ == ROOT@ + "/fan_mode"@,
        FAN_CUSTOM_SPEED@ == ROOT@ + "/fan_custom_speed"@,
        FAN_PWM@ == ROOT@ + "/fan_pwm"@,
        FAN_CURVE_INDEX@ == ROOT@ + "/fan_curve_index"@,
        FAN_CURVE_DATA@ == ROOT@ + "/fan_curve_data"@,
        CHARGE_MODE@ == ROOT@ + "/charge_mode"@,
        CHARGE_LIMIT@ == ROOT@ + "/charge_limit"@,
        BATTERY_CYCLE@ == ROOT@ + "/battery_cycle"@,
        GPU_BOOST@ == ROOT@ + "/gpu_boost"@,
        LIGHT_SENSOR@ == ROOT@ + "/light_sensor"@,
{
    reveal_strlit("/sys/devices/platform/aorus_laptop");
    reveal_strlit("/sys/devices/platform/aorus_laptop/");
    reveal_strlit("fan_mode");
    reveal_strlit("fan_custom_speed");
    reveal_strlit("fan_pwm");
    reveal_strlit("fan_curve_index");
    reveal_strlit("fan_curve_data");
    reveal_strlit("charge_mode");
    reveal_strlit("charge_limit");
    reveal_strlit("battery_cycle");
    reveal_strlit("gpu_boost");
    reveal_strlit("light_sensor");
    reveal_strlit("/fan_mode");
    reveal_strlit("/fan_custom_speed");
    reveal_strlit("/fan_pwm");
    reveal_strlit("/fan_curve_index");
    reveal_strlit("/fan_curve_data");
    reveal_strlit("/charge_mode");
    reveal_strlit("/charge_limit");
    reveal_strlit("/battery_cycle");
    reveal_strlit("/gpu_boost");
    reveal_strlit("/light_sensor");
    reveal_strlit("/sys/devices/platform/aorus_laptop/fan_mode");
    reveal_strlit("/sys/devices/platform/aorus_laptop/fan_custom_speed");
    reveal_strlit("/sys/devices/platform/aorus_laptop/fan_pwm");
    reveal_strlit("/sys/devices/platform/aorus_laptop/fan_curve_index");
    reveal_strlit("/sys/devices/platform/aorus_laptop/fan_curve_data");
    reveal_strlit("/sys/devices/platform/aorus_laptop/charge_mode");
    reveal_strlit("/sys/devices/platform/aorus_laptop/charge_limit");
    reveal_strlit("/sys/devices/platform/aorus_laptop/battery_cycle");
    reveal_strlit("/sys/devices/platform/aorus_laptop/gpu_boost");
    reveal_strlit("/sys/devices/platform/aorus_laptop/light_sensor");
    assert(FAN_MODE@ =~= ROOT@ + "/fan_mode"@);
    assert(FAN_CUSTOM_SPEED@ =~= ROOT@ + "/fan_custom_speed"@);
    assert(FAN_PWM@ =~= ROOT@ + "/fan_pwm"@);
    assert(FAN_CURVE_INDEX@ =~= ROOT@ + "/fan_curve_index"@);
    assert(FAN_CURVE_DATA@ =~= ROOT@ + "/fan_curve_data"@);
    assert(CHARGE_MODE@ =~= ROOT@ + "/charge_mode"@);
    assert(CHARGE_LIMIT@ =~= ROOT@ + "/charge_limit"@);
    assert(BATTERY_CYCLE@ =~= ROOT@ + "/battery_cycle"@);
    assert(GPU_BOOST@ =~= ROOT@ + "/gpu_boost"@);
    assert(LIGHT_SENSOR@ =~= ROOT@ + "/light_sensor"@);
    assert(NODE_PATHS@[i]@ =~= "/sys/devices/platform/aorus_laptop/"@ + NODE_NAMES@[i]@);
}

/// A fan speed is taken from 0 to 255, a charge limit from 60 to 100, and a point
/// of the curve has one of fifteen places.
pub proof fn law_values_are_taken_within_their_ranges(
    value: i32,
    index: usize,
    speed: Result<(), Error>,
    limit: Result<(), Error>,
    place: Result<(), Error>,
)
    requires
        call_ensures(validate_fan_speed, (value,), speed),
        call_ensures(validate_charge_limit, (value,), limit),
        call_ensures(validate_curve_index, (index,), place),
    ensures
        speed is Ok <==> 0 <= value <= 255,
        limit is Ok <==> 60 <= value <= 100,
        place is Ok <==> index < 15,
{
}

/// A curve is accepted exactly when every temperature is from 0 to 100, every
/// speed from 0 to 255, and neither is ever lower at a later point than at an
/// earlier one: the fans never slow down as it gets hotter.
pub proof fn law_an_accepted_curve_never_falls(curve: &[(i32, i32)], r: Result<(), Error>)
    requires
        call_ensures(validate_fan_curve, (curve,), r),
    ensures
        r is Ok <==> {
            &&& forall|i: int|
                0 <= i < curve@.len() ==> 0 <= (#[trigger] curve@[i]).0 <= 100 && 0 <= curve@[i].1
                    <= 255
            &&& forall|i: int, j: int|
                0 <= i < j < curve@.len() ==> (#[trigger] curve@[i]).0 <= (#[trigger] curve@[j]).0
                    && curve@[i].1 <= curve@[j].1
        },
{
}

/// A point may be put into a curve exactly when it has one of the fifteen places,
/// its values are in range, and it is neither below the point before it nor above
/// the point after it.
pub proof fn law_a_point_fits_between_its_neighbours(
    curve: &[(i32, i32)],
    index: usize,
    temp: i32,
    speed: i32,
    r: Result<(), Error>,
)
    requires
        call_ensures(validate_curve_point_in, (curve, index, temp, speed), r),
        curve@.len() == 15,
        forall|i: int|
            0 <= i < curve@.len() ==> 0 <= (#[trigger] curve@[i]).0 <= 100 && 0 <= curve@[i].1
                <= 255,
    ensures
        r is Ok <==> {
            &&& index < 15
            &&& 0 <= temp <= 100
            &&& 0 <= speed <= 255
            &&& index > 0 ==> curve@[index - 1].0 <= temp && curve@[index - 1].1 <= speed
            &&& index < 14 ==> temp <= curve@[index + 1].0 && speed <= curve@[index + 1].1
        },
{
}

/// Setting a point takes two writes: its place to the index node, and then to the
/// data node a number with the temperature in its low byte and the speed above.
pub proof fn law_a_point_is_selected_and_then_written(
    index: usize,
    temp: i32,
    speed: i32,
    r: Result<Vec<Write>, Error>,
)
    requires
        call_ensures(write_fan_curve_point, (index, temp, speed), r),
    ensures
        r is Ok <==> index < 15 && 0 <= temp <= 100 && 0 <= speed <= 255,
        r matches Ok(writes) ==> {
            &&& writes@.len() == 2
            &&& writes@[0] == (Write { path: FAN_CURVE_INDEX, value: index as i32 })
            &&& writes@[1].path == FAN_CURVE_DATA
            &&& writes@[1].value % 256 == temp
            &&& writes@[1].value / 256 == speed
        },
{
}

/// A node that holds a number, on a line of its own or not, is read as that
/// number; what cannot be read has none.
pub proof fn law_a_node_reads_as_its_number(
    contents: &str,
    n: i32,
    r: Option<i32>,
    missing: Option<i32>,
)
    requires
        call_ensures(read_i32, (Some(contents),), r),
        call_ensures(read_i32, (None,), missing),
        contents@ == text::decimal_int(n as int) + "\n"@ || contents@ == text::decimal_int(
            n as int,
        ),
    ensures
        r == Some(n),
        missing is None,
{
    lemma_plain_number(n as int);
    law_a_written_value_reads_back(n);
    text::law_decimal_int_reads_back(n as int, i32::MIN as int, i32::MAX as nat);
}

proof fn lemma_plain_number(n: int)
    ensures
        text::decimal_int(n).len() > 0,
        text::trimmed(text::decimal_int(n)) == text::decimal_int(n),
        forall|i: int|
            0 <= i < text::decimal_int(n).len() ==> !text::is_space(
                #[trigger] text::decimal_int(n)[i],
            ),
{
    let s = text::decimal_int(n);
    if n < 0 {
        text::lemma_decimal_shape((-n) as nat);
        let digits = text::decimal((-n) as nat);
        assert(s =~= seq!['-'] + digits);
        assert forall|i: int| 0 <= i < s.len() implies !text::is_space(#[trigger] s[i]) by {
            if i > 0 {
                assert(text::is_digit(digits[i - 1]));
            }
        }
    } else {
        text::lemma_decimal_shape(n as nat);
        assert forall|i: int| 0 <= i < s.len() implies !text::is_space(#[trigger] s[i]) by {
            assert(text::is_digit(s[i]));
        }
    }
    assert(!text::is_space(s[0]));
    assert(!text::is_space(s[s.len() - 1]));
}

/// What is written to a node is the number, and it reads back.
pub proof fn law_a_written_line_reads_back(value: i32, line: String, shown: &str, r: Option<i32>)
    requires
        call_ensures(node_line, (value,), line),
        call_ensures(read_i32, (Some(shown),), r),
        shown@ == line@,
    ensures
        r == Some(value),
{
    law_a_written_value_reads_back(value);
}

/// Each value of a snapshot is the one in the node of the same name.
pub proof fn law_a_snapshot_holds_what_the_nodes_hold(texts: NodeTexts, r: HwState, n: i32)
    requires
        call_ensures(HwState::read, (&texts,), r),
    ensures
        ({
            let line = Some(text::decimal_int(n as int) + "\n"@);
            &&& text_view(texts.fan_mode) == line ==> r.fan_mode == Some(n)
            &&& text_view(texts.fan_custom_speed) == line ==> r.fan_custom_speed == Some(n)
            &&& text_view(texts.fan_pwm) == line ==> r.fan_pwm == Some(n)
            &&& text_view(texts.charge_mode) == line ==> r.charge_mode == Some(n)
            &&& text_view(texts.charge_limit) == line ==> r.charge_limit == Some(n)
            &&& text_view(texts.gpu_boost) == line ==> r.gpu_boost == Some(n)
        }),
        texts.fan_mode is None ==> r.fan_mode is None,
        texts.fan_custom_speed is None ==> r.fan_custom_speed is None,
        texts.fan_pwm is None ==> r.fan_pwm is None,
        texts.charge_mode is None ==> r.charge_mode is None,
        texts.charge_limit is None ==> r.charge_limit is None,
        texts.gpu_boost is None ==> r.gpu_boost is None,
        texts.battery_cycle matches Some(t) ==> (r.battery_cycle matches Some(v) && v@
            == text::trimmed(t@)),
        texts.light_sensor matches Some(t) ==> (r.light_sensor matches Some(v) && v@
            == text::trimmed(t@)),
        texts.battery_cycle is None ==> r.battery_cycle is None,
        texts.light_sensor is None ==> r.light_sensor is None,
{
    law_a_written_value_reads_back(n);
}

/// A mode is known by its place among the names, in any case and with white space
/// around it; nothing else is a mode.
pub proof fn law_modes_are_known_by_their_names(
    name: &str,
    value: i32,
    fan: Result<i32, Error>,
    charge: Result<i32, Error>,
)
    requires
        call_ensures(fan_mode_value, (name,), fan),
        call_ensures(charge_mode_value, (name,), charge),
    ensures
        ({
            let word = text::lowered(text::trimmed(name@));
            let fan_names = seq!["Normal"@, "Silent"@, "Gaming"@, "Custom"@, "Auto"@, "Fixed"@];
            let charge_names = seq!["Normal"@, "Custom"@];
            &&& fan == Ok::<i32, Error>(value) <==> 0 <= value < 6 && word == text::lowered(
                fan_names[value as int],
            )
            &&& charge == Ok::<i32, Error>(value) <==> 0 <= value < 2 && word == text::lowered(
                charge_names[value as int],
            )
        }),
{
    let word = text::trimmed(name@);
    let fan_names = seq!["Normal"@, "Silent"@, "Gaming"@, "Custom"@, "Auto"@, "Fixed"@];
    let charge_names = seq!["Normal"@, "Custom"@];
    assert(forall|i: int| 0 <= i < 6 ==> #[trigger] FAN_MODES@[i]@ == fan_names[i]);
    assert(forall|i: int| 0 <= i < 2 ==> #[trigger] CHARGE_MODES@[i]@ == charge_names[i]);
    lemma_position_is_alike(FAN_MODES@, word, 6);
    lemma_position_is_alike(CHARGE_MODES@, word, 2);
    if 0 <= value < 6 && text::lowered(word) == text::lowered(fan_names[value as int]) {
        assert(text::alike(word, name_text(FAN_MODES@, Some(value))));
        law_fan_mode_names_round_trip(value, name@);
    }
    if 0 <= value < 2 && text::lowered(word) == text::lowered(charge_names[value as int]) {
        assert(text::alike(word, name_text(CHARGE_MODES@, Some(value))));
        law_charge_mode_names_round_trip(value, name@);
    }
}

proof fn lemma_position_is_alike(names: Seq<&'static str>, name: Seq<char>, n: nat)
    ensures
        position_among(names, name, n) matches Some(i) ==> 0 <= i < n && text::alike(
            names[i]@,
            name,
        ),
    decreases n,
{
    if n > 0 {
        lemma_position_is_alike(names, name, (n - 1) as nat);
    }
}

/// A switch is turned on by four words, off by four others, in any case and with
/// white space around them; nothing else is a switch.
pub proof fn law_switches_have_eight_words(name: &str, r: Result<i32, Error>)
    requires
        call_ensures(on_off_value, (name,), r),
    ensures
        ({
            let word = text::lowered(text::trimmed(name@));
            let on = word == "on"@ || word == "1"@ || word == "true"@ || word == "yes"@;
            let off = word == "off"@ || word == "0"@ || word == "false"@ || word == "no"@;
            &&& r == Ok::<i32, Error>(1) <==> on
            &&& r == Ok::<i32, Error>(0) <==> off
            &&& r is Err <==> !on && !off
        }),
{
    reveal_strlit("on");
    reveal_strlit("1");
    reveal_strlit("true");
    reveal_strlit("yes");
    reveal_strlit("off");
    reveal_strlit("0");
    reveal_strlit("false");
    reveal_strlit("no");
    let word = text::lowered(text::trimmed(name@));
    assert("on"@.len() == 2 && "1"@.len() == 1 && "true"@.len() == 4 && "yes"@.len() == 3);
    assert("off"@.len() == 3 && "0"@.len() == 1 && "false"@.len() == 5 && "no"@.len() == 2);
    assert("on"@[1] != "no"@[1]);
    assert("1"@[0] != "0"@[0]);
    assert("yes"@[0] != "off"@[0]);
    assert(switch_value(word) == Some(1int) <==> word == "on"@ || word == "1"@ || word == "true"@
        || word == "yes"@);
    assert(switch_value(word) == Some(0int) <==> word == "off"@ || word == "0"@ || word == "false"@
        || word == "no"@);
}

/// A setting takes effect in the modes that bear the right names, and only there:
/// a custom speed in the fan modes Auto and Fixed, the curve in the fan mode
/// Custom, a charge limit in the charge mode Custom. It is called inactive
/// exactly when the mode is known and is another.
pub proof fn law_settings_depend_on_the_mode(
    hw: HwState,
    setting: Dependent,
    mode: i32,
    active: bool,
    reason: Option<&'static str>,
)
    requires
        call_ensures(HwState::is_active, (&hw, setting), active),
        call_ensures(HwState::inactive_reason, (&hw, setting), reason),
    ensures
        setting is FanCustomSpeed && hw.fan_mode == Some(mode) && 0 <= mode < 6 ==> active == (
        FAN_MODES@[mode as int]@ == "Auto"@ || FAN_MODES@[mode as int]@ == "Fixed"@),
        setting is FanCurve && hw.fan_mode == Some(mode) && 0 <= mode < 6 ==> active == (
        FAN_MODES@[mode as int]@ == "Custom"@),
        setting is ChargeLimit && hw.charge_mode == Some(mode) && 0 <= mode < 2 ==> active == (
        CHARGE_MODES@[mode as int]@ == "Custom"@),
        !(setting is ChargeLimit) && hw.fan_mode == Some(mode) && !(0 <= mode < 6) ==> !active,
        setting is ChargeLimit && hw.charge_mode == Some(mode) && !(0 <= mode < 2) ==> !active,
        !(setting is ChargeLimit) && hw.fan_mode is None ==> !active && reason is None,
        setting is ChargeLimit && hw.charge_mode is None ==> !active && reason is None,
        !(setting is ChargeLimit) && hw.fan_mode is Some ==> (reason is Some <==> !active),
        setting is ChargeLimit && hw.charge_mode is Some ==> (reason is Some <==> !active),
        reason matches Some(text) ==> text@ == match setting {
            Dependent::FanCustomSpeed => "requires Auto or Fixed fan mode"@,
            Dependent::FanCurve => "requires Custom fan mode"@,
            Dependent::ChargeLimit => "requires Custom charge mode"@,
        },
{
    reveal_strlit("Normal");
    reveal_strlit("Silent");
    reveal_strlit("Gaming");
    reveal_strlit("Custom");
    reveal_strlit("Auto");
    reveal_strlit("Fixed");
    assert("Normal"@[0] != "Custom"@[0]);
    assert("Silent"@[0] != "Custom"@[0]);
    assert("Gaming"@[0] != "Custom"@[0]);
}

/// A light sensor that reports four bytes reads as the number that the last three
/// are the base 256 digits of, the lowest first; one that reports a single number
/// reads as that number.
pub proof fn law_light_readings_are_decoded(
    version: u32,
    low: u32,
    medium: u32,
    high: u32,
    raw: &str,
    r: Option<u32>,
)
    requires
        call_ensures(parse_light_sensor, (raw,), r),
        low < 256,
        medium < 256,
        high < 256,
    ensures
        raw@ == text::decimal(version as nat) + " "@ + text::decimal(low as nat) + " "@
            + text::decimal(medium as nat) + " "@ + text::decimal(high as nat) ==> r == Some(
            (high * 65536 + medium * 256 + low) as u32,
        ),
        raw@ == text::decimal(version as nat) ==> r == Some(version),
{
    let a = text::decimal(version as nat);
    let b = text::decimal(low as nat);
    let c = text::decimal(medium as nat);
    let d = text::decimal(high as nat);
    lemma_plain_number(version as int);
    lemma_plain_number(low as int);
    lemma_plain_number(medium as int);
    lemma_plain_number(high as int);
    text::law_decimal_reads_back(version as nat, u32::MAX as nat);
    text::law_decimal_reads_back(low as nat, u32::MAX as nat);
    text::law_decimal_reads_back(medium as nat, u32::MAX as nat);
    text::law_decimal_reads_back(high as nat, u32::MAX as nat);
    let four = seq![a, b, c, d];
    text::law_words_come_back_apart(four);
    text::law_words_come_back_apart(seq![a]);
    reveal_with_fuel(text::joined, 5);
    assert(four.drop_last() =~= seq![a, b, c]);
    assert(seq![a, b, c].drop_last() =~= seq![a, b]);
    assert(seq![a, b].drop_last() =~= seq![a]);
    assert(text::joined(four, " "@) =~= a + " "@ + b + " "@ + c + " "@ + d);
    law_light_bytes_recombine(low, medium, high);
}

/// The text that the data node shows for a point.
pub open spec fn shown_point(point: (i32, i32)) -> Seq<char> {
    text::decimal_int(point.0 as int) + " "@ + text::decimal_int(point.1 as int) + "\n"@
}

proof fn lemma_shown_point(point: (i32, i32))
    ensures
        curve_point(text::trimmed(shown_point(point))) == Some((point.0 as int, point.1 as int)),
{
    reveal_strlit(" ");
    reveal_strlit("\n");
    let a = text::decimal_int(point.0 as int);
    let b = text::decimal_int(point.1 as int);
    lemma_plain_number(point.0 as int);
    lemma_plain_number(point.1 as int);
    text::law_decimal_int_reads_back(point.0 as int, i32::MIN as int, i32::MAX as nat);
    text::law_decimal_int_reads_back(point.1 as int, i32::MIN as int, i32::MAX as nat);
    let line = a + " "@ + b;
    let full = shown_point(point);
    assert(full[0] == a[0]);
    assert(text::trimmed_start(full) == full);
    assert(full.last() == '\n');
    assert(full.drop_last() =~= line);
    assert(line[line.len() - 1] == b[b.len() - 1]);
    assert(text::trimmed_end(line) == line);
    assert(text::trimmed(full) == line);
    let two = seq![a, b];
    text::law_words_come_back_apart(two);
    reveal_with_fuel(text::joined, 3);
    assert(two.drop_last() =~= seq![a]);
    assert(text::joined(two, " "@) =~= line);
}

/// A point is read as the data node shows it: the temperature, then the speed.
pub proof fn law_a_point_is_read_as_it_is_shown(
    index: usize,
    data: &str,
    point: (i32, i32),
    r: Result<(i32, i32), Error>,
)
    requires
        call_ensures(read_fan_curve_point, (index, Some(data)), r),
        data@ == shown_point(point),
    ensures
        r == Ok::<(i32, i32), Error>(point),
{
    lemma_shown_point(point);
}

/// A curve is read as the data node shows it, point by point.
pub proof fn law_a_curve_is_read_as_it_is_shown(
    data: &[Option<String>],
    curve: Seq<(i32, i32)>,
    r: Result<Vec<(i32, i32)>, Error>,
)
    requires
        call_ensures(read_fan_curve, (data,), r),
        curve.len() == 15,
        data@.len() == 15,
        forall|i: int| 0 <= i < 15 ==> text_view(#[trigger] data@[i]) == Some(shown_point(curve[i])),
    ensures
        r matches Ok(read) && read@ == curve,
{
    let all = data_views(data@);
    assert forall|i: int| 0 <= i < 15 implies #[trigger] answer(all, i) == Some(
        shown_point(curve[i]),
    ) by {
        assert(all[i] == text_view(data@[i]));
    }
    lemma_shown_curve(all, curve, 15);
    let read = r->Ok_0@;
    assert forall|i: int| 0 <= i < 15 implies #[trigger] read[i] == curve[i] by {
        lemma_shown_point(curve[i]);
        assert(answer(all, i) == Some(shown_point(curve[i])));
    }
    assert(read =~= curve);
}

proof fn lemma_shown_curve(all: Seq<Option<Seq<char>>>, curve: Seq<(i32, i32)>, n: nat)
    requires
        n <= 15,
        forall|i: int| 0 <= i < 15 ==> #[trigger] answer(all, i) == Some(shown_point(curve[i])),
    ensures
        read_fault(all, n) is None,
    decreases n,
{
    if n > 0 {
        lemma_shown_curve(all, curve, (n - 1) as nat);
        lemma_shown_point(curve[n - 1]);
        assert(answer(all, n - 1) == Some(shown_point(curve[n - 1])));
    }
}

/// Reading the curve begins with selecting the first point; each point that is
/// read is put behind the ones before it, and the next one is selected, up to the
/// fifteenth.
pub proof fn law_points_are_selected_one_after_the_other(
    first: Write,
    done: &mut Vec<(i32, i32)>,
    data: &str,
    point: (i32, i32),
    r: Result<Option<Write>, Error>,
)
    requires
        call_ensures(first_curve_point, (), first),
        call_ensures(next_curve_point, (done, Some(data)), r),
        data@ == shown_point(point),
        old(done)@.len() < 15,
    ensures
        first == (Write { path: FAN_CURVE_INDEX, value: 0 }),
        final(done)@ == old(done)@.push(point),
        old(done)@.len() < 14 ==> r == Ok::<Option<Write>, Error>(
            Some(Write { path: FAN_CURVE_INDEX, value: (old(done)@.len() + 1) as i32 }),
        ),
        old(done)@.len() == 14 ==> r == Ok::<Option<Write>, Error>(None),
{
    lemma_shown_point(point);
}

/// A write that failed is reported, and one that did not is not.
pub proof fn law_failed_writes_are_reported(
    path: &str,
    value: i32,
    failure: Option<WriteFailure>,
    r: Result<(), Error>,
)
    requires
        call_ensures(write_value, (path, value, failure), r),
    ensures
        r is Ok <==> failure is None,
{
}

/// A number is shown so that it can be read back, a missing one as such. A cycle
/// count is shown as it was read, except that `0` stands for a battery without one.
pub proof fn law_numbers_are_shown_as_they_were_read(
    value: Option<i32>,
    shown: String,
    cycle: Option<&str>,
    count: String,
)
    requires
        call_ensures(value_or_na, (value,), shown),
        call_ensures(battery_cycle_text, (cycle,), count),
    ensures
        value matches Some(v) ==> text::parsed_int(shown@, i32::MIN as int, i32::MAX as nat)
            == Some(v as int),
        value is None ==> shown@ == "N/A"@,
        cycle is None ==> count@ == "N/A"@,
        cycle matches Some(t) ==> (count@ == t@ <==> t@ != "0"@),
{
    reveal_strlit("0");
    reveal_strlit("Device does not support this feature");
    assert("0"@.len() == 1 && "Device does not support this feature"@.len() == 36);
    if let Some(v) = value {
        text::law_decimal_int_reads_back(v as int, i32::MIN as int, i32::MAX as nat);
    }
}

/// The light sensor is shown as the number that its text stands for; `0` means that
/// none is fitted, and a text that stands for no number is shown as it is. Only one
/// number or four stand for one.
pub proof fn law_the_light_is_shown_as_it_was_read(
    raw: Option<&str>,
    inside: &str,
    parsed: Option<u32>,
    r: String,
)
    requires
        call_ensures(light_sensor_text, (raw,), r),
        call_ensures(parse_light_sensor, (inside,), parsed),
        raw matches Some(t) && text::trimmed(t@) == inside@,
    ensures
        parsed matches Some(v) && v > 0 ==> r@ == text::decimal(parsed->0 as nat),
        parsed == Some(0u32) ==> r@ == "Not equipped"@,
        parsed is None ==> text::includes(r@, inside@),
        parsed is Some ==> text::words_of(inside@).len() == 1 || text::words_of(inside@).len() == 4,
{
    if parsed is None {
        let at = "Unknown ("@.len() as int;
        assert(r@.subrange(at, at + inside@.len()) =~= inside@);
        assert(text::occurs_at(r@, inside@, at));
    }
}

} // verus!
