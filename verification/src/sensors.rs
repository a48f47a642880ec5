//! Fan and temperature readings from `/sys/class/hwmon` (plus `nvidia-smi` as a
//! fallback for the proprietary NVIDIA driver).
//!
//! Device paths are resolved once and reused: the TUI samples these several
//! times per second, and rescanning `/sys/class/hwmon` on every tick is pure
//! overhead.

use crate::degrees::Celsius;
use crate::order;
use crate::path;
use crate::sysfs;
use crate::text;
use crate::text::Cut;
use vstd::prelude::*;
use vstd::string::StringExecFns;

verus! {

pub const HWMON_ROOT: &'static str = "/sys/class/hwmon";

/// `name` of the hwmon device registered by the laptop WMI driver.
pub const FAN_HWMON: [&'static str; 1] = ["aorus_laptop"];

pub const CPU_HWMON: [&'static str; 3] = ["coretemp", "k10temp", "zenpower"];

pub const GPU_HWMON: [&'static str; 2] = ["amdgpu", "nouveau"];

/// `nvidia-smi` costs hundreds of milliseconds per call, so its result is reused
/// for this long rather than blocking every refresh. In nanoseconds.
pub const NVIDIA_CACHE_TTL: u128 = 2_000_000_000;

/// The driver's hwmon fan channels are fixed: 1 is the CPU fan, 2 the GPU fan,
/// and 3 and 4 are extra fans only some models are fitted with.
pub const FAN_CHANNEL_NAMES: [&'static str; 2] = ["CPU fan", "GPU fan"];

/// Channels that always exist, so a reading of `0` means "stopped" rather than
/// "not fitted" and is worth showing.
pub const ALWAYS_PRESENT_FANS: u32 = 2;

// --- Fans ---

#[derive(Debug, PartialEq, Eq)]
pub struct Fan {
    /// hwmon channel number, starting at 1.
    pub channel: u32,
    pub name: String,
    pub rpm: u32,
    /// Raw PWM duty for this fan, for the channels that report one. The driver
    /// passes the embedded controller's value through unscaled and its range is
    /// undocumented, so it is shown as-is rather than as a percentage.
    pub pwm: Option<u32>,
}

#[verifier::ext_equal]
pub struct FanView {
    pub channel: u32,
    pub name: Seq<char>,
    pub rpm: u32,
    pub pwm: Option<u32>,
}

impl View for Fan {
    type V = FanView;

    open spec fn view(&self) -> FanView {
        FanView { channel: self.channel, name: self.name@, rpm: self.rpm, pwm: self.pwm }
    }
}

impl Clone for Fan {
    fn clone(&self) -> (r: Self)
        ensures
            r@ == self@,
    {
        Fan { channel: self.channel, name: self.name.clone(), rpm: self.rpm, pwm: self.pwm }
    }
}

/// The fans as plain values.
pub open spec fn fan_views(fans: Seq<Fan>) -> Seq<FanView> {
    Seq::new(fans.len(), |i: int| fans[i]@)
}

/// What a fan's reading looks like.
pub open spec fn reading_text(rpm: u32, pwm: Option<u32>) -> Seq<char> {
    match pwm {
        Some(pwm) => text::decimal(rpm as nat) + " RPM (PWM "@ + text::decimal(pwm as nat) + ")"@,
        None => text::decimal(rpm as nat) + " RPM"@,
    }
}

/// The name of a channel.
pub open spec fn channel_name(channel: u32) -> Seq<char> {
    if channel == 1 {
        "CPU fan"@
    } else if channel == 2 {
        "GPU fan"@
    } else {
        "Fan "@ + text::decimal(channel as nat)
    }
}

impl Fan {
    /// `"5357 RPM (PWM 60)"`, or just the RPM when the channel reports no duty.
    pub fn reading(&self) -> (r: String)
        ensures
            r@ == reading_text(self.rpm, self.pwm),
    {
        let mut r: String = text::decimal_of(self.rpm as u64);
        match self.pwm {
            Some(pwm) => {
                r.append(" RPM (PWM ");
                r.append(text::decimal_of(pwm as u64).as_str());
                r.append(")");
            },
            None => {
                r.append(" RPM");
            },
        }
        r
    }

    /// hwmon channels are 1-based; anything outside the known set keeps a
    /// generic name.
    pub fn name_for(channel: u32) -> (r: String)
        ensures
            r@ == channel_name(channel),
    {
        if channel == 1 {
            FAN_CHANNEL_NAMES[0].to_owned()
        } else if channel == 2 {
            FAN_CHANNEL_NAMES[1].to_owned()
        } else {
            let mut r: String = "Fan ".to_owned();
            r.append(text::decimal_of(channel as u64).as_str());
            r
        }
    }

    /// A fan that reports no duty.
    pub fn sample(channel: u32, rpm: u32) -> (r: Self)
        ensures
            r@ == (FanView { channel, name: channel_name(channel), rpm, pwm: None }),
    {
        Fan { channel, name: Self::name_for(channel), rpm, pwm: None }
    }
}

/// The channel number in a file name.
pub open spec fn input_index(file_name: Seq<char>) -> Option<u32> {
    if !text::begins(file_name, "fan"@) {
        None
    } else {
        let rest = file_name.skip("fan"@.len() as int);
        if !text::finishes(rest, "_input"@) {
            None
        } else {
            match text::parsed_nat(rest.take(rest.len() - "_input"@.len()), u32::MAX as nat) {
                Some(n) => Some(n as u32),
                None => None,
            }
        }
    }
}

/// Extracts `N` from a `fanN_input` file name.
pub fn fan_input_index(file_name: &str) -> (r: Option<u32>)
    ensures
        r == input_index(file_name@),
{
    match text::strip_prefix(file_name, "fan") {
        Some(rest) => match text::strip_suffix(rest, "_input") {
            Some(number) => text::parse_u32(number),
            None => None,
        },
        None => None,
    }
}

/// The name of the file that holds a channel's duty.
pub fn pwm_file(channel: u32) -> (r: String)
    ensures
        r@ == "pwm"@ + text::decimal(channel as nat),
{
    let mut r: String = "pwm".to_owned();
    r.append(text::decimal_of(channel as u64).as_str());
    r
}

/// An unsigned number in a hwmon node, or `None` if there is none.
pub open spec fn node_u32(contents: Option<Seq<char>>) -> Option<u32> {
    match contents {
        Some(s) => match text::parsed_nat(text::trimmed(s), u32::MAX as nat) {
            Some(n) => Some(n as u32),
            None => None,
        },
        None => None,
    }
}

/// Reads an integer hwmon node, or `None` if the channel does not exist.
pub fn read_u32(contents: &Option<String>) -> (r: Option<u32>)
    ensures
        r == node_u32(sysfs::text_view(*contents)),
{
    match contents {
        Some(s) => text::parse_u32(text::trim(s.as_str())),
        None => None,
    }
}

/// A file of the fan device's directory, with what it and the duty node of its
/// channel hold, as far as they could be read.
#[derive(Debug)]
pub struct FanInput {
    pub file_name: String,
    pub rpm: Option<String>,
    pub pwm: Option<String>,
}

impl FanInput {
    /// The fan that the file reports, if it is a fan's and worth showing.
    pub open spec fn fan(self) -> Option<FanView> {
        match (input_index(self.file_name@), node_u32(sysfs::text_view(self.rpm))) {
            (Some(channel), Some(rpm)) => if rpm == 0 && channel > ALWAYS_PRESENT_FANS {
                None
            } else {
                Some(
                    FanView {
                        channel,
                        name: channel_name(channel),
                        rpm,
                        pwm: node_u32(sysfs::text_view(self.pwm)),
                    },
                )
            },
            _ => None,
        }
    }

    fn read(&self) -> (r: Option<Fan>)
        ensures
            match r {
                Some(fan) => self.fan() == Some(fan@),
                None => self.fan() is None,
            },
    {
        let channel: u32 = match fan_input_index(self.file_name.as_str()) {
            Some(channel) => channel,
            None => {
                return None;
            },
        };
        let rpm: u32 = match read_u32(&self.rpm) {
            Some(rpm) => rpm,
            None => {
                return None;
            },
        };
        if rpm == 0 && channel > ALWAYS_PRESENT_FANS {
            return None;
        }
        Some(Fan { channel, name: Fan::name_for(channel), rpm, pwm: read_u32(&self.pwm) })
    }
}

/// The fans that the files report, in the order of the files.
pub open spec fn reported(inputs: Seq<FanInput>) -> Seq<FanView>
    decreases inputs.len(),
{
    if inputs.len() == 0 {
        Seq::empty()
    } else {
        match inputs.last().fan() {
            Some(fan) => reported(inputs.drop_last()).push(fan),
            None => reported(inputs.drop_last()),
        }
    }
}

/// Fans are ordered by their channel.
pub open spec fn by_channel() -> spec_fn(FanView) -> int {
    |fan: FanView| fan.channel as int
}

fn place(fans: &mut Vec<Fan>, fan: Fan)
    ensures
        fan_views(final(fans)@) == order::placed(fan_views(old(fans)@), fan@, by_channel()),
{
    let ghost before = fan_views(fans@);
    let mut at: usize = fans.len();
    while at > 0 && fans[at - 1].channel > fan.channel
        invariant
            at <= fans@.len(),
            before == fan_views(fans@),
            forall|i: int|
                at <= i < fans@.len() ==> by_channel()(fan@) < by_channel()(#[trigger] before[i]),
        decreases at,
    {
        at = at - 1;
        assert(before[at as int] == fans@[at as int]@);
    }
    proof {
        if at > 0 {
            assert(before[at - 1] == fans@[at - 1]@);
        }
        order::lemma_placed_at(before, fan@, by_channel(), at as int);
    }
    let ghost fresh = fan@;
    fans.insert(at, fan);
    proof {
        assert(fan_views(fans@) =~= before.insert(at as int, fresh));
    }
}

// --- Temperatures ---

#[derive(Clone, Copy, Debug, PartialEq, Eq, Structural)]
pub struct Temps {
    pub cpu: Option<Celsius>,
    pub gpu: Option<Celsius>,
}

impl Default for Temps {
    fn default() -> (r: Self)
        ensures
            r == (Temps { cpu: None, gpu: None }),
    {
        Temps { cpu: None, gpu: None }
    }
}

/// Whether a device with this `name` node is one of `names`.
pub open spec fn goes_by(name: Option<Seq<char>>, names: Seq<&'static str>) -> bool {
    name is Some && exists|i: int|
        0 <= i < names.len() && #[trigger] names[i]@ == text::trimmed(name->0)
}

fn is_named(name: &Option<String>, names: &[&'static str]) -> (r: bool)
    ensures
        r == goes_by(sysfs::text_view(*name), names@),
{
    match name {
        Some(s) => {
            let word: &str = text::trim(s.as_str());
            let mut i: usize = 0;
            while i < names.len()
                invariant
                    i <= names@.len(),
                    sysfs::text_view(*name) is Some,
                    word@ == text::trimmed(sysfs::text_view(*name)->0),
                    forall|j: int| 0 <= j < i ==> #[trigger] names@[j]@ != word@,
                decreases names@.len() - i,
            {
                if text::same(names[i], word) {
                    return true;
                }
                i = i + 1;
            }
            false
        },
        None => false,
    }
}

/// A directory under [`HWMON_ROOT`], with what its `name` node holds if it could
/// be read.
#[derive(Debug)]
pub struct Device {
    pub entry: String,
    pub name: Option<String>,
}

impl Device {
    pub open spec fn is_one_of(self, names: Seq<&'static str>) -> bool {
        goes_by(sysfs::text_view(self.name), names)
    }
}

/// The first device, in the order of the directory names, whose `name` is in
/// `names`; its path.
pub fn find_hwmon(devices: &[Device], names: &[&'static str]) -> (r: Option<String>)
    ensures
        match r {
            Some(dir) => exists|i: int|
                {
                    &&& 0 <= i < devices@.len()
                    &&& (#[trigger] devices@[i]).is_one_of(names@)
                    &&& dir@ == path::joined_path(HWMON_ROOT@, devices@[i].entry@)
                    &&& forall|j: int|
                        0 <= j < devices@.len() && (#[trigger] devices@[j]).is_one_of(names@)
                            ==> !text::precedes(devices@[j].entry@, devices@[i].entry@)
                },
            None => forall|j: int|
                0 <= j < devices@.len() ==> !(#[trigger] devices@[j]).is_one_of(names@),
        },
{
    let mut best: Option<usize> = None;
    let mut i: usize = 0;
    while i < devices.len()
        invariant
            i <= devices@.len(),
            match best {
                Some(b) => {
                    &&& b < i
                    &&& devices@[b as int].is_one_of(names@)
                    &&& forall|j: int|
                        0 <= j < i && (#[trigger] devices@[j]).is_one_of(names@)
                            ==> !text::precedes(devices@[j].entry@, devices@[b as int].entry@)
                },
                None => forall|j: int| 0 <= j < i ==> !(#[trigger] devices@[j]).is_one_of(names@),
            },
        decreases devices@.len() - i,
    {
        if is_named(&devices[i].name, names) {
            match best {
                Some(b) => {
                    if text::before(devices[i].entry.as_str(), devices[b].entry.as_str()) {
                        proof {
                            let old_best = devices@[b as int].entry@;
                            let new_best = devices@[i as int].entry@;
                            text::lemma_precedes_irreflexive(new_best);
                            assert forall|j: int|
                                0 <= j < i + 1 && (#[trigger] devices@[j]).is_one_of(
                                    names@,
                                ) implies !text::precedes(devices@[j].entry@, new_best) by {
                                if text::precedes(devices@[j].entry@, new_best) {
                                    text::lemma_precedes_transitive(
                                        devices@[j].entry@,
                                        new_best,
                                        old_best,
                                    );
                                }
                            }
                        }
                        best = Some(i);
                    }
                },
                None => {
                    proof {
                        text::lemma_precedes_irreflexive(devices@[i as int].entry@);
                    }
                    best = Some(i);
                },
            }
        }
        i = i + 1;
    }
    match best {
        Some(b) => Some(path::join(HWMON_ROOT, devices[b].entry.as_str())),
        None => None,
    }
}

/// Where the GPU temperature comes from on this machine.
#[derive(Debug)]
pub enum GpuSource {
    Hwmon(String),
    NvidiaSmi,
    Unavailable,
}

/// Resolved sensor locations for this machine.
#[derive(Debug)]
pub struct Sensors {
    pub fans: Option<String>,
    pub cpu: Option<String>,
    pub gpu: GpuSource,
    /// When `nvidia-smi` last answered, in nanoseconds, and what.
    pub nvidia_cache: Option<(u128, Celsius)>,
}

/// What it takes to learn the GPU temperature.
#[derive(Debug)]
pub enum GpuReading {
    /// It is known.
    Known(Option<Celsius>),
    /// Read the node at this path.
    Node(String),
    /// Ask `nvidia-smi`.
    Ask,
}

fn thermometer(dir: Option<String>) -> (r: Option<String>)
    ensures
        sysfs::text_view(r) == match dir {
            Some(dir) => Some(path::joined_path(dir@, "temp1_input"@)),
            None => None,
        },
{
    match dir {
        Some(dir) => Some(path::join(dir.as_str(), "temp1_input")),
        None => None,
    }
}

impl Sensors {
    /// What `nvidia-smi` said, if that was recently enough to be used again.
    pub open spec fn remembered(self, now: u128) -> Option<Celsius> {
        match self.nvidia_cache {
            Some((at, temp)) => if now - at < NVIDIA_CACHE_TTL {
                Some(temp)
            } else {
                None
            },
            None => None,
        }
    }

    /// Whether `nvidia-smi` has to be asked at the time `now`.
    pub open spec fn asks_nvidia(self, now: u128) -> bool {
        self.gpu is NvidiaSmi && self.remembered(now) is None
    }

    /// The sensors after `nvidia-smi` gave an answer at the time `now`.
    pub open spec fn told(self, now: u128, answer: Option<Celsius>) -> Sensors {
        match answer {
            Some(temp) => Sensors { nvidia_cache: Some((now, temp)), ..self },
            None => Sensors { gpu: GpuSource::Unavailable, ..self },
        }
    }

    /// The sensors in the devices that [`find_hwmon`] found for
    /// [`FAN_HWMON`], [`CPU_HWMON`] and [`GPU_HWMON`].
    pub fn new(fans: Option<String>, cpu: Option<String>, gpu: Option<String>) -> (r: Self)
        ensures
            r.fans == fans,
            sysfs::text_view(r.cpu) == match cpu {
                Some(dir) => Some(path::joined_path(dir@, "temp1_input"@)),
                None => None,
            },
            match gpu {
                Some(dir) => r.gpu matches GpuSource::Hwmon(node) && node@ == path::joined_path(
                    dir@,
                    "temp1_input"@,
                ),
                None => r.gpu is NvidiaSmi,
            },
            r.nvidia_cache is None,
    {
        Sensors {
            fans,
            cpu: thermometer(cpu),
            gpu: match thermometer(gpu) {
                Some(node) => GpuSource::Hwmon(node),
                // Assume `nvidia-smi` until a call proves otherwise.
                None => GpuSource::NvidiaSmi,
            },
            nvidia_cache: None,
        }
    }

    /// Live fan readings, ordered by channel, from the files of the fan device.
    ///
    /// The CPU and GPU fans are always reported, so a stopped fan reads `0`
    /// rather than vanishing from the list. The extra channels only exist on
    /// some models, so those are dropped when they read `0`.
    pub fn read_fans(&self, inputs: &[FanInput]) -> (r: Vec<Fan>)
        ensures
            fan_views(r@) == if self.fans is Some {
                order::arranged(reported(inputs@), by_channel())
            } else {
                Seq::empty()
            },
    {
        let mut fans: Vec<Fan> = Vec::new();
        proof {
            assert(fan_views(fans@) =~= Seq::empty());
        }
        if self.fans.is_none() {
            return fans;
        }
        let mut i: usize = 0;
        proof {
            assert(inputs@.take(0) =~= Seq::empty());
        }
        while i < inputs.len()
            invariant
                i <= inputs@.len(),
                fan_views(fans@) == order::arranged(reported(inputs@.take(i as int)), by_channel()),
            decreases inputs@.len() - i,
        {
            proof {
                let here = inputs@.take(i + 1);
                assert(here.drop_last() =~= inputs@.take(i as int));
                if inputs@[i as int].fan() is Some {
                    let fan = inputs@[i as int].fan()->0;
                    assert(reported(here).drop_last() =~= reported(inputs@.take(i as int)));
                }
            }
            match inputs[i].read() {
                Some(fan) => {
                    place(&mut fans, fan);
                },
                None => {},
            }
            i = i + 1;
        }
        proof {
            assert(inputs@.take(i as int) =~= inputs@);
        }
        fans
    }

    /// How to learn the GPU temperature at the time `now`. An answer of
    /// `nvidia-smi` goes to [`Sensors::nvidia_answered`].
    pub fn read_gpu_temp(&self, now: u128) -> (r: GpuReading)
        ensures
            (r is Ask) == self.asks_nvidia(now),
            match self.gpu {
                GpuSource::Hwmon(node) => r matches GpuReading::Node(n) && n@ == node@,
                GpuSource::Unavailable => r == GpuReading::Known(None),
                GpuSource::NvidiaSmi => match self.remembered(now) {
                    Some(temp) => r == GpuReading::Known(Some(temp)),
                    None => r is Ask,
                },
            },
    {
        match &self.gpu {
            GpuSource::Hwmon(node) => GpuReading::Node(node.clone()),
            GpuSource::Unavailable => GpuReading::Known(None),
            GpuSource::NvidiaSmi => {
                match self.nvidia_cache {
                    Some((at, temp)) => {
                        if now < at || now - at < NVIDIA_CACHE_TTL {
                            GpuReading::Known(Some(temp))
                        } else {
                            GpuReading::Ask
                        }
                    },
                    None => GpuReading::Ask,
                }
            },
        }
    }

    /// Takes what `nvidia-smi` said at the time `now`.
    pub fn nvidia_answered(&mut self, now: u128, answer: Option<Celsius>) -> (r: Option<Celsius>)
        ensures
            r == answer,
            *final(self) == old(self).told(now, answer),
    {
        match answer {
            Some(temp) => {
                self.nvidia_cache = Some((now, temp));
            },
            // No NVIDIA driver here: stop paying for the probe.
            None => {
                self.gpu = GpuSource::Unavailable;
            },
        }
        answer
    }
}

/// The temperature in the output of `nvidia-smi`: its first line, if any.
pub open spec fn first_line(out: Seq<char>) -> Option<Seq<char>> {
    if out.len() == 0 {
        None
    } else {
        Some(text::trimmed(text::pieces(out, Cut::At('\n'))[0]))
    }
}

/// The text of the temperature that `nvidia-smi` printed for the first GPU.
pub fn nvidia_temp(out: &str) -> (r: Option<String>)
    ensures
        sysfs::text_view(r) == first_line(out@),
{
    if out.is_empty() {
        None
    } else {
        proof {
            text::lemma_pieces_not_empty(out@, Cut::At('\n'));
        }
        match text::piece(out, Cut::At('\n'), 0) {
            Some(line) => Some(text::trim(line.as_str()).to_owned()),
            None => None,
        }
    }
}

// --- Laws ---

/// Readings come out ordered by channel, and those of one channel in the order
/// in which their files were listed.
pub proof fn law_readings_are_ordered_by_channel(inputs: Seq<FanInput>)
    ensures
        ({
            let fans = order::arranged(reported(inputs), by_channel());
            &&& forall|i: int, j: int|
                0 <= i <= j < fans.len() ==> (#[trigger] fans[i]).channel <= (#[trigger] fans[j]).channel
            &&& fans.len() == reported(inputs).len()
            &&& forall|c: int| #[trigger]
                order::with_key(fans, by_channel(), c) == order::with_key(
                    reported(inputs),
                    by_channel(),
                    c,
                )
        }),
{
    order::law_arranged_is_a_stable_sort(reported(inputs), by_channel());
    let fans = order::arranged(reported(inputs), by_channel());
    assert forall|i: int, j: int| 0 <= i <= j < fans.len() implies (#[trigger] fans[i]).channel
        <= (#[trigger] fans[j]).channel by {
        assert(by_channel()(fans[i]) <= by_channel()(fans[j]));
    }
}

/// A stopped CPU or GPU fan is reported as standing still; any other channel is
/// reported only while it turns.
pub proof fn law_only_fitted_fans_are_reported(inputs: Seq<FanInput>, i: int)
    requires
        0 <= i < inputs.len(),
        input_index(inputs[i].file_name@) is Some,
        node_u32(sysfs::text_view(inputs[i].rpm)) is Some,
    ensures
        ({
            let channel = input_index(inputs[i].file_name@)->0;
            let rpm = node_u32(sysfs::text_view(inputs[i].rpm))->0;
            if channel <= ALWAYS_PRESENT_FANS || rpm > 0 {
                exists|k: int|
                    {
                        &&& 0 <= k < reported(inputs).len()
                        &&& (#[trigger] reported(inputs)[k]).channel == channel
                        &&& reported(inputs)[k].rpm == rpm
                    }
            } else {
                inputs[i].fan() is None
            }
        }),
    decreases inputs.len(),
{
    let channel = input_index(inputs[i].file_name@)->0;
    let rpm = node_u32(sysfs::text_view(inputs[i].rpm))->0;
    if channel <= ALWAYS_PRESENT_FANS || rpm > 0 {
        if i == inputs.len() - 1 {
            let k = reported(inputs).len() - 1;
            assert(reported(inputs)[k] == inputs.last().fan()->0);
        } else {
            law_only_fitted_fans_are_reported(inputs.drop_last(), i);
            let rest = reported(inputs.drop_last());
            let k = choose|k: int|
                0 <= k < rest.len() && (#[trigger] rest[k]).channel == channel && rest[k].rpm == rpm;
            assert(reported(inputs)[k] == rest[k]);
        }
    }
}

/// `nvidia-smi` is not asked again within two seconds of an answer, and never
/// again after it failed to give one.
pub proof fn law_nvidia_is_not_asked_needlessly(
    sensors: Sensors,
    at: u128,
    answer: Option<Celsius>,
    now: u128,
)
    requires
        at <= now,
    ensures
        answer is None ==> !sensors.told(at, answer).asks_nvidia(now),
        now < at + NVIDIA_CACHE_TTL ==> !sensors.told(at, answer).asks_nvidia(now),
        answer is Some && now < at + NVIDIA_CACHE_TTL ==> sensors.told(at, answer).remembered(now)
            == answer,
{
}

/// A remembered answer of `nvidia-smi` is used for two seconds and no longer;
/// before the first answer, and from then on, it is asked. A device of the GPU's
/// own is always read, and what is not there is not looked for.
pub proof fn law_a_remembered_temperature_is_never_old(
    sensors: Sensors,
    now: u128,
    reading: GpuReading,
)
    requires
        call_ensures(Sensors::read_gpu_temp, (&sensors, now), reading),
    ensures
        sensors.gpu is NvidiaSmi && sensors.nvidia_cache is None ==> reading is Ask,
        sensors.gpu is NvidiaSmi ==> (sensors.nvidia_cache matches Some((at, temp)) ==> {
            &&& now >= at + 2_000_000_000 ==> reading is Ask
            &&& now < at + 2_000_000_000 ==> reading == GpuReading::Known(Some(temp))
        }),
        sensors.gpu matches GpuSource::Hwmon(node) ==> (reading matches GpuReading::Node(path)
            && path@ == node@),
        sensors.gpu is Unavailable ==> reading == GpuReading::Known(None),
{
}

/// An answer of `nvidia-smi` is remembered with its time; where there is none it
/// is given up for good. Nothing else changes, and the answer is handed on.
pub proof fn law_an_answer_is_remembered_with_its_time(
    sensors: &mut Sensors,
    now: u128,
    answer: Option<Celsius>,
    r: Option<Celsius>,
)
    requires
        call_ensures(Sensors::nvidia_answered, (sensors, now, answer), r),
    ensures
        r == answer,
        answer matches Some(temp) ==> {
            &&& final(sensors).nvidia_cache == Some((now, temp))
            &&& final(sensors).gpu == old(sensors).gpu
        },
        answer is None ==> final(sensors).gpu is Unavailable,
        final(sensors).fans == old(sensors).fans,
        final(sensors).cpu == old(sensors).cpu,
{
}

/// A hwmon node that holds a number, on a line of its own, is read as that
/// number.
pub proof fn law_a_node_reads_as_its_number(n: u32)
    ensures
        node_u32(Some(text::decimal(n as nat) + "\n"@)) == Some(n),
        node_u32(Some(text::decimal(n as nat))) == Some(n),
        node_u32(None) is None,
{
    reveal_strlit("\n");
    assert(text::decimal(n as nat) + "\n"@ =~= text::decimal_int(n as int).push('\n'));
    text::lemma_trimmed_number_line(n as int);
    text::law_decimal_is_trimmed(n as nat);
    text::law_decimal_reads_back(n as nat, u32::MAX as nat);
}

/// The file of a fan's speed is recognised by its name, and its channel read off
/// it.
pub proof fn law_fan_files_are_named_by_their_channel(channel: u32)
    ensures
        input_index("fan"@ + text::decimal(channel as nat) + "_input"@) == Some(channel),
{
    reveal_strlit("fan");
    reveal_strlit("_input");
    let number = text::decimal(channel as nat);
    let name = "fan"@ + number + "_input"@;
    assert(name.take(3) =~= "fan"@);
    let rest = name.skip(3);
    assert(rest =~= number + "_input"@);
    assert(rest.skip(rest.len() - 6) =~= "_input"@);
    assert(rest.take(rest.len() - 6) =~= number);
    text::law_decimal_reads_back(channel as nat, u32::MAX as nat);
}

/// What is read of the fans: each file of a fan that is fitted gives one reading,
/// with the speed in it and the duty of the same channel; there is no other
/// reading, and they come in the order of the channels. Channels from the third on
/// that stand still are not fitted.
pub proof fn law_fan_readings_say_what_the_files_hold(
    sensors: Sensors,
    inputs: &[FanInput],
    r: Vec<Fan>,
    i: int,
    channel: u32,
    rpm: u32,
)
    requires
        call_ensures(Sensors::read_fans, (&sensors, inputs), r),
        sensors.fans is Some,
    ensures
        forall|a: int, b: int|
            0 <= a <= b < r@.len() ==> (#[trigger] r@[a]).channel <= (#[trigger] r@[b]).channel,
        0 <= i < inputs@.len() && inputs@[i].file_name@ == "fan"@ + text::decimal(channel as nat)
            + "_input"@ && sysfs::text_view(inputs@[i].rpm) == Some(
            text::decimal(rpm as nat) + "\n"@,
        ) && (channel <= 2 || rpm > 0) ==> exists|k: int|
            {
                &&& 0 <= k < r@.len()
                &&& (#[trigger] r@[k]).channel == channel
                &&& r@[k].rpm == rpm
                &&& r@[k].pwm == node_u32(sysfs::text_view(inputs@[i].pwm))
            },
        forall|k: int|
            0 <= k < r@.len() ==> {
                &&& (#[trigger] r@[k]).channel <= 2 || r@[k].rpm > 0
                &&& exists|j: int|
                    {
                        &&& 0 <= j < inputs@.len()
                        &&& input_index((#[trigger] inputs@[j]).file_name@) == Some(r@[k].channel)
                        &&& node_u32(sysfs::text_view(inputs@[j].rpm)) == Some(r@[k].rpm)
                        &&& node_u32(sysfs::text_view(inputs@[j].pwm)) == r@[k].pwm
                    }
            },
{
    let all = reported(inputs@);
    let fans = fan_views(r@);
    law_readings_are_ordered_by_channel(inputs@);
    assert forall|a: int, b: int| 0 <= a <= b < r@.len() implies (#[trigger] r@[a]).channel <= (
    #[trigger] r@[b]).channel by {
        assert(fans[a].channel <= fans[b].channel);
    }
    if 0 <= i < inputs@.len() && inputs@[i].file_name@ == "fan"@ + text::decimal(channel as nat)
        + "_input"@ && sysfs::text_view(inputs@[i].rpm) == Some(text::decimal(rpm as nat) + "\n"@)
        && (channel <= 2 || rpm > 0) {
        law_fan_files_are_named_by_their_channel(channel);
        law_a_node_reads_as_its_number(rpm);
        let fan = inputs@[i].fan()->0;
        lemma_reported_holds(inputs@, i);
        order::law_arranged_leaves_nothing_out(all, by_channel(), fan);
        let k = choose|k: int| 0 <= k < fans.len() && fans[k] == fan;
        assert(r@[k]@ == fan);
    }
    assert forall|k: int| 0 <= k < r@.len() implies {
        &&& (#[trigger] r@[k]).channel <= 2 || r@[k].rpm > 0
        &&& exists|j: int|
            {
                &&& 0 <= j < inputs@.len()
                &&& input_index((#[trigger] inputs@[j]).file_name@) == Some(r@[k].channel)
                &&& node_u32(sysfs::text_view(inputs@[j].rpm)) == Some(r@[k].rpm)
                &&& node_u32(sysfs::text_view(inputs@[j].pwm)) == r@[k].pwm
            }
    } by {
        assert(fans[k] == r@[k]@);
        order::law_arranged_adds_nothing(all, by_channel(), fans[k]);
        lemma_reported_comes_from(inputs@, fans[k]);
        let j = choose|j: int|
            0 <= j < inputs@.len() && (#[trigger] inputs@[j]).fan() == Some(fans[k]);
        assert(input_index(inputs@[j].file_name@) == Some(r@[k].channel));
    }
}

proof fn lemma_reported_holds(inputs: Seq<FanInput>, i: int)
    requires
        0 <= i < inputs.len(),
        inputs[i].fan() is Some,
    ensures
        reported(inputs).contains(inputs[i].fan()->0),
    decreases inputs.len(),
{
    let all = reported(inputs);
    let front = reported(inputs.drop_last());
    if i == inputs.len() - 1 {
        assert(all[all.len() - 1] == inputs[i].fan()->0);
    } else {
        lemma_reported_holds(inputs.drop_last(), i);
        let k = choose|k: int| 0 <= k < front.len() && front[k] == inputs[i].fan()->0;
        assert(all[k] == front[k]);
    }
}

proof fn lemma_reported_comes_from(inputs: Seq<FanInput>, fan: FanView)
    requires
        reported(inputs).contains(fan),
    ensures
        exists|j: int| 0 <= j < inputs.len() && (#[trigger] inputs[j]).fan() == Some(fan),
    decreases inputs.len(),
{
    let all = reported(inputs);
    let k = choose|k: int| 0 <= k < all.len() && all[k] == fan;
    if inputs.len() > 0 {
        let front = reported(inputs.drop_last());
        if k < front.len() {
            assert(front[k] == fan);
            lemma_reported_comes_from(inputs.drop_last(), fan);
            let j = choose|j: int|
                0 <= j < inputs.drop_last().len() && (#[trigger] inputs.drop_last()[j]).fan()
                    == Some(fan);
            assert(inputs[j].fan() == Some(fan));
        } else {
            assert(inputs[inputs.len() - 1].fan() == Some(fan));
        }
    }
}

/// Of the devices that go by one of the names, the one whose directory comes
/// first is taken; none only where no device goes by any.
pub proof fn law_the_first_device_of_a_name_is_taken(
    devices: &[Device],
    names: &[&'static str],
    r: Option<String>,
    i: int,
    k: int,
)
    requires
        call_ensures(find_hwmon, (devices, names), r),
        0 <= i < devices@.len(),
        0 <= k < names@.len(),
        devices@[i].name is Some,
        text::trimmed(devices@[i].name->0@) == names@[k]@,
    ensures
        r is Some,
        exists|j: int|
            {
                &&& 0 <= j < devices@.len()
                &&& r->0@ == path::joined_path("/sys/class/hwmon"@, (#[trigger] devices@[j]).entry@)
                &&& !text::precedes(devices@[i].entry@, devices@[j].entry@)
                &&& devices@[j].name is Some
                &&& exists|n: int|
                    0 <= n < names@.len() && #[trigger] names@[n]@ == text::trimmed(
                        devices@[j].name->0@,
                    )
            },
{
    assert(devices@[i].is_one_of(names@)) by {
        assert(names@[k]@ == text::trimmed(sysfs::text_view(devices@[i].name)->0));
    }
    let j = choose|j: int|
        {
            &&& 0 <= j < devices@.len()
            &&& (#[trigger] devices@[j]).is_one_of(names@)
            &&& r->0@ == path::joined_path(HWMON_ROOT@, devices@[j].entry@)
            &&& forall|n: int|
                0 <= n < devices@.len() && (#[trigger] devices@[n]).is_one_of(names@)
                    ==> !text::precedes(devices@[n].entry@, devices@[j].entry@)
        };
    assert(r->0@ == path::joined_path("/sys/class/hwmon"@, devices@[j].entry@));
}

/// Of what `nvidia-smi` prints only the first line counts, which is that of the
/// first GPU.
pub proof fn law_the_first_gpu_counts(out: &str, r: Option<String>, line: Seq<char>, rest: Seq<char>)
    requires
        call_ensures(nvidia_temp, (out,), r),
        out@ == line.push('\n') + rest,
        !line.contains('\n'),
    ensures
        sysfs::text_view(r) == Some(text::trimmed(line)),
{
    let cut = Cut::At('\n');
    assert forall|i: int| 0 <= i < line.len() implies !cut.cuts(#[trigger] line[i]) by {
        assert(line.contains(line[i]));
    }
    text::law_the_first_piece_ends_at_the_first_cut(line, '\n', rest, cut);
}

/// The sensors of a machine are looked for in the devices that were found for
/// them; without a device for the GPU `nvidia-smi` is tried.
pub proof fn law_sensors_lie_in_their_devices(
    fans: Option<String>,
    cpu: Option<String>,
    gpu: Option<String>,
    r: Sensors,
)
    requires
        call_ensures(Sensors::new, (fans, cpu, gpu), r),
    ensures
        r.fans == fans,
        cpu is None ==> r.cpu is None,
        cpu matches Some(dir) ==> (r.cpu matches Some(node) && node@ == path::joined_path(
            dir@,
            "temp1_input"@,
        )),
        gpu is None ==> r.gpu is NvidiaSmi,
        gpu matches Some(dir) ==> (r.gpu matches GpuSource::Hwmon(node) && node@
            == path::joined_path(dir@, "temp1_input"@)),
        r.nvidia_cache is None,
{
}

/// The first two channels are the fans of the CPU and the GPU; any other goes by
/// its number.
pub proof fn law_fans_go_by_their_channel(channel: u32, name: String)
    requires
        call_ensures(Fan::name_for, (channel,), name),
    ensures
        channel == 1 ==> name@ == "CPU fan"@,
        channel == 2 ==> name@ == "GPU fan"@,
        channel != 1 && channel != 2 ==> name@ == "Fan "@ + text::decimal(channel as nat),
{
}

/// A reading says the speed first, and the power where it was read.
pub proof fn law_a_reading_says_speed_and_power(fan: Fan, r: String)
    requires
        call_ensures(Fan::reading, (&fan,), r),
    ensures
        text::begins(r@, text::decimal(fan.rpm as nat) + " RPM"@),
        fan.pwm is None ==> r@ == text::decimal(fan.rpm as nat) + " RPM"@,
        fan.pwm matches Some(pwm) ==> text::finishes(
            r@,
            "(PWM "@ + text::decimal(pwm as nat) + ")"@,
        ),
{
    reveal_strlit(" RPM");
    reveal_strlit(" RPM (PWM ");
    reveal_strlit("(PWM ");
    let head = text::decimal(fan.rpm as nat) + " RPM"@;
    assert(r@.take(head.len() as int) =~= head);
    if let Some(pwm) = fan.pwm {
        let tail = "(PWM "@ + text::decimal(pwm as nat) + ")"@;
        assert(" RPM (PWM "@ =~= " RPM"@ + seq![' '] + "(PWM "@);
        assert(r@ =~= head + seq![' '] + tail);
        assert(r@.skip(r@.len() - tail.len()) =~= tail);
    }
}

} // verus!
