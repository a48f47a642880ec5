//! Environment report, for working out why something does not work on a given
//! machine — models differ in which attributes the driver can actually offer.

use crate::profile::Profiles;
use crate::sensors;
use crate::sensors::Fan;
use crate::sensors::FanView;
use crate::sysfs;
use crate::system;
use crate::text;
use crate::text::Cut;
use vstd::prelude::*;
use vstd::string::StringExecFns;

verus! {

/// Outcome of a single check, which decides both the marker and the exit code.
#[derive(Clone, Copy, Debug, PartialEq, Eq, Structural)]
pub enum Mark {
    Good,
    Warn,
    Bad,
    Info,
}

impl Mark {
    pub open spec fn sign(self) -> Seq<char> {
        match self {
            Mark::Good => "[ok]"@,
            Mark::Warn => "[--]"@,
            Mark::Bad => "[!!]"@,
            Mark::Info => "    "@,
        }
    }

    pub fn symbol(self) -> (r: &'static str)
        ensures
            r@ == self.sign(),
    {
        match self {
            Mark::Good => "[ok]",
            Mark::Warn => "[--]",
            Mark::Bad => "[!!]",
            Mark::Info => "    ",
        }
    }
}

/// One check as it is reported.
pub open spec fn entry(mark: Mark, label: Seq<char>, value: Seq<char>) -> Seq<char> {
    "  "@ + mark.sign() + " "@ + text::left_aligned(label, 22) + " "@ + value
}

/// The report so far: its lines, and whether anything is broken.
#[derive(Debug)]
pub struct Report {
    pub lines: Vec<String>,
    pub failed: bool,
}

impl Report {
    pub open spec fn texts(self) -> Seq<Seq<char>> {
        text::views(self.lines@)
    }

    fn section(&mut self, title: &str)
        ensures
            final(self).texts() == old(self).texts() + seq![""@, title@],
            final(self).failed == old(self).failed,
    {
        let ghost before = self.texts();
        text::push_text(&mut self.lines, "");
        text::push_text(&mut self.lines, title);
        proof {
            assert(self.texts() =~= before + seq![""@, title@]);
        }
    }

    fn line(&mut self, mark: Mark, label: &str, value: &str)
        ensures
            final(self).texts() == old(self).texts() + seq![entry(mark, label@, value@)],
            final(self).failed == (old(self).failed || mark is Bad),
    {
        if mark == Mark::Bad {
            self.failed = true;
        }
        let ghost before = self.texts();
        let mut r: String = text::concat5(
            "  ",
            mark.symbol(),
            " ",
            text::pad_right(label, 22).as_str(),
            " ",
        );
        r.append(value);
        text::push_text(&mut self.lines, r.as_str());
        proof {
            assert(self.texts() =~= before + seq![entry(mark, label@, value@)]);
        }
    }
}

/// What is known of an attribute: whether it is there, what it holds if it can
/// be read, and whether it can be opened for writing.
#[derive(Debug)]
pub struct NodeFacts {
    pub present: bool,
    pub contents: Option<String>,
    pub writable: bool,
}

/// A file and whether it is there.
#[derive(Debug)]
pub struct FileFacts {
    pub path: String,
    pub present: bool,
}

/// Everything that the report is about. Texts are as they were read; `None`
/// where something could not be read.
#[derive(Debug)]
pub struct Facts {
    pub version: String,
    pub is_root: bool,
    pub sudo_user: Option<String>,
    pub vendor: Option<String>,
    pub model: Option<String>,
    pub family: Option<String>,
    pub bios: Option<String>,
    pub kernel: Option<String>,
    pub driver: bool,
    /// The version that the loaded module shows.
    pub module: Option<String>,
    /// What `modinfo` printed about the module.
    pub modinfo: Option<String>,
    /// The attributes, in the order of [`sysfs::NODE_NAMES`].
    pub nodes: [NodeFacts; 10],
    pub fans: Vec<Fan>,
    /// The temperatures as rounded numbers.
    pub cpu_temp: Option<String>,
    pub gpu_temp: Option<String>,
    pub ppd_available: bool,
    /// The active power profile, or why it is not known.
    pub ppd: Result<String, String>,
    pub unit_installed: bool,
    /// What `systemctl is-active` printed.
    pub unit_state: Option<String>,
    pub config: FileFacts,
    pub system_config: FileFacts,
    pub profiles: FileFacts,
    pub system_profiles: FileFacts,
    /// The saved profiles, or why they could not be loaded.
    pub saved: Result<Profiles, String>,
}

/// A text that was read, unless there is nothing in it.
pub open spec fn read_text(contents: Option<Seq<char>>) -> Option<Seq<char>> {
    match contents {
        Some(s) => system::filled(Some(text::trimmed(s))),
        None => None,
    }
}

pub fn read_trimmed_path(contents: &Option<String>) -> (r: Option<String>)
    ensures
        sysfs::text_view(r) == read_text(sysfs::text_view(*contents)),
{
    match contents {
        Some(s) => system::non_empty(Some(text::trim(s.as_str()).to_owned())),
        None => None,
    }
}

/// A text, or `unknown`.
pub open spec fn or_unknown(value: Option<Seq<char>>) -> Seq<char> {
    match value {
        Some(s) => s,
        None => "unknown"@,
    }
}

fn known(value: Option<String>) -> (r: String)
    ensures
        r@ == or_unknown(sysfs::text_view(value)),
{
    match value {
        Some(s) => s,
        None => "unknown".to_owned(),
    }
}

/// What stands behind `version:` on the first line that begins so.
pub open spec fn version_in(lines: Seq<Seq<char>>) -> Option<Seq<char>>
    decreases lines.len(),
{
    if lines.len() == 0 {
        None
    } else if text::begins(lines[0], "version:"@) {
        Some(text::trimmed(lines[0].skip("version:"@.len() as int)))
    } else {
        version_in(lines.skip(1))
    }
}

pub open spec fn modinfo_version(info: Option<Seq<char>>) -> Option<Seq<char>> {
    match info {
        Some(s) => version_in(text::pieces(s, Cut::At('\n'))),
        None => None,
    }
}

/// The version in the output of `modinfo`.
pub fn module_version(info: &Option<String>) -> (r: Option<String>)
    ensures
        sysfs::text_view(r) == modinfo_version(sysfs::text_view(*info)),
{
    match info {
        Some(s) => {
            let lines: Vec<String> = text::split(s.as_str(), Cut::At('\n'));
            let ghost all = text::views(lines@);
            let mut i: usize = 0;
            proof {
                assert(all.skip(0) =~= all);
            }
            while i < lines.len()
                invariant
                    i <= lines@.len(),
                    all == text::views(lines@),
                    sysfs::text_view(*info) is Some,
                    all == text::pieces(sysfs::text_view(*info)->0, Cut::At('\n')),
                    version_in(all) == version_in(all.skip(i as int)),
                decreases lines@.len() - i,
            {
                proof {
                    assert(all.skip(i as int)[0] == lines@[i as int]@);
                    assert(all.skip(i as int).skip(1) =~= all.skip(i + 1));
                }
                match text::strip_prefix(lines[i].as_str(), "version:") {
                    Some(version) => {
                        return Some(text::trim(version).to_owned());
                    },
                    None => {},
                }
                i = i + 1;
            }
            None
        },
        None => None,
    }
}

/// What can be done with a node.
pub open spec fn access_text(readable: bool, writable: bool) -> Seq<char> {
    if readable && writable {
        "read/write"@
    } else if readable {
        "read-only"@
    } else if writable {
        "write-only"@
    } else {
        "no access"@
    }
}

impl NodeFacts {
    pub open spec fn text(self) -> Seq<char> {
        if !self.present {
            "not supported on this model"@
        } else {
            let access = access_text(self.contents is Some, self.writable);
            match read_text(sysfs::text_view(self.contents)) {
                Some(value) => access + ", currently "@ + text::quoted(value),
                None => access,
            }
        }
    }

    pub open spec fn mark(self) -> Mark {
        if self.present {
            Mark::Good
        } else {
            Mark::Warn
        }
    }
}

pub fn mark_for_node(node: &NodeFacts) -> (r: Mark)
    ensures
        r == node.mark(),
{
    if node.present {
        Mark::Good
    } else {
        Mark::Warn
    }
}

/// Reports what can be done with a node, since which attributes a model
/// supports (and whether this process may write them) is the usual question.
pub fn describe_node(node: &NodeFacts) -> (r: String)
    ensures
        r@ == node.text(),
{
    if !node.present {
        return "not supported on this model".to_owned();
    }
    let readable: bool = node.contents.is_some();
    let access: &str = if readable && node.writable {
        "read/write"
    } else if readable {
        "read-only"
    } else if node.writable {
        "write-only"
    } else {
        "no access"
    };
    match read_trimmed_path(&node.contents) {
        Some(value) => text::concat3(access, ", currently ", text::quote(value.as_str()).as_str()),
        None => access.to_owned(),
    }
}

impl FileFacts {
    pub open spec fn text(self) -> Seq<char> {
        if self.present {
            self.path@ + " (present)"@
        } else {
            self.path@ + " (not created yet)"@
        }
    }
}

pub fn describe_file(file: &FileFacts) -> (r: String)
    ensures
        r@ == file.text(),
{
    let mut r: String = file.path.clone();
    if file.present {
        r.append(" (present)");
    } else {
        r.append(" (not created yet)");
    }
    r
}

// --- Sections ---

pub open spec fn runner_text(facts: Facts) -> Seq<char> {
    if facts.is_root {
        "root"@
    } else {
        match facts.sudo_user {
            Some(user) => "unprivileged"@ + (" (SUDO_USER="@ + user@ + ")"@),
            None => "unprivileged"@,
        }
    }
}

pub open spec fn program_section(facts: Facts) -> Seq<Seq<char>> {
    seq![
        ""@,
        "gigabytectl"@,
        entry(Mark::Info, "version"@, facts.version@),
        entry(
            if facts.is_root {
                Mark::Good
            } else {
                Mark::Warn
            },
            "running as"@,
            runner_text(facts),
        ),
    ]
}

pub open spec fn machine_section(facts: Facts) -> Seq<Seq<char>> {
    seq![
        ""@,
        "Machine"@,
        entry(Mark::Info, "vendor"@, or_unknown(read_text(sysfs::text_view(facts.vendor)))),
        entry(Mark::Info, "model"@, or_unknown(read_text(sysfs::text_view(facts.model)))),
        entry(Mark::Info, "family"@, or_unknown(read_text(sysfs::text_view(facts.family)))),
        entry(Mark::Info, "BIOS"@, or_unknown(read_text(sysfs::text_view(facts.bios)))),
        entry(Mark::Info, "kernel"@, or_unknown(read_text(sysfs::text_view(facts.kernel)))),
    ]
}

pub open spec fn module_text(facts: Facts) -> Seq<char> {
    match read_text(sysfs::text_view(facts.module)) {
        Some(version) => version,
        None => or_unknown(modinfo_version(sysfs::text_view(facts.modinfo))),
    }
}

pub open spec fn node_entries(nodes: Seq<NodeFacts>, n: nat) -> Seq<Seq<char>> {
    Seq::new(n, |i: int| entry(nodes[i].mark(), sysfs::NODE_NAMES@[i]@, nodes[i].text()))
}

pub open spec fn driver_section(facts: Facts) -> Seq<Seq<char>> {
    if facts.driver {
        seq![
            ""@,
            "Driver"@,
            entry(Mark::Good, "gigabyte-laptop-wmi"@, "loaded ("@ + sysfs::ROOT@ + ")"@),
            entry(Mark::Info, "module version"@, module_text(facts)),
            ""@,
            "Attributes"@,
        ] + node_entries(facts.nodes@, 10)
    } else {
        seq![
            ""@,
            "Driver"@,
            entry(Mark::Bad, "gigabyte-laptop-wmi"@, sysfs::missing_text()),
        ]
    }
}

pub open spec fn fan_entries(fans: Seq<FanView>, n: nat) -> Seq<Seq<char>> {
    Seq::new(
        n,
        |i: int|
            entry(
                Mark::Good,
                "fan "@ + text::decimal(fans[i].channel as nat) + " ("@ + fans[i].name + ")"@,
                sensors::reading_text(fans[i].rpm, fans[i].pwm),
            ),
    )
}

pub open spec fn temp_entry(label: Seq<char>, temp: Option<Seq<char>>) -> Seq<char> {
    match temp {
        Some(t) => entry(Mark::Good, label, t + " C"@),
        None => entry(Mark::Warn, label, "unavailable"@),
    }
}

pub open spec fn sensor_section(facts: Facts) -> Seq<Seq<char>> {
    seq![""@, "Sensors"@] + (if facts.fans@.len() == 0 {
        seq![entry(Mark::Warn, "fans"@, "no readings (driver hwmon device not found)"@)]
    } else {
        fan_entries(sensors::fan_views(facts.fans@), facts.fans@.len())
    }) + seq![
        temp_entry("CPU temperature"@, sysfs::text_view(facts.cpu_temp)),
        temp_entry("GPU temperature"@, sysfs::text_view(facts.gpu_temp)),
    ]
}

pub open spec fn power_section(facts: Facts) -> Seq<Seq<char>> {
    seq![
        ""@,
        "Power profiles daemon"@,
        if facts.ppd_available {
            entry(
                Mark::Good,
                "system bus"@,
                match facts.ppd {
                    Ok(p) => "active profile: "@ + p@,
                    Err(e) => "reachable, but: "@ + e@,
                },
            )
        } else {
            entry(
                Mark::Warn,
                "system bus"@,
                "not reachable (sync and ppd_profile are inert)"@,
            )
        },
        if facts.unit_installed {
            entry(
                Mark::Good,
                "sync service"@,
                "installed, "@ + match facts.unit_state {
                    Some(state) => state@,
                    None => "state unknown"@,
                },
            )
        } else {
            entry(Mark::Info, "sync service"@, "not installed (gigabytectl install-service)"@)
        },
    ]
}

pub open spec fn saved_entry(facts: Facts) -> Seq<char> {
    match facts.saved {
        Ok(profiles) => if profiles@.len() == 0 {
            entry(Mark::Info, "saved profiles"@, "none"@)
        } else {
            entry(Mark::Good, "saved profiles"@, text::joined(profiles.names_view(), ", "@))
        },
        Err(e) => entry(Mark::Bad, "saved profiles"@, e@),
    }
}

pub open spec fn settings_section(facts: Facts) -> Seq<Seq<char>> {
    seq![
        ""@,
        "Configuration"@,
        entry(Mark::Info, "config"@, facts.config.text()),
        entry(Mark::Info, "config (system)"@, facts.system_config.text()),
        entry(Mark::Info, "profiles"@, facts.profiles.text()),
        entry(Mark::Info, "profiles (system)"@, facts.system_profiles.text()),
        saved_entry(facts),
        ""@,
    ]
}

/// The whole report.
pub open spec fn report_of(facts: Facts) -> Seq<Seq<char>> {
    program_section(facts) + machine_section(facts) + driver_section(facts) + sensor_section(facts)
        + power_section(facts) + settings_section(facts)
}

fn program(report: &mut Report, facts: &Facts)
    ensures
        final(report).texts() == old(report).texts() + program_section(*facts),
        final(report).failed == old(report).failed,
{
    let ghost before = report.texts();
    report.section("gigabytectl");
    report.line(Mark::Info, "version", facts.version.as_str());
    if facts.is_root {
        report.line(Mark::Good, "running as", "root");
    } else {
        let mut value: String = "unprivileged".to_owned();
        match &facts.sudo_user {
            Some(user) => {
                value.append(text::concat3(" (SUDO_USER=", user.as_str(), ")").as_str());
            },
            None => {},
        }
        report.line(Mark::Warn, "running as", value.as_str());
    }
    proof {
        assert(report.texts() =~= before + program_section(*facts));
    }
}

fn machine(report: &mut Report, facts: &Facts)
    ensures
        final(report).texts() == old(report).texts() + machine_section(*facts),
        final(report).failed == old(report).failed,
{
    let ghost before = report.texts();
    report.section("Machine");
    report.line(Mark::Info, "vendor", known(read_trimmed_path(&facts.vendor)).as_str());
    report.line(Mark::Info, "model", known(read_trimmed_path(&facts.model)).as_str());
    report.line(Mark::Info, "family", known(read_trimmed_path(&facts.family)).as_str());
    report.line(Mark::Info, "BIOS", known(read_trimmed_path(&facts.bios)).as_str());
    report.line(Mark::Info, "kernel", known(read_trimmed_path(&facts.kernel)).as_str());
    proof {
        assert(report.texts() =~= before + machine_section(*facts));
    }
}

fn driver(report: &mut Report, facts: &Facts)
    ensures
        final(report).texts() == old(report).texts() + driver_section(*facts),
        final(report).failed == (old(report).failed || !facts.driver),
{
    let ghost before = report.texts();
    report.section("Driver");
    if !facts.driver {
        report.line(
            Mark::Bad,
            "gigabyte-laptop-wmi",
            sysfs::driver_missing_message().as_str(),
        );
        proof {
            assert(report.texts() =~= before + driver_section(*facts));
        }
        return ;
    }
    report.line(
        Mark::Good,
        "gigabyte-laptop-wmi",
        text::concat3("loaded (", sysfs::ROOT, ")").as_str(),
    );
    let version: String = match read_trimmed_path(&facts.module) {
        Some(version) => version,
        None => known(module_version(&facts.modinfo)),
    };
    report.line(Mark::Info, "module version", version.as_str());
    report.section("Attributes");
    let ghost head = report.texts();
    let names: [&'static str; 10] = sysfs::NODE_NAMES;
    let mut i: usize = 0;
    let failed: bool = report.failed;
    proof {
        assert(head =~= head + node_entries(facts.nodes@, 0));
    }
    while i < 10
        invariant
            i <= 10,
            names == sysfs::NODE_NAMES,
            report.texts() == head + node_entries(facts.nodes@, i as nat),
            report.failed == failed,
        decreases 10 - i,
    {
        let node: &NodeFacts = &facts.nodes[i];
        report.line(mark_for_node(node), names[i], describe_node(node).as_str());
        i = i + 1;
        proof {
            assert(node_entries(facts.nodes@, i as nat) =~= node_entries(
                facts.nodes@,
                (i - 1) as nat,
            ) + seq![
                entry(
                    facts.nodes@[i - 1].mark(),
                    sysfs::NODE_NAMES@[i - 1]@,
                    facts.nodes@[i - 1].text(),
                ),
            ]);
            assert(report.texts() =~= head + node_entries(facts.nodes@, i as nat));
        }
    }
    proof {
        assert(report.texts() =~= before + driver_section(*facts));
    }
}

fn temperature(report: &mut Report, label: &str, temp: &Option<String>)
    ensures
        final(report).texts() == old(report).texts() + seq![
            temp_entry(label@, sysfs::text_view(*temp)),
        ],
        final(report).failed == old(report).failed,
{
    match temp {
        Some(t) => {
            let mut value: String = t.clone();
            value.append(" C");
            report.line(Mark::Good, label, value.as_str());
        },
        None => report.line(Mark::Warn, label, "unavailable"),
    }
}

fn sensor(report: &mut Report, facts: &Facts)
    ensures
        final(report).texts() == old(report).texts() + sensor_section(*facts),
        final(report).failed == old(report).failed,
{
    let ghost before = report.texts();
    report.section("Sensors");
    if facts.fans.len() == 0 {
        report.line(Mark::Warn, "fans", "no readings (driver hwmon device not found)");
    }
    let ghost head = report.texts();
    let ghost all = sensors::fan_views(facts.fans@);
    let failed: bool = report.failed;
    let mut i: usize = 0;
    proof {
        assert(head =~= head + fan_entries(all, 0));
    }
    while i < facts.fans.len()
        invariant
            i <= facts.fans@.len(),
            all == sensors::fan_views(facts.fans@),
            report.texts() == head + fan_entries(all, i as nat),
            report.failed == failed,
        decreases facts.fans@.len() - i,
    {
        let fan: &Fan = &facts.fans[i];
        let label: String = text::concat5(
            "fan ",
            text::decimal_of(fan.channel as u64).as_str(),
            " (",
            fan.name.as_str(),
            ")",
        );
        report.line(Mark::Good, label.as_str(), fan.reading().as_str());
        i = i + 1;
        proof {
            assert(all[i - 1] == facts.fans@[i - 1]@);
            assert(fan_entries(all, i as nat) =~= fan_entries(all, (i - 1) as nat) + seq![
                entry(
                    Mark::Good,
                    "fan "@ + text::decimal(all[i - 1].channel as nat) + " ("@ + all[i - 1].name
                        + ")"@,
                    sensors::reading_text(all[i - 1].rpm, all[i - 1].pwm),
                ),
            ]);
            assert(report.texts() =~= head + fan_entries(all, i as nat));
        }
    }
    temperature(report, "CPU temperature", &facts.cpu_temp);
    temperature(report, "GPU temperature", &facts.gpu_temp);
    proof {
        assert(report.texts() =~= before + sensor_section(*facts));
    }
}

fn power(report: &mut Report, facts: &Facts)
    ensures
        final(report).texts() == old(report).texts() + power_section(*facts),
        final(report).failed == old(report).failed,
{
    let ghost before = report.texts();
    report.section("Power profiles daemon");
    if facts.ppd_available {
        let mut value: String = match &facts.ppd {
            Ok(_) => "active profile: ".to_owned(),
            Err(_) => "reachable, but: ".to_owned(),
        };
        match &facts.ppd {
            Ok(p) => {
                value.append(p.as_str());
            },
            Err(e) => {
                value.append(e.as_str());
            },
        }
        report.line(Mark::Good, "system bus", value.as_str());
    } else {
        report.line(Mark::Warn, "system bus", "not reachable (sync and ppd_profile are inert)");
    }
    if facts.unit_installed {
        let mut value: String = "installed, ".to_owned();
        match &facts.unit_state {
            Some(state) => {
                value.append(state.as_str());
            },
            None => {
                value.append("state unknown");
            },
        }
        report.line(Mark::Good, "sync service", value.as_str());
    } else {
        report.line(Mark::Info, "sync service", "not installed (gigabytectl install-service)");
    }
    proof {
        assert(report.texts() =~= before + power_section(*facts));
    }
}

fn settings(report: &mut Report, facts: &Facts)
    requires
        facts.saved matches Ok(profiles) ==> profiles.well_formed(),
    ensures
        final(report).texts() == old(report).texts() + settings_section(*facts),
        final(report).failed == (old(report).failed || facts.saved is Err),
{
    let ghost before = report.texts();
    report.section("Configuration");
    report.line(Mark::Info, "config", describe_file(&facts.config).as_str());
    report.line(Mark::Info, "config (system)", describe_file(&facts.system_config).as_str());
    report.line(Mark::Info, "profiles", describe_file(&facts.profiles).as_str());
    report.line(Mark::Info, "profiles (system)", describe_file(&facts.system_profiles).as_str());
    match &facts.saved {
        Ok(profiles) => {
            if profiles.is_empty() {
                report.line(Mark::Info, "saved profiles", "none");
            } else {
                let names: Vec<String> = profiles.names();
                report.line(
                    Mark::Good,
                    "saved profiles",
                    text::join(names.as_slice(), ", ").as_str(),
                );
            }
        },
        Err(e) => report.line(Mark::Bad, "saved profiles", e.as_str()),
    }
    text::push_text(&mut report.lines, "");
    proof {
        assert(report.texts() =~= before + settings_section(*facts));
    }
}

/// The report. It has failed only when something is actually broken: the driver
/// is missing, or the saved profiles cannot be loaded.
pub fn run(facts: &Facts) -> (r: Report)
    requires
        facts.saved matches Ok(profiles) ==> profiles.well_formed(),
    ensures
        r.texts() == report_of(*facts),
        r.failed == (!facts.driver || facts.saved is Err),
{
    let mut report: Report = Report { lines: Vec::new(), failed: false };
    proof {
        assert(report.texts() =~= Seq::<Seq<char>>::empty());
        assert(Seq::<Seq<char>>::empty() + program_section(*facts) =~= program_section(*facts));
    }
    program(&mut report, facts);
    machine(&mut report, facts);
    driver(&mut report, facts);
    sensor(&mut report, facts);
    power(&mut report, facts);
    settings(&mut report, facts);
    report
}

// --- Laws ---

/// The report names every attribute of the driver while it is loaded, and none
/// while it is not.
pub proof fn law_attributes_are_listed_with_the_driver(facts: Facts)
    ensures
        facts.driver ==> driver_section(facts).len() == 6 + sysfs::NODE_NAMES@.len(),
        facts.driver ==> forall|i: int|
            0 <= i < sysfs::NODE_NAMES@.len() ==> driver_section(facts)[6 + i] == entry(
                facts.nodes@[i].mark(),
                #[trigger] sysfs::NODE_NAMES@[i]@,
                facts.nodes@[i].text(),
            ),
        !facts.driver ==> driver_section(facts).len() == 3,
{
}

/// The report has failed exactly when the driver is missing or the saved profiles
/// cannot be read; both are marked as broken, and nothing else is.
pub proof fn law_the_report_fails_when_something_is_broken(facts: Facts, r: Report)
    requires
        call_ensures(run, (&facts,), r),
        facts.saved matches Ok(profiles) ==> profiles.well_formed(),
    ensures
        r.failed <==> !facts.driver || facts.saved is Err,
{
}

/// An attribute is described by what can be done with it: reading, writing, both
/// or neither; one that the model does not have is said not to be there.
pub proof fn law_attributes_are_described_by_their_use(node: NodeFacts, r: String, mark: Mark)
    requires
        call_ensures(describe_node, (&node,), r),
        call_ensures(mark_for_node, (&node,), mark),
    ensures
        !node.present ==> r@ == "not supported on this model"@ && mark is Warn,
        node.present ==> mark is Good,
        node.present && node.contents is Some && node.writable ==> text::begins(r@, "read/write"@),
        node.present && node.contents is Some && !node.writable ==> text::begins(r@, "read-only"@),
        node.present && node.contents is None && node.writable ==> r@ == "write-only"@,
        node.present && node.contents is None && !node.writable ==> r@ == "no access"@,
{
    let long = "read/write"@;
    let short = "read-only"@;
    if node.present && node.contents is Some && node.writable {
        assert(r@.take(long.len() as int) =~= long);
    }
    if node.present && node.contents is Some && !node.writable {
        assert(r@.take(short.len() as int) =~= short);
    }
}

/// The version of a module is what stands behind `version:` on the first line
/// that begins so.
pub proof fn law_the_version_stands_behind_its_label(
    lines: Seq<Seq<char>>,
    i: int,
    version: Seq<char>,
)
    requires
        0 <= i < lines.len(),
        lines[i] == "version:"@ + version,
        forall|j: int| 0 <= j < i ==> !text::begins(#[trigger] lines[j], "version:"@),
    ensures
        version_in(lines) == Some(text::trimmed(version)),
    decreases lines.len(),
{
    let key = "version:"@;
    if i == 0 {
        assert(lines[0].take(key.len() as int) =~= key);
        assert(lines[0].skip(key.len() as int) =~= version);
    } else {
        assert(!text::begins(lines[0], key));
        let rest = lines.skip(1);
        assert(rest[i - 1] == lines[i]);
        assert forall|j: int| 0 <= j < i - 1 implies !text::begins(#[trigger] rest[j], key) by {
            assert(!text::begins(lines[j + 1], key));
        }
        law_the_version_stands_behind_its_label(rest, i - 1, version);
    }
}

/// A file is named by its path, and it is said whether it is there.
pub proof fn law_files_are_said_to_be_there_or_not(file: FileFacts, r: String)
    requires
        call_ensures(describe_file, (&file,), r),
    ensures
        file.present ==> r@ == file.path@ + " (present)"@,
        !file.present ==> r@ == file.path@ + " (not created yet)"@,
{
}

/// Every fan is reported with its channel, name and reading, and a temperature
/// that could not be read is said to be unavailable.
pub proof fn law_sensors_are_reported(facts: Facts, i: int)
    ensures
        ({
            let lines = sensor_section(facts);
            let fans = if facts.fans@.len() == 0 {
                1int
            } else {
                facts.fans@.len() as int
            };
            &&& lines.len() == 2 + fans + 2
            &&& 0 <= i < facts.fans@.len() ==> text::finishes(
                lines[2 + i],
                sensors::reading_text(facts.fans@[i].rpm, facts.fans@[i].pwm),
            )
            &&& facts.cpu_temp matches Some(t) ==> text::finishes(lines[2 + fans], t@ + " C"@)
            &&& facts.gpu_temp matches Some(t) ==> text::finishes(lines[3 + fans], t@ + " C"@)
            &&& facts.cpu_temp is None ==> text::finishes(lines[2 + fans], "unavailable"@)
            &&& facts.gpu_temp is None ==> text::finishes(lines[3 + fans], "unavailable"@)
        }),
{
    let fans = if facts.fans@.len() == 0 {
        1int
    } else {
        facts.fans@.len() as int
    };
    let lines = sensor_section(facts);
    if 0 <= i < facts.fans@.len() {
        let views = sensors::fan_views(facts.fans@);
        assert(views[i] == facts.fans@[i]@);
        lemma_entry_ends(
            Mark::Good,
            "fan "@ + text::decimal(views[i].channel as nat) + " ("@ + views[i].name + ")"@,
            sensors::reading_text(views[i].rpm, views[i].pwm),
        );
        assert(lines[2 + i] == fan_entries(views, facts.fans@.len())[i]);
    }
    lemma_temp_entry("CPU temperature"@, sysfs::text_view(facts.cpu_temp));
    lemma_temp_entry("GPU temperature"@, sysfs::text_view(facts.gpu_temp));
    assert(lines[2 + fans] == temp_entry("CPU temperature"@, sysfs::text_view(facts.cpu_temp)));
    assert(lines[3 + fans] == temp_entry("GPU temperature"@, sysfs::text_view(facts.gpu_temp)));
}

proof fn lemma_temp_entry(label: Seq<char>, temp: Option<Seq<char>>)
    ensures
        temp matches Some(t) ==> text::finishes(temp_entry(label, temp), t + " C"@),
        temp is None ==> text::finishes(temp_entry(label, temp), "unavailable"@),
{
    match temp {
        Some(t) => lemma_entry_ends(Mark::Good, label, t + " C"@),
        None => lemma_entry_ends(Mark::Warn, label, "unavailable"@),
    }
}

proof fn lemma_entry_ends(mark: Mark, label: Seq<char>, value: Seq<char>)
    ensures
        text::finishes(entry(mark, label, value), value),
{
    let line = entry(mark, label, value);
    assert(line.skip(line.len() - value.len()) =~= value);
}

} // verus!
