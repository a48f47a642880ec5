use gigabytectl::doctor;
use gigabytectl::doctor::{Facts, FileFacts, Mark, NodeFacts};
use gigabytectl::profile::{Profile, Profiles};
use gigabytectl::sensors::Fan;

fn node(contents: Option<&str>) -> NodeFacts {
    NodeFacts { present: true, contents: contents.map(str::to_string), writable: true }
}

fn file(path: &str, present: bool) -> FileFacts {
    FileFacts { path: path.to_string(), present }
}

fn facts() -> Facts {
    Facts {
        version: "0.6.0".to_string(),
        is_root: false,
        sudo_user: Some("ann".to_string()),
        vendor: Some("GIGABYTE\n".to_string()),
        model: None,
        family: Some(" \n".to_string()),
        bios: None,
        kernel: Some("6.18\n".to_string()),
        driver: true,
        module: None,
        modinfo: Some("filename: x\nsrcversion: 1\nversion:        1.2\nversion: 3".to_string()),
        nodes: [
            node(Some("2\n")),
            node(None),
            NodeFacts { present: true, contents: Some("7".to_string()), writable: false },
            NodeFacts { present: false, contents: None, writable: false },
            NodeFacts { present: true, contents: None, writable: false },
            node(Some("")),
            node(Some("a\"b")),
            node(Some("1")),
            node(Some("1")),
            node(Some("1")),
        ],
        fans: vec![Fan::sample(1, 2400)],
        cpu_temp: Some("58".to_string()),
        gpu_temp: None,
        ppd_available: true,
        ppd: Ok("balanced".to_string()),
        unit_installed: true,
        unit_state: None,
        config: file("/c", true),
        system_config: file("/sc", false),
        profiles: file("/p", true),
        system_profiles: file("/sp", false),
        saved: Ok(Profiles::collect(vec![
            ("zulu".to_string(), Profile::default()),
            ("alpha".to_string(), Profile::default()),
        ])),
    }
}

#[test]
fn the_report_covers_the_machine() {
    let report = doctor::run(&facts());
    assert!(!report.failed);
    assert_eq!(
        report.lines[..12],
        [
            "",
            "gigabytectl",
            "       version                0.6.0",
            "  [--] running as             unprivileged (SUDO_USER=ann)",
            "",
            "Machine",
            "       vendor                 GIGABYTE",
            "       model                  unknown",
            "       family                 unknown",
            "       BIOS                   unknown",
            "       kernel                 6.18",
            "",
        ]
    );
    for line in [
        "  [ok] gigabyte-laptop-wmi    loaded (/sys/devices/platform/aorus_laptop)",
        "       module version         1.2",
        "  [ok] fan_mode               read/write, currently \"2\"",
        "  [ok] fan_custom_speed       write-only",
        "  [ok] fan_pwm                read-only, currently \"7\"",
        "  [--] fan_curve_index        not supported on this model",
        "  [ok] fan_curve_data         no access",
        "  [ok] charge_mode            read/write",
        "  [ok] charge_limit           read/write, currently \"a\\\"b\"",
        "  [ok] fan 1 (CPU fan)        2400 RPM",
        "  [ok] CPU temperature        58 C",
        "  [--] GPU temperature        unavailable",
        "  [ok] system bus             active profile: balanced",
        "  [ok] sync service           installed, state unknown",
        "       config                 /c (present)",
        "       config (system)        /sc (not created yet)",
        "  [ok] saved profiles         alpha, zulu",
    ] {
        assert!(report.lines.iter().any(|l| l == line), "{line}");
    }
    assert_eq!(report.lines.last().map(String::as_str), Some(""));
}

#[test]
fn the_report_fails_only_when_something_is_broken() {
    let missing = doctor::run(&Facts { driver: false, ..facts() });
    assert!(missing.failed);
    assert!(!missing.lines.iter().any(|l| l == "Attributes"));
    assert!(missing.lines.iter().any(|l| l.starts_with("  [!!] gigabyte-laptop-wmi    /sys/")));
    let broken = doctor::run(&Facts { saved: Err("parsing /p: bad".to_string()), ..facts() });
    assert!(broken.failed);
    assert!(broken.lines.iter().any(|l| l == "  [!!] saved profiles         parsing /p: bad"));
    let bare = doctor::run(&Facts {
        is_root: true,
        fans: vec![],
        ppd_available: false,
        unit_installed: false,
        saved: Ok(Profiles::new()),
        modinfo: None,
        ..facts()
    });
    assert!(!bare.failed);
    for line in [
        "  [ok] running as             root",
        "       module version         unknown",
        "  [--] fans                   no readings (driver hwmon device not found)",
        "  [--] system bus             not reachable (sync and ppd_profile are inert)",
        "       sync service           not installed (gigabytectl install-service)",
        "       saved profiles         none",
    ] {
        assert!(bare.lines.iter().any(|l| l == line), "{line}");
    }
    let unanswered = doctor::run(&Facts { ppd: Err("no".to_string()), ..facts() });
    assert!(unanswered.lines.iter().any(|l| l.ends_with("reachable, but: no")));
    assert_eq!(Mark::Bad.symbol(), "[!!]");
}
