use gigabytectl::ppd;
use gigabytectl::ppd::Wait;
use gigabytectl::profile::{Profile, Profiles};

#[test]
fn busctl_scalar_strings_are_unwrapped() {
    assert_eq!(ppd::parse_property_string("s \"balanced\"\n").unwrap(), "balanced");
    assert_eq!(ppd::parse_property_string("s \"power-saver\"").unwrap(), "power-saver");
    assert_eq!(ppd::parse_property_string("b true"), None);
    assert_eq!(ppd::parse_property_string(""), None);
}

#[test]
fn property_change_lines_yield_the_new_profile() {
    let line = "/net/hadess/PowerProfiles: org.freedesktop.DBus.Properties.PropertiesChanged \
                ('net.hadess.PowerProfiles', {'ActiveProfile': <'performance'>}, @as [])";
    assert_eq!(ppd::parse_active_profile_change(line).unwrap(), "performance");
    assert_eq!(ppd::parse_active_profile_change("unrelated chatter"), None);
    // A truncated line must not panic on slicing.
    assert_eq!(ppd::parse_active_profile_change("{'ActiveProfile': <'perfo"), None);
}

#[test]
fn mapping_is_case_insensitive_and_deterministic() {
    let with_ppd = |ppd: &str| Profile { ppd_profile: Some(ppd.to_string()), ..Profile::default() };
    let profiles = Profiles::collect(vec![
        ("zulu".to_string(), with_ppd("Performance")),
        ("alpha".to_string(), with_ppd("performance")),
        ("quiet".to_string(), with_ppd("power-saver")),
    ]);
    assert_eq!(ppd::mapped_profile(&profiles, "performance").unwrap().0, "alpha");
    assert_eq!(ppd::mapped_profile(&profiles, "POWER-SAVER").unwrap().0, "quiet");
    assert!(ppd::mapped_profile(&profiles, "balanced").is_none());
}

#[test]
fn the_daemon_is_found_under_either_name() {
    assert_eq!(ppd::endpoint(None, true, true), Some(0));
    assert_eq!(ppd::endpoint(None, false, true), Some(1));
    assert_eq!(ppd::endpoint(None, false, false), None);
    assert_eq!(ppd::endpoint(Some(1), false, false), Some(1), "a hit is remembered");
    assert!(ppd::is_available(None, false, true));
    assert_eq!(
        ppd::require_endpoint(None, false, false).unwrap_err().message(),
        "power-profiles-daemon is not available on the system bus (is it installed and running?)"
    );
}

#[test]
fn waiting_for_the_daemon_ends() {
    assert_eq!(ppd::wait_until_available(true, u128::MAX), Wait::Found);
    assert_eq!(ppd::wait_until_available(false, 29_999_999_999), Wait::ProbeAgain);
    assert_eq!(ppd::wait_until_available(false, 30_000_000_000), Wait::GiveUp);
}

#[test]
fn the_bus_is_asked_the_documented_way() {
    let name = ppd::ENDPOINT_NAMES[0];
    let path = ppd::ENDPOINT_PATHS[0];
    assert_eq!(
        ppd::get_property_args(name, path),
        ["--system", "get-property", name, path, name, "ActiveProfile"]
    );
    assert_eq!(
        ppd::set(name, path, "balanced"),
        ["--system", "set-property", name, path, name, "ActiveProfile", "s", "balanced"]
    );
    assert_eq!(
        ppd::watch_args(name, path),
        ["monitor", "--system", "--dest", name, "--object-path", path]
    );
    assert_eq!(ppd::get("s \"balanced\"").unwrap(), "balanced");
    assert_eq!(
        ppd::get("b \"x\"\n").unwrap_err().message(),
        "parsing ActiveProfile from \"b \\\"x\\\"\\n\""
    );
}

#[test]
fn printed_profiles_read_back() {
    for profile in ["", "balanced", " power saver ", "it's"] {
        let out = format!("s \"{profile}\"");
        assert_eq!(ppd::parse_property_string(&out).as_deref(), Some(profile));
    }
}
