use gigabytectl::config;
use gigabytectl::config::{Config, Environment, Looked, Notifications, Setting, Units};
use gigabytectl::degrees::Celsius;
use gigabytectl::profile;
use gigabytectl::profile::{Profile, Profiles};
use gigabytectl::sysfs;
use gigabytectl::sysfs::{HwState, Write};

/// What a setting prints.
fn printed(setting: &Setting<String>) -> String {
    match setting {
        Setting::Text(text) => text.clone(),
        Setting::Degrees(c) => f32::from_bits(c.bits).to_string(),
    }
}

/// A typed number as a temperature, where it is one.
fn typed(value: &str) -> Option<Celsius> {
    value.trim().parse::<f32>().ok().map(|v| Celsius { bits: v.to_bits() })
}

#[test]
fn refresh_interval_has_a_floor() {
    let cfg = Config { refresh_interval_ms: 0, ..Config::default() };
    assert_eq!(cfg.refresh_interval(), config::MIN_REFRESH_INTERVAL);
    let cfg = Config { refresh_interval_ms: 2000, ..Config::default() };
    assert_eq!(cfg.refresh_interval(), 2000);
}

#[test]
fn every_documented_key_round_trips_through_get_and_set() {
    let mut config = Config::default();
    for key in Config::KEYS {
        let value = printed(&config.get(key).expect("a documented key must be readable"));
        config
            .set(key, &value, typed(&value))
            .expect("what get prints must be what set accepts");
        assert_eq!(printed(&config.get(key).unwrap()), value, "{key} changed on a round trip");
    }
    assert_eq!(config, Config::default());
    assert!(config.get("notifications.nope").is_err());
    assert!(config.set("notifications.nope", "1", typed("1")).is_err());
}

#[test]
fn the_service_poll_interval_has_a_floor() {
    let notifications = Notifications { poll_interval_secs: 0, ..Notifications::default() };
    assert_eq!(notifications.poll_interval(), config::MIN_POLL_INTERVAL);
    let notifications = Notifications { poll_interval_secs: 30, ..Notifications::default() };
    assert_eq!(notifications.poll_interval(), 30);
}

#[test]
fn unreadable_or_unknown_values_are_not_saved_into_profiles() {
    assert_eq!(
        profile::saved_name(&sysfs::FAN_MODES, Some(2)),
        Some("gaming".to_string())
    );
    assert_eq!(profile::saved_name(&sysfs::FAN_MODES, Some(99)), None);
    assert_eq!(profile::saved_name(&sysfs::FAN_MODES, Some(-1)), None);
    assert_eq!(profile::saved_name(&sysfs::FAN_MODES, None), None);
}

#[test]
fn applying_a_profile_rejects_bad_values_before_touching_hardware() {
    let bad_mode = Profile { fan_mode: Some("turbo".into()), ..Profile::default() };
    assert!(bad_mode.apply().unwrap_err().message().contains("Unknown fan mode"));

    let bad_speed = Profile { fan_custom_speed: Some(999), ..Profile::default() };
    assert!(bad_speed.apply().unwrap_err().message().contains("Fan speed"));

    let short_curve = Profile { fan_curve: Some(vec![[30, 40]]), ..Profile::default() };
    assert!(short_curve.apply().unwrap_err().message().contains("15 points"));
}

#[test]
fn the_defaults_are_the_documented_ones() {
    let config = Config::default();
    assert_eq!(config.refresh_interval_ms, 1000);
    assert_eq!(config.units, Units::Celsius);
    assert_eq!(config.history_length, 120);
    assert!(config.update_check);
    assert!(!config.notifications.enabled);
    assert_eq!(f32::from_bits(config.notifications.cpu_temp.bits), 90.0);
    assert_eq!(f32::from_bits(config.notifications.gpu_temp.bits), 90.0);
    assert_eq!(config.notifications.cooldown_secs, 300);
    assert_eq!(config.notifications.poll_interval_secs, 10);
    assert_eq!(Units::Celsius.symbol(), "°C");
    assert_eq!(Units::Fahrenheit.symbol(), "°F");
}

#[test]
fn settings_are_checked_for_their_kind() {
    let mut config = Config::default();
    config.set("units", " F ", None).unwrap();
    assert_eq!(config.units, Units::Fahrenheit);
    assert_eq!(
        config.set("units", "Kelvin", None).unwrap_err().message(),
        "units must be celsius or fahrenheit, got 'kelvin'"
    );
    assert_eq!(
        config.set("update_check", "Perhaps", None).unwrap_err().message(),
        "update_check must be true or false, got 'perhaps'"
    );
    config.set("update_check", "no", None).unwrap();
    assert!(!config.update_check);
    assert_eq!(
        config.set("history_length", "-1", None).unwrap_err().message(),
        "'-1' is not a valid value for history_length"
    );
    config.set("notifications.cpu_temp", "85.5", typed("85.5")).unwrap();
    assert_eq!(f32::from_bits(config.notifications.cpu_temp.bits), 85.5);
    assert_eq!(
        config.set("notifications.gpu_temp", "hot", typed("hot")).unwrap_err().message(),
        "'hot' is not a valid value for notifications.gpu_temp"
    );
    assert_eq!(
        config.get("nope").unwrap_err().message(),
        "Unknown config key 'nope' (known keys: refresh_interval_ms, units, history_length, update_check, \
         notifications.enabled, notifications.cpu_temp, notifications.gpu_temp, notifications.cooldown_secs, \
         notifications.poll_interval_secs)"
    );
}

fn environment() -> Environment {
    Environment {
        xdg_config_home: None,
        xdg_cache_home: None,
        sudo_home: None,
        home: Some("/home/ann".to_string()),
    }
}

#[test]
fn directories_follow_the_environment() {
    let env = environment();
    assert_eq!(config::config_dir(&env), "/home/ann/.config/gigabytectl");
    assert_eq!(config::config_path(&env, false), "/home/ann/.config/gigabytectl/config.toml");
    assert_eq!(config::config_path(&env, true), "/etc/gigabytectl/config.toml");
    assert_eq!(config::profiles_path(&env), "/home/ann/.config/gigabytectl/profiles.toml");
    assert_eq!(config::system_profiles_path(), "/etc/gigabytectl/profiles.toml");
    assert_eq!(
        config::search_dirs(&env),
        ["/home/ann/.config/gigabytectl", "/etc/gigabytectl"]
    );

    // Under sudo it is the invoking user's home that counts.
    let sudo = Environment { sudo_home: Some("/home/bob".to_string()), ..environment() };
    assert_eq!(config::config_dir(&sudo), "/home/bob/.config/gigabytectl");
    let xdg = Environment { xdg_config_home: Some("/x/".to_string()), ..environment() };
    assert_eq!(config::config_dir(&xdg), "/x/gigabytectl");
    let empty = Environment { xdg_config_home: Some(String::new()), home: None, ..environment() };
    assert_eq!(config::config_dir(&empty), "/root/.config/gigabytectl");

    // The system-wide directory is searched once, however it is written.
    let system = Environment { xdg_config_home: Some("//etc/.".to_string()), ..environment() };
    assert_eq!(config::search_dirs(&system), ["//etc/./gigabytectl"]);
    assert!(config::cache_path(&env).starts_with("/home/ann/.cache/gigabytectl/"));
}

#[test]
fn only_an_existing_system_copy_is_kept_in_step() {
    let env = environment();
    assert!(!config::sync_config_to_system(&env, false, true).unwrap());
    assert!(config::sync_config_to_system(&env, true, true).unwrap());
    assert_eq!(
        config::sync_config_to_system(&env, true, false).unwrap_err().message(),
        "/etc/gigabytectl/config.toml needs root to update (re-run with sudo)"
    );
    assert_eq!(
        config::sync_profiles_to_system(&env, true, false).unwrap_err().message(),
        "/etc/gigabytectl/profiles.toml needs root to update (re-run with sudo, or `sudo gigabytectl profile --sync-system`)"
    );
    let system = Environment { xdg_config_home: Some("/etc".to_string()), ..environment() };
    assert!(!config::sync_profiles_to_system(&system, true, true).unwrap());
}

#[test]
fn the_first_readable_file_counts() {
    let fahrenheit = Config { units: Units::Fahrenheit, ..Config::default() };
    let files = [
        Looked { path: "/a".to_string(), contents: None },
        Looked { path: "/b".to_string(), contents: Some(Ok(fahrenheit)) },
    ];
    let loaded = Config::load(&files);
    assert_eq!(loaded.config, fahrenheit);
    assert!(loaded.warning.is_none());

    let broken = [
        Looked { path: "/a".to_string(), contents: Some(Err("oops".to_string())) },
        Looked { path: "/b".to_string(), contents: Some(Ok(fahrenheit)) },
    ];
    let loaded = Config::load(&broken);
    assert_eq!(loaded.config, Config::default());
    assert_eq!(
        loaded.warning.as_deref(),
        Some("Warning: failed to parse /a: oops. Using defaults.")
    );
    assert_eq!(
        config::load_config_file(&broken[0]).warning.as_deref(),
        Some("Warning: failed to parse /a: oops. Starting from defaults.")
    );
    assert_eq!(Config::load(&[]).config, Config::default());

    let profiles = [Looked { path: "/p".to_string(), contents: Some(Err("bad".to_string())) }];
    assert_eq!(
        config::load_profiles(&profiles).unwrap_err().message(),
        "parsing /p: bad"
    );
    assert!(config::load_profiles(&[]).unwrap().is_empty());
}

#[test]
fn profiles_are_kept_in_order_of_their_names() {
    let speed = |n| Profile { fan_custom_speed: Some(n), ..Profile::default() };
    let mut profiles = Profiles::collect(vec![
        ("zulu".to_string(), speed(1)),
        ("alpha".to_string(), speed(2)),
        ("zulu".to_string(), speed(3)),
    ]);
    assert_eq!(profiles.names(), ["alpha", "zulu"]);
    assert_eq!(profiles.get("zulu").unwrap().fan_custom_speed, Some(3));
    assert!(!profiles.insert("mike", speed(4)));
    assert!(profiles.insert("alpha", speed(5)));
    assert_eq!(profiles.names(), ["alpha", "mike", "zulu"]);
    assert_eq!(profiles.position("mike"), Some(1));
    assert!(profiles.remove("mike"));
    assert!(!profiles.remove("mike"));
    assert_eq!(profiles.names(), ["alpha", "zulu"]);
    assert_eq!(profiles.position("mike"), None);
}

#[test]
fn a_captured_profile_writes_the_settings_back() {
    let hw = HwState {
        fan_mode: Some(2),
        fan_custom_speed: Some(190),
        charge_mode: Some(1),
        charge_limit: Some(80),
        gpu_boost: Some(1),
        ..HwState::default()
    };
    let curve: Vec<(i32, i32)> = (0..15).map(|i| (i * 5, i * 10)).collect();
    let saved = Profile::from_hardware(&hw, Some(curve.clone()), Some("performance".to_string()));
    assert_eq!(saved.fan_mode.as_deref(), Some("gaming"));
    assert_eq!(saved.gpu_boost.as_deref(), Some("on"));
    assert_eq!(saved.ppd_profile.as_deref(), Some("performance"));
    let writes = saved.apply().unwrap();
    assert_eq!(
        writes[..5],
        [
            Write { path: sysfs::FAN_MODE, value: 2 },
            Write { path: sysfs::FAN_CUSTOM_SPEED, value: 190 },
            Write { path: sysfs::CHARGE_MODE, value: 1 },
            Write { path: sysfs::CHARGE_LIMIT, value: 80 },
            Write { path: sysfs::GPU_BOOST, value: 1 },
        ]
    );
    assert_eq!(writes.len(), 5 + 30);
    assert_eq!(writes[6], Write { path: sysfs::FAN_CURVE_DATA, value: 0 });
    assert_eq!(writes[34], Write { path: sysfs::FAN_CURVE_DATA, value: 140 * 256 + 70 });
    assert_eq!(Profile::default().apply().unwrap(), vec![]);
}

#[test]
fn a_captured_profile_stays_applicable_under_unknown_modes() {
    let hw = HwState {
        fan_mode: Some(6),
        fan_custom_speed: Some(190),
        charge_mode: Some(-1),
        gpu_boost: Some(3),
        ..HwState::default()
    };
    let saved = Profile::from_hardware(&hw, None, None);
    assert_eq!((saved.fan_mode.as_deref(), saved.charge_mode.as_deref()), (None, None));
    assert_eq!(
        saved.apply().unwrap(),
        vec![
            Write { path: sysfs::FAN_CUSTOM_SPEED, value: 190 },
            Write { path: sysfs::GPU_BOOST, value: 1 },
        ]
    );
    let known = HwState { charge_mode: Some(0), ..hw };
    assert_eq!(
        Profile::from_hardware(&known, None, None).apply().unwrap()[1],
        Write { path: sysfs::CHARGE_MODE, value: 0 }
    );
}

#[test]
fn a_profile_writes_nothing_it_does_not_name() {
    let limit = Profile { charge_limit: Some(70), ..Profile::default() };
    assert_eq!(
        limit.apply().unwrap(),
        vec![Write { path: sysfs::CHARGE_LIMIT, value: 70 }]
    );
    let low = Profile { charge_limit: Some(10), ..Profile::default() };
    assert_eq!(low.apply().unwrap_err().message(), "Charge limit must be 60..100");
}

#[test]
fn temperatures_compare_as_numbers() {
    let at = |v: f32| Celsius { bits: v.to_bits() };
    for (a, b) in [(91.0, 90.0), (90.0, 90.0), (0.0, -0.0), (-0.0, 0.0), (-1.0, -2.0), (1e-40, 0.0)] {
        assert!(at(a).at_least(at(b)), "{a} {b}");
    }
    for (a, b) in [(89.9, 90.0), (-2.0, -1.0), (-1.0, 1.0), (f32::NAN, 1.0), (1.0, f32::NAN)] {
        assert!(!at(a).at_least(at(b)), "{a} {b}");
    }
    assert!(at(f32::INFINITY).at_least(at(f32::MAX)));
}

#[test]
fn sudo_leads_to_the_same_directories() {
    let own = Environment { home: Some("/home/ann".to_string()), ..environment_of_nobody() };
    let root = Environment {
        home: Some("/root".to_string()),
        sudo_home: Some("/home/ann".to_string()),
        ..environment_of_nobody()
    };
    assert_eq!(config::config_dir(&own), "/home/ann/.config/gigabytectl");
    assert_eq!(config::config_dir(&root), config::config_dir(&own));
    assert_eq!(config::cache_path(&root), "/home/ann/.cache/gigabytectl/update-check.json");
}

fn environment_of_nobody() -> Environment {
    Environment { xdg_config_home: None, xdg_cache_home: None, sudo_home: None, home: None }
}

#[test]
fn deleting_undoes_saving_and_the_last_save_counts() {
    let limit = |n| Profile { charge_limit: Some(n), ..Profile::default() };
    let mut profiles = Profiles::collect(vec![("b".to_string(), limit(70))]);
    for name in ["a", "c"] {
        let before = profiles.entries.clone();
        assert!(!profiles.insert(name, limit(80)));
        assert!(profiles.insert(name, limit(90)));
        assert_eq!(profiles.get(name), Some(&limit(90)));
        assert!(profiles.remove(name));
        assert!(!profiles.remove(name));
        assert_eq!(profiles.entries, before);
    }
}
