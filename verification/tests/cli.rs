use gigabytectl::cli;
use gigabytectl::cli::{
    ChargeModeArg, Commands, ConfigAction, ConfigArgs, CurveStep, FanCurveAction, FanModeArg, Mapped, Monitor, MonitorStep, OnOff,
    ProfileArgs, ProfileStep, Reading, Sample, SampleFormat, Seed, Service, Shell, Step, SyncPlan, ValueAction,
};
use gigabytectl::config::{Config, Environment, Notifications};
use gigabytectl::profile::{Profile, Profiles};
use gigabytectl::sensors::Fan;
use gigabytectl::sysfs;
use gigabytectl::sysfs::{Dependent, HwState, Write};

fn run(command: Commands) -> Result<Step, String> {
    cli::run(command, &Config::default(), true, true).map_err(|e| e.message())
}

#[test]
fn only_driver_commands_require_root() {
    assert!(Commands::Status { json: false }.needs_hardware());
    assert!(Commands::BatteryCycle.needs_hardware());
    assert!(Commands::Fans.needs_hardware());
    assert!(!Commands::Monitor { interval: None, json: false, csv: false, count: None }.needs_hardware());
    assert!(!Commands::Doctor.needs_hardware());
    assert!(!Commands::Completions { shell: Shell::Bash }.needs_hardware());
    assert!(!Commands::InstallService.needs_hardware());
    // `self` manages the install itself, and must work on a machine whose
    // driver is missing — that is a reason to uninstall, not a blocker.
    assert!(
        !Commands::Manage {
            action: cli::ManageAction::Uninstall { yes: false, dry_run: true, keep_config: false }
        }
        .needs_hardware()
    );
}

#[test]
fn clap_values_match_the_driver_encoding() {
    for (arg, name) in [
        (FanModeArg::Normal, "normal"),
        (FanModeArg::Silent, "silent"),
        (FanModeArg::Gaming, "gaming"),
        (FanModeArg::Custom, "custom"),
        (FanModeArg::Auto, "auto"),
        (FanModeArg::Fixed, "fixed"),
    ] {
        assert_eq!(arg.value(), sysfs::fan_mode_value(name).unwrap());
    }
    assert_eq!(ChargeModeArg::Normal.value(), sysfs::charge_mode_value("normal").unwrap());
    assert_eq!(ChargeModeArg::Custom.value(), sysfs::charge_mode_value("custom").unwrap());
    assert_eq!(OnOff::On.value(), sysfs::on_off_value("on").unwrap());
    assert_eq!(OnOff::Off.value(), sysfs::on_off_value("off").unwrap());
}

#[test]
fn commands_come_down_to_one_step() {
    let set = |value| Commands::FanSpeed { action: ValueAction::Put { value } };
    assert!(matches!(
        run(set(190)),
        Ok(Step::Write {
            write: Write { path: sysfs::FAN_CUSTOM_SPEED, value: 190 },
            warn: Some(Dependent::FanCustomSpeed)
        })
    ));
    assert_eq!(run(set(300)).unwrap_err(), "Fan speed must be 0..255");
    assert!(matches!(
        run(Commands::FanSpeed { action: ValueAction::Get }),
        Ok(Step::Show(Reading::FanSpeed))
    ));
    assert!(matches!(
        run(Commands::Monitor { interval: None, json: false, csv: true, count: Some(3) }),
        Ok(Step::Monitor { period: 1_000_000_000, format: SampleFormat::Csv, count: Some(3) })
    ));
    assert!(matches!(
        run(Commands::Monitor { interval: Some(5), json: true, csv: false, count: None }),
        Ok(Step::Monitor { period: 100_000_000, format: SampleFormat::Json, count: None })
    ));
    let config = Config::default();
    assert_eq!(
        cli::run(Commands::Fans, &config, false, true).unwrap_err().message(),
        "gigabytectl: must be run as root (try: sudo gigabytectl ...)"
    );
    assert_eq!(
        cli::run(Commands::Fans, &config, true, false).unwrap_err().message(),
        sysfs::driver_missing_message()
    );
    for command in [
        Commands::Doctor,
        Commands::Completions { shell: Shell::Fish },
        Commands::Monitor { interval: None, json: false, csv: false, count: None },
        Commands::Config(ConfigArgs { action: ConfigAction::Keys }),
        Commands::Manage { action: cli::ManageAction::Update { check: true, dry_run: false } },
    ] {
        assert!(cli::run(command, &config, false, false).is_ok());
    }
}

#[test]
fn readings_are_printed_for_scripts() {
    assert_eq!(Reading::FanMode.show(Some("2\n")), "gaming");
    assert_eq!(Reading::FanMode.show(Some("9")), "unknown (9)");
    assert_eq!(Reading::FanSpeed.show(None), "N/A");
    assert_eq!(Reading::GpuBoost.show(Some("1")), "on");
    assert_eq!(Reading::BatteryCycle.show(Some("0\n")), "Device does not support this feature");
    assert_eq!(Reading::LightSensor.show(Some("247 16 1 0\n")), "272");
    assert_eq!(Reading::ChargeMode.path(), sysfs::CHARGE_MODE);
}

#[test]
fn the_curve_is_printed_and_guarded() {
    let curve: Vec<(i32, i32)> = (0..15).map(|i| (i * 5, i * 10)).collect();
    assert_eq!(cli::fan_curve_lines(Some(3), &curve).unwrap(), ["3 15 30"]);
    let all = cli::fan_curve_lines(None, &curve).unwrap();
    assert_eq!(all.len(), 15);
    assert_eq!(all[14], "14 70 140");
    assert_eq!(
        cli::fan_curve_lines(Some(15), &curve).unwrap_err().message(),
        "Index must be 0..15"
    );
    assert_eq!(
        cli::checked_curve_writes(&curve, 1, 50, 10).unwrap_err().message(),
        "refusing to write a fan curve that goes backwards (use --force to override): \
         Temperature must be 0..10 to keep the curve in order (neighbouring points)"
    );
    assert_eq!(cli::checked_curve_writes(&curve, 1, 6, 10).unwrap().len(), 2);
    let set = |index, force| FanCurveAction::Put { index, temp: 90, speed: 1, force };
    assert!(matches!(cli::run_fan_curve(set(1, true)).unwrap(), CurveStep::Write(w) if w.len() == 2));
    assert!(matches!(
        cli::run_fan_curve(set(1, false)).unwrap(),
        CurveStep::Check { index: 1, temp: 90, speed: 1 }
    ));
    assert!(cli::run_fan_curve(set(15, false)).is_err());
}

#[test]
fn inert_values_are_pointed_out() {
    let hw = HwState { charge_mode: Some(0), charge_limit: Some(80), ..HwState::default() };
    assert_eq!(
        cli::warn_if_inactive(&hw, Dependent::ChargeLimit).as_deref(),
        Some("Warning: value saved, but it has no effect right now - it requires Custom charge mode")
    );
    assert_eq!(cli::warn_if_inactive(&hw, Dependent::FanCurve), None);
    assert_eq!(
        cli::annotate("80", Some("requires Custom charge mode")),
        "80  (inactive - requires Custom charge mode)"
    );
    assert_eq!(cli::annotate("80", None), "80");
}

#[test]
fn the_status_report_lists_everything() {
    let hw = HwState {
        fan_mode: Some(2),
        fan_custom_speed: Some(200),
        charge_mode: Some(1),
        charge_limit: Some(80),
        gpu_boost: Some(1),
        battery_cycle: Some("12".to_string()),
        light_sensor: None,
        fan_pwm: Some(160),
    };
    let fans = [Fan { channel: 1, name: "CPU fan".to_string(), rpm: 2400, pwm: Some(60) }];
    assert_eq!(
        cli::print_status(&hw, "58°C", "N/A", &fans),
        [
            "Fan mode:      Gaming",
            "Fan speed:     200  (inactive - requires Auto or Fixed fan mode)",
            "Charge mode:   Custom",
            "Charge limit:  80",
            "GPU boost:     ON",
            "Battery cycle: 12",
            "Light sensor:  N/A",
            "Fan PWM:       160",
            "CPU temp:      58°C",
            "GPU temp:      N/A",
            "Fans:",
            "  CPU fan: 2400 RPM (PWM 60)",
        ]
    );
    let record = cli::status_record(&hw, &fans);
    assert_eq!(record.fan_mode, "gaming");
    assert_eq!(record.gpu_boost, "on");
    assert!(!record.fan_speed_active && record.charge_limit_active);
    assert_eq!(record.fans[0].rpm, 2400);
    assert_eq!(cli::print_fans(&[]), ["No live fan readings available"]);
    assert_eq!(cli::print_fans(&fans), ["CPU fan: 2400 RPM (PWM 60)"]);
    assert_eq!(cli::print_status(&hw, "a", "b", &[]).len(), 10);
}

#[test]
fn the_csv_table_stays_rectangular() {
    let mut monitor = Monitor::new(SampleFormat::Csv, Some(2));
    assert_eq!(monitor.next(), MonitorStep::Take { wait: false });
    let both = [Fan::sample(1, 1000), Fan { pwm: Some(7), ..Fan::sample(3, 500) }];
    match monitor.sample(100, "58.5", "", &both) {
        Sample::Lines(lines) => assert_eq!(
            lines,
            [
                "timestamp,cpu_temp,gpu_temp,fan1_rpm,fan1_pwm,fan3_rpm,fan3_pwm",
                "100,58.5,,1000,,500,7",
            ]
        ),
        other => panic!("{other:?}"),
    }
    assert_eq!(monitor.next(), MonitorStep::Take { wait: true });
    match monitor.sample(101, "59.0", "40.0", &[Fan::sample(1, 900), Fan::sample(2, 1)]) {
        Sample::Lines(lines) => assert_eq!(lines, ["101,59.0,40.0,900,,,"]),
        other => panic!("{other:?}"),
    }
    assert_eq!(monitor.next(), MonitorStep::Stop);
}

#[test]
fn csv_columns_belong_to_channels() {
    assert_eq!(
        cli::csv_header(&[2, 5]),
        "timestamp,cpu_temp,gpu_temp,fan2_rpm,fan2_pwm,fan5_rpm,fan5_pwm"
    );
    assert_eq!(cli::csv_header(&[]), "timestamp,cpu_temp,gpu_temp");
    let fans = [
        Fan::sample(1, 111),
        Fan { pwm: Some(50), ..Fan::sample(5, 500) },
        Fan { pwm: Some(20), ..Fan::sample(2, 200) },
        Fan { pwm: Some(51), ..Fan::sample(5, 501) },
    ];
    assert_eq!(cli::csv_row(9, "58.5", "40.0", &[2, 5], &fans), "9,58.5,40.0,200,20,500,50");
    assert_eq!(cli::csv_row(9, "", "", &[2, 5], &fans[..2]), "9,,,,,500,50");
    assert_eq!(cli::csv_row(9, "", "", &[1], &fans), "9,,,111,");
    assert_eq!(cli::csv_row(9, "", "", &[2, 5], &fans[1..]), cli::csv_row(9, "", "", &[2, 5], &fans));
}

#[test]
fn samples_come_as_text_or_json_too() {
    let mut text = Monitor::new(SampleFormat::Text, None);
    let fans = [Fan::sample(1, 1000), Fan::sample(2, 2000)];
    match text.sample(0, "58°C", "N/A", &fans) {
        Sample::Lines(lines) => {
            assert_eq!(lines, ["CPU 58°C   GPU N/A   CPU fan: 1000 RPM   GPU fan: 2000 RPM"]);
        }
        other => panic!("{other:?}"),
    }
    match text.sample(0, "a", "b", &[]) {
        Sample::Lines(lines) => assert_eq!(lines, ["CPU a   GPU b   no fan data"]),
        other => panic!("{other:?}"),
    }
    let mut json = Monitor::new(SampleFormat::Json, None);
    assert!(matches!(json.sample(0, "", "", &fans), Sample::Json(list) if list.len() == 2));
}

fn args() -> ProfileArgs {
    ProfileArgs {
        name: None,
        list: false,
        save: None,
        delete: None,
        show: None,
        ppd: None,
        sync_system: false,
    }
}

#[test]
fn profile_arguments_are_taken_in_order() {
    let save = || ProfileArgs { save: Some("g".to_string()), delete: Some("x".to_string()), ..args() };
    assert!(matches!(
        cli::run_profile(save(), true, false).unwrap(),
        ProfileStep::Save { name, ppd: None } if name == "g"
    ));
    assert_eq!(
        cli::run_profile(save(), false, false).unwrap_err().message(),
        "gigabytectl: saving a profile reads hardware state; run as root (try: sudo gigabytectl profile --save g)"
    );
    let delete = ProfileArgs { delete: Some("x".to_string()), list: true, ..args() };
    assert!(matches!(cli::run_profile(delete, false, false).unwrap(), ProfileStep::Delete { .. }));
    let sync = ProfileArgs { sync_system: true, ..args() };
    assert_eq!(
        cli::run_profile(sync, false, false).unwrap_err().message(),
        "gigabytectl: writing /etc/gigabytectl needs root (try: sudo gigabytectl profile --sync-system)"
    );
    assert!(matches!(
        cli::run_profile(ProfileArgs { list: true, ..args() }, false, false).unwrap(),
        ProfileStep::List
    ));
    assert_eq!(
        cli::run_profile(args(), false, false).unwrap_err().message(),
        "Specify a profile to apply, or use --list / --save / --show / --delete <name>"
    );
    let apply = || ProfileArgs { name: Some("g".to_string()), ..args() };
    assert!(cli::run_profile(apply(), true, false).is_err());
    assert!(matches!(cli::run_profile(apply(), true, true).unwrap(), ProfileStep::Apply { .. }));
}

#[test]
fn profiles_are_saved_deleted_and_listed() {
    let mut profiles = Profiles::new();
    assert_eq!(cli::profile_list(&profiles, "/p"), ["No profiles defined in /p"]);
    let captured = Profile { ppd_profile: Some("balanced".to_string()), ..Profile::default() };
    let message = cli::save_profile(&mut profiles, "g", captured.clone(), Some("performance".to_string()));
    assert_eq!(message, "Saved profile 'g'");
    assert_eq!(profiles.get("g").unwrap().ppd_profile.as_deref(), Some("performance"));
    assert_eq!(cli::save_profile(&mut profiles, "g", captured, None), "Updated profile 'g'");
    assert_eq!(profiles.get("g").unwrap().ppd_profile.as_deref(), Some("balanced"));
    assert_eq!(cli::profile_list(&profiles, "/p"), ["g"]);
    assert!(cli::find_profile(&profiles, "g", "/p").is_ok());
    assert_eq!(
        cli::find_profile(&profiles, "h", "/p").unwrap_err().message(),
        "profile 'h' not found in /p"
    );
    assert!(cli::delete_profile(&mut profiles, "h", "/p").is_err());
    assert_eq!(cli::delete_profile(&mut profiles, "g", "/p").unwrap(), "Deleted profile 'g'");
    assert!(profiles.is_empty());
}

#[test]
fn settings_of_the_system_take_root() {
    let env = Environment {
        xdg_config_home: None,
        xdg_cache_home: None,
        sudo_home: None,
        home: None,
    };
    assert!(cli::run_config_set(&env, "units", "c", false, false).is_ok());
    assert!(cli::run_config_set(&env, "units", "c", true, true).is_ok());
    assert_eq!(
        cli::run_config_set(&env, "units", "c", true, false).unwrap_err().message(),
        "gigabytectl: writing /etc/gigabytectl/config.toml needs root (try: sudo gigabytectl config set --system units c)"
    );
    assert_eq!(cli::config_set_line("units", "celsius", "/p"), "units = celsius (/p)");
    assert_eq!(cli::config_keys(), Config::KEYS);
}

#[test]
fn the_service_needs_something_to_do() {
    let off = Notifications::default();
    let on = Notifications { enabled: true, ..Notifications::default() };
    assert_eq!(cli::run_sync(true, &off).unwrap(), Service::Follow { alerts: false });
    assert_eq!(cli::run_sync(true, &on).unwrap(), Service::Follow { alerts: true });
    assert_eq!(cli::run_sync(false, &on).unwrap(), Service::Alerts);
    assert!(cli::run_sync(false, &off).unwrap_err().message().ends_with("for alerts alone."));
    assert!(cli::run_sync_once(true).is_ok());
    assert!(cli::run_sync_once(false).is_err());
    assert!(cli::install_service(true).is_ok());
    assert!(cli::install_service(false).unwrap_err().message().contains("install-service"));
}

#[test]
fn a_power_profile_change_applies_the_mapped_profile() {
    let with = |limit| Profile {
        charge_limit: Some(limit),
        ppd_profile: Some("performance".to_string()),
        ..Profile::default()
    };
    let good = Profiles::collect(vec![("g".to_string(), with(80))]);
    match cli::apply_mapped_profile(&good, "performance").unwrap() {
        Mapped::Apply { writes, message, .. } => {
            assert_eq!(writes, vec![Write { path: sysfs::CHARGE_LIMIT, value: 80 }]);
            assert_eq!(message, "Power profile 'performance' -> applied gigabytectl profile 'g'");
        }
        other => panic!("{other:?}"),
    }
    match cli::apply_mapped_profile(&good, "balanced").unwrap() {
        Mapped::Nothing { message } => assert_eq!(
            message,
            "Power profile 'balanced' has no mapped gigabytectl profile; nothing to apply"
        ),
        other => panic!("{other:?}"),
    }
    let bad = Profiles::collect(vec![("b".to_string(), with(1))]);
    assert_eq!(
        cli::apply_mapped_profile(&bad, "performance").unwrap_err().message(),
        "applying gigabytectl profile 'b': Charge limit must be 60..100"
    );
}

#[test]
fn the_unit_starts_this_binary() {
    let unit = cli::service_unit("/usr/local/bin/gigabytectl");
    assert!(unit.starts_with("[Unit]\nDescription=gigabytectl power-profiles-daemon sync"));
    assert!(unit.contains("\nExecStart=/usr/local/bin/gigabytectl sync\n"));
    assert!(unit.ends_with("\nWantedBy=multi-user.target power-profiles-daemon.service\n"));
    assert!(!unit.lines().any(|line| line.starts_with("After=")));
    assert_eq!(cli::seed_system_profiles(true, true), Seed::Copy);
    assert_eq!(cli::seed_system_profiles(false, true), Seed::Keep);
    assert_eq!(cli::seed_system_profiles(false, false), Seed::Missing);
    assert_eq!(cli::seed_lines(Seed::Copy, "/u", "/s"), ["Copied profiles: /u -> /s"]);
    assert_eq!(cli::seed_lines(Seed::Missing, "/u", "/s").len(), 3);
    assert_eq!(
        cli::seed_system_config("/c", true, "90", "85")[1],
        "Temperature alerts are on: the service will notify logged-in desktops (CPU >= 90C, GPU >= 85C)."
    );
    assert_eq!(cli::seed_system_config("/c", false, "90", "85").len(), 4);
}

#[test]
fn packaged_unit_file_matches_the_installed_one() {
    let packaged = "[Unit]
Description=gigabytectl power-profiles-daemon sync and temperature alerts
Documentation=https://github.com/Code-Sapling/gigabytectl
# Apply the mapped gigabytectl profile whenever the system power profile changes,
# and raise temperature alerts when notifications are enabled in the config.
#
# Deliberately not ordered After=power-profiles-daemon.service: PPD's own unit is
# After=multi-user.target and this one is WantedBy=multi-user.target, so that
# ordering closes a cycle and systemd silently drops this unit's start job at
# boot. `gigabytectl sync` waits for PPD on the bus instead.
Wants=power-profiles-daemon.service

[Service]
Type=simple
# Adjust the path if you installed elsewhere (e.g. /usr/bin/gigabytectl).
# This runs as root, so it reads profiles and settings from /etc/gigabytectl
# (not any user's ~/.config). `gigabytectl install-service` sets this up for you.
ExecStart=/usr/local/bin/gigabytectl sync
Restart=on-failure
RestartSec=2

[Install]
# multi-user.target so temperature alerts still run on machines without
# power-profiles-daemon; the PPD unit so sync starts with it when it is there.
WantedBy=multi-user.target power-profiles-daemon.service
";
    assert_eq!(cli::service_unit("/usr/local/bin/gigabytectl"), packaged);
}

#[test]
fn the_service_takes_root_and_the_driver() {
    assert_eq!(
        cli::plan_sync(false, true, true).unwrap_err().message(),
        "gigabytectl: must be run as root (try: sudo gigabytectl ...)"
    );
    assert_eq!(
        cli::plan_sync(true, false, false).unwrap_err().message(),
        sysfs::driver_missing_message()
    );
    assert_eq!(cli::plan_sync(true, true, true).unwrap(), SyncPlan::Once);
    assert_eq!(cli::plan_sync(true, true, false).unwrap(), SyncPlan::Serve);
}

#[test]
fn applying_a_profile_switches_the_power_profile_too() {
    let plain = Profile { charge_limit: Some(80), ..Profile::default() };
    let mapped = Profile { ppd_profile: Some("performance".to_string()), ..plain.clone() };
    let broken = Profile { charge_limit: Some(1), ..Profile::default() };
    let profiles = Profiles::collect(vec![
        ("b".to_string(), broken),
        ("m".to_string(), mapped),
        ("p".to_string(), plain),
    ]);
    let applied = cli::apply_profile(&profiles, "m", "/p").unwrap();
    assert_eq!(applied.writes, vec![Write { path: sysfs::CHARGE_LIMIT, value: 80 }]);
    assert_eq!(applied.message, "Applied profile 'm'");
    let switch = applied.switch.unwrap();
    assert_eq!(switch.power, "performance");
    assert_eq!(switch.message, "Set power profile -> performance");
    assert!(cli::apply_profile(&profiles, "p", "/p").unwrap().switch.is_none());
    assert_eq!(
        cli::apply_profile(&profiles, "b", "/p").unwrap_err().message(),
        "Charge limit must be 60..100"
    );
    assert_eq!(
        cli::apply_profile(&profiles, "x", "/p").unwrap_err().message(),
        "profile 'x' not found in /p"
    );
}
