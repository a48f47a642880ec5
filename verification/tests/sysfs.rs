use gigabytectl::sysfs;
use gigabytectl::sysfs::{Dependent, HwState, NodeTexts, Write, WriteFailure};

#[test]
fn node_paths_hang_off_the_driver_root() {
    assert_eq!(sysfs::FAN_MODE, "/sys/devices/platform/aorus_laptop/fan_mode");
    assert!(sysfs::FAN_CURVE_DATA.starts_with(sysfs::ROOT));
}

#[test]
fn names_round_trip_through_values() {
    for (value, name) in sysfs::FAN_MODES.iter().enumerate() {
        assert_eq!(sysfs::fan_mode_name(Some(value as i32)), *name);
        assert_eq!(sysfs::fan_mode_value(name).unwrap(), value as i32);
        assert_eq!(sysfs::fan_mode_value(&name.to_uppercase()).unwrap(), value as i32);
    }
    assert_eq!(sysfs::charge_mode_value("custom").unwrap(), 1);
}

#[test]
fn unknown_names_and_values_are_reported_not_panicked_on() {
    assert_eq!(sysfs::fan_mode_name(Some(99)), "Unknown (99)");
    assert_eq!(sysfs::fan_mode_name(Some(-1)), "Unknown (-1)");
    assert_eq!(sysfs::fan_mode_name(None), "N/A");
    assert!(sysfs::fan_mode_value("turbo").is_err());
}

#[test]
fn on_off_accepts_the_documented_spellings() {
    for yes in ["on", "ON", " 1 ", "true", "yes"] {
        assert_eq!(sysfs::on_off_value(yes).unwrap(), 1);
    }
    for no in ["off", "0", "FALSE", "no"] {
        assert_eq!(sysfs::on_off_value(no).unwrap(), 0);
    }
    assert!(sysfs::on_off_value("maybe").is_err());
}

#[test]
fn ranges_are_enforced_at_both_ends() {
    assert!(sysfs::validate_fan_speed(0).is_ok() && sysfs::validate_fan_speed(255).is_ok());
    assert!(sysfs::validate_fan_speed(-1).is_err() && sysfs::validate_fan_speed(256).is_err());
    assert!(sysfs::validate_charge_limit(60).is_ok() && sysfs::validate_charge_limit(100).is_ok());
    assert!(sysfs::validate_charge_limit(59).is_err() && sysfs::validate_charge_limit(101).is_err());
    assert!(sysfs::validate_curve_index(sysfs::FAN_CURVE_POINTS - 1).is_ok());
    assert!(sysfs::validate_curve_index(sysfs::FAN_CURVE_POINTS).is_err());
    assert_eq!(
        sysfs::validate_fan_speed(300).unwrap_err().message(),
        "Fan speed must be 0..255"
    );
}

#[test]
fn fan_curve_points_pack_and_parse() {
    assert_eq!(sysfs::pack_fan_curve_point(50, 128), 128 * 256 + 50);
    assert_eq!(sysfs::parse_fan_curve_point("50 128").unwrap(), (50, 128));
    assert_eq!(sysfs::parse_fan_curve_point("  7\t9\n").unwrap(), (7, 9));
    assert!(sysfs::parse_fan_curve_point("50").is_err());
    assert!(sysfs::parse_fan_curve_point("").is_err());
}

#[test]
fn mode_dependent_settings_report_when_they_are_inert() {
    let with_modes = |fan_mode, charge_mode| HwState {
        fan_mode: Some(fan_mode),
        charge_mode: Some(charge_mode),
        ..HwState::default()
    };

    // Custom fan speed only applies in Auto (4) or Fixed (5).
    let fixed = with_modes(5, 0);
    assert!(fixed.is_active(Dependent::FanCustomSpeed));
    assert_eq!(fixed.inactive_reason(Dependent::FanCustomSpeed), None);
    assert!(with_modes(4, 0).is_active(Dependent::FanCustomSpeed));
    assert_eq!(
        with_modes(0, 0).inactive_reason(Dependent::FanCustomSpeed),
        Some("requires Auto or Fixed fan mode")
    );

    // The fan curve only applies in Custom (3).
    assert!(with_modes(3, 0).is_active(Dependent::FanCurve));
    assert_eq!(
        with_modes(5, 0).inactive_reason(Dependent::FanCurve),
        Some("requires Custom fan mode")
    );

    // The charge limit only applies in Custom charge mode (1).
    assert!(with_modes(0, 1).is_active(Dependent::ChargeLimit));
    assert_eq!(
        with_modes(0, 0).inactive_reason(Dependent::ChargeLimit),
        Some("requires Custom charge mode")
    );

    // An unreadable mode must not produce a misleading warning.
    let unknown = HwState::default();
    assert_eq!(unknown.inactive_reason(Dependent::FanCustomSpeed), None);
    assert_eq!(unknown.inactive_reason(Dependent::ChargeLimit), None);
}

#[test]
fn curves_must_not_go_backwards() {
    let rising: Vec<(i32, i32)> = (0..sysfs::FAN_CURVE_POINTS)
        .map(|i| (i as i32 * 5, i as i32 * 10))
        .collect();
    assert!(sysfs::validate_fan_curve(&rising).is_ok());
    // Repeated points are allowed; the driver asks for non-decreasing.
    assert!(sysfs::validate_fan_curve(&[(40, 100), (40, 100), (50, 120)]).is_ok());
    assert!(sysfs::validate_fan_curve(&[]).is_ok());

    let dipping_temp = sysfs::validate_fan_curve(&[(40, 100), (30, 120)])
        .unwrap_err()
        .message();
    assert!(dipping_temp.contains("temperature 30 is below point 0 (40)"), "{dipping_temp}");
    let dipping_speed = sysfs::validate_fan_curve(&[(40, 100), (50, 80)])
        .unwrap_err()
        .message();
    assert!(dipping_speed.contains("speed 80 is below point 0 (100)"), "{dipping_speed}");
    // Out-of-range values are still caught.
    assert!(sysfs::validate_fan_curve(&[(200, 10)]).is_err());
}

#[test]
fn editing_a_point_is_bounded_by_its_neighbours() {
    let curve = [(30, 40), (50, 100), (70, 200)];
    // The middle point may move between its neighbours, but not past them.
    assert!(sysfs::validate_curve_point_in(&curve, 1, 60, 150).is_ok());
    assert!(sysfs::validate_curve_point_in(&curve, 1, 30, 40).is_ok());
    assert!(sysfs::validate_curve_point_in(&curve, 1, 29, 100).is_err());
    assert!(sysfs::validate_curve_point_in(&curve, 1, 71, 100).is_err());
    assert!(sysfs::validate_curve_point_in(&curve, 1, 60, 201).is_err());

    // The ends are bounded by the hardware range on the open side.
    assert!(sysfs::validate_curve_point_in(&curve, 0, 0, 0).is_ok());
    assert!(sysfs::validate_curve_point_in(&curve, 2, 100, 255).is_ok());

    let message = sysfs::validate_curve_point_in(&curve, 1, 80, 100)
        .unwrap_err()
        .message();
    assert!(message.contains("must be 30..70"), "{message}");
}

#[test]
fn light_sensor_decodes_both_reporting_formats() {
    // Newer models: leading version byte, then low/medium/high.
    assert_eq!(sysfs::parse_light_sensor("247 1 2 3"), Some(3 * 65536 + 2 * 256 + 1));
    assert_eq!(sysfs::parse_light_sensor("247 255 255 255"), Some(0x00FF_FFFF));
    // Older models: a single 32-bit value.
    assert_eq!(sysfs::parse_light_sensor("4096"), Some(4096));
    // Anything else is not guessed at.
    assert_eq!(sysfs::parse_light_sensor("1 2"), None);
    assert_eq!(sysfs::parse_light_sensor(""), None);
    assert_eq!(sysfs::parse_light_sensor("-1"), None);
}

#[test]
fn light_sensor_zero_means_no_sensor_fitted() {
    assert_eq!(sysfs::light_sensor_text(Some("0")), "Not equipped");
    assert_eq!(sysfs::light_sensor_text(Some("247 0 0 0")), "Not equipped");
    assert_eq!(sysfs::light_sensor_text(Some("247 16 1 0")), "272");
    assert_eq!(sysfs::light_sensor_text(Some("1 2")), "Unknown (1 2)");
    assert_eq!(sysfs::light_sensor_text(None), "N/A");
}

#[test]
fn battery_cycle_zero_means_unsupported() {
    assert_eq!(
        sysfs::battery_cycle_text(Some("0")),
        "Device does not support this feature"
    );
    assert_eq!(sysfs::battery_cycle_text(Some("42")), "42");
    assert_eq!(sysfs::battery_cycle_text(None), "N/A");
}

#[test]
fn failed_writes_say_what_to_do() {
    assert!(sysfs::write_value(sysfs::FAN_MODE, 2, None).is_ok());
    let missing = sysfs::write_value("/x", 2, Some(WriteFailure::NotFound)).unwrap_err();
    assert_eq!(missing.message(), "Node not found: /x");
    let denied = sysfs::write_value("/x", 2, Some(WriteFailure::PermissionDenied)).unwrap_err();
    assert_eq!(denied.message(), "Permission denied writing /x (run as root)");
    let other = sysfs::write_value("/x", 2, Some(WriteFailure::Other("busy".to_string()))).unwrap_err();
    assert_eq!(other.message(), "writing 2 to /x: busy");
    assert_eq!(sysfs::node_line(-3), "-3\n");
}

#[test]
fn curve_points_are_written_as_index_and_packed_data() {
    assert_eq!(
        sysfs::write_fan_curve_point(3, 40, 120).unwrap(),
        vec![
            Write { path: sysfs::FAN_CURVE_INDEX, value: 3 },
            Write { path: sysfs::FAN_CURVE_DATA, value: 120 * 256 + 40 },
        ]
    );
    assert_eq!(
        sysfs::write_fan_curve_point(15, 40, 120).unwrap_err().message(),
        "Index must be 0..15"
    );
    assert_eq!(
        sysfs::write_fan_curve_point(0, 101, 120).unwrap_err().message(),
        "Temperature must be 0..100"
    );
    assert_eq!(
        sysfs::write_fan_curve_point(0, 40, 256).unwrap_err().message(),
        "Speed must be 0..255"
    );
}

#[test]
fn a_curve_is_read_point_by_point() {
    let data: Vec<Option<String>> = (0..15).map(|i| Some(format!("{i} {}\n", 2 * i))).collect();
    let curve: Vec<(i32, i32)> = (0..15).map(|i| (i, 2 * i)).collect();
    assert_eq!(sysfs::read_fan_curve(&data).unwrap(), curve);
    // There is no shorter curve.
    assert_eq!(
        sysfs::read_fan_curve(&data[..14]).unwrap_err().message(),
        "reading fan curve data at index 14"
    );
    let missing = vec![Some("10 20".to_string()), None];
    assert_eq!(
        sysfs::read_fan_curve(&missing).unwrap_err().message(),
        "reading fan curve data at index 1"
    );
    let broken = vec![Some("te\"n".to_string())];
    assert_eq!(
        sysfs::read_fan_curve(&broken).unwrap_err().message(),
        "parsing fan curve data \"te\\\"n\" at index 0: expected two integers"
    );
}

#[test]
fn a_snapshot_keeps_what_could_be_read() {
    let texts = NodeTexts {
        fan_mode: Some("2\n".to_string()),
        fan_custom_speed: Some("x".to_string()),
        fan_pwm: None,
        charge_mode: Some(" 1 ".to_string()),
        charge_limit: Some("80".to_string()),
        battery_cycle: Some("12\n".to_string()),
        gpu_boost: Some("0".to_string()),
        light_sensor: Some("247 16 1 0\n".to_string()),
    };
    let hw = HwState::read(&texts);
    assert_eq!(hw.fan_mode, Some(2));
    assert_eq!(hw.fan_custom_speed, None);
    assert_eq!(hw.fan_pwm, None);
    assert_eq!(hw.charge_mode, Some(1));
    assert_eq!(hw.charge_limit, Some(80));
    assert_eq!(hw.battery_cycle_text(), "12");
    assert_eq!(hw.light_sensor_text(), "272");
    assert_eq!(sysfs::gpu_boost_name(hw.gpu_boost), "OFF");
    assert_eq!(sysfs::value_or_na(hw.fan_pwm), "N/A");
}

#[test]
fn unknown_words_are_named_in_the_complaint() {
    assert_eq!(
        sysfs::fan_mode_value("turbo").unwrap_err().message(),
        "Unknown fan mode 'turbo' (expected one of: normal, silent, gaming, custom, auto, fixed)"
    );
    assert_eq!(
        sysfs::on_off_value("maybe").unwrap_err().message(),
        "Expected on/off, got 'maybe'"
    );
    assert_eq!(
        sysfs::parse_fan_curve_point("a b").unwrap_err().message(),
        "expected two integers"
    );
    assert_eq!(
        sysfs::driver_missing_message(),
        "/sys/devices/platform/aorus_laptop does not exist. Please install gigabyte-laptop-wmi and ensure it is running."
    );
}

#[test]
fn a_written_line_reads_back() {
    for value in [0, 7, 255, -1, 65380, i32::MIN, i32::MAX] {
        let line = sysfs::node_line(value);
        assert!(line.ends_with('\n'));
        assert_eq!(sysfs::read_i32(Some(&line)), Some(value));
    }
}

#[test]
fn each_point_is_selected_before_it_is_read() {
    let device: Vec<String> = (0..15).map(|i| format!("{i} {}", 10 * i)).collect();
    let mut done = Vec::new();
    let mut selected = Vec::new();
    let mut next = Some(sysfs::first_curve_point());
    while let Some(write) = next {
        assert_eq!(write.path, sysfs::FAN_CURVE_INDEX);
        selected.push(write.value);
        next = sysfs::next_curve_point(&mut done, Some(&device[write.value as usize])).unwrap();
    }
    assert_eq!(selected, (0..15).collect::<Vec<_>>());
    assert_eq!(done, (0..15).map(|i| (i, 10 * i)).collect::<Vec<_>>());

    let mut done = vec![(1, 2)];
    assert_eq!(
        sysfs::next_curve_point(&mut done, None).unwrap_err().message(),
        "reading fan curve data at index 1"
    );
    assert!(sysfs::next_curve_point(&mut done, Some("x")).is_err());
    assert_eq!(done, vec![(1, 2)]);
}
