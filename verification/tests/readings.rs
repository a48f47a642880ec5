use gigabytectl::config::Notifications;
use gigabytectl::degrees::Celsius;
use gigabytectl::history::History;
use gigabytectl::notify;
use gigabytectl::notify::{Alert, Delivery, Notifier, RuntimeDir, Session, Source};
use gigabytectl::sensors;
use gigabytectl::sensors::{
    Device, Fan, FanInput, GpuReading, GpuSource, Sensors, Temps,
};

fn celsius(v: f32) -> Celsius {
    Celsius { bits: v.to_bits() }
}

fn cpu_only(cpu: f32) -> Temps {
    Temps { cpu: Some(celsius(cpu)), gpu: None }
}

fn values(points: &[(u128, u32)]) -> Vec<f32> {
    points.iter().map(|&(_, v)| f32::from_bits(v)).collect()
}

#[test]
fn fan_input_files_are_recognised_by_index() {
    assert_eq!(sensors::fan_input_index("fan1_input"), Some(1));
    assert_eq!(sensors::fan_input_index("fan12_input"), Some(12));
    assert_eq!(sensors::fan_input_index("fan1_label"), None);
    assert_eq!(sensors::fan_input_index("temp1_input"), None);
    assert_eq!(sensors::fan_input_index("fan_input"), None);
}

#[test]
fn fan_channels_carry_the_names_the_driver_documents() {
    assert_eq!(Fan::name_for(1), "CPU fan");
    assert_eq!(Fan::name_for(2), "GPU fan");
    assert_eq!(Fan::name_for(3), "Fan 3");
    assert_eq!(Fan::name_for(4), "Fan 4");
    // Never panics on a channel number the kernel should not produce.
    assert_eq!(Fan::name_for(0), "Fan 0");
}

#[test]
fn series_keep_only_the_most_recent_samples() {
    let mut history = History::new(3);
    for i in 0..5 {
        history.push(i as u128, cpu_only(i as f32), &[]);
    }
    let cpu = history.cpu.points();
    assert_eq!(cpu.len(), 3);
    assert_eq!(values(&cpu), vec![2.0, 3.0, 4.0]);
    assert!(history.gpu.points().is_empty());
    assert!(history.rpm.points().is_empty());
}

#[test]
fn capacity_is_never_below_two() {
    let mut history = History::new(0);
    for i in 0..4 {
        history.push(i, cpu_only(1.0), &[]);
    }
    assert_eq!(history.cpu.points().len(), 2);
}

#[test]
fn fan_series_tracks_the_fastest_fan() {
    let mut history = History::new(4);
    let fans = [
        Fan { channel: 1, name: "Fan 1".into(), rpm: 1200, pwm: None },
        Fan { channel: 2, name: "Fan 2".into(), rpm: 3000, pwm: None },
    ];
    history.push(0, Temps::default(), &fans);
    assert_eq!(f64::from(history.rpm.points()[0].1), 3000.0);
}

#[test]
fn samples_advance_in_time() {
    let mut history = History::new(4);
    history.push(10, cpu_only(40.0), &[]);
    history.push(11, cpu_only(41.0), &[]);
    let points = history.cpu.points();
    assert!(points[1].0 >= points[0].0);
    assert_eq!(values(&points), vec![40.0, 41.0]);
}

#[test]
fn each_series_holds_the_readings_of_its_own_value() {
    let mut history = History::new(2);
    let fan = |channel: u32, rpm: u32| Fan { channel, name: "Fan".into(), rpm, pwm: None };
    history.push(1, cpu_only(40.0), &[fan(1, 900), fan(2, 1200)]);
    history.push(2, Temps { cpu: None, gpu: Some(celsius(50.0)) }, &[]);
    history.push(2, cpu_only(41.0), &[fan(1, 800)]);
    assert_eq!(history.gpu.points(), vec![(2, 50.0_f32.to_bits())]);
    history.push(5, cpu_only(42.0), &[fan(3, 0)]);
    assert_eq!(history.cpu.points(), vec![(2, 41.0_f32.to_bits()), (5, 42.0_f32.to_bits())]);
    assert_eq!(history.gpu.points(), vec![(2, 50.0_f32.to_bits())]);
    assert_eq!(history.rpm.points(), vec![(2, 800), (5, 0)]);
}

#[test]
fn disabled_by_default_and_does_nothing() {
    let config = Notifications::default();
    assert!(!config.enabled);
    let mut notifier = Notifier::new(&config);
    assert!(notifier.check(cpu_only(150.0), 0).is_empty());
    assert!(notifier.last_cpu.is_none() && notifier.last_gpu.is_none());
}

#[test]
fn alerts_only_above_the_threshold_and_then_respects_the_cooldown() {
    let config = Notifications {
        enabled: true,
        cpu_temp: celsius(90.0),
        cooldown_secs: 3600,
        ..Default::default()
    };
    let mut notifier = Notifier::new(&config);
    let mut sent: Vec<Alert> = Vec::new();

    sent.extend(notifier.check(cpu_only(89.0), 1));
    assert!(notifier.last_cpu.is_none(), "below threshold must not alert");

    sent.extend(notifier.check(cpu_only(91.0), 2));
    let first = notifier.last_cpu.expect("crossing the threshold alerts");
    assert_eq!(sent.len(), 1);
    assert_eq!(sent[0].summary(), "CPU temperature high");
    let temp = format!("{:.0}", f32::from_bits(sent[0].temp.bits));
    let threshold = format!("{:.0}", f32::from_bits(sent[0].threshold.bits));
    assert_eq!(sent[0].body(&temp, &threshold), "CPU is at 91°C (threshold 90°C)");

    sent.extend(notifier.check(cpu_only(99.0), 3));
    assert_eq!(
        notifier.last_cpu,
        Some(first),
        "a second alert must wait for the cooldown"
    );
    assert_eq!(sent.len(), 1, "cooldown must suppress the repeat");

    // Once it has passed, the sensor may speak again.
    assert_eq!(notifier.check(cpu_only(99.0), 3600 * 1_000_000_000 + 2).len(), 1);
}

#[test]
fn a_zero_cooldown_allows_consecutive_alerts() {
    let config = Notifications {
        enabled: true,
        cpu_temp: celsius(50.0),
        cooldown_secs: 0,
        ..Default::default()
    };
    let mut notifier = Notifier::new(&config);
    notifier.check(cpu_only(60.0), 5);
    let first = notifier.last_cpu.unwrap();
    notifier.check(cpu_only(60.0), 6);
    assert!(notifier.last_cpu.unwrap() >= first);
}

#[test]
fn missing_readings_are_ignored() {
    let config = Notifications {
        enabled: true,
        cpu_temp: celsius(1.0),
        gpu_temp: celsius(1.0),
        cooldown_secs: 0,
        ..Default::default()
    };
    let mut notifier = Notifier::new(&config);
    notifier.check(Temps::default(), 0);
    assert!(notifier.last_cpu.is_none() && notifier.last_gpu.is_none());
}

#[test]
fn only_numeric_runtime_directories_are_treated_as_sessions() {
    assert_eq!(notify::runtime_dir_uid("1000"), Some(1000));
    assert_eq!(notify::runtime_dir_uid("0"), Some(0));
    assert_eq!(notify::runtime_dir_uid("gdm"), None);
    assert_eq!(notify::runtime_dir_uid(""), None);
}

#[test]
fn a_runtime_directory_is_named_by_digits_alone() {
    assert_eq!(notify::runtime_dir_uid("+1000"), None);
    assert_eq!(notify::runtime_dir_uid("-1"), None);
    assert_eq!(notify::runtime_dir_uid("4294967295"), Some(u32::MAX));
    assert_eq!(notify::runtime_dir_uid("4294967296"), None);
}

#[test]
fn each_sensor_has_its_own_threshold_and_cooldown() {
    let config = Notifications {
        enabled: true,
        cpu_temp: celsius(90.0),
        gpu_temp: celsius(70.0),
        cooldown_secs: 10,
        ..Default::default()
    };
    let mut notifier = Notifier::new(&config);
    let both = Temps { cpu: Some(celsius(80.0)), gpu: Some(celsius(80.0)) };
    let alerts = notifier.check(both, 0);
    assert_eq!(
        alerts,
        vec![Alert { source: Source::Gpu, temp: celsius(80.0), threshold: celsius(70.0) }]
    );
    assert!(notifier.due(Source::Cpu, 1));
    assert!(!notifier.due(Source::Gpu, 9_999_999_999));
    assert!(notifier.due(Source::Gpu, 10_000_000_000));
}

#[test]
fn fans_are_listed_by_channel_and_idle_extras_dropped() {
    let input = |file: &str, rpm: Option<&str>, pwm: Option<&str>| FanInput {
        file_name: file.to_string(),
        rpm: rpm.map(str::to_string),
        pwm: pwm.map(str::to_string),
    };
    let sensors = Sensors::new(Some("/h".to_string()), None, None);
    let fans = sensors.read_fans(&[
        input("fan3_input", Some("0\n"), None),
        input("fan2_input", Some("0\n"), None),
        input("name", Some("aorus_laptop"), None),
        input("fan4_input", Some("900\n"), None),
        input("fan1_input", Some("5357\n"), Some("60\n")),
        input("fan5_input", None, None),
    ]);
    let shown: Vec<(u32, String)> = fans.iter().map(|f| (f.channel, f.reading())).collect();
    assert_eq!(
        shown,
        vec![
            (1, "5357 RPM (PWM 60)".to_string()),
            (2, "0 RPM".to_string()),
            (4, "900 RPM".to_string()),
        ]
    );
    assert_eq!(sensors::pwm_file(3), "pwm3");
    let none = Sensors::new(None, None, None);
    assert!(none.read_fans(&[input("fan1_input", Some("1"), None)]).is_empty());
}

#[test]
fn devices_are_found_by_name_in_order() {
    let device = |entry: &str, name: Option<&str>| Device {
        entry: entry.to_string(),
        name: name.map(str::to_string),
    };
    let devices = [
        device("hwmon3", Some("k10temp\n")),
        device("hwmon1", Some("coretemp")),
        device("hwmon0", None),
    ];
    assert_eq!(
        sensors::find_hwmon(&devices, &sensors::CPU_HWMON),
        Some("/sys/class/hwmon/hwmon1".to_string())
    );
    assert_eq!(sensors::find_hwmon(&devices, &sensors::GPU_HWMON), None);
}

#[test]
fn the_gpu_is_asked_as_rarely_as_possible() {
    let hwmon = Sensors::new(None, Some("/c".to_string()), Some("/g".to_string()));
    assert_eq!(hwmon.cpu.as_deref(), Some("/c/temp1_input"));
    assert!(matches!(hwmon.read_gpu_temp(0), GpuReading::Node(path) if path == "/g/temp1_input"));

    let mut sensors = Sensors::new(None, None, None);
    assert!(matches!(sensors.read_gpu_temp(0), GpuReading::Ask));
    sensors.nvidia_answered(0, Some(celsius(50.0)));
    assert!(matches!(
        sensors.read_gpu_temp(1_999_999_999),
        GpuReading::Known(Some(t)) if t == celsius(50.0)
    ));
    assert!(matches!(sensors.read_gpu_temp(2_000_000_000), GpuReading::Ask));
    sensors.nvidia_answered(2_000_000_000, None);
    assert!(matches!(sensors.gpu, GpuSource::Unavailable));
    assert!(matches!(sensors.read_gpu_temp(9_000_000_000), GpuReading::Known(None)));
    assert_eq!(sensors::nvidia_temp(" 57 \n61\n"), Some("57".to_string()));
    assert_eq!(sensors::nvidia_temp(""), None);
}

#[test]
fn alerts_go_to_the_desktops_that_are_there() {
    let dir = |name: &str, has_bus: bool, passwd: Option<&str>| RuntimeDir {
        name: name.to_string(),
        has_bus,
        passwd: passwd.map(str::to_string),
    };
    let active = notify::active_sessions(&[
        dir("1001", true, None),
        dir("1000", true, Some("ann:x:1000:1000::/home/ann:/bin/bash")),
        dir("1002", false, None),
        dir("gdm", true, None),
        dir("+1003", true, None),
    ]);
    assert_eq!(
        active,
        vec![
            Session { user: "ann".to_string(), uid: 1000 },
            Session { user: "#1001".to_string(), uid: 1001 },
        ]
    );
    assert_eq!(notify::delivery(false, None, None, vec![]), Delivery::Own);
    assert_eq!(
        notify::delivery(true, Some("bob".to_string()), Some("1005"), vec![]),
        Delivery::Sessions(vec![Session { user: "bob".to_string(), uid: 1005 }])
    );
    let sessions = match notify::delivery(true, None, None, active) {
        Delivery::Sessions(sessions) => sessions,
        Delivery::Own => panic!("root's own bus is not the desktop's"),
    };
    assert_eq!(
        notify::session_args(&sessions[0], "sum", "body"),
        [
            "-u",
            "ann",
            "DBUS_SESSION_BUS_ADDRESS=unix:path=/run/user/1000/bus",
            "XDG_RUNTIME_DIR=/run/user/1000",
            "notify-send",
            "--app-name=gigabytectl",
            "--urgency=critical",
            "sum",
            "body",
        ]
    );
    assert_eq!(
        notify::own_args("sum", "body"),
        ["--app-name=gigabytectl", "--urgency=critical", "sum", "body"]
    );
}
