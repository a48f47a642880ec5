use gigabytectl::app::{
    Action, App, CurveColumn, EditTarget, Flow, Focus, Item, KeyCode, KeyEvent,
};
use gigabytectl::config::{Config, Notifications};
use gigabytectl::degrees::Celsius;
use gigabytectl::error::Problem;
use gigabytectl::profile::{Profile, Profiles};
use gigabytectl::sensors::{Fan, Temps};
use gigabytectl::sysfs;
use gigabytectl::sysfs::{HwState, Write};

fn app() -> App {
    App::new(Config::default())
}

fn key(code: KeyCode) -> KeyEvent {
    KeyEvent { code, control: false }
}

fn two_profiles() -> Profiles {
    Profiles::collect(vec![
        ("balanced".to_string(), Profile::default()),
        ("gaming".to_string(), Profile::default()),
    ])
}

fn row_of(item: Item) -> usize {
    Item::ALL.iter().position(|i| *i == item).unwrap()
}

#[test]
fn selection_wraps_in_both_directions() {
    let mut app = app();
    app.move_selection(-1);
    assert_eq!(app.selected_item(), Item::Quit);
    app.move_selection(1);
    assert_eq!(app.selected_item(), Item::FanMode);
    app.move_selection(Item::ALL.len() as isize + 1);
    assert_eq!(app.selected_item(), Item::FanCustomSpeed);
}

#[test]
fn every_item_has_a_title_and_hint() {
    for item in Item::ALL {
        assert!(!item.title().is_empty());
        assert!(!item.hint().is_empty());
    }
}

#[test]
fn q_and_ctrl_c_exit_but_other_keys_do_not() {
    let mut app = app();
    assert_eq!(app.handle_key(key(KeyCode::Char('x'))), Flow::Continue);
    assert_eq!(app.handle_key(key(KeyCode::Char('q'))), Flow::Exit);
    assert_eq!(
        app.handle_key(KeyEvent { code: KeyCode::Char('c'), control: true }),
        Flow::Exit
    );
}

#[test]
fn editing_accepts_digits_only_and_esc_restores_focus() {
    let mut app = app();
    app.selected = row_of(Item::FanCustomSpeed);
    app.handle_key(key(KeyCode::Enter));
    assert_eq!(app.focus, Focus::Editing);

    for code in [KeyCode::Char('1'), KeyCode::Char('a'), KeyCode::Char('2')] {
        app.handle_key(key(code));
    }
    assert_eq!(app.input, "12");
    app.handle_key(key(KeyCode::Backspace));
    assert_eq!(app.input, "1");

    app.handle_key(key(KeyCode::Esc));
    assert_eq!(app.focus, Focus::Normal);
    assert!(app.input.is_empty());
    assert_eq!(app.editing, None);
}

#[test]
fn cancelling_a_curve_edit_returns_to_the_table() {
    let mut app = app();
    app.fan_curve = Some(vec![(30, 40); sysfs::FAN_CURVE_POINTS]);
    app.open_fan_curve_editor();
    app.handle_key(key(KeyCode::Down));
    app.handle_key(key(KeyCode::Right));
    assert_eq!((app.curve_row, app.curve_column), (1, CurveColumn::Speed));

    app.handle_key(key(KeyCode::Enter));
    assert_eq!(app.editing, Some(EditTarget::FanCurve(1, CurveColumn::Speed)));
    assert_eq!(app.input, "40");

    app.handle_key(key(KeyCode::Esc));
    assert_eq!(app.focus, Focus::FanCurveList);
}

#[test]
fn curve_navigation_stays_in_bounds() {
    let mut app = app();
    app.fan_curve = Some(vec![(30, 40); sysfs::FAN_CURVE_POINTS]);
    app.open_fan_curve_editor();
    for _ in 0..sysfs::FAN_CURVE_POINTS + 5 {
        app.handle_key(key(KeyCode::Down));
    }
    assert_eq!(app.curve_row, sysfs::FAN_CURVE_POINTS - 1);
    for _ in 0..sysfs::FAN_CURVE_POINTS + 5 {
        app.handle_key(key(KeyCode::Up));
    }
    assert_eq!(app.curve_row, 0);
}

#[test]
fn enter_on_an_unloaded_curve_does_not_open_an_editor() {
    let mut app = app();
    app.fan_curve = None;
    app.focus = Focus::FanCurveList;
    app.handle_key(key(KeyCode::Enter));
    assert_eq!(app.focus, Focus::FanCurveList);
    assert_eq!(app.editing, None);
}

#[test]
fn profile_list_navigation_and_prompts() {
    let mut app = app();
    app.selected = row_of(Item::Profiles);
    app.handle_key(key(KeyCode::Enter));
    assert_eq!(app.focus, Focus::ProfileList);

    // Entering the list asks for the profiles file, so stand in a known set
    // only once that has happened.
    app.profiles = two_profiles();
    app.profile_row = 0;

    app.handle_key(key(KeyCode::Down));
    assert_eq!(app.selected_profile().unwrap().0, "gaming");
    // Selection stops at the end rather than wrapping or overflowing.
    app.handle_key(key(KeyCode::Down));
    assert_eq!(app.profile_row, 1);
    app.handle_key(key(KeyCode::Up));
    app.handle_key(key(KeyCode::Up));
    assert_eq!(app.profile_row, 0);

    app.handle_key(key(KeyCode::Esc));
    assert_eq!(app.focus, Focus::Normal);
}

#[test]
fn saving_a_profile_prompts_for_a_name_as_free_text() {
    let mut app = app();
    app.focus = Focus::ProfileList;
    app.handle_key(key(KeyCode::Char('s')));
    assert_eq!(app.editing, Some(EditTarget::NewProfileName));
    assert!(app.input.is_empty(), "the name field starts empty");

    for c in "my rig 2".chars() {
        app.handle_key(key(KeyCode::Char(c)));
    }
    assert_eq!(app.input, "my rig 2", "text targets accept letters and spaces");

    // Escaping returns to the list, not the main menu.
    app.handle_key(key(KeyCode::Esc));
    assert_eq!(app.focus, Focus::ProfileList);
    assert_eq!(app.editing, None);
}

#[test]
fn deleting_a_profile_asks_first() {
    let mut app = app();
    app.profiles = Profiles::collect(vec![("gaming".to_string(), Profile::default())]);
    app.focus = Focus::ProfileList;

    app.handle_key(key(KeyCode::Char('d')));
    assert_eq!(app.focus, Focus::Confirm);
    assert!(app.confirm.as_ref().unwrap().message.contains("gaming"));

    // Anything other than an answer leaves the question up.
    app.handle_key(key(KeyCode::Char('x')));
    assert_eq!(app.focus, Focus::Confirm);

    app.handle_key(key(KeyCode::Char('n')));
    assert_eq!(app.focus, Focus::ProfileList);
    assert!(app.confirm.is_none());
    assert_eq!(app.profiles.entries.len(), 1, "declining must not delete anything");
}

#[test]
fn deleting_with_no_profiles_selected_is_harmless() {
    let mut app = app();
    app.profiles = Profiles::new();
    app.focus = Focus::ProfileList;
    app.handle_key(key(KeyCode::Char('d')));
    app.handle_key(key(KeyCode::Char('u')));
    app.handle_key(key(KeyCode::Enter));
    assert_eq!(app.focus, Focus::ProfileList);
    assert!(app.confirm.is_none());
}

#[test]
fn numeric_fields_still_reject_letters() {
    let mut app = app();
    app.selected = row_of(Item::ChargeLimit);
    app.handle_key(key(KeyCode::Enter));
    for c in "8a0".chars() {
        app.handle_key(key(KeyCode::Char(c)));
    }
    assert_eq!(app.input, "80");
}

#[test]
fn edit_prompts_name_what_is_being_edited() {
    assert_eq!(EditTarget::ChargeLimit.prompt(), "Enter charge limit");
    assert_eq!(EditTarget::FanCurve(3, CurveColumn::Temp).prompt(), "Enter temp for idx 3");
    assert_eq!(EditTarget::FanCurve(3, CurveColumn::Speed).prompt(), "Enter speed for idx 3");
}

#[test]
fn edit_hints_name_the_range() {
    assert_eq!(EditTarget::FanCustomSpeed.hint(), "Allowed: 0..255");
    assert_eq!(EditTarget::ChargeLimit.hint(), "Allowed: 60..100");
    assert_eq!(EditTarget::FanCurve(0, CurveColumn::Temp).hint(), "Allowed: 0..100");
    assert_eq!(EditTarget::NewProfileName.hint(), "Any name; Enter saves, Esc cancels");
    assert!(!EditTarget::NewProfileName.is_numeric());
    assert!(EditTarget::ChargeLimit.is_numeric());
}

#[test]
fn starting_up_reads_the_profiles_and_then_everything() {
    let mut app = app();
    assert_eq!(
        app.status,
        "Ready. Managing nodes in /sys/devices/platform/aorus_laptop"
    );
    assert!(matches!(app.pending, Some(Action::LoadProfiles { select: None, refresh: true })));
    app.profiles_loaded(Ok(two_profiles()));
    assert_eq!(app.profiles.names(), ["balanced", "gaming"]);
    assert!(matches!(app.pending, Some(Action::Refresh)));
}

#[test]
fn unreadable_profiles_leave_the_list_empty() {
    let mut app = app();
    app.profiles = two_profiles();
    app.profile_row = 1;
    app.profiles_loaded(Err("parsing /p: bad".to_string()));
    assert!(app.profiles.is_empty());
    assert_eq!(app.profile_row, 0);
    assert_eq!(app.status, "Could not load profiles: parsing /p: bad");
}

#[test]
fn a_typed_value_is_written_and_reported() {
    let mut app = app();
    app.selected = row_of(Item::ChargeLimit);
    app.handle_key(key(KeyCode::Enter));
    for c in "50".chars() {
        app.handle_key(key(KeyCode::Char(c)));
    }
    app.handle_key(key(KeyCode::Enter));
    assert_eq!(app.status, "Charge limit must be 60..100");
    assert_eq!(app.focus, Focus::Editing, "the popup stays open on error");
    assert!(app.pending.is_none());

    app.handle_key(key(KeyCode::Backspace));
    app.handle_key(key(KeyCode::Backspace));
    app.handle_key(key(KeyCode::Enter));
    assert_eq!(app.status, "Invalid number");
    for c in "80".chars() {
        app.handle_key(key(KeyCode::Char(c)));
    }
    app.handle_key(key(KeyCode::Enter));
    match &app.pending {
        Some(Action::Write { writes, .. }) => {
            assert_eq!(writes, &vec![Write { path: sysfs::CHARGE_LIMIT, value: 80 }]);
        }
        other => panic!("{other:?}"),
    }
    app.written(Ok(()));
    assert_eq!(app.status, "Applied 80");
    assert_eq!(app.focus, Focus::Normal);
    assert!(matches!(app.pending, Some(Action::Refresh)));
}

#[test]
fn a_failed_write_keeps_the_popup() {
    let mut app = app();
    app.selected = row_of(Item::FanCustomSpeed);
    app.hw = HwState { fan_custom_speed: Some(120), ..HwState::default() };
    app.handle_key(key(KeyCode::Char('e')));
    assert_eq!(app.input, "120");
    app.handle_key(key(KeyCode::Enter));
    app.written(Err(Problem::NodeDenied { path: "/x".to_string() }));
    assert_eq!(app.status, "Permission denied writing /x (run as root)");
    assert_eq!(app.focus, Focus::Editing);
    assert!(app.pending.is_none());
}

#[test]
fn modes_cycle_around_both_ends() {
    let mut app = app();
    app.hw = HwState { fan_mode: Some(5), charge_mode: Some(0), ..HwState::default() };
    app.handle_key(key(KeyCode::Right));
    match &app.pending {
        Some(Action::Write { writes, done, close }) => {
            assert_eq!(writes, &vec![Write { path: sysfs::FAN_MODE, value: 0 }]);
            assert_eq!(done, "Fan mode -> Normal");
            assert!(!close);
        }
        other => panic!("{other:?}"),
    }
    app.selected = row_of(Item::ChargeMode);
    app.handle_key(key(KeyCode::Left));
    match &app.pending {
        Some(Action::Write { writes, done, .. }) => {
            assert_eq!(writes, &vec![Write { path: sysfs::CHARGE_MODE, value: 1 }]);
            assert_eq!(done, "Charge mode -> Custom");
        }
        other => panic!("{other:?}"),
    }
    app.selected = row_of(Item::GpuBoost);
    app.handle_key(key(KeyCode::Enter));
    match &app.pending {
        Some(Action::Write { writes, done, .. }) => {
            assert_eq!(writes, &vec![Write { path: sysfs::GPU_BOOST, value: 1 }]);
            assert_eq!(done, "GPU boost -> ON");
        }
        other => panic!("{other:?}"),
    }
    // Values from outside the table still land in it.
    app.selected = row_of(Item::FanMode);
    app.hw = HwState { fan_mode: Some(-1), ..HwState::default() };
    app.handle_key(key(KeyCode::Left));
    match &app.pending {
        Some(Action::Write { writes, .. }) => assert_eq!(writes[0].value, 4),
        other => panic!("{other:?}"),
    }
    // `e` opens editors and nothing else.
    app.handle_key(key(KeyCode::Char('e')));
    assert!(app.pending.is_none());
}

#[test]
fn curve_edits_are_checked_against_the_curve() {
    let mut app = app();
    let curve: Vec<(i32, i32)> = (0..15).map(|i| (i * 5, i * 10)).collect();
    app.fan_curve = Some(curve);
    app.focus = Focus::FanCurveList;
    app.handle_key(key(KeyCode::Down));
    app.handle_key(key(KeyCode::Enter));
    assert_eq!(app.input, "5");
    app.handle_key(key(KeyCode::Char('0')));
    app.handle_key(key(KeyCode::Enter));
    assert!(app.status.contains("Temperature must be 0..10"), "{}", app.status);
    app.handle_key(key(KeyCode::Backspace));
    app.handle_key(key(KeyCode::Backspace));
    app.handle_key(key(KeyCode::Char('7')));
    app.handle_key(key(KeyCode::Enter));
    match &app.pending {
        Some(Action::Write { writes, .. }) => assert_eq!(
            writes,
            &vec![
                Write { path: sysfs::FAN_CURVE_INDEX, value: 1 },
                Write { path: sysfs::FAN_CURVE_DATA, value: 10 * 256 + 7 },
            ]
        ),
        other => panic!("{other:?}"),
    }
    app.written(Ok(()));
    assert_eq!(app.focus, Focus::FanCurveList);

    app.editing = Some(EditTarget::FanCurve(20, CurveColumn::Temp));
    app.focus = Focus::Editing;
    app.input = "5".to_string();
    app.handle_key(key(KeyCode::Enter));
    assert_eq!(app.status, "Curve not loaded");
}

#[test]
fn saving_keeps_the_mapping_and_selects_the_profile() {
    let mut app = app();
    let mapped = Profile { ppd_profile: Some("performance".to_string()), ..Profile::default() };
    app.profiles = Profiles::collect(vec![
        ("alpha".to_string(), Profile::default()),
        ("gaming".to_string(), mapped),
    ]);
    app.profile_row = 1;
    app.focus = Focus::ProfileList;
    app.handle_key(key(KeyCode::Char('u')));
    assert!(matches!(&app.pending, Some(Action::Capture { name }) if name == "gaming"));

    app.captured(Profile { charge_limit: Some(80), ..Profile::default() });
    let stored = match &app.pending {
        Some(Action::Store { profiles, .. }) => profiles.clone(),
        other => panic!("{other:?}"),
    };
    let gaming = stored.get("gaming").unwrap();
    assert_eq!(gaming.charge_limit, Some(80));
    assert_eq!(gaming.ppd_profile.as_deref(), Some("performance"));

    app.profile_row = 0;
    app.stored(Ok(()));
    assert_eq!(app.status, "Updated profile 'gaming'");
    app.profiles_loaded(Ok(stored));
    assert_eq!(app.profile_row, 1);
    assert!(app.pending.is_none());
}

#[test]
fn a_new_profile_needs_a_name() {
    let mut app = app();
    app.focus = Focus::ProfileList;
    app.handle_key(key(KeyCode::Char('s')));
    app.handle_key(key(KeyCode::Char(' ')));
    app.handle_key(key(KeyCode::Enter));
    assert_eq!(app.status, "Profile name cannot be empty");
    assert_eq!(app.focus, Focus::Editing);
    for c in "rig ".chars() {
        app.handle_key(key(KeyCode::Char(c)));
    }
    app.handle_key(key(KeyCode::Enter));
    assert_eq!(app.focus, Focus::ProfileList);
    assert!(matches!(&app.pending, Some(Action::Capture { name }) if name == "rig"));
    app.captured(Profile::default());
    app.stored(Err("writing /p: denied".to_string()));
    assert_eq!(app.status, "writing /p: denied");
    assert!(app.pending.is_none());
}

#[test]
fn a_confirmed_delete_stores_the_rest() {
    let mut app = app();
    app.profiles = two_profiles();
    app.focus = Focus::ProfileList;
    app.handle_key(key(KeyCode::Char('d')));
    assert_eq!(app.confirm.as_ref().unwrap().message, "Delete profile 'balanced'? [y/N]");
    app.handle_key(key(KeyCode::Char('Y')));
    match &app.pending {
        Some(Action::Store { profiles, .. }) => assert_eq!(profiles.names(), ["gaming"]),
        other => panic!("{other:?}"),
    }
    assert_eq!(app.focus, Focus::ProfileList);
    app.stored(Ok(()));
    assert_eq!(app.status, "Deleted profile 'balanced'");
}

#[test]
fn applying_a_profile_follows_through_to_the_power_profile() {
    let mut app = app();
    let profile = Profile {
        charge_limit: Some(80),
        ppd_profile: Some("performance".to_string()),
        ..Profile::default()
    };
    app.profiles = Profiles::collect(vec![("gaming".to_string(), profile)]);
    app.focus = Focus::ProfileList;
    app.handle_key(key(KeyCode::Enter));
    assert!(matches!(&app.pending, Some(Action::Apply { .. })));
    app.written(Ok(()));
    assert!(matches!(&app.pending, Some(Action::SetPower { power, .. }) if power == "performance"));
    app.power_set(Ok(()));
    assert_eq!(app.status, "Applied profile 'gaming', power profile -> performance");
    assert!(matches!(app.pending, Some(Action::Refresh)));

    app.handle_key(key(KeyCode::Enter));
    app.written(Ok(()));
    app.power_set(Err("no bus".to_string()));
    assert_eq!(app.status, "Applied profile 'gaming' (power profile unchanged: no bus)");

    // A profile that cannot be applied says why, and writes nothing.
    let bad = Profile { charge_limit: Some(1), ..Profile::default() };
    app.profiles = Profiles::collect(vec![("bad".to_string(), bad)]);
    app.handle_key(key(KeyCode::Enter));
    assert_eq!(app.status, "Charge limit must be 60..100");
    assert!(app.pending.is_none());
}

#[test]
fn readings_are_taken_in_and_alerts_raised() {
    let hot = Celsius { bits: 95.0f32.to_bits() };
    let config = Config {
        notifications: Notifications { enabled: true, ..Notifications::default() },
        ..Config::default()
    };
    let mut app = App::new(config);
    let curve = Some(vec![(1, 2); 15]);
    let temps = Temps { cpu: Some(hot), gpu: None };
    let alerts = app.refreshed(7, HwState::default(), vec![Fan::sample(1, 2400)], temps, curve.clone());
    assert_eq!(alerts.len(), 1);
    assert_eq!(app.last_refresh, 7);
    assert_eq!(app.temps, temps);
    assert_eq!(app.history.rpm.points(), vec![(7, 2400)]);
    assert_eq!(app.fan_curve, None, "the curve is not on screen");

    app.selected = row_of(Item::FanCurveView);
    let alerts = app.refreshed(8, HwState::default(), vec![], temps, curve.clone());
    assert!(alerts.is_empty(), "the cooldown holds");
    assert_eq!(app.fan_curve, curve);
}

#[test]
fn the_curve_is_loaded_as_soon_as_it_is_shown() {
    let mut app = app();
    app.selected = row_of(Item::GpuBoost);
    app.handle_key(key(KeyCode::Down));
    assert!(matches!(app.pending, Some(Action::LoadCurve)));
    app.curve_loaded(Some(vec![(1, 2)]));
    assert_eq!(app.fan_curve, Some(vec![(1, 2)]));
    assert!(app.pending.is_none());
    // What was not asked for is not taken.
    app.curve_loaded(None);
    assert_eq!(app.fan_curve, Some(vec![(1, 2)]));
}

#[test]
fn refreshing_says_so() {
    let mut app = app();
    app.handle_key(key(KeyCode::Char('r')));
    assert_eq!(app.status, "Refreshed values");
    assert!(matches!(app.pending, Some(Action::Refresh)));
    app.selected = row_of(Item::Quit);
    assert_eq!(app.handle_key(key(KeyCode::Enter)), Flow::Exit);
    assert_eq!(app.handle_key(key(KeyCode::Char('e'))), Flow::Continue);
}

#[test]
fn e_opens_editors_and_writes_nothing() {
    for item in Item::ALL {
        let mut app = app();
        app.selected = row_of(item);
        assert_eq!(app.handle_key(key(KeyCode::Char('e'))), Flow::Continue);
        assert!(
            matches!(
                app.pending,
                None | Some(Action::LoadCurve) | Some(Action::LoadProfiles { .. })
            ),
            "{item:?}"
        );
    }
}

#[test]
fn a_refused_value_stays_in_the_editor() {
    let mut app = app();
    app.selected = row_of(Item::ChargeLimit);
    app.handle_key(key(KeyCode::Enter));
    for c in "30".chars() {
        app.handle_key(key(KeyCode::Char(c)));
    }
    app.handle_key(key(KeyCode::Enter));
    assert_eq!(app.status, "Charge limit must be 60..100");
    assert!(app.pending.is_none());
    assert_eq!((app.focus, app.input.as_str()), (Focus::Editing, "30"));

    app.input = "80".to_string();
    app.handle_key(key(KeyCode::Enter));
    app.written(Err(Problem::NodeDenied { path: "/p".to_string() }));
    assert_eq!(app.status, "Permission denied writing /p (run as root)");
    assert_eq!((app.focus, app.input.as_str()), (Focus::Editing, "80"));
}

#[test]
fn the_curve_is_read_when_it_comes_into_view() {
    let mut app = app();
    app.selected = row_of(Item::GpuBoost);
    app.handle_key(key(KeyCode::Down));
    assert_eq!(app.selected_item(), Item::FanCurveView);
    assert!(matches!(app.pending, Some(Action::LoadCurve)));
    app.curve_loaded(Some(vec![(30, 40); sysfs::FAN_CURVE_POINTS]));
    app.handle_key(key(KeyCode::Down));
    assert!(app.shows_fan_curve() && app.pending.is_none());
    app.handle_key(key(KeyCode::Down));
    assert!(!app.shows_fan_curve() && app.pending.is_none());
}

#[test]
fn any_number_of_steps_can_be_taken_back() {
    for delta in [0, 5, 11, -40, isize::MAX, -isize::MAX] {
        let mut app = app();
        app.selected = 3;
        app.move_selection(delta);
        assert_eq!(app.selected as isize, (3 + (delta % 11)).rem_euclid(11));
        app.move_selection(-delta);
        assert_eq!(app.selected, 3);
    }
}
