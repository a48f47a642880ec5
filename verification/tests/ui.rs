use gigabytectl::app::{App, CurveColumn, EditTarget, Focus, Item};
use gigabytectl::config::Config;
use gigabytectl::profile::{Profile, Profiles};
use gigabytectl::sensors::Fan;
use gigabytectl::sysfs;
use gigabytectl::sysfs::HwState;
use gigabytectl::ui;
use gigabytectl::ui::{Area, Border, Content, Panel, Screen, Shown, Tone};
use ratatui::backend::TestBackend;
use ratatui::layout::Rect;
use ratatui::text::{Line, Span};
use ratatui::widgets::{Block, Clear, List, ListItem, Paragraph, Wrap};
use ratatui::{Frame, Terminal};

fn area(x: u16, y: u16, width: u16, height: u16) -> Area {
    Area { x, y, width, height }
}

fn shown() -> Shown {
    Shown {
        secs: 0,
        version: "0.6.0".to_string(),
        cpu: "58°C".to_string(),
        gpu: "N/A".to_string(),
    }
}

fn words(line: &[ui::Span]) -> String {
    line.iter().map(|s| s.text.as_str()).collect()
}

fn block(border: &Border) -> Option<Block<'_>> {
    match border {
        Border::Bare => None,
        Border::Toned(_) => Some(Block::bordered()),
        Border::Titled(title) | Border::Popup(title) => Some(Block::bordered().title(title.as_str())),
    }
}

fn put(frame: &mut Frame, at: Rect, paragraph: Paragraph, border: &Border, wrap: bool) {
    let paragraph = match block(border) {
        Some(block) => paragraph.block(block),
        None => paragraph,
    };
    let paragraph = if wrap { paragraph.wrap(Wrap { trim: true }) } else { paragraph };
    frame.render_widget(paragraph, at);
}

fn render(frame: &mut Frame, panel: &Panel) {
    let at = Rect::new(panel.area.x, panel.area.y, panel.area.width, panel.area.height);
    match &panel.content {
        Content::Blank => frame.render_widget(Clear, at),
        Content::Words { border, words, wrap } => {
            put(frame, at, Paragraph::new(words.as_str()), border, *wrap);
        }
        Content::Lines { border, lines, wrap } => {
            let lines: Vec<Line> = lines
                .iter()
                .map(|line| Line::from(line.iter().map(|s| Span::raw(s.text.as_str())).collect::<Vec<_>>()))
                .collect();
            put(frame, at, Paragraph::new(lines), border, *wrap);
        }
        Content::Controls { .. } => {
            let items = Item::ALL.map(|item| ListItem::new(item.title()));
            frame.render_widget(List::new(items).block(Block::bordered().title("Controls")), at);
        }
        Content::Curve { .. } | Content::History => {}
    }
}

fn draw(terminal: &mut Terminal<TestBackend>, app: &App) {
    terminal
        .draw(|frame| {
            let size = frame.area();
            let panels = ui::draw(app, area(size.x, size.y, size.width, size.height), &shown());
            for panel in &panels {
                render(frame, panel);
            }
        })
        .unwrap();
}

/// The rendered contents of one row, for asserting on what a draw produced.
fn row_text(terminal: &Terminal<TestBackend>, y: u16) -> String {
    let buffer = terminal.backend().buffer();
    (0..buffer.area.width).map(|x| buffer[(x, y)].symbol()).collect()
}

#[test]
fn centered_rect_is_centered_with_an_exact_height() {
    let popup = ui::centered_rect(50, 20, area(0, 0, 100, 100));
    assert_eq!((popup.width, popup.height), (50, 20));
    assert_eq!((popup.x, popup.y), (25, 40));
    // A popup taller than the screen is clamped rather than overflowing.
    let tiny = ui::centered_rect(50, 20, area(0, 0, 20, 6));
    assert!(tiny.height <= 6 && tiny.width <= 20);
}

#[test]
fn the_update_badge_sits_in_the_corner_without_covering_the_header() {
    let mut app = App::new(Config::default());
    app.update = Some("9.9.9".to_string());

    let mut terminal = Terminal::new(TestBackend::new(120, 40)).unwrap();
    draw(&mut terminal, &app);
    let header = row_text(&terminal, 1);
    assert!(header.contains("gigabytectl"), "{header}");
    assert!(header.contains("last refresh"), "the badge must not paint over the header text");
    assert!(header.contains("→ 9.9.9"), "{header}");
    assert!(
        header.find("↑ update").is_some_and(|column| column > 80),
        "the badge belongs in the right-hand corner: {header}"
    );
    assert!(
        row_text(&terminal, 38).contains("self update"),
        "the footer says what to do about it"
    );

    // Too narrow to hold both: the header text wins, the badge is dropped.
    let mut terminal = Terminal::new(TestBackend::new(60, 20)).unwrap();
    draw(&mut terminal, &app);
    let header = row_text(&terminal, 1);
    assert!(header.contains("Gigabyte control panel"), "{header}");
    assert!(!header.contains("9.9.9"), "{header}");
}

/// Rendering must not panic on tiny terminals or with no data yet.
#[test]
fn every_view_renders_at_several_sizes() {
    for (width, height) in [(120, 40), (80, 24), (40, 12), (20, 8)] {
        let mut terminal = Terminal::new(TestBackend::new(width, height)).unwrap();
        let mut app = App::new(Config::default());
        app.fan_curve = Some(vec![(30, 40); sysfs::FAN_CURVE_POINTS]);
        app.update = Some("9.9.9".to_string());
        for index in 0..Item::ALL.len() {
            app.selected = index;
            draw(&mut terminal, &app);
        }
        app.focus = Focus::FanCurveList;
        draw(&mut terminal, &app);
        app.focus = Focus::Editing;
        for target in [
            EditTarget::FanCustomSpeed,
            EditTarget::ChargeLimit,
            EditTarget::FanCurve(2, CurveColumn::Speed),
        ] {
            app.editing = Some(target);
            app.input = "123".to_string();
            draw(&mut terminal, &app);
        }
    }
}

#[test]
fn panels_stay_where_they_belong() {
    for (w, h) in [(120, 40), (80, 24), (20, 8), (1, 1), (0, 0)] {
        let screen = Screen::new(area(3, 2, w, h));
        for part in [screen.header, screen.controls, screen.status, screen.detail, screen.help, screen.footer] {
            assert!(part.x >= 3 && part.y >= 2, "{part:?}");
            assert!(part.x + part.width <= 3 + w && part.y + part.height <= 2 + h, "{part:?}");
        }
        assert_eq!((screen.header.x, screen.header.width), (3, w));
        let popup = ui::centered_rect(56, 7, area(3, 2, w, h));
        assert!(popup.x >= 3 && popup.x + popup.width <= 3 + w);
        assert!(popup.y >= 2 && popup.y + popup.height <= 2 + h);
        if h >= 7 {
            assert_eq!(popup.height, 7);
        }
    }
    let screen = Screen::new(area(0, 0, 120, 40));
    assert_eq!((screen.header.height, screen.footer.height), (3, 3));
    assert_eq!(screen.footer.y, 37);
}

#[test]
fn the_badge_is_placed_by_columns() {
    let header = area(0, 0, 50, 3);
    assert_eq!(ui::update_badge_area(header, 20, 26), Some(area(23, 1, 26, 1)));
    assert_eq!(ui::update_badge_area(header, 21, 26), None);
    assert_eq!(ui::update_badge_area(area(0, 0, 1, 1), 0, 0), None);
    assert_eq!(ui::update_badge_area(header, u16::MAX, u16::MAX), None);
    // A wide character takes two columns.
    let line = vec![ui::Span { text: "→世".to_string(), tone: Tone::Plain }];
    assert_eq!(ui::line_width(&line), Some(3));
    assert_eq!(ui::update_badge(header, &line, "世"), Some(area(47, 1, 2, 1)));
    assert_eq!(ui::badge("0.6.0", "0.7.0"), " ↑ update 0.6.0 → 0.7.0 ");
}

#[test]
fn the_bars_say_what_matters() {
    let mut app = App::new(Config::default());
    assert_eq!(ui::footer(&app), "Ready");
    app.update = Some("9.9.9".to_string());
    assert_eq!(
        ui::footer(&app),
        "gigabytectl 9.9.9 is available - run: sudo gigabytectl self update"
    );
    app.status = "fine".to_string();
    assert_eq!(ui::status(&app), "fine");
    app.focus = Focus::Editing;
    app.editing = Some(EditTarget::ChargeLimit);
    app.input = "8".to_string();
    assert_eq!(ui::status(&app), "Enter charge limit: 8");
    assert_eq!(ui::footer(&app), "Editing mode: type numbers only, then press Enter");
    assert_eq!(
        words(&ui::header(12)),
        " gigabytectl   Gigabyte control panel    root   last refresh: 12s ago"
    );
    app.focus = Focus::Normal;
    let help = ui::help(&app);
    assert_eq!(words(&help[0]), "Selected: Fan mode");
    assert_eq!(words(&help[1]), "Hint: Left/Right to cycle names");
    app.focus = Focus::ProfileList;
    assert_eq!(words(&ui::help(&app)[0]), "Profiles: none saved");
}

#[test]
fn profiles_are_summarised() {
    let full = Profile {
        fan_mode: Some("gaming".to_string()),
        fan_custom_speed: Some(120),
        charge_mode: Some("custom".to_string()),
        charge_limit: Some(80),
        gpu_boost: Some("on".to_string()),
        fan_curve: Some(vec![]),
        ppd_profile: Some("performance".to_string()),
    };
    assert_eq!(
        ui::profile_summary(&full),
        "fan gaming, speed 120, charge 80%, boost on, curve"
    );
    assert_eq!(ui::profile_summary(&Profile::default()), "empty");
    let mut app = App::new(Config::default());
    assert_eq!(words(&ui::profile_list(&app)[0]), "No profiles saved yet.");
    app.profiles = Profiles::collect(vec![
        ("a".to_string(), Profile::default()),
        ("g".to_string(), full),
    ]);
    app.focus = Focus::ProfileList;
    let lines = ui::profile_list(&app);
    assert_eq!(words(&lines[0]), "> a");
    assert_eq!(lines[0][0].tone, Tone::Selected);
    assert_eq!(words(&lines[1]), "    empty");
    assert_eq!(words(&lines[2]), "  g  ->  performance");
    assert_eq!(lines[2][0].tone, Tone::Value);
}

#[test]
fn the_dashboard_tags_what_is_inert() {
    let mut app = App::new(Config::default());
    app.hw = HwState { fan_mode: Some(2), fan_custom_speed: Some(200), ..HwState::default() };
    app.fans = vec![Fan::sample(1, 2400)];
    let lines = ui::dashboard(&app, "58°C", "N/A");
    assert_eq!(words(&lines[0]), "Fan mode       Gaming");
    assert_eq!(lines[0][1].tone, Tone::Gpu);
    assert_eq!(
        words(&lines[1]),
        "Fan speed      200  inactive — requires Auto or Fixed fan mode"
    );
    assert_eq!(words(&lines[8]), "CPU temp       58°C");
    assert_eq!(words(&lines[11]), "Fan readings:");
    assert_eq!(words(&lines[12]), "CPU fan        2400 RPM");
    assert_eq!(ui::badge_style("OFF"), Tone::Cpu);
    assert_eq!(ui::badge_style("Auto"), Tone::Info);
    assert_eq!(ui::badge_style("N/A"), Tone::Number);
}

#[test]
fn the_curve_table_lines_up() {
    let mut app = App::new(Config::default());
    app.hw = HwState { fan_mode: Some(5), ..HwState::default() };
    assert_eq!(
        ui::fan_curve_title(&app, "Fan Curve Editor"),
        "Fan Curve Editor (inactive — requires Custom fan mode)"
    );
    assert_eq!(words(&ui::fan_curve_table(&app)[1]), "Failed to read fan curve data.");
    app.fan_curve = Some(vec![(30, 40), (100, 255)]);
    app.focus = Focus::FanCurveList;
    app.curve_row = 1;
    app.curve_column = CurveColumn::Speed;
    let table = ui::fan_curve_table(&app);
    assert_eq!(words(&table[0]), "Idx  Temp (°C)   Speed (0-255)");
    assert_eq!(words(&table[1]), "  0         30              40");
    assert_eq!(words(&table[2]), "  1        100             255");
    assert_eq!(table[2][3].tone, Tone::Selected);
    assert_eq!(table[2][1].tone, Tone::Plain);
}

#[test]
fn popups_cover_what_is_behind_them() {
    let mut app = App::new(Config::default());
    app.focus = Focus::Editing;
    app.editing = Some(EditTarget::ChargeLimit);
    app.input = "80".to_string();
    let panels = ui::draw(&app, area(0, 0, 80, 24), &shown());
    let n = panels.len();
    assert!(matches!(panels[n - 2].content, Content::Blank));
    assert_eq!(panels[n - 2].area, panels[n - 1].area);
    match &panels[n - 1].content {
        Content::Lines { lines, .. } => {
            assert_eq!(words(&lines[2]), "Value: 80");
            assert_eq!(words(&lines[4]), "Allowed: 60..100");
        }
        other => panic!("{other:?}"),
    }
    assert_eq!(words(&ui::confirm_popup("Delete?")[0]), "Delete?");
}

/// The two ends of a part along a side, from the start of the area.
fn rows(part: Area) -> (u32, u32) {
    (u32::from(part.y), u32::from(part.y) + u32::from(part.height))
}

#[test]
fn the_layout_is_the_one_that_was_asked_for() {
    for height in 0..64u16 {
        let screen = Screen::new(area(0, 5, 100, height));
        assert_eq!(screen.header.y, 5, "{height}");
        assert_eq!(rows(screen.header).1, rows(screen.body).0, "{height}");
        assert_eq!(rows(screen.body).1, rows(screen.footer).0, "{height}");
        assert_eq!(rows(screen.footer).1, 5 + u32::from(height), "{height}");
        let bars = (screen.header.height, screen.footer.height);
        match height {
            18.. => assert_eq!(bars, (3, 3), "{height}"),
            12..18 => assert!(screen.body.height == 12 && bars.0 <= 3 && bars.1 <= 3, "{height}"),
            _ => assert_eq!(bars, (0, 0), "{height}"),
        }
        let body = screen.body.height;
        assert_eq!(screen.status.height, body.saturating_sub(10).min(4), "{height}");
        assert_eq!(screen.controls.height, body - screen.status.height, "{height}");
        assert_eq!(screen.help.height, body.saturating_sub(12).min(5), "{height}");
        assert_eq!(screen.detail.height, body - screen.help.height, "{height}");
        assert_eq!(rows(screen.controls).1, rows(screen.status).0, "{height}");
        assert_eq!(rows(screen.detail).1, rows(screen.help).0, "{height}");
    }
    for width in (0..420u16).chain([9_999, 32_768, 65_528]) {
        let screen = Screen::new(area(7, 0, width, 40));
        let left = (38 * u32::from(width) + 50) / 100;
        assert_eq!(screen.left.x, 7);
        assert_eq!(u32::from(screen.left.width), left, "{width}");
        assert_eq!(u32::from(screen.right.x), 7 + left, "{width}");
        assert_eq!(screen.left.width + screen.right.width, width, "{width}");
    }
}

#[test]
fn popups_stand_in_the_middle() {
    let half_up = |hundredths: u32| (hundredths + 50) / 100;
    for size in (0..150u16).chain([9_999, 32_768, 65_528]) {
        let total = u32::from(size);
        for percent in [0u16, 1, 2, 33, 50, 56, 75, 99, 100] {
            let popup = ui::centered_rect(percent, 7, area(3, 4, size, size));
            let p = u32::from(percent);
            let from = u32::from(popup.x) - 3;
            let to = from + u32::from(popup.width);
            if (p * total) % 2 == 0 {
                assert_eq!(from, half_up((100 - p) * total / 2), "{percent}% of {size}");
                assert_eq!(to, half_up((100 + p) * total / 2), "{percent}% of {size}");
            }
            assert!((100 * (to - from)).abs_diff(p * total) <= 100, "{percent}% of {size}");
            assert!(from.abs_diff(total - to) <= 1, "{percent}% of {size}");
            let (top, rows) = if size < 7 { (0, total) } else { (half_up(50 * (total - 7)), 7) };
            assert_eq!((u32::from(popup.y) - 4, u32::from(popup.height)), (top, rows), "{size}");
        }
    }
}
