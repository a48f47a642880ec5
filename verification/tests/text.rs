use gigabytectl::app::{App, EditTarget, Focus, KeyCode, KeyEvent};
use gigabytectl::config::Config;
use gigabytectl::system;
use gigabytectl::text;
use gigabytectl::text::Cut;
use gigabytectl::tui;

#[test]
fn numbers_are_written_and_read_in_decimal() {
    for n in [0u64, 7, 10, 255, 18446744073709551615] {
        assert_eq!(text::decimal_of(n), n.to_string());
        assert_eq!(text::parse_nat(&n.to_string(), u64::MAX), Some(n));
    }
    for n in [0i64, -1, 42, i64::MIN, i64::MAX] {
        assert_eq!(text::decimal_of_int(n), n.to_string());
    }
    for s in ["", "+", "-", "+5", "-0", "-5", " 5", "5 ", "007", "2147483648", "-2147483648", "-2147483649", "4294967296", "٣"] {
        assert_eq!(text::parse_i32(s), s.parse::<i32>().ok(), "{s:?}");
        assert_eq!(text::parse_u32(s), s.parse::<u32>().ok(), "{s:?}");
    }
}

#[test]
fn trimming_and_splitting_follow_the_standard_library() {
    for s in ["", " ", " a b ", "\u{a0}x\u{3000}", "a\r\nb\n\nc\r", "\n", "x\n", "x\r\n", "\r\n\r\n"] {
        assert_eq!(text::trim(s), s.trim(), "{s:?}");
        assert_eq!(text::words(s), s.split_whitespace().collect::<Vec<_>>(), "{s:?}");
        assert_eq!(text::lines(s), s.lines().collect::<Vec<_>>(), "{s:?}");
        assert_eq!(
            text::split(s, Cut::At('\n')),
            s.split('\n').collect::<Vec<_>>(),
            "{s:?}"
        );
    }
    assert_eq!(text::split("1-2+3", Cut::Either('-', '+')), ["1", "2", "3"]);
    assert_eq!(text::piece("a:b", Cut::At(':'), 1), Some("b".to_string()));
    assert_eq!(text::piece("a:b", Cut::At(':'), 2), None);
    assert_eq!(text::join(&["a".to_string(), "b".to_string()], ", "), "a, b");
}

#[test]
fn searching_follows_the_standard_library() {
    for (s, p) in [("abcabc", "ca"), ("", ""), ("a", "ab"), ("aab", "ab"), ("äöü", "ö")] {
        assert_eq!(text::contains(s, p), s.contains(p));
        assert_eq!(text::starts_with(s, p), s.starts_with(p));
        assert_eq!(text::ends_with(s, p), s.ends_with(p));
        assert_eq!(text::strip_prefix(s, p), s.strip_prefix(p));
        assert_eq!(text::strip_suffix(s, p), s.strip_suffix(p));
    }
    assert_eq!(text::find("abcabc", "ca"), Some(2));
    assert_eq!(text::find("abc", "x"), None);
    assert!(text::before("a", "b") && text::before("a", "ab") && !text::before("b", "a"));
    assert!(!text::before("a", "a"));
    assert!(text::same_ignoring_case("ON", "on") && !text::same_ignoring_case("ÄN", "än"));
    assert_eq!(text::pad_right("ä", 3), "ä  ");
    assert_eq!(text::pad_left("12", 3), " 12");
    assert_eq!(text::pad_left("1234", 3), "1234");
}

#[test]
fn output_of_commands_is_trimmed_and_failures_named() {
    assert_eq!(system::command_stdout(true, " x \n"), Some("x".to_string()));
    assert_eq!(system::command_stdout(false, "x"), None);
    let args = vec!["-a".to_string(), "b".to_string()];
    assert_eq!(system::checked_stdout("cmd", &args, true, " out\n", "").unwrap(), "out");
    assert_eq!(
        system::checked_stdout("cmd", &args, false, "", " no\n").unwrap_err().message(),
        "`cmd -a b` failed: no"
    );
    assert_eq!(
        system::checked_status("cmd", &args, false, "exit status: 1").unwrap_err().message(),
        "`cmd -a b` failed (exit status: 1)"
    );
    assert!(system::checked_status("cmd", &args, true, "").is_ok());
}

#[test]
fn users_and_their_homes() {
    assert!(system::is_root(Some(0)) && !system::is_root(Some(1)) && !system::is_root(None));
    assert_eq!(system::sudo_user(Some(String::new())), None);
    assert_eq!(system::sudo_user(Some("ann".to_string())), Some("ann".to_string()));
    let entry = "ann:x:1000:1000:Ann:/home/ann:/bin/bash";
    assert_eq!(system::home_of_user(Some(entry)), Some("/home/ann".to_string()));
    assert_eq!(system::home_of_user(Some("ann:x:1:1:A::/bin/sh")), None);
    assert_eq!(system::home_of_user(None), None);
    assert_eq!(
        system::chown_to_sudo_user(Some("ann"), "/d").unwrap(),
        ["-R", "ann:", "/d"]
    );
    assert!(system::chown_to_sudo_user(None, "/d").is_none());
    assert_eq!(system::unix_time(None), 0);
    assert_eq!(system::unix_time(Some(5)), 5);
}

#[test]
fn the_session_waits_no_longer_than_it_should() {
    assert_eq!(tui::poll_timeout(1000, 0), 250_000_000);
    assert_eq!(tui::poll_timeout(1000, 900_000_000), 100_000_000);
    assert_eq!(tui::poll_timeout(1000, 2_000_000_000), 0);
    assert!(!tui::refresh_due(1000, 999_999_999));
    assert!(tui::refresh_due(1000, 1_000_000_000));
    assert!(tui::ensure_root("\n") && tui::ensure_root(" Y\n") && tui::ensure_root("yes"));
    assert!(!tui::ensure_root("n") && !tui::ensure_root("yeah"));
}

#[test]
fn characters_are_classed_like_the_standard_library_does() {
    let low = 0..0x4000u32;
    let high = (0x4000..0x11_0000u32).step_by(101);
    for c in low.chain(high).filter_map(char::from_u32) {
        let s = c.to_string();
        assert_eq!(text::trim(&s).is_empty(), c.is_whitespace(), "{c:?}");
        assert_eq!(text::lowercase(&s), s.to_ascii_lowercase(), "{c:?}");
        let mut app = App::new(Config::default());
        app.focus = Focus::Editing;
        app.editing = Some(EditTarget::NewProfileName);
        app.handle_key(KeyEvent { code: KeyCode::Char(c), control: false });
        assert_eq!(app.input.is_empty(), c.is_control(), "{c:?}");
    }
}
