use onyx_launcher::category::{category_exe_name, check_category, sanitize_name, CategoryError};
use onyx_launcher::config::{category_name, config_dir, config_path, AppEntry, Config};
use onyx_launcher::drawer::{
    argb, filter_apps, grid_cell, grid_rows, picked_app_name, window_title, Drawer, DrawerState,
    Hovered, KeyOutcome, KeyPress, LeftClick, LogicalKey, Request, SlideEnd, UserEvent,
};
use onyx_launcher::geometry::{compute_layout, DrawerLayout, WorkArea};
use onyx_launcher::instance::{
    instance_outcome, object_names, parse_wake_message, wake_message, wide, InstanceOutcome,
};
use onyx_launcher::text::{eq_ignore_ascii_case, trim, truncate};

fn entry(name: &str, path: &str) -> AppEntry {
    AppEntry { name: name.to_string(), path: path.to_string() }
}

fn paths(c: &Config) -> Vec<String> {
    c.apps.iter().map(|a| a.path.clone()).collect()
}

#[test]
fn add_app_skips_duplicates() {
    let mut c = Config::new("apps.json".to_string());
    assert!(c.add_app("A".to_string(), "C:\\a.exe".to_string()));
    assert!(c.add_app("B".to_string(), "C:\\b.exe".to_string()));
    assert!(!c.add_app("A again".to_string(), "C:\\a.exe".to_string()));
    assert_eq!(paths(&c), vec!["C:\\a.exe".to_string(), "C:\\b.exe".to_string()]);
    assert_eq!(c.apps[0].name, "A");
    assert_eq!(c.path(), "apps.json");
}

#[test]
fn remove_app_removes_every_match_and_keeps_order() {
    let mut c = Config::with_apps(
        vec![entry("A", "a"), entry("B", "b"), entry("A2", "a"), entry("C", "c")],
        "f".to_string(),
    );
    c.remove_app("a");
    assert_eq!(paths(&c), vec!["b".to_string(), "c".to_string()]);
    c.remove_app("zzz");
    assert_eq!(paths(&c), vec!["b".to_string(), "c".to_string()]);
}

#[test]
fn add_then_remove_restores_list() {
    let mut c = Config::with_apps(vec![entry("A", "a")], "f".to_string());
    c.add_app("N".to_string(), "n".to_string());
    c.remove_app("n");
    assert_eq!(paths(&c), vec!["a".to_string()]);
}

#[test]
fn config_locations() {
    assert_eq!(config_dir(None), vec!["OnyxLauncher".to_string()]);
    assert_eq!(
        config_dir(Some("Games")),
        vec!["OnyxLauncher".to_string(), "categories".to_string(), "Games".to_string()]
    );
    assert_eq!(config_path(None), vec!["OnyxLauncher".to_string(), "apps.json".to_string()]);
    assert_eq!(
        config_path(Some("Work")),
        vec![
            "OnyxLauncher".to_string(),
            "categories".to_string(),
            "Work".to_string(),
            "apps.json".to_string()
        ]
    );
    assert_ne!(config_path(Some("Games")), config_path(Some("Work")));
}

#[test]
fn category_from_exe_stem() {
    assert_eq!(category_name("onyx-launcher"), None);
    assert_eq!(category_name("Onyx-Launcher"), None);
    assert_eq!(category_name("Games"), Some("Games".to_string()));
    assert_eq!(category_name("onyx-launcher2"), Some("onyx-launcher2".to_string()));
}

#[test]
fn search_filter_is_case_insensitive_substring() {
    let apps = vec![entry("Firefox", "ff"), entry("Notepad", "np"), entry("FILE Manager", "fm")];
    let names = |v: Vec<AppEntry>| v.into_iter().map(|a| a.name).collect::<Vec<_>>();
    assert_eq!(names(filter_apps(&apps, "")), vec!["Firefox", "Notepad", "FILE Manager"]);
    assert_eq!(names(filter_apps(&apps, "fi")), vec!["Firefox", "FILE Manager"]);
    assert_eq!(names(filter_apps(&apps, "PAD")), vec!["Notepad"]);
    assert!(filter_apps(&apps, "xyz").is_empty());
}

fn drawer() -> Drawer {
    Drawer::new(None, Config::with_apps(vec![entry("Alpha", "a"), entry("Beta", "b")], "f".to_string()))
}

#[test]
fn toggle_cycles_the_drawer() {
    let mut d = drawer();
    assert!(d.toggle_visibility(1));
    assert_eq!(d.state, DrawerState::SlidingUp { start: 1 });
    assert!(!d.toggle_visibility(2));
    assert_eq!(d.state, DrawerState::SlidingDown { start: 2 });
    assert!(!d.toggle_visibility(3));
    assert_eq!(d.state, DrawerState::SlidingUp { start: 3 });
    assert_eq!(d.finish_slide(), SlideEnd::Shown);
    assert_eq!(d.state, DrawerState::Shown);
    assert_eq!(d.finish_slide(), SlideEnd::Idle);
    assert!(!d.toggle_visibility(4));
    assert_eq!(d.finish_slide(), SlideEnd::Hidden);
    assert_eq!(d.state, DrawerState::Hidden);
}

#[test]
fn focus_loss_closes_only_a_shown_drawer() {
    let mut d = drawer();
    assert!(!d.focus_lost(5));
    assert_eq!(d.state, DrawerState::Hidden);
    d.toggle_visibility(1);
    d.finish_slide();
    assert!(d.focus_lost(6));
    assert_eq!(d.state, DrawerState::SlidingDown { start: 6 });
}

#[test]
fn requests_toggle_or_switch() {
    let mut d = drawer();
    assert_eq!(d.request(&None, 1), Request::Toggled { show_window: true });
    assert_eq!(d.state, DrawerState::SlidingUp { start: 1 });
    let games = Some("Games".to_string());
    assert_eq!(d.request(&games, 2), Request::Switch);
    assert_eq!(d.state, DrawerState::SlidingUp { start: 1 });
    d.search = "x".to_string();
    d.hovered = Hovered::App(0);
    let show = d.switch_to(games.clone(), Config::new("g".to_string()), 3);
    assert!(!show);
    assert_eq!(d.state, DrawerState::SlidingUp { start: 1 });
    assert_eq!(d.active_category, games);
    assert!(d.search.is_empty());
    assert_eq!(d.hovered, Hovered::Nothing);
    // A sinking drawer turns round when another category is asked for.
    d.toggle_visibility(4);
    assert!(!d.switch_to(None, Config::new("m".to_string()), 5));
    assert_eq!(d.state, DrawerState::SlidingUp { start: 5 });
    // A hidden drawer opens.
    d.finish_slide();
    d.toggle_visibility(6);
    d.finish_slide();
    assert_eq!(d.state, DrawerState::Hidden);
    assert!(d.switch_to(games, Config::new("g".to_string()), 7));
    assert_eq!(d.state, DrawerState::SlidingUp { start: 7 });
}

fn key(k: LogicalKey, text: Option<&str>) -> KeyPress {
    KeyPress { key: k, text: text.map(|t| t.to_string()) }
}

#[test]
fn search_editing() {
    let mut d = drawer();
    assert_eq!(d.key_press(false, &key(LogicalKey::Character("a".into()), Some("a"))), KeyOutcome::Edited);
    assert_eq!(d.key_press(false, &key(LogicalKey::Other, Some("b\u{7}c"))), KeyOutcome::Edited);
    assert_eq!(d.search, "abc");
    d.key_press(false, &key(LogicalKey::Backspace, None));
    assert_eq!(d.search, "ab");
    assert_eq!(d.key_press(true, &key(LogicalKey::Character("V".into()), Some("v"))), KeyOutcome::Paste);
    assert_eq!(d.search, "ab");
    d.paste("x\ny\tz");
    assert_eq!(d.search, "abxyz");
    d.key_press(false, &key(LogicalKey::Escape, None));
    assert_eq!(d.search, "");
    d.key_press(false, &key(LogicalKey::Backspace, None));
    assert_eq!(d.search, "");
}

#[test]
fn clicks() {
    let mut d = drawer();
    d.search = "bet".to_string();
    d.hovered = Hovered::App(0);
    match d.left_click(1) {
        LeftClick::Launch { target, show_window } => {
            assert_eq!(target, Some("b".to_string()));
            assert!(show_window);
        }
        _ => panic!("expected a launch"),
    }
    d.hovered = Hovered::App(5);
    match d.left_click(2) {
        LeftClick::Launch { target, .. } => assert_eq!(target, None),
        _ => panic!("expected a launch"),
    }
    d.hovered = Hovered::AppRemove(0);
    match d.left_click(3) {
        LeftClick::Removed { path } => assert_eq!(path, "b"),
        _ => panic!("expected a removal"),
    }
    assert_eq!(d.hovered, Hovered::Nothing);
    assert_eq!(paths(&d.config), vec!["a".to_string()]);
    d.hovered = Hovered::Add;
    assert!(matches!(d.left_click(4), LeftClick::PickFile));
    assert!(d.add_picked(picked_app_name(Some("Gamma")), "g".to_string()));
    assert!(!d.add_picked(picked_app_name(None), "g".to_string()));
    d.search.clear();
    assert_eq!(d.right_click_target(), None);
    d.hovered = Hovered::AppRemove(1);
    assert_eq!(d.right_click_target(), Some(1));
    assert_eq!(d.remove_listed(1), Some("g".to_string()));
    assert_eq!(d.remove_listed(7), None);
    assert_eq!(paths(&d.config), vec!["a".to_string()]);
}

#[test]
fn small_helpers() {
    assert_eq!(argb(244, 2, 2, 2), 0xF402_0202);
    assert_eq!(argb(30, 255, 255, 255), 0x1EFF_FFFF);
    assert_eq!(grid_cell(7, 3), (1, 2));
    assert_eq!(grid_rows(0, 7), 1);
    assert_eq!(grid_rows(7, 7), 1);
    assert_eq!(grid_rows(8, 7), 2);
    assert_eq!(window_title(None), "Onyx Launcher");
    assert_eq!(window_title(Some("Games")), "Onyx Launcher - Games");
    assert_eq!(picked_app_name(None), "App");
    let _ = UserEvent::Wake;
}

#[test]
fn truncate_labels() {
    assert_eq!(truncate("Short", 12), "Short");
    assert_eq!(truncate("A very long application", 12), "A very long\u{2026}");
    assert_eq!(truncate("abc", 0), "\u{2026}");
    assert_eq!(truncate("", 0), "");
    assert_eq!(truncate("h\u{e9}ll\u{f6}", 4), "h\u{e9}l\u{2026}");
}

#[test]
fn trim_and_case() {
    assert_eq!(trim("  a b \t\n"), "a b");
    assert_eq!(trim("\u{3000}x\u{a0}"), "x");
    assert_eq!(trim(" \t "), "");
    assert!(eq_ignore_ascii_case("Onyx-LAUNCHER", "onyx-launcher"));
    assert!(!eq_ignore_ascii_case("onyx", "onyx-launcher"));
}

#[test]
fn layout_on_work_area() {
    let l = compute_layout(Some(WorkArea { left: 0, top: 0, right: 1920, bottom: 1040 }), 760, 460);
    assert_eq!(l, DrawerLayout { shown_x: 580, shown_y: 580, hidden_x: 580, hidden_y: 1044 });
    let fallback = compute_layout(None, 761, 460);
    assert_eq!(fallback, DrawerLayout { shown_x: 579, shown_y: 620, hidden_x: 579, hidden_y: 1084 });
    // A window wider than the work area is centred, rounding toward zero.
    let wide_l = compute_layout(Some(WorkArea { left: 100, top: 0, right: 200, bottom: 50 }), 103, 10);
    assert_eq!(wide_l.shown_x, 99);
}

#[test]
fn object_names_per_category() {
    let (m, e) = object_names(None);
    assert_eq!(m, wide("Local\\OnyxLauncher.instance.default"));
    assert_eq!(e, wide("Local\\OnyxLauncher.signal.default"));
    let (m2, _) = object_names(Some("a/b\\c"));
    assert_eq!(m2, wide("Local\\OnyxLauncher.instance.a_b_c"));
    assert_eq!(wide("A\u{1F600}"), vec![0x41, 0xD83D, 0xDE00, 0]);
    assert_eq!(wide(""), vec![0]);
}

#[test]
fn instance_decisions() {
    assert_eq!(instance_outcome(false, false, true), InstanceOutcome::Failed);
    assert_eq!(instance_outcome(true, true, false), InstanceOutcome::Failed);
    assert_eq!(instance_outcome(true, true, true), InstanceOutcome::SignalRunning);
    assert_eq!(instance_outcome(true, false, true), InstanceOutcome::Owner);
}

#[test]
fn wake_messages_round_trip() {
    assert_eq!(wake_message(None), b"");
    assert_eq!(wake_message(Some("Games")), b"Games");
    assert_eq!(parse_wake_message(wake_message(Some("Games"))), Some("Games".to_string()));
    assert_eq!(parse_wake_message(wake_message(None)), None);
    assert_eq!(parse_wake_message(b"  Work \n"), Some("Work".to_string()));
    assert_eq!(parse_wake_message(b"\xffX"), Some("\u{fffd}X".to_string()));
}

#[test]
fn category_requests() {
    assert_eq!(sanitize_name("  My:Games?  "), "My_Games_");
    assert_eq!(sanitize_name("a/b\\c*d\"e<f>g|h"), "a_b_c_d_e_f_g_h");
    assert_eq!(check_category("   ", true), Err(CategoryError::MissingName));
    assert_eq!(check_category("Games", false), Err(CategoryError::MissingIcon));
    assert_eq!(check_category(" Games ", true), Ok("Games".to_string()));
    assert_eq!(CategoryError::MissingName.message(), "Enter a category name.");
    assert_eq!(CategoryError::MissingIcon.message(), "Choose an icon image first.");
    assert_eq!(category_exe_name("Games"), "Games.exe");
}
