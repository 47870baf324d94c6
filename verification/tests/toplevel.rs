use hearthdeck::toplevel::WindowHint;

#[test]
fn a_hint_matches_the_names_a_desktop_launch_reports() {
    let hint = WindowHint::for_entry("org.example.App.desktop", "Example App", Some("ExampleApp"));

    assert!(hint.matches("org.example.app", ""));
    assert!(hint.matches("", "Example App — untitled"));
    assert!(hint.matches("exampleapp", "Example App"));
    assert!(!hint.matches("stremio", "Stremio"));
    assert!(!hint.matches("", ""));
}

#[test]
fn a_web_app_matches_by_title_because_the_window_is_the_browsers() {
    let hint = WindowHint::for_entry("prime-video.desktop", "Prime Video", None);

    assert!(hint.matches("google-chrome", "Prime Video"));
    assert!(hint.matches("chromium", "prime video — watch"));
    assert!(!hint.matches("chromium", "New Tab"));
}

#[test]
fn short_names_do_not_become_title_matches() {
    let dotted = WindowHint::for_entry("org.videolan.VLC.desktop", "VLC", None);

    assert!(dotted.matches("org.videolan.vlc", ""));
    assert!(!dotted.matches("", "VLC media player"));

    let named = WindowHint::for_entry("vlc.desktop", "VLC media player", None);
    assert!(named.matches("", "VLC media player — playing"));
}

#[test]
fn a_console_game_matches_on_its_title() {
    let hint = WindowHint::for_entry("romm:4014", "Zoop", None);

    assert!(hint.matches("retroarch", "Zoop (USA)"));
    assert!(!hint.matches("retroarch", "RetroArch"));
}

#[test]
fn every_desktop_suffix_and_surrounding_space_is_trimmed_from_the_id() {
    let hint = WindowHint::for_entry("  Game.desktop.desktop", "Hi", None);
    assert!(hint.matches("game", ""));
    assert!(hint.matches("", "A GAME"));
    assert!(!hint.matches("gam", "ga"));
}

#[test]
fn a_blank_window_class_adds_nothing() {
    let hint = WindowHint::for_entry("abc", "Ab", Some("   "));
    assert!(hint.matches("abc", ""));
    assert!(!hint.matches("", "   "));
}

use hearthdeck::toplevel::{PendingHints, HINT_LIFETIME_MS};

#[test]
fn a_window_answers_the_first_waiting_launch_once() {
    let mut pending = PendingHints::new();
    pending.register(WindowHint::for_entry("org.gnome.Maps.desktop", "Maps", None), 0);
    pending.register(WindowHint::for_entry("celeste.desktop", "Celeste", None), 10);
    assert_eq!(pending.len(), 2);

    // A window nobody waits for takes nothing.
    assert!(pending.take_match(20, "org.kde.dolphin", "Files").is_none());
    assert_eq!(pending.len(), 2);

    let hint = pending.take_match(30, "Celeste", "Celeste").unwrap();
    assert!(hint.matches("celeste", ""));
    assert_eq!(pending.len(), 1);
    // Retired: the same window is not asked for twice.
    assert!(pending.take_match(40, "Celeste", "Celeste").is_none());
}

#[test]
fn an_overdue_launch_no_longer_waits_for_its_window() {
    let mut pending = PendingHints::new();
    pending.register(WindowHint::for_entry("celeste.desktop", "Celeste", None), 1_000);
    assert!(pending
        .take_match(1_000 + HINT_LIFETIME_MS, "celeste", "Celeste")
        .is_none());
    assert_eq!(pending.len(), 0);

    pending.register(WindowHint::for_entry("celeste.desktop", "Celeste", None), 5_000);
    assert!(pending
        .take_match(5_000 + HINT_LIFETIME_MS - 1, "celeste", "")
        .is_some());
}

#[test]
fn an_empty_window_matches_no_hint() {
    let hint = hearthdeck::toplevel::WindowHint::for_entry("org.gnome.Calculator.desktop", "Calculator", None);
    assert!(!hint.matches("", ""));
    assert!(hint.matches("", "Calculator"));
}
