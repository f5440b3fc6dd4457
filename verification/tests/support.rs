use codex_air::assets::{Assets, BundledIcon};
use codex_air::diagnostics::{compare_text, mark, summarize, PhaseLog, TextOrder};
use codex_air::ids::V4_FIXED_BITS;
use codex_air::platform::{
    fit_to_work_area, fits_screen, fits_work_area, hex16_text, instance_mutex_name, is_maximized, resolve_parts,
    stable_path_key, to_screen, wide_null, window_property_name, PathPart, Rect,
};
use codex_air::questions::{answers, send_failure_text, Question};
use codex_air::releases::release_notes;
use codex_air::text::{blank, contains, i64_text, join3, same_text, starts_with, strip_prefix, trim, u128_text, u64_text};
use codex_air::theme::{ACCENT, BACKGROUND};

#[test]
fn release_history_is_newest_first() {
    let notes = release_notes();
    assert_eq!(notes.len(), 3);
    assert_eq!(notes[0].version, "0.3.0");
    assert_eq!(notes[0].title, "A clearer place to work");
    assert_eq!(notes[1].version, "0.2.0");
    assert_eq!(notes[2].version, "0.1.0");
    assert_eq!(notes[2].title, "The first Windows preview");
    assert!(notes.iter().all(|n| n.date == "2026-09-13"));
}

#[test]
fn bundled_icons() {
    let assets = Assets;
    assert_eq!(assets.bundled("icons/codex.svg"), Some(BundledIcon::Codex));
    assert_eq!(assets.bundled("icons/air.svg"), Some(BundledIcon::Air));
    assert_eq!(assets.bundled("icons/other.svg"), None);
    assert_eq!(BundledIcon::Air.path(), "icons/air.svg");
    let mut listing = vec!["icons/x.svg".to_string()];
    assets.extend_listing("icons/", &mut listing);
    assert_eq!(listing, vec!["icons/x.svg", "icons/codex.svg", "icons/air.svg"]);
    let mut only = Vec::new();
    assets.extend_listing("icons/a", &mut only);
    assert_eq!(only, vec!["icons/air.svg"]);
    let mut none = Vec::new();
    assets.extend_listing("fonts/", &mut none);
    assert!(none.is_empty());
}

#[test]
fn theme_colours() {
    assert_eq!(BACKGROUND, 0x202127);
    assert_eq!(ACCENT, 0x89b4fa);
}

#[test]
fn question_answers() {
    let questions = vec![
        Question { id: "q1".to_string(), question: "Which?".to_string(), options: vec!["a".to_string()] },
        Question { id: "q2".to_string(), question: "Why?".to_string(), options: vec![] },
    ];
    let texts = vec!["  yes ".to_string(), "   ".to_string()];
    let given = answers(&questions, &texts, false);
    assert_eq!(given.len(), 2);
    assert_eq!(given[0].0, "q1");
    assert_eq!(given[0].1, vec!["yes".to_string()]);
    assert_eq!(given[1].0, "q2");
    assert!(given[1].1.is_empty());
    let skipped = answers(&questions, &texts, true);
    assert!(skipped.iter().all(|(_, a)| a.is_empty()));
    assert_eq!(answers(&questions, &texts[..1].to_vec(), false).len(), 1);
    assert_eq!(send_failure_text(), "Codex disconnected before your answer could be sent.");
}

#[test]
fn startup_marks_are_recorded_only_when_enabled() {
    let mut off: Option<PhaseLog> = None;
    mark(&mut off, "main", 5);
    assert!(off.is_none());
    let mut on = Some(PhaseLog { phases: Vec::new() });
    mark(&mut on, "main", 5);
    mark(&mut on, "first_frame", 9);
    let phases = on.unwrap().phases;
    assert_eq!(phases, vec![("main".to_string(), 5), ("first_frame".to_string(), 9)]);
}

#[test]
fn summaries_are_sorted_and_keep_the_last_time() {
    let phases = vec![
        ("main".to_string(), 1u128),
        ("gpui".to_string(), 2),
        ("main".to_string(), 3),
        ("first_frame".to_string(), 4),
    ];
    let summary = summarize(&phases);
    assert_eq!(
        summary,
        vec![("first_frame".to_string(), 4), ("gpui".to_string(), 2), ("main".to_string(), 3)]
    );
    assert!(summarize(&Vec::new()).is_empty());
    assert_eq!(compare_text("a", "b"), TextOrder::Before);
    assert_eq!(compare_text("b", "a"), TextOrder::After);
    assert_eq!(compare_text("ab", "ab"), TextOrder::Same);
    assert_eq!(compare_text("a", "ab"), TextOrder::Before);
    assert_eq!(compare_text("Z", "a"), TextOrder::Before);
}

#[test]
fn instance_keys() {
    // FNV-1a of the empty string is the offset basis.
    assert_eq!(stable_path_key(""), 0xcbf29ce484222325);
    assert_eq!(stable_path_key("a"), 0xaf63dc4c8601ec8c);
    assert_eq!(stable_path_key("C:\\Data"), stable_path_key("c:\\data"));
    assert_eq!(hex16_text(0xab), "00000000000000ab");
    assert_eq!(instance_mutex_name(1), "Local\\CodexAir.Instance.0000000000000001");
    assert_eq!(window_property_name(0xffff), "CodexAir.Window.000000000000ffff");
}

#[test]
fn wide_strings_end_with_a_zero() {
    assert_eq!(wide_null("ab"), vec![97u16, 98, 0]);
    assert_eq!(wide_null(""), vec![0u16]);
    assert_eq!(wide_null("é"), vec![0xe9u16, 0]);
    assert_eq!(wide_null("😀"), vec![0xd83du16, 0xde00, 0]);
}

#[test]
fn windows_are_fitted_into_the_work_area() {
    let monitor = Rect { left: 0, top: 0, right: 1920, bottom: 1080 };
    let work = Rect { left: 0, top: 40, right: 1920, bottom: 1080 };
    let r = fit_to_work_area(1800, 900, 800, 600, work, monitor);
    assert_eq!(r, Rect { left: 1120, top: 440, right: 1920, bottom: 1040 });
    let big = fit_to_work_area(-50, -50, 4000, 4000, work, monitor);
    assert_eq!(big, Rect { left: 0, top: 0, right: 1920, bottom: 1040 });
    let back = to_screen(r, work, monitor);
    assert_eq!(back, Rect { left: 1120, top: 480, right: 1920, bottom: 1080 });
    // A window inside the work area comes back where it was saved.
    let normal = Rect { left: 100, top: 60, right: 900, bottom: 660 };
    let screen = to_screen(normal, work, monitor);
    let restored = fit_to_work_area(screen.left, screen.top, screen.right - screen.left, screen.bottom - screen.top, work, monitor);
    assert_eq!(restored, normal);
}

#[test]
fn maximized_windows() {
    assert!(is_maximized(3, 0));
    assert!(is_maximized(1, 2));
    assert!(!is_maximized(1, 0));
    assert!(!is_maximized(1, 1));
}

#[test]
fn data_directory_parts_are_resolved() {
    let parts = vec![
        PathPart::Prefix("C:".to_string()),
        PathPart::Root,
        PathPart::Normal("Users".to_string()),
        PathPart::CurDir,
        PathPart::Normal("me".to_string()),
        PathPart::ParentDir,
        PathPart::Normal("you".to_string()),
    ];
    let resolved = resolve_parts(&parts);
    assert_eq!(resolved.len(), 4);
    assert!(matches!(&resolved[2], PathPart::Normal(n) if n == "Users"));
    assert!(matches!(&resolved[3], PathPart::Normal(n) if n == "you"));
    let top = vec![PathPart::Root, PathPart::ParentDir, PathPart::Normal("x".to_string())];
    let r = resolve_parts(&top);
    assert_eq!(r.len(), 2);
    assert!(matches!(r[0], PathPart::Root));
    let again = resolve_parts(&resolved);
    assert_eq!(again.len(), resolved.len());
}

#[test]
fn uuid_bits() {
    assert_eq!(V4_FIXED_BITS, 0x40008000000000000000u128);
}

#[test]
fn text_helpers() {
    assert_eq!(trim("  a b \n"), "a b");
    assert_eq!(trim("\u{3000}x\u{a0}"), "x");
    assert!(blank(" \t"));
    assert!(!blank(" x "));
    assert!(same_text("abc", "abc"));
    assert!(!same_text("abc", "abd"));
    assert!(starts_with("icons/air.svg", "icons/"));
    assert!(!starts_with("ic", "icons/"));
    assert_eq!(strip_prefix("\\\\?\\C:\\x", "\\\\?\\").as_deref(), Some("C:\\x"));
    assert_eq!(strip_prefix("C:\\x", "\\\\?\\"), None);
    assert!(contains("hello world", "o w"));
    assert!(contains("hello", ""));
    assert!(!contains("hello", "hey"));
    assert_eq!(u64_text(0), "0");
    assert_eq!(u64_text(18446744073709551615), "18446744073709551615");
    assert_eq!(u128_text(340282366920938463463374607431768211455), "340282366920938463463374607431768211455");
    assert_eq!(i64_text(-42), "-42");
    assert_eq!(i64_text(i64::MIN), "-9223372036854775808");
    assert_eq!(join3("a", "b", "c"), "abc");
}

#[test]
fn placements_beyond_i32_are_recognized() {
    let monitor = Rect { left: 0, top: 0, right: 1920, bottom: 1080 };
    let work = Rect { left: 0, top: 40, right: 1920, bottom: 1080 };
    assert!(fits_work_area(1800, 900, 800, 600, work, monitor));
    assert!(fits_screen(Rect { left: 100, top: 60, right: 900, bottom: 660 }, work, monitor));
    let far = Rect { left: i32::MIN, top: 0, right: i32::MAX, bottom: 10 };
    let shifted = Rect { left: 0, top: 0, right: 10, bottom: 10 };
    assert!(!fits_work_area(0, 0, 10, 10, far, shifted));
    let odd_monitor = Rect { left: -2_000_000_000, top: 0, right: 0, bottom: 10 };
    let odd_work = Rect { left: 2_000_000_000, top: 0, right: 2_000_000_100, bottom: 10 };
    assert!(!fits_screen(Rect { left: 2_000_000_000, top: 0, right: 2_000_000_010, bottom: 5 }, odd_work, odd_monitor));
    let big = fit_to_work_area(-2_000_000_000, 0, 10, 10, Rect { left: -2_000_000_000, top: 0, right: 2_000_000_000, bottom: 100 }, Rect { left: -2_000_000_000, top: 0, right: 2_000_000_000, bottom: 100 });
    assert_eq!(big, Rect { left: -2_000_000_000, top: 0, right: -1_999_999_990, bottom: 10 });
}
