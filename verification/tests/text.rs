use hearthdeck::icon_cache::IconCacheKey;
use hearthdeck::style::{
    content_horizontal_padding, details_action_bar_padding, grid_top_padding, search_icon_padding,
    Spacing,
};
use hearthdeck::text::{
    chars_less, str_concat, eq_ignore_ascii_case, is_whitespace, parse_i64, push_decimal, str_contains,
    strip_prefix_str, trim_end_matches_chars, trim_str,
};

#[test]
fn trimming_removes_unicode_white_space_at_both_ends() {
    assert_eq!(trim_str("  \t a b \n"), "a b");
    assert_eq!(trim_str("\u{3000}x\u{a0}"), "x");
    assert_eq!(trim_str("   "), "");
    assert!(is_whitespace('\u{2028}'));
    assert!(!is_whitespace('x'));
}

#[test]
fn every_trailing_match_is_removed() {
    let chars = |s: &str| s.chars().collect::<Vec<char>>();
    assert_eq!(
        trim_end_matches_chars(&chars("a.desktop.desktop"), &chars(".desktop")),
        chars("a")
    );
    assert_eq!(
        trim_end_matches_chars(&chars("a.desktopx"), &chars(".desktop")),
        chars("a.desktopx")
    );
    assert_eq!(trim_end_matches_chars(&chars("abc"), &chars("")), chars("abc"));
}

#[test]
fn decimal_numbers_round_trip() {
    for n in [0i64, 7, -7, 1994, i64::MAX, i64::MIN] {
        let mut s = String::new();
        push_decimal(&mut s, n);
        assert_eq!(s, n.to_string());
        assert_eq!(parse_i64(&s), Some(n));
    }
    assert_eq!(parse_i64(""), None);
    assert_eq!(parse_i64("-"), None);
    assert_eq!(parse_i64("12a"), None);
    assert_eq!(parse_i64("9223372036854775808"), None);
    assert_eq!(parse_i64("+5"), Some(5));
}

#[test]
fn strings_compare_and_combine() {
    assert!(eq_ignore_ascii_case("GAME", "game"));
    assert!(!eq_ignore_ascii_case("games", "game"));
    assert!(str_contains("hello world", "o w"));
    assert!(str_contains("x", ""));
    assert_eq!(strip_prefix_str("hearthdeck:x", "hearthdeck:"), Some("x"));
    assert_eq!(str_concat("ab", "cd"), "abcd");
    let chars = |s: &str| s.chars().collect::<Vec<char>>();
    assert!(chars_less(&chars("Z"), &chars("a")));
    assert!(chars_less(&chars("ab"), &chars("abc")));
    assert!(!chars_less(&chars("abc"), &chars("abc")));
}

#[test]
fn paddings_follow_the_spacing_scale() {
    let standard = Spacing {
        space_none: 0,
        space_xxxs: 4,
        space_xxs: 8,
        space_xs: 12,
        space_s: 16,
        space_m: 24,
        space_l: 32,
        space_xl: 48,
        space_xxl: 64,
        space_xxxl: 128,
    };
    assert_eq!(content_horizontal_padding(&standard), 24);
    assert_eq!(grid_top_padding(&standard), 12);
    assert_eq!(details_action_bar_padding(&standard), 16);
    assert_eq!(search_icon_padding(&standard), 4);
}

#[test]
fn symbolic_icons_are_named_so() {
    assert!(IconCacheKey::new("app-source-local-symbolic", 16).symbolic());
    assert!(!IconCacheKey::new("app-source-flatpak", 16).symbolic());
}

use std::hash::Hasher;
use hearthdeck::icon_cache::{
    artwork_cache_dir, artwork_cache_path, artwork_extension, cached_artwork_candidates,
    icon_file_name, is_remote_artwork,
};

fn default_hash(key: &str) -> u64 {
    let mut hasher = std::collections::hash_map::DefaultHasher::new();
    hasher.write(key.as_bytes());
    hasher.finish()
}

#[test]
fn artwork_keeps_a_known_image_extension_and_defaults_to_png() {
    assert_eq!(artwork_extension("https://cdn.example.com/art/Cover.JPG?v=2"), "jpg");
    assert_eq!(artwork_extension("https://cdn.example.com/art/box.webp"), "webp");
    assert_eq!(artwork_extension("https://cdn.example.com/art/anim.gif"), "png");
    assert_eq!(artwork_extension("https://cdn.example.com/art/"), "png");
    assert_eq!(artwork_extension("not a url"), "png");
}

#[test]
fn cached_artwork_is_named_after_the_hash_of_its_key() {
    let name = icon_file_name("romm:/covers/1.png", "jpg");
    assert_eq!(name, format!("{:016x}.jpg", default_hash("romm:/covers/1.png")));
    let url = "https://cdn.example.com/a.png";
    assert_eq!(
        artwork_cache_path("/home/u/.cache/hearthdeck/icons", url),
        format!("/home/u/.cache/hearthdeck/icons/{:016x}.png", default_hash(url))
    );
    let candidates = cached_artwork_candidates("/c", "key");
    let stem = format!("/c/{:016x}", default_hash("key"));
    assert_eq!(
        candidates,
        [format!("{stem}.jpg"), format!("{stem}.png"), format!("{stem}.webp")]
    );
}

#[test]
fn the_artwork_cache_lives_under_the_user_cache() {
    assert_eq!(artwork_cache_dir(Some("/xdg"), Some("/home/u")), "/xdg/hearthdeck/icons");
    assert_eq!(
        artwork_cache_dir(None, Some("/home/u")),
        "/home/u/.cache/hearthdeck/icons"
    );
    assert_eq!(artwork_cache_dir(None, None), "/tmp/hearthdeck/icons");
    assert!(is_remote_artwork("https://x/y.png"));
    assert!(is_remote_artwork("http://x/y.png"));
    assert!(!is_remote_artwork("/usr/share/icons/y.png"));
    assert!(!is_remote_artwork("steam"));
}

use hearthdeck::observability::{log_format, LogFormat};

#[test]
fn logs_are_json_unless_pretty_is_asked_for() {
    assert_eq!(log_format(None), LogFormat::Json);
    assert_eq!(log_format(Some("json")), LogFormat::Json);
    assert_eq!(log_format(Some("pretty")), LogFormat::Pretty);
    assert_eq!(log_format(Some("Pretty")), LogFormat::UnknownFallsBackToJson);
    assert_eq!(log_format(Some("")), LogFormat::UnknownFallsBackToJson);
}
