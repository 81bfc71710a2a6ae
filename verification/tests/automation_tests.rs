use focus_client_rust::automation::{parse_gsettings_uri, path_to_file_uri, pkill_outcome_ok, strip_char, wallpaper_restore_uri};

#[test]
fn file_uri_escapes_spaces_and_adds_scheme() {
    assert_eq!(path_to_file_uri("/home/me/focus wallpaper.jpg"), "file:///home/me/focus%20wallpaper.jpg");
    assert_eq!(path_to_file_uri("/tmp/a.jpg"), "file:///tmp/a.jpg");
    assert_eq!(path_to_file_uri("file:///tmp/a b.jpg"), "file:///tmp/a%20b.jpg");
}

#[test]
fn file_uri_is_idempotent() {
    let once = path_to_file_uri("/x y/z w.png");
    assert_eq!(path_to_file_uri(&once), once);
}

#[test]
fn restore_keeps_saved_uris() {
    assert_eq!(wallpaper_restore_uri("file:///a b.jpg"), "file:///a b.jpg");
    assert_eq!(wallpaper_restore_uri("/a b.jpg"), "file:///a%20b.jpg");
}

#[test]
fn gsettings_reply_is_unquoted() {
    assert_eq!(parse_gsettings_uri("'file:///usr/share/bg.png'\n").unwrap(), "file:///usr/share/bg.png");
    assert_eq!(parse_gsettings_uri("  ''  ").is_none(), true);
    assert_eq!(parse_gsettings_uri("").is_none(), true);
    assert_eq!(parse_gsettings_uri("'' x ''").unwrap(), "x");
}

#[test]
fn strip_char_removes_both_ends() {
    assert_eq!(strip_char("''a'b''", '\''), "a'b");
    assert_eq!(strip_char("''''", '\''), "");
}

#[test]
fn pkill_outcomes() {
    assert!(pkill_outcome_ok(true, Some(0)));
    assert!(pkill_outcome_ok(false, Some(1)));
    assert!(!pkill_outcome_ok(false, Some(2)));
    assert!(!pkill_outcome_ok(false, None));
}
