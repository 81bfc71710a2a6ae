use focus_client_rust::config::{apps_from_config, default_focus_apps, sanitize_apps, select_apps_for_current_os, AppsConfig};

fn strings(list: &[&str]) -> Vec<String> {
    list.iter().map(|s| s.to_string()).collect()
}

#[test]
fn defaults_per_os() {
    assert_eq!(
        default_focus_apps("windows"),
        strings(&[
            r"C:\Windows\System32\notepad.exe",
            r"C:\Users\Faizy\AppData\Local\BraveSoftware\Brave-Browser\Application\brave.exe"
        ])
    );
    assert_eq!(default_focus_apps("macos"), strings(&["TextEdit", "Google Chrome"]));
    assert!(default_focus_apps("linux").is_empty());
    assert!(default_focus_apps("freebsd").is_empty());
}

#[test]
fn sanitize_trims_and_drops_blanks() {
    let cleaned = sanitize_apps(strings(&["  brave-browser ", "", "   ", "\tcode\n", "gedit"]));
    assert_eq!(cleaned, strings(&["brave-browser", "code", "gedit"]));
    assert_eq!(sanitize_apps(cleaned.clone()), cleaned);
}

fn sample() -> AppsConfig {
    AppsConfig {
        apps: vec![
            ("windows".to_string(), strings(&[r"C:\a.exe"])),
            ("linux".to_string(), strings(&[" brave-browser ", " "])),
            ("macos".to_string(), strings(&["  "])),
        ],
    }
}

#[test]
fn selects_the_list_of_the_os() {
    let c = sample();
    assert_eq!(select_apps_for_current_os(&c, "linux").unwrap(), strings(&[" brave-browser ", " "]));
    assert!(select_apps_for_current_os(&c, "freebsd").is_none());
}

#[test]
fn configured_apps_win_over_defaults() {
    let c = sample();
    assert_eq!(apps_from_config(&c, "linux"), (strings(&["brave-browser"]), false));
    assert_eq!(apps_from_config(&c, "windows"), (strings(&[r"C:\a.exe"]), false));
}

#[test]
fn blank_or_missing_lists_fall_back_to_defaults() {
    let c = sample();
    assert_eq!(apps_from_config(&c, "macos"), (strings(&["TextEdit", "Google Chrome"]), true));
    assert_eq!(apps_from_config(&c, "freebsd"), (Vec::new(), true));
}
