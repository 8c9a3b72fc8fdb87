use flow::platform::linux;
use flow::platform::windows;
use flow::platform::linux::target_app::{foreground_executable, json_string_field};
use flow::target_app::strip_newlines;

#[test]
fn recognises_shells() {
    assert!(windows::target_app::is_terminal("powershell.exe", &[]));
    assert!(windows::target_app::is_terminal("windowsterminal.exe", &[]));
    assert!(!windows::target_app::is_terminal("notepad.exe", &[]));
    assert!(!windows::target_app::is_terminal("", &[]));
}

#[test]
fn target_app_recognises_shells() {
    assert!(linux::target_app::is_terminal("alacritty", &[]));
    assert!(!linux::target_app::is_terminal("firefox", &[]));
    assert!(!linux::target_app::is_terminal("", &[]));
}

#[test]
fn honours_extra_entries() {
    let extra = vec!["myshell.exe".to_string()];
    assert!(windows::target_app::is_terminal("myshell.exe", &extra));
    assert!(linux::target_app::is_terminal("myshell.exe", &extra));
}

#[test]
fn extra_entries_match_in_any_case() {
    let extra = vec!["MyShell.EXE".to_string(), "ÜBERTERM".to_string()];
    assert!(windows::target_app::is_terminal("myshell.exe", &extra));
    assert!(linux::target_app::is_terminal("überterm", &extra));
    assert!(!windows::target_app::is_terminal("MyShell.EXE", &extra));
}

#[test]
fn newlines_never_reach_a_prompt() {
    assert_eq!(strip_newlines("git status\nls -la", " "), "git status ls -la");
    assert_eq!(strip_newlines("one\n\ntwo", " "), "one two");
    assert_eq!(strip_newlines("trailing\n", " "), "trailing");
    assert_eq!(strip_newlines("no breaks here", " "), "no breaks here");
}

#[test]
fn does_not_double_space() {
    assert_eq!(strip_newlines("done \nnext", " "), "done next");
}

#[test]
fn breaks_of_both_kinds_become_the_replacement() {
    assert_eq!(strip_newlines("\r\na\r\nb\rc", "; "), "a; b; c");
}

#[test]
fn reads_class_out_of_the_hyprland_response() {
    let body = r#"{
    "address": "0x1",
    "class": "com.mitchellh.ghostty",
    "title": "a window",
    "initialClass": "com.mitchellh.ghostty"
}"#;
    assert_eq!(
        json_string_field(body, "class").as_deref(),
        Some("com.mitchellh.ghostty")
    );
}

#[test]
fn falls_back_when_class_is_absent() {
    let body = r#"{"initialClass": "firefox"}"#;
    assert_eq!(json_string_field(body, "class"), None);
    assert_eq!(json_string_field(body, "initialClass").as_deref(), Some("firefox"));
}

#[test]
fn no_focused_window_is_an_empty_object() {
    assert_eq!(json_string_field("{}", "class"), None);
}

#[test]
fn unescapes_quotes_in_the_value() {
    let body = r#"{"class": "weird \"quoted\" class"}"#;
    assert_eq!(
        json_string_field(body, "class").as_deref(),
        Some(r#"weird "quoted" class"#)
    );
}

#[test]
fn malformed_replies_give_no_value() {
    assert_eq!(json_string_field(r#"{"class" "x"}"#, "class"), None);
    assert_eq!(json_string_field(r#"{"class": 3}"#, "class"), None);
    assert_eq!(json_string_field(r#"{"class": "open"#, "class"), None);
    assert_eq!(json_string_field(r#"{"class": "end\"#, "class"), None);
}

#[test]
fn the_focused_class_is_lowercased() {
    assert_eq!(foreground_executable(None), "");
    assert_eq!(foreground_executable(Some("{}")), "");
    assert_eq!(foreground_executable(Some(r#"{"class": "Alacritty"}"#)), "alacritty");
    assert_eq!(foreground_executable(Some(r#"{"initialClass": "FOOT"}"#)), "foot");
}

#[test]
fn the_image_of_a_process_names_the_executable() {
    let f = flow::platform::windows::target_app::foreground_executable;
    assert_eq!(f(None), "");
    assert_eq!(f(Some("C:\\Windows\\System32\\WindowsPowerShell\\PowerShell.EXE")), "powershell.exe");
    assert_eq!(f(Some("notepad.exe")), "notepad.exe");
    assert_eq!(f(Some("C:\\")), "");
    assert_eq!(f(Some("C:\\\u{c9}DIT.exe")), "\u{e9}dit.exe");
}

#[test]
fn a_key_is_not_mistaken_for_a_value() {
    let body = r#"{"title": "class", "pid": "5", "class": "kitty"}"#;
    assert_eq!(json_string_field(body, "class").as_deref(), Some("kitty"));
    let body = r#"{"title": "say \"class\": \"x\"", "class" : "foot"}"#;
    assert_eq!(json_string_field(body, "class").as_deref(), Some("foot"));
}
