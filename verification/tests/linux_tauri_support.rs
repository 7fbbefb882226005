use piclr::linux_tauri_support::{
    GTK3_LIB, WEBKIT_LIBS, linux_tauri_prereq_error, validate_linux_tauri_prerequisites,
};

#[test]
fn validates_when_display_and_libs_are_present() {
    let cache = format!("{} {}", WEBKIT_LIBS[0], GTK3_LIB);
    let result = validate_linux_tauri_prerequisites(Some(":0"), None, Some(&cache));
    assert!(result.is_ok());
}

#[test]
fn reports_missing_display_session() {
    let cache = format!("{} {}", WEBKIT_LIBS[0], GTK3_LIB);
    let result = validate_linux_tauri_prerequisites(None, None, Some(&cache));
    assert_eq!(result.unwrap_err(), vec!["display-session"]);
}

#[test]
fn reports_missing_linux_shared_libs() {
    let result = validate_linux_tauri_prerequisites(Some(":0"), None, Some("noise"));
    assert_eq!(result.unwrap_err(), vec!["webkit2gtk", "gtk3"]);
}

#[test]
fn error_message_contains_distro_remediation() {
    let message = linux_tauri_prereq_error(&["display-session", "webkit2gtk", "gtk3"]);
    assert!(message.contains("Debian-family"));
    assert!(message.contains("Fedora-family"));
    assert!(message.contains("Arch-family"));
}
