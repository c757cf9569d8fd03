use osu_directer::cli::{log_level, registration_flag, resolve_mode, ExecutionMode, LogLevel, ModeError};

#[test]
fn links_without_a_mode_are_opened() {
    assert_eq!(resolve_mode(None, true), Ok(ExecutionMode::Open));
}

#[test]
fn nothing_given_registers() {
    assert_eq!(resolve_mode(None, false), Ok(ExecutionMode::Register));
}

#[test]
fn asked_mode_is_kept() {
    for m in [
        ExecutionMode::Open,
        ExecutionMode::Register,
        ExecutionMode::Unregister,
        ExecutionMode::ShowIcons,
        ExecutionMode::HideIcons,
    ] {
        assert_eq!(resolve_mode(Some(m), false), Ok(m));
    }
}

#[test]
fn links_with_another_mode_are_refused() {
    for m in [ExecutionMode::Register, ExecutionMode::Unregister, ExecutionMode::ShowIcons, ExecutionMode::HideIcons] {
        assert_eq!(resolve_mode(Some(m), true), Err(ModeError::UrlsNotAccepted(m)));
    }
    assert_eq!(resolve_mode(Some(ExecutionMode::Open), true), Ok(ExecutionMode::Open));
}

#[test]
fn log_levels() {
    assert_eq!(log_level(true, true), LogLevel::Trace);
    assert_eq!(log_level(true, false), LogLevel::Trace);
    assert_eq!(log_level(false, true), LogLevel::Debug);
    assert_eq!(log_level(false, false), LogLevel::Info);
}

#[test]
fn registration_flags() {
    assert_eq!(registration_flag(true, true), Some("--debug"));
    assert_eq!(registration_flag(false, true), Some("--verbose"));
    assert_eq!(registration_flag(false, false), None);
}
