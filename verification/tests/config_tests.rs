use osu_directer::config::serde_path::{deserialize, serialize, AUTO};
use osu_directer::config::Configuration;

#[test]
fn default_configuration_detects_both_paths() {
    let config = Configuration::default();
    assert_eq!(config.browser_path, None);
    assert_eq!(config.custom_osu_path, None);
}

#[test]
fn default_configuration_is_written_as_auto() {
    let config = Configuration::default();
    assert_eq!(serialize(&config.browser_path), "auto");
    assert_eq!(serialize(&config.custom_osu_path), "auto");
    assert_eq!(AUTO, "auto");
}

#[test]
fn auto_reads_as_detection() {
    assert_eq!(deserialize(Some("auto".to_string())), None);
}

#[test]
fn empty_reads_as_detection() {
    assert_eq!(deserialize(Some(String::new())), None);
}

#[test]
fn missing_reads_as_detection() {
    assert_eq!(deserialize(None), None);
}

#[test]
fn explicit_path_reads_as_itself() {
    let path = r"C:\Program Files\Mozilla Firefox\firefox.exe".to_string();
    assert_eq!(deserialize(Some(path.clone())), Some(path));
}

#[test]
fn auto_is_case_sensitive() {
    assert_eq!(deserialize(Some("Auto".to_string())), Some("Auto".to_string()));
}

#[test]
fn explicit_path_is_written_as_itself() {
    let path = Some(r"D:\Games\osu!\osu!.exe".to_string());
    assert_eq!(serialize(&path), r"D:\Games\osu!\osu!.exe");
}

#[test]
fn path_round_trip() {
    for path in [None, Some(r"C:\a\b.exe".to_string()), Some("x".to_string())] {
        assert_eq!(deserialize(Some(serialize(&path))), path);
    }
}

#[test]
fn path_spelled_auto_does_not_round_trip() {
    let path = Some("auto".to_string());
    assert_eq!(deserialize(Some(serialize(&path))), None);
}

#[test]
fn read_write_read_is_stable() {
    for stored in [None, Some("auto".to_string()), Some(String::new()), Some("p".to_string())] {
        let once = deserialize(stored.clone());
        let twice = deserialize(Some(serialize(&once)));
        assert_eq!(once, twice);
    }
}

use osu_directer::config::{config_step, ConfigRead, ConfigStep};

#[test]
fn missing_settings_file_is_written() {
    assert!(matches!(config_step(ConfigRead::Missing), ConfigStep::WriteDefault));
}

#[test]
fn unparsable_settings_file_is_left_alone() {
    assert!(matches!(config_step(ConfigRead::Unparsable), ConfigStep::UseDefault));
}

#[test]
fn parsed_settings_are_used() {
    let config = Configuration { browser_path: Some("b.exe".to_string()), custom_osu_path: None };
    match config_step(ConfigRead::Parsed(config)) {
        ConfigStep::Use(c) => {
            assert_eq!(c.browser_path, Some("b.exe".to_string()));
            assert_eq!(c.custom_osu_path, None);
        }
        other => panic!("unexpected {:?}", other),
    }
}
