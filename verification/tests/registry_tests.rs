use osu_directer::registry::{
    app_paths_key, first_lookup_root, icon_path, icons_visibility, install_info_key, lookup_after,
    open_command, registration_writes, unregistration_removals, LookupStep, RegistryData,
    RegistryRemoval, RegistryRoot, RegistryWrite, DPROG_PATH, PROGID_PATH,
};
use std::collections::{BTreeMap, BTreeSet};

const EXE: &str = r"C:\Tools\osu-directer.exe";

fn text(key: &str, name: &str, value: &str) -> RegistryWrite {
    RegistryWrite { key: key.to_string(), name: name.to_string(), data: RegistryData::Text(value.to_string()) }
}

fn number(key: &str, name: &str, value: u32) -> RegistryWrite {
    RegistryWrite { key: key.to_string(), name: name.to_string(), data: RegistryData::Number(value) }
}

#[test]
fn composed_paths() {
    assert_eq!(DPROG_PATH, r"SOFTWARE\Clients\StartMenuInternet\osu-directer.exe");
    assert_eq!(install_info_key(), r"SOFTWARE\Clients\StartMenuInternet\osu-directer.exe\InstallInfo");
    assert_eq!(PROGID_PATH, r"SOFTWARE\Classes\osu-directer");
}

#[test]
fn commands() {
    assert_eq!(icon_path(EXE), r#""C:\Tools\osu-directer.exe",0"#);
    assert_eq!(open_command(EXE, None), r#""C:\Tools\osu-directer.exe" "%1""#);
    assert_eq!(open_command(EXE, Some("--debug")), r#""C:\Tools\osu-directer.exe" --debug "%1""#);
}

#[test]
fn full_registration() {
    let d = r"SOFTWARE\Clients\StartMenuInternet\osu-directer.exe";
    let p = r"SOFTWARE\Classes\osu-directer";
    let icon = r#""C:\Tools\osu-directer.exe",0"#;
    let cmd = r#""C:\Tools\osu-directer.exe" --verbose "%1""#;
    let caps = format!(r"{}\Capabilities", d);
    let install = format!(r"{}\InstallInfo", d);
    let appreg = r"SOFTWARE\Microsoft\Windows\CurrentVersion\App Paths\osu-directer.exe";
    let expected = vec![
        text(p, "", "osu!directer"),
        text(&format!(r"{}\DefaultIcon", p), "", icon),
        text(&format!(r"{}\shell\open\command", p), "", cmd),
        text(d, "", "osu!directer"),
        text(d, "LocalizedString", "osu!directer"),
        text(&caps, "ApplicationName", "osu!directer"),
        text(&caps, "ApplicationIcon", icon),
        text(&caps, "ApplicationDescription", "fake osu direct"),
        text(&format!(r"{}\Startmenu", caps), "StartMenuInternet", "osu-directer.exe"),
        text(&format!(r"{}\URLAssociations", caps), "http", "osu-directer"),
        text(&format!(r"{}\URLAssociations", caps), "https", "osu-directer"),
        text(&format!(r"{}\DefaultIcon", d), "", icon),
        text(&install, "ReinstallCommand", r#""C:\Tools\osu-directer.exe" register"#),
        text(&install, "HideIconsCommand", r#""C:\Tools\osu-directer.exe" hide-icons"#),
        text(&install, "ShowIconsCommand", r#""C:\Tools\osu-directer.exe" show-icons"#),
        number(&install, "IconsVisible", 1),
        text(&format!(r"{}\shell\open\command", d), "", cmd),
        text(r"SOFTWARE\RegisteredApplications", "osu!directer", &caps),
        text(appreg, "", EXE),
        number(appreg, "UseUrl", 1),
    ];
    assert_eq!(registration_writes(EXE, "osu-directer.exe", Some("--verbose"), false), expected);
}

#[test]
fn icons_visible_is_kept_when_set() {
    let with = registration_writes(EXE, "osu-directer.exe", None, false);
    let without = registration_writes(EXE, "osu-directer.exe", None, true);
    assert_eq!(with.len(), 20);
    assert_eq!(without.len(), 19);
    assert!(without.iter().all(|w| w.name != "IconsVisible"));
}

#[test]
fn unregistration() {
    let removals = unregistration_removals("osu-directer.exe");
    assert_eq!(
        removals,
        vec![
            RegistryRemoval::Tree(r"SOFTWARE\Clients\StartMenuInternet\osu-directer.exe".to_string()),
            RegistryRemoval::Tree(r"SOFTWARE\Classes\osu-directer".to_string()),
            RegistryRemoval::Value {
                key: r"SOFTWARE\RegisteredApplications".to_string(),
                name: "osu!directer".to_string(),
            },
            RegistryRemoval::Tree(r"SOFTWARE\Microsoft\Windows\CurrentVersion\App Paths\osu-directer.exe".to_string()),
        ]
    );
}

#[test]
fn unregistration_covers_registration() {
    let writes = registration_writes(EXE, "osu-directer.exe", None, false);
    let removals = unregistration_removals("osu-directer.exe");
    for w in writes {
        let covered = removals.iter().any(|r| match r {
            RegistryRemoval::Tree(root) => w.key == *root || w.key.starts_with(&format!(r"{}\", root)),
            RegistryRemoval::Value { key, name } => w.key == *key && w.name == *name,
        });
        assert!(covered, "{} {}", w.key, w.name);
    }
}

#[test]
fn icons() {
    let install = r"SOFTWARE\Clients\StartMenuInternet\osu-directer.exe\InstallInfo";
    let show = icons_visibility(true);
    assert_eq!(show.write, number(install, "IconsVisible", 1));
    assert!(show.create_key);
    let hide = icons_visibility(false);
    assert_eq!(hide.write, number(install, "IconsVisible", 0));
    assert!(!hide.create_key);
}

#[test]
fn icons_use_the_registered_install_key() {
    let writes = registration_writes(EXE, "osu-directer.exe", None, false);
    let registered = writes.iter().find(|w| w.name == "IconsVisible").unwrap();
    assert_eq!(icons_visibility(true).write.key, registered.key);
}

type Registry = (BTreeSet<String>, BTreeMap<(String, String), RegistryData>);

fn register(reg: &mut Registry) {
    let key = (install_info_key(), "IconsVisible".to_string());
    let set = matches!(reg.1.get(&key), Some(RegistryData::Number(_)));
    for w in registration_writes(EXE, "osu-directer.exe", Some("--debug"), set) {
        reg.0.insert(w.key.clone());
        reg.1.insert((w.key, w.name), w.data);
    }
}

#[test]
fn registering_again_changes_nothing() {
    let mut reg: Registry = (BTreeSet::new(), BTreeMap::new());
    register(&mut reg);
    let once = reg.clone();
    register(&mut reg);
    assert_eq!(reg, once);
}

#[test]
fn registering_keeps_a_hidden_icons_setting() {
    let mut reg: Registry = (BTreeSet::new(), BTreeMap::new());
    reg.1.insert((install_info_key(), "IconsVisible".to_string()), RegistryData::Number(0));
    register(&mut reg);
    assert_eq!(reg.1.get(&(install_info_key(), "IconsVisible".to_string())), Some(&RegistryData::Number(0)));
}

#[test]
fn app_paths() {
    assert_eq!(app_paths_key("firefox.exe"), r"SOFTWARE\Microsoft\Windows\CurrentVersion\App Paths\firefox.exe");
    assert_eq!(first_lookup_root(), RegistryRoot::CurrentUser);
    assert_eq!(lookup_after(RegistryRoot::CurrentUser, true), LookupStep::Found);
    assert_eq!(lookup_after(RegistryRoot::CurrentUser, false), LookupStep::Look(RegistryRoot::LocalMachine));
    assert_eq!(lookup_after(RegistryRoot::LocalMachine, true), LookupStep::Found);
    assert_eq!(lookup_after(RegistryRoot::LocalMachine, false), LookupStep::NotFound);
}
