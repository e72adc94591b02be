use null_launcher::catalog::{
    base_version_id, effective_username, find_version, finish_install, instance_summary, settings_path,
    try_start_install, version_json_matches, version_json_path, Version, VersionManifest,
};
use null_launcher::client_json::{ClientJson, Library};

fn version(id: &str) -> Version {
    Version {
        id: id.to_string(),
        url: format!("https://piston-meta.mojang.com/{id}.json"),
        sha1: "a9993e364706816aba3e25717850c26c9cd0d89d".to_string(),
        kind: "release".to_string(),
    }
}

#[test]
fn versions_are_found_by_id() {
    let m = VersionManifest { versions: vec![version("1.20.4"), version("1.20.1"), version("1.20.1")] };
    let v = find_version(&m, "1.20.1").unwrap();
    assert!(std::ptr::eq(v, &m.versions[1]));
    assert!(find_version(&m, "1.7.10").is_none());
}

#[test]
fn version_descriptions_are_checked() {
    let v = version("1.20.1");
    assert!(version_json_matches(&v, b"abc"));
    assert!(!version_json_matches(&v, b"{}"));
    assert_eq!(version_json_path("/mc", "1.20.1", false), "/mc/versions/1.20.1/1.20.1.json");
}

#[test]
fn install_lock() {
    let mut lock: Option<String> = None;
    assert_eq!(try_start_install(&mut lock, "1.20.1"), Ok(()));
    assert_eq!(lock.as_deref(), Some("1.20.1"));
    assert_eq!(
        try_start_install(&mut lock, "1.19.4"),
        Err("Already installing 1.20.1 - wait for it to finish before starting another install.".to_string())
    );
    assert_eq!(lock.as_deref(), Some("1.20.1"));
    finish_install(&mut lock);
    assert_eq!(lock, None);
    assert_eq!(try_start_install(&mut lock, "1.19.4"), Ok(()));
}

#[test]
fn usernames() {
    assert_eq!(effective_username(Some("Alex".to_string())), "Alex");
    assert_eq!(effective_username(Some("  \t ".to_string())), "Player");
    assert_eq!(effective_username(Some(" Alex ".to_string())), " Alex ");
    assert_eq!(effective_username(None), "Player");
}

fn json(kind: Option<&str>, libs: Vec<&str>) -> ClientJson {
    ClientJson {
        id: None,
        kind: kind.map(|k| k.to_string()),
        inherits_from: None,
        arguments: None,
        downloads: None,
        libraries: libs
            .into_iter()
            .map(|n| Library { name: n.to_string(), downloads: None, url: None, rules: None, natives: None, extract: None })
            .collect(),
        main_class: None,
        asset_index: None,
        minecraft_arguments: None,
        java_version: None,
        logging: None,
    }
}

#[test]
fn instance_summaries() {
    let i = instance_summary("fabric-1.20.1", &json(None, vec!["net.fabricmc:fabric-loader:0.15.0"]));
    assert_eq!(i.id, "fabric-1.20.1");
    assert_eq!(i.kind, "release");
    assert_eq!(i.loader.as_deref(), Some("fabric"));
    assert_eq!(i.installed_at, None);
    let s = instance_summary("24w14a", &json(Some("snapshot"), vec![]));
    assert_eq!(s.kind, "snapshot");
    assert_eq!(s.loader, None);
}

#[test]
fn small_paths() {
    assert_eq!(settings_path("/home/a/.minecraft", false), "/home/a/.minecraft/launcher_settings.json");
    assert_eq!(base_version_id(&Some("1.20.1".to_string()), "fabric-x"), "1.20.1");
    assert_eq!(base_version_id(&None, "1.20.1"), "1.20.1");
}
