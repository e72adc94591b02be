use null_launcher::client_json::{Artifact, Library, LibraryDownloads};
use null_launcher::loaders::{
    fill_missing_repositories, forge_builds, forge_installer_url, loader_profile_url, loader_versions_url,
    minor_patch_prefix, neoforge_installer_url, neoforge_versions, order_loader_versions, url_part, Loader,
    FABRIC_MAVEN_BASE, FABRIC_META_BASE, QUILT_META_BASE,
};

#[test]
fn loader_names() {
    assert_eq!(Loader::from_str("fabric"), Ok(Loader::Fabric));
    assert_eq!(Loader::from_str("Quilt"), Ok(Loader::Quilt));
    assert_eq!(Loader::from_str("FORGE"), Ok(Loader::Forge));
    assert_eq!(Loader::from_str("NeoForge"), Ok(Loader::NeoForge));
    assert_eq!(Loader::from_str("Rift"), Err("unknown loader 'rift'".to_string()));
    assert_eq!(Loader::from_str(""), Err("unknown loader ''".to_string()));
}

#[test]
fn loader_name_round_trip() {
    for l in [Loader::Fabric, Loader::Quilt, Loader::Forge, Loader::NeoForge] {
        assert_eq!(Loader::from_str(l.name()), Ok(l));
        assert_eq!(Loader::from_lowercase(l.name()), Ok(l));
    }
}

#[test]
fn url_parts() {
    assert_eq!(url_part("1.20.1"), "1.20.1");
    assert_eq!(url_part("23w13a or b"), "23w13a%20or%20b");
    assert!(!url_part("  a ").contains(' '));
}

#[test]
fn meta_urls() {
    assert_eq!(loader_versions_url(FABRIC_META_BASE, "1.20.1"), "https://meta.fabricmc.net/v2/versions/loader/1.20.1");
    assert_eq!(
        loader_profile_url(QUILT_META_BASE, "1.20.1", "0.26.0"),
        "https://meta.quiltmc.org/v3/versions/loader/1.20.1/0.26.0/profile/json"
    );
    assert_eq!(
        forge_installer_url("1.20.1", "47.2.0"),
        "https://maven.minecraftforge.net/net/minecraftforge/forge/1.20.1-47.2.0/forge-1.20.1-47.2.0-installer.jar"
    );
    assert_eq!(
        neoforge_installer_url("20.4.237"),
        "https://maven.neoforged.net/releases/net/neoforged/neoforge/20.4.237/neoforge-20.4.237-installer.jar"
    );
}

#[test]
fn neoforge_prefixes() {
    assert_eq!(minor_patch_prefix("1.20.1").as_deref(), Some("20.1."));
    assert_eq!(minor_patch_prefix("1.21").as_deref(), Some("21.0."));
    assert_eq!(minor_patch_prefix("1.20.1.2").as_deref(), Some("20.1.2."));
    assert_eq!(minor_patch_prefix("24w14a"), None);
    assert_eq!(minor_patch_prefix("2.0"), None);
}

const FORGE_XML: &str = "<metadata><versioning><versions>\
<version>1.20.1-46.0.1</version>\
<version>1.19.4-45.0.0</version>\
<version>1.20.1-47.2.0</version>\
<version>1.20.10-1.0</version>\
</versions></versioning></metadata>";

#[test]
fn forge_versions_newest_first() {
    assert_eq!(forge_builds(FORGE_XML, "1.20.1"), vec!["47.2.0", "46.0.1"]);
    assert_eq!(forge_builds(FORGE_XML, "1.18"), Vec::<String>::new());
    assert_eq!(forge_builds("", "1.20.1"), Vec::<String>::new());
}

#[test]
fn neoforge_versions_newest_first() {
    let xml = "<version>20.4.1</version><version>20.1.5</version><version>20.4.237</version><version>21.0.1";
    assert_eq!(neoforge_versions(xml, "20.4."), vec!["20.4.237", "20.4.1"]);
    assert_eq!(neoforge_versions(xml, "21.0."), vec!["21.0.1"]);
}

#[test]
fn stable_versions_first() {
    let entries = vec![
        ("0.16.0".to_string(), false),
        ("0.15.11".to_string(), true),
        ("0.15.12-beta".to_string(), false),
        ("0.15.10".to_string(), true),
    ];
    assert_eq!(order_loader_versions(&entries), vec!["0.15.11", "0.15.10", "0.16.0", "0.15.12-beta"]);
}

#[test]
fn missing_repositories_are_filled() {
    let bare = Library { name: "a:b:1".to_string(), downloads: None, url: None, rules: None, natives: None, extract: None };
    let with_url = Library { url: Some("https://elsewhere/".to_string()), ..bare.clone() };
    let with_downloads = Library {
        downloads: Some(LibraryDownloads {
            artifact: Some(Artifact { path: "p".to_string(), sha1: None, size: None, url: "u".to_string() }),
            classifiers: None,
        }),
        ..bare.clone()
    };
    let mut libs = vec![bare.clone(), with_url.clone(), with_downloads.clone()];
    fill_missing_repositories(&mut libs, FABRIC_MAVEN_BASE);
    assert_eq!(libs[0].url.as_deref(), Some("https://maven.fabricmc.net/"));
    assert_eq!(libs[0].name, "a:b:1");
    assert_eq!(libs[1], with_url);
    assert_eq!(libs[2], with_downloads);
}
