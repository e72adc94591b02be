use null_launcher::client_json::{
    Artifact, AssetIndex, ClientDownloads, ClientJson, Download, Library, LibraryDownloads, LoggingFile,
};
use null_launcher::files::{
    allowed_artifacts, asset_download, asset_index_download, client_jar_download, excluded_from_extraction,
    install_artifacts, install_totals, library_download, log_config_download, native_artifact, AssetObject,
};

fn artifact(path: &str, size: u64) -> Artifact {
    Artifact { path: path.to_string(), sha1: Some("h".to_string()), size: Some(size), url: format!("https://x/{path}") }
}

fn native_lib() -> Library {
    Library {
        name: "org.lwjgl:lwjgl:3.3.1".to_string(),
        downloads: Some(LibraryDownloads {
            artifact: Some(artifact("lwjgl.jar", 10)),
            classifiers: Some(vec![
                ("natives-linux".to_string(), artifact("lwjgl-natives-linux.jar", 20)),
                ("natives-osx".to_string(), artifact("lwjgl-natives-osx.jar", 30)),
            ]),
        }),
        url: None,
        rules: None,
        natives: Some(vec![
            ("linux".to_string(), "natives-linux".to_string()),
            ("osx".to_string(), "natives-osx".to_string()),
        ]),
        extract: None,
    }
}

fn json(libs: Vec<Library>) -> ClientJson {
    ClientJson {
        id: None,
        kind: None,
        inherits_from: None,
        arguments: None,
        downloads: None,
        libraries: libs,
        main_class: None,
        asset_index: None,
        minecraft_arguments: None,
        java_version: None,
        logging: None,
    }
}

#[test]
fn natives_for_the_system() {
    let l = native_lib();
    assert_eq!(native_artifact(&l, "linux"), Some(artifact("lwjgl-natives-linux.jar", 20)));
    assert_eq!(native_artifact(&l, "windows"), None);
}

#[test]
fn install_list() {
    let plain = Library { name: "a:b:1".to_string(), downloads: None, url: None, rules: None, natives: None, extract: None };
    let j = json(vec![native_lib(), plain]);
    assert_eq!(
        install_artifacts(&j, &vec![], "osx", "aarch64"),
        vec![artifact("lwjgl.jar", 10), artifact("lwjgl-natives-osx.jar", 30)]
    );
    let allowed = allowed_artifacts(&j, &vec![], "osx", "aarch64");
    assert_eq!(allowed.len(), 2);
    assert_eq!(allowed[1].path, "a/b/1/b-1.jar");
}

#[test]
fn totals() {
    let arts = vec![artifact("x", 10), Artifact { size: None, ..artifact("y", 0) }];
    let objects = vec![
        ("a".to_string(), AssetObject { hash: "ab".to_string(), size: 5 }),
        ("b".to_string(), AssetObject { hash: "cd".to_string(), size: 7 }),
    ];
    assert_eq!(install_totals(100, &arts, &objects), Some((122, 5)));
    assert_eq!(install_totals(u64::MAX, &arts, &objects), None);
}

#[test]
fn download_locations() {
    let d = asset_download(&AssetObject { hash: "bdf48ef6b5d0d23bbb02e17d04865216179f510a".to_string(), size: 9 });
    assert_eq!(d.url, "https://resources.download.minecraft.net/bd/bdf48ef6b5d0d23bbb02e17d04865216179f510a");
    assert_eq!(d.file_path, "assets/objects/bd/bdf48ef6b5d0d23bbb02e17d04865216179f510a");
    assert_eq!(d.sha1.as_deref(), Some("bdf48ef6b5d0d23bbb02e17d04865216179f510a"));
    let i = asset_index_download(&AssetIndex { id: "17".to_string(), sha1: "s".to_string(), size: 1, url: "u".to_string(), total_size: 2 });
    assert_eq!(i.file_path, "assets/indexes/17.json");
    let c = client_jar_download(
        &ClientDownloads { client: Download { sha1: "s".to_string(), size: 3, url: "u".to_string() }, client_mappings: None },
        "1.20.1",
    );
    assert_eq!(c.file_path, "versions/1.20.1/1.20.1.jar");
    let l = log_config_download(&LoggingFile { id: "client-1.12.xml".to_string(), sha1: "s".to_string(), size: 1, url: "u".to_string() }, false);
    assert_eq!(l.file_path, "assets/log_configs/client-1.12.xml");
    let lib = library_download(&artifact("org/x/y.jar", 4), false);
    assert_eq!(lib.file_path, "libraries/org/x/y.jar");
    assert_eq!(lib.size, Some(4));
}

#[test]
fn extraction_exclusions() {
    let ex = Some(vec!["META-INF/".to_string()]);
    assert!(excluded_from_extraction("META-INF/MANIFEST.MF", &ex));
    assert!(!excluded_from_extraction("liblwjgl.so", &ex));
    assert!(!excluded_from_extraction("META-INF/x", &None));
}

#[test]
fn asset_hashes_split_at_their_second_byte() {
    let d = asset_download(&AssetObject { hash: "\u{e9}abc".to_string(), size: 1 });
    assert_eq!(d.url, "https://resources.download.minecraft.net/\u{e9}/\u{e9}abc");
    assert_eq!(d.file_path, "assets/objects/\u{e9}/\u{e9}abc");
    let d = asset_download(&AssetObject { hash: "ab".to_string(), size: 1 });
    assert_eq!(d.file_path, "assets/objects/ab/ab");
}
