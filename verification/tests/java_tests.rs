use null_launcher::java::first_matching_java;
use null_launcher::java::{
    is_plain_file, java_unavailable_message, platform_key, runtime_file_download, runtime_manifest_url,
    runtime_totals, FileEntry, RawDownload, RuntimeIndex,
};

#[test]
fn platforms() {
    assert_eq!(platform_key("linux", "x86_64"), Some("linux"));
    assert_eq!(platform_key("linux", "x86"), Some("linux-i386"));
    assert_eq!(platform_key("macos", "aarch64"), Some("mac-os-arm64"));
    assert_eq!(platform_key("macos", "x86_64"), Some("mac-os"));
    assert_eq!(platform_key("windows", "aarch64"), Some("windows-arm64"));
    assert_eq!(platform_key("windows", "x86"), Some("windows-x86"));
    assert_eq!(platform_key("windows", "x86_64"), Some("windows-x64"));
    assert_eq!(platform_key("freebsd", "x86_64"), None);
}

fn index() -> RuntimeIndex {
    RuntimeIndex {
        platforms: vec![(
            "linux".to_string(),
            vec![
                ("java-runtime-gamma".to_string(), vec!["https://m/gamma.json".to_string(), "https://m/old.json".to_string()]),
                ("jre-legacy".to_string(), vec![]),
            ],
        )],
    }
}

#[test]
fn runtime_manifests() {
    assert_eq!(runtime_manifest_url(&index(), "linux", "java-runtime-gamma"), Ok("https://m/gamma.json".to_string()));
    assert_eq!(
        runtime_manifest_url(&index(), "linux", "jre-legacy"),
        Err("Mojang doesn't publish a jre-legacy build for linux".to_string())
    );
    assert_eq!(
        runtime_manifest_url(&index(), "mac-os", "jre-legacy"),
        Err("Mojang doesn't publish a jre-legacy build for mac-os".to_string())
    );
}

fn entry(kind: &str, size: Option<u64>) -> FileEntry {
    FileEntry {
        kind: kind.to_string(),
        executable: false,
        downloads: size.map(|s| RawDownload { sha1: "h".to_string(), size: s, url: "https://f".to_string() }),
    }
}

#[test]
fn runtime_files() {
    let files = vec![
        ("bin".to_string(), entry("directory", None)),
        ("bin/java".to_string(), entry("file", Some(100))),
        ("lib/x".to_string(), entry("file", Some(23))),
        ("lib/link".to_string(), entry("link", None)),
        ("lib/y".to_string(), entry("file", None)),
    ];
    assert_eq!(runtime_totals(&files), Some((123, 3)));
    assert!(is_plain_file(&files[1].1));
    assert!(!is_plain_file(&files[0].1));
    let d = runtime_file_download("bin/java", &files[1].1, "java-runtime-gamma", false).unwrap();
    assert_eq!(d.file_path, "runtime/java-runtime-gamma/bin/java");
    assert_eq!(d.size, Some(100));
    assert_eq!(
        runtime_file_download("lib/y", &files[4].1, "java-runtime-gamma", false).err(),
        Some("runtime file entry is missing its download info".to_string())
    );
    let huge = vec![("a".to_string(), entry("file", Some(u64::MAX))), ("b".to_string(), entry("file", Some(1)))];
    assert_eq!(runtime_totals(&huge), None);
}

#[test]
fn unavailable_java() {
    assert_eq!(
        java_unavailable_message(17, "offline"),
        "This version needs Java 17, and null-launcher couldn't fetch a matching runtime automatically (offline). \
         Install Java 17 yourself and make sure it's on PATH, or point JAVA_HOME at it."
    );
}

#[test]
fn first_java_of_the_required_version() {
    assert_eq!(first_matching_java(&vec![Some(8), None, Some(17), Some(17)], 17), Some(2));
    assert_eq!(first_matching_java(&vec![Some(21)], 21), Some(0));
    assert_eq!(first_matching_java(&vec![None, Some(8)], 17), None);
    assert_eq!(first_matching_java(&vec![], 8), None);
}
