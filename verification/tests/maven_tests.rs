use null_launcher::client_json::{Artifact, Library, LibraryDownloads};
use null_launcher::maven::{coords_to_path, coords_to_url, resolve_library_artifact};

fn library(name: &str, url: Option<&str>, artifact: Option<Artifact>) -> Library {
    Library {
        name: name.to_string(),
        downloads: artifact.map(|a| LibraryDownloads { artifact: Some(a), classifiers: None }),
        url: url.map(|u| u.to_string()),
        rules: None,
        natives: None,
        extract: None,
    }
}

#[test]
fn coords_plain_jar() {
    assert_eq!(
        coords_to_path("net.fabricmc:fabric-loader:0.15.11").as_deref(),
        Some("net/fabricmc/fabric-loader/0.15.11/fabric-loader-0.15.11.jar")
    );
}

#[test]
fn coords_with_classifier_and_extension() {
    assert_eq!(
        coords_to_path("net.minecraftforge:forge:1.20.1-47.2.0:client@zip").as_deref(),
        Some("net/minecraftforge/forge/1.20.1-47.2.0/forge-1.20.1-47.2.0-client.zip")
    );
    assert_eq!(
        coords_to_path("org.lwjgl:lwjgl:3.3.1:natives-linux").as_deref(),
        Some("org/lwjgl/lwjgl/3.3.1/lwjgl-3.3.1-natives-linux.jar")
    );
}

#[test]
fn coords_extra_parts_are_ignored() {
    assert_eq!(
        coords_to_path("a.b:c:1:x:y").as_deref(),
        Some("a/b/c/1/c-1-x.jar")
    );
}

#[test]
fn coords_too_short() {
    assert_eq!(coords_to_path("net.fabricmc:fabric-loader"), None);
    assert_eq!(coords_to_path(""), None);
    assert_eq!(coords_to_path("a:b@zip"), None);
}

#[test]
fn coords_url_trims_trailing_slashes() {
    assert_eq!(
        coords_to_url("a.b:c:1", "https://maven.example.org///").as_deref(),
        Some("https://maven.example.org/a/b/c/1/c-1.jar")
    );
    assert_eq!(
        coords_to_url("a.b:c:1", "https://maven.example.org").as_deref(),
        Some("https://maven.example.org/a/b/c/1/c-1.jar")
    );
    assert_eq!(coords_to_url("a.b:c", "https://maven.example.org"), None);
}

#[test]
fn artifact_from_downloads_is_kept() {
    let a = Artifact {
        path: "x/y.jar".to_string(),
        sha1: Some("abc".to_string()),
        size: Some(12),
        url: "https://h/x/y.jar".to_string(),
    };
    let lib = library("g:a:1", None, Some(a.clone()));
    assert_eq!(resolve_library_artifact(&lib), Some(a));
}

#[test]
fn artifact_from_default_repository() {
    let lib = library("com.google.guava:guava:32.1.2-jre", None, None);
    let a = resolve_library_artifact(&lib).unwrap();
    assert_eq!(a.path, "com/google/guava/guava/32.1.2-jre/guava-32.1.2-jre.jar");
    assert_eq!(
        a.url,
        "https://libraries.minecraft.net/com/google/guava/guava/32.1.2-jre/guava-32.1.2-jre.jar"
    );
    assert_eq!(a.sha1, None);
    assert_eq!(a.size, None);
}

#[test]
fn artifact_from_library_repository() {
    let lib = library("net.fabricmc:intermediary:1.20.1", Some("https://maven.fabricmc.net/"), None);
    let a = resolve_library_artifact(&lib).unwrap();
    assert_eq!(
        a.url,
        "https://maven.fabricmc.net/net/fabricmc/intermediary/1.20.1/intermediary-1.20.1.jar"
    );
}

#[test]
fn artifact_for_malformed_coordinates() {
    let lib = library("broken", None, None);
    assert_eq!(resolve_library_artifact(&lib), None);
}
