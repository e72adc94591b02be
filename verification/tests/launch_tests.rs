use null_launcher::client_json::{
    Argument, ArgumentValue, Arguments, Artifact, AssetIndex, ClientJson, JavaVersion, Library, LibraryDownloads,
    Logging, LoggingClient, LoggingFile, Rule, OS,
};
use null_launcher::digest::offline_uuid;
use null_launcher::launch::{classpath, java_requirement, launch_arguments, launch_values, natives_dir, LaunchRequest};

fn request(windows: bool) -> LaunchRequest {
    LaunchRequest {
        version_id: "1.20.1".to_string(),
        base_id: "1.20.1".to_string(),
        username: "Steve".to_string(),
        minecraft_dir: "/mc".to_string(),
        os_name: "linux".to_string(),
        arch: "x86_64".to_string(),
        windows,
        launcher_version: "0.1.0".to_string(),
        features: vec![],
        min_memory_mb: Some(1024),
        max_memory_mb: Some(4096),
    }
}

fn lib_with_artifact(name: &str, path: &str, rules: Option<Vec<Rule>>) -> Library {
    Library {
        name: name.to_string(),
        downloads: Some(LibraryDownloads {
            artifact: Some(Artifact { path: path.to_string(), sha1: None, size: Some(1), url: "u".to_string() }),
            classifiers: None,
        }),
        url: None,
        rules,
        natives: None,
        extract: None,
    }
}

fn base_json() -> ClientJson {
    let mac_only = vec![Rule {
        action: Some("allow".to_string()),
        features: None,
        os: Some(OS { name: Some("osx".to_string()), version: None, arch: None }),
    }];
    ClientJson {
        id: Some("1.20.1".to_string()),
        kind: Some("release".to_string()),
        inherits_from: None,
        arguments: None,
        downloads: None,
        libraries: vec![
            lib_with_artifact("a:b:1", "a/b/1/b-1.jar", None),
            lib_with_artifact("mac:only:1", "mac/only.jar", Some(mac_only)),
            Library { name: "c.d:e:2".to_string(), downloads: None, url: None, rules: None, natives: None, extract: None },
        ],
        main_class: Some("net.minecraft.client.main.Main".to_string()),
        asset_index: Some(AssetIndex {
            id: "5".to_string(),
            sha1: "h".to_string(),
            size: 1,
            url: "u".to_string(),
            total_size: 1,
        }),
        minecraft_arguments: None,
        java_version: Some(JavaVersion { component: "java-runtime-gamma".to_string(), major_version: 17 }),
        logging: None,
    }
}

#[test]
fn class_path_of_a_launch() {
    let j = base_json();
    assert_eq!(
        classpath(&j, &request(false)),
        "/mc/libraries/a/b/1/b-1.jar:/mc/libraries/c/d/e/2/e-2.jar:/mc/versions/1.20.1/1.20.1.jar"
    );
    assert_eq!(
        classpath(&j, &request(true)),
        "/mc\\libraries\\a/b/1/b-1.jar;/mc\\libraries\\c/d/e/2/e-2.jar;/mc\\versions\\1.20.1\\1.20.1.jar"
    );
}

#[test]
fn placeholder_values() {
    let j = base_json();
    let v = launch_values(&j, &request(false));
    let get = |k: &str| v.iter().find(|(key, _)| key == k).map(|(_, val)| val.clone()).unwrap();
    assert_eq!(get("auth_player_name"), "Steve");
    assert_eq!(get("assets_index_name"), "5");
    assert_eq!(get("assets_root"), "/mc/assets");
    assert_eq!(get("auth_uuid"), offline_uuid("Steve"));
    assert_eq!(get("natives_directory"), "/mc/versions/1.20.1/1.20.1-natives");
    assert_eq!(get("version_type"), "release");
    assert_eq!(get("launcher_name"), "null-launcher");
    assert_eq!(v.len(), 14);
}

#[test]
fn modern_arguments() {
    let mut j = base_json();
    j.arguments = Some(Arguments {
        game: Some(vec![
            Argument::Simple("--username".to_string()),
            Argument::Simple("${auth_player_name}".to_string()),
            Argument::Conditional {
                rules: vec![Rule {
                    action: Some("allow".to_string()),
                    features: Some(vec![("is_demo_user".to_string(), true)]),
                    os: None,
                }],
                value: ArgumentValue::Single("--demo".to_string()),
            },
        ]),
        jvm: Some(vec![Argument::Simple("-cp".to_string()), Argument::Simple("${classpath}".to_string())]),
    });
    j.logging = Some(Logging {
        client: LoggingClient {
            argument: "-Dlog4j.configurationFile=${path}".to_string(),
            file: LoggingFile { id: "client-1.12.xml".to_string(), sha1: "h".to_string(), size: 1, url: "u".to_string() },
        },
    });
    let plan = launch_arguments(&j, &request(false)).unwrap();
    assert_eq!(plan.main_class, "net.minecraft.client.main.Main");
    assert_eq!(plan.game_args, vec!["--username", "Steve"]);
    assert_eq!(
        plan.jvm_args,
        vec![
            "-cp".to_string(),
            classpath(&j, &request(false)),
            "-Dlog4j.configurationFile=/mc/assets/log_configs/client-1.12.xml".to_string(),
            "-Xms1024M".to_string(),
            "-Xmx4096M".to_string(),
        ]
    );
}

#[test]
fn legacy_arguments() {
    let mut j = base_json();
    j.minecraft_arguments = Some("--username ${auth_player_name} --assetIndex ${assets_index_name}".to_string());
    let mut req = request(false);
    req.min_memory_mb = None;
    req.max_memory_mb = None;
    let plan = launch_arguments(&j, &req).unwrap();
    assert_eq!(plan.game_args, vec!["--username", "Steve", "--assetIndex", "5"]);
    assert_eq!(
        plan.jvm_args,
        vec![
            "-Djava.library.path=/mc/versions/1.20.1/1.20.1-natives".to_string(),
            "-cp".to_string(),
            classpath(&j, &req),
        ]
    );
}

#[test]
fn missing_main_class() {
    let mut j = base_json();
    j.main_class = None;
    assert_eq!(launch_arguments(&j, &request(false)).err(), Some("client json has no mainClass".to_string()));
}

#[test]
fn java_requirements() {
    let j = base_json();
    assert_eq!(java_requirement(&j), (17, "java-runtime-gamma".to_string()));
    let mut old = base_json();
    old.java_version = None;
    assert_eq!(java_requirement(&old), (8, "jre-legacy".to_string()));
    assert_eq!(natives_dir("/mc", "x", false), "/mc/versions/x/x-natives");
}
