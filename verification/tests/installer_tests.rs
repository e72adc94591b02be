use null_launcher::client_json::{Artifact, ClientJson, Library, LibraryDownloads};
use null_launcher::installer::{
    installer_instance_id, installer_step_failed, lookup_value, main_class_from_manifest, set_data_value, processor_classpath, processor_jar, resolve_data_value,
    runs_on_client, substitute_arg, total_library_bytes, DataValue,
};

fn datamap() -> Vec<(String, String)> {
    vec![
        ("SIDE".to_string(), "client".to_string()),
        ("MINECRAFT_JAR".to_string(), "/mc/versions/1.20.1/1.20.1.jar".to_string()),
    ]
}

#[test]
fn processor_arguments() {
    assert_eq!(substitute_arg("{SIDE}", &datamap(), "/mc", false), "client");
    assert_eq!(substitute_arg("{MISSING}", &datamap(), "/mc", false), "{MISSING}");
    assert_eq!(
        substitute_arg("[net.minecraft:client:1.20.1:srg]", &datamap(), "/mc", false),
        "/mc/libraries/net/minecraft/client/1.20.1/client-1.20.1-srg.jar"
    );
    assert_eq!(substitute_arg("[bad]", &datamap(), "/mc", false), "[bad]");
    assert_eq!(substitute_arg("--task", &datamap(), "/mc", false), "--task");
    assert_eq!(substitute_arg("{", &datamap(), "/mc", false), "{");
}

#[test]
fn data_values() {
    match resolve_data_value("MAPPINGS", "[de.oceanlabs.mcp:mcp_config:1.20.1:mappings@txt]", "/mc", false) {
        DataValue::LibraryFile(p) => {
            assert_eq!(p, "/mc/libraries/de/oceanlabs/mcp/mcp_config/1.20.1/mcp_config-1.20.1-mappings.txt")
        }
        _ => panic!("expected a library file"),
    }
    match resolve_data_value("MOJMAPS", "[broken]", "/mc", false) {
        DataValue::BadCoordinate(m) => assert_eq!(m, "bad maven coordinate in data.MOJMAPS: broken"),
        _ => panic!("expected an error"),
    }
    match resolve_data_value("MCP_VERSION", "'20230612.114412'", "/mc", false) {
        DataValue::Literal(t) => assert_eq!(t, "20230612.114412"),
        _ => panic!("expected a literal"),
    }
    match resolve_data_value("BINPATCH", "/data/client.lzma", "/mc", false) {
        DataValue::Packed(n) => assert_eq!(n, "data/client.lzma"),
        _ => panic!("expected a packed file"),
    }
}

#[test]
fn processor_sides() {
    assert!(runs_on_client(&None));
    assert!(runs_on_client(&Some(vec!["server".to_string(), "client".to_string()])));
    assert!(!runs_on_client(&Some(vec!["server".to_string()])));
    assert!(!runs_on_client(&Some(vec![])));
}

#[test]
fn processor_class_path() {
    let cp = vec!["a.b:c:1".to_string(), "bad".to_string(), "d:e:2".to_string()];
    assert_eq!(processor_classpath(&cp, "/mc", ":", false), "/mc/libraries/a/b/c/1/c-1.jar:/mc/libraries/d/e/2/e-2.jar");
    assert_eq!(processor_classpath(&vec![], "/mc", ":", false), "");
}

#[test]
fn processor_jars() {
    assert_eq!(processor_jar("a.b:c:1", "/mc", false), Ok("/mc/libraries/a/b/c/1/c-1.jar".to_string()));
    assert_eq!(processor_jar("nope", "/mc", false), Err("bad processor jar coordinate: nope".to_string()));
}

#[test]
fn manifest_main_class() {
    let text = "Manifest-Version: 1.0\r\nMain-Class: net.minecraftforge.installertools.ConsoleTool\r\nX: y\r\n";
    assert_eq!(main_class_from_manifest(text).as_deref(), Some("net.minecraftforge.installertools.ConsoleTool"));
    assert_eq!(main_class_from_manifest("Manifest-Version: 1.0\n"), None);
    assert_eq!(main_class_from_manifest("Main-Class:a\nMain-Class: b"), Some("a".to_string()));
}

fn json(id: Option<&str>) -> ClientJson {
    ClientJson {
        id: id.map(|s| s.to_string()),
        kind: None,
        inherits_from: None,
        arguments: None,
        downloads: None,
        libraries: vec![],
        main_class: None,
        asset_index: None,
        minecraft_arguments: None,
        java_version: None,
        logging: None,
    }
}

#[test]
fn instance_ids() {
    assert_eq!(installer_instance_id(&json(Some("1.20.1-forge-47.2.0")), "x"), "1.20.1-forge-47.2.0");
    assert_eq!(installer_instance_id(&json(None), "forge-47"), "forge-47");
}

#[test]
fn library_bytes() {
    let with_size = |s: u64| Library {
        name: "a:b:1".to_string(),
        downloads: Some(LibraryDownloads {
            artifact: Some(Artifact { path: "p".to_string(), sha1: None, size: Some(s), url: "u".to_string() }),
            classifiers: None,
        }),
        url: None,
        rules: None,
        natives: None,
        extract: None,
    };
    let plain = Library { name: "c:d:2".to_string(), downloads: None, url: None, rules: None, natives: None, extract: None };
    assert_eq!(total_library_bytes(&vec![with_size(10), plain, with_size(5)]), Some(15));
    assert_eq!(total_library_bytes(&vec![]), Some(0));
    assert_eq!(total_library_bytes(&vec![with_size(u64::MAX), with_size(1)]), None);
}

#[test]
fn data_map_values_are_replaced() {
    let mut map = datamap();
    set_data_value(&mut map, "SIDE", "server".to_string());
    assert_eq!(lookup_value(&map, "SIDE"), Some("server".to_string()));
    assert_eq!(map.iter().filter(|(k, _)| k == "SIDE").count(), 1);
    assert_eq!(map.last(), Some(&("SIDE".to_string(), "server".to_string())));
    assert_eq!(lookup_value(&map, "MINECRAFT_JAR"), Some("/mc/versions/1.20.1/1.20.1.jar".to_string()));
    let before = map.len();
    set_data_value(&mut map, "ROOT", "/mc".to_string());
    assert_eq!(map.len(), before + 1);
    assert_eq!(lookup_value(&map, "ROOT"), Some("/mc".to_string()));
}

#[test]
fn installer_step_failure_message() {
    assert_eq!(
        installer_step_failed("1.20.1-forge-47.2.0", "net.minecraftforge.Tool", "exit status: 1"),
        "1.20.1-forge-47.2.0 installer step net.minecraftforge.Tool failed (exit exit status: 1)"
    );
}
