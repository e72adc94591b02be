use null_launcher::client_json::{Argument, ArgumentValue, Rule, OS};
use null_launcher::runtime::{java_bin_path, join_path, parse_java_major_version, resolve_argument, substitute};

fn values() -> Vec<(String, String)> {
    vec![
        ("auth_player_name".to_string(), "Steve".to_string()),
        ("version_name".to_string(), "1.20.1".to_string()),
    ]
}

#[test]
fn substitute_replaces_every_placeholder() {
    assert_eq!(
        substitute("--username ${auth_player_name} ${auth_player_name}", &values()),
        "--username Steve Steve"
    );
    assert_eq!(substitute("${version_name}-${unknown}", &values()), "1.20.1-${unknown}");
}

#[test]
fn substitute_without_placeholders_is_identity() {
    assert_eq!(substitute("plain text", &values()), "plain text");
    assert_eq!(substitute("${auth_player_name}", &vec![]), "${auth_player_name}");
}

#[test]
fn simple_argument() {
    let a = Argument::Simple("--version=${version_name}".to_string());
    assert_eq!(resolve_argument(&a, &vec![], &values(), "linux", "x86_64"), vec!["--version=1.20.1"]);
}

#[test]
fn conditional_argument() {
    let rules = vec![Rule {
        action: Some("allow".to_string()),
        features: None,
        os: Some(OS { name: Some("osx".to_string()), version: None, arch: None }),
    }];
    let a = Argument::Conditional { rules: rules.clone(), value: ArgumentValue::Single("-XstartOnFirstThread".to_string()) };
    assert_eq!(resolve_argument(&a, &vec![], &values(), "osx", "aarch64"), vec!["-XstartOnFirstThread"]);
    assert!(resolve_argument(&a, &vec![], &values(), "linux", "x86_64").is_empty());
    let m = Argument::Conditional {
        rules,
        value: ArgumentValue::Multiple(vec!["--a".to_string(), "${auth_player_name}".to_string()]),
    };
    assert_eq!(resolve_argument(&m, &vec![], &values(), "osx", "x86_64"), vec!["--a", "Steve"]);
}

#[test]
fn java_banners() {
    assert_eq!(parse_java_major_version("openjdk version \"17.0.2\" 2022-01-18\nOpenJDK Runtime"), Some(17));
    assert_eq!(parse_java_major_version("java version \"1.8.0_292\"\nJava(TM) SE"), Some(8));
    assert_eq!(parse_java_major_version("openjdk version \"21\" 2023-09-19"), Some(21));
    assert_eq!(parse_java_major_version("no version here"), None);
    assert_eq!(parse_java_major_version("version \"beta\""), None);
    assert_eq!(parse_java_major_version("version \"99999999999\""), None);
    assert_eq!(parse_java_major_version("version \"4294967295\""), Some(4294967295));
    assert_eq!(parse_java_major_version("version \"1.\""), None);
}

#[test]
fn paths_are_joined() {
    assert_eq!(join_path("/home/a/.minecraft", "libraries", false), "/home/a/.minecraft/libraries");
    assert_eq!(join_path("/home/a/.minecraft/", "libraries", false), "/home/a/.minecraft/libraries");
    assert_eq!(join_path("/home/a", "/abs", false), "/abs");
    assert_eq!(join_path("", "rel", false), "rel");
}

#[test]
fn bundled_java_location() {
    assert_eq!(java_bin_path("/mc", "java-runtime-gamma", false), "/mc/runtime/java-runtime-gamma/bin/java");
    assert_eq!(java_bin_path("/mc", "jre-legacy", true), "/mc\\runtime\\jre-legacy\\bin\\javaw.exe");
    assert_eq!(
        java_bin_path("C:\\Users\\a\\.minecraft", "jre-legacy", true),
        "C:\\Users\\a\\.minecraft\\runtime\\jre-legacy\\bin\\javaw.exe"
    );
}

#[test]
fn windows_path_joins() {
    assert_eq!(join_path("C:\\Users\\a\\.minecraft", "libraries", true), "C:\\Users\\a\\.minecraft\\libraries");
    assert_eq!(join_path("C:\\mc\\", "x", true), "C:\\mc\\x");
    assert_eq!(join_path("C:\\mc/", "x", true), "C:\\mc/x");
    assert_eq!(join_path("C:", "x", true), "C:x");
    assert_eq!(join_path("", "x", true), "x");
    assert_eq!(join_path("C:\\mc", "D:\\y", true), "D:\\y");
    assert_eq!(join_path("C:\\mc", "\\y", true), "C:\\y");
    assert_eq!(join_path("C:\\mc", "/y", true), "C:/y");
    assert_eq!(join_path("\\\\server\\share", "\\\\other\\s", true), "\\\\other\\s");
    assert_eq!(join_path("libraries", "org/x/y.jar", true), "libraries\\org/x/y.jar");
    assert_eq!(join_path("/home", "\\y", false), "/home/\\y");
}
