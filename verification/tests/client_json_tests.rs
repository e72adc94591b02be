use null_launcher::client_json::{
    detect_loader, merge_client_json, Argument, ArgumentValue, Arguments, ClientJson, JavaVersion, Library, Rule,
};

fn lib(name: &str) -> Library {
    Library { name: name.to_string(), downloads: None, url: None, rules: None, natives: None, extract: None }
}

fn empty_json() -> ClientJson {
    ClientJson {
        id: None,
        kind: None,
        inherits_from: None,
        arguments: None,
        downloads: None,
        libraries: vec![],
        main_class: None,
        asset_index: None,
        minecraft_arguments: None,
        java_version: None,
        logging: None,
    }
}

fn simple(s: &str) -> Argument {
    Argument::Simple(s.to_string())
}

#[test]
fn child_library_overrides_parent() {
    let mut parent = empty_json();
    parent.libraries = vec![lib("org.ow2.asm:asm:9.3"), lib("com.google.guava:guava:31.0"), lib("a:b")];
    let mut child = empty_json();
    child.libraries = vec![lib("org.ow2.asm:asm:9.6"), lib("net.fabricmc:fabric-loader:0.15.0")];
    let merged = merge_client_json(parent, child);
    let names: Vec<&str> = merged.libraries.iter().map(|l| l.name.as_str()).collect();
    assert_eq!(
        names,
        vec!["com.google.guava:guava:31.0", "a:b", "org.ow2.asm:asm:9.6", "net.fabricmc:fabric-loader:0.15.0"]
    );
}

#[test]
fn library_key_ignores_classifier() {
    let mut parent = empty_json();
    parent.libraries = vec![lib("org.lwjgl:lwjgl:3.3.1:natives-linux"), lib("org.lwjgl:lwjgl-glfw:3.3.1")];
    let mut child = empty_json();
    child.libraries = vec![lib("org.lwjgl:lwjgl:3.3.3")];
    let merged = merge_client_json(parent, child);
    let names: Vec<&str> = merged.libraries.iter().map(|l| l.name.as_str()).collect();
    assert_eq!(names, vec!["org.lwjgl:lwjgl-glfw:3.3.1", "org.lwjgl:lwjgl:3.3.3"]);
}

#[test]
fn fields_prefer_child() {
    let mut parent = empty_json();
    parent.id = Some("1.20.1".to_string());
    parent.kind = Some("release".to_string());
    parent.main_class = Some("net.minecraft.client.main.Main".to_string());
    parent.java_version = Some(JavaVersion { component: "java-runtime-gamma".to_string(), major_version: 17 });
    let mut child = empty_json();
    child.id = Some("fabric-loader-0.15.0-1.20.1".to_string());
    child.inherits_from = Some("1.20.1".to_string());
    child.main_class = Some("net.fabricmc.loader.impl.launch.knot.KnotClient".to_string());
    let merged = merge_client_json(parent, child);
    assert_eq!(merged.id.as_deref(), Some("fabric-loader-0.15.0-1.20.1"));
    assert_eq!(merged.kind.as_deref(), Some("release"));
    assert_eq!(merged.main_class.as_deref(), Some("net.fabricmc.loader.impl.launch.knot.KnotClient"));
    assert_eq!(merged.java_version.unwrap().major_version, 17);
    assert_eq!(merged.inherits_from, None);
    assert_eq!(merged.minecraft_arguments, None);
}

#[test]
fn arguments_are_concatenated_parent_first() {
    let mut parent = empty_json();
    parent.arguments = Some(Arguments { game: Some(vec![simple("--username")]), jvm: Some(vec![simple("-cp")]) });
    let mut child = empty_json();
    child.arguments = Some(Arguments { game: None, jvm: Some(vec![simple("-DFabricMcEmu=x")]) });
    let merged = merge_client_json(parent, child);
    let args = merged.arguments.unwrap();
    assert_eq!(args.jvm.unwrap(), vec![simple("-cp"), simple("-DFabricMcEmu=x")]);
    assert_eq!(args.game.unwrap(), vec![simple("--username")]);
}

#[test]
fn legacy_parent_arguments_are_converted() {
    let mut parent = empty_json();
    parent.minecraft_arguments = Some("--username ${auth_player_name}  --version ${version_name}".to_string());
    let mut child = empty_json();
    child.arguments = Some(Arguments { game: Some(vec![simple("--tweakClass"), simple("x")]), jvm: None });
    let merged = merge_client_json(parent, child);
    let args = merged.arguments.unwrap();
    assert_eq!(
        args.jvm.unwrap(),
        vec![simple("-Djava.library.path=${natives_directory}"), simple("-cp"), simple("${classpath}")]
    );
    assert_eq!(
        args.game.unwrap(),
        vec![
            simple("--username"),
            simple("${auth_player_name}"),
            simple("--version"),
            simple("${version_name}"),
            simple("--tweakClass"),
            simple("x")
        ]
    );
}

#[test]
fn only_child_arguments() {
    let parent = empty_json();
    let mut child = empty_json();
    let cond = Argument::Conditional { rules: vec![], value: ArgumentValue::Multiple(vec!["a".to_string()]) };
    child.arguments = Some(Arguments { game: Some(vec![cond.clone()]), jvm: None });
    let merged = merge_client_json(parent, child);
    assert_eq!(merged.arguments, Some(Arguments { game: Some(vec![cond]), jvm: None }));
}

#[test]
fn no_arguments_at_all() {
    let merged = merge_client_json(empty_json(), empty_json());
    assert_eq!(merged.arguments, None);
}

#[test]
fn loaders_are_detected_in_order() {
    let mut j = empty_json();
    assert_eq!(detect_loader(&j), None);
    j.libraries = vec![lib("optifine:OptiFine:1.20.1_HD_U_I6")];
    assert_eq!(detect_loader(&j), Some("optifine"));
    j.libraries.push(lib("net.fabricmc:fabric-loader:0.15.0"));
    assert_eq!(detect_loader(&j), Some("fabric"));
    j.libraries.push(lib("org.quiltmc:quilt-loader:0.26.0"));
    assert_eq!(detect_loader(&j), Some("fabric"));
    j.libraries.push(lib("net.minecraftforge:forge:1.20.1-47.2.0"));
    assert_eq!(detect_loader(&j), Some("forge"));
    j.libraries.push(lib("net.neoforged:neoforge:20.4.1"));
    assert_eq!(detect_loader(&j), Some("neoforge"));
}

#[test]
fn quilt_is_detected() {
    let mut j = empty_json();
    j.libraries = vec![lib("org.quiltmc:quilt-loader:0.26.0")];
    assert_eq!(detect_loader(&j), Some("quilt"));
}

#[test]
fn rules_survive_merge() {
    let mut child = empty_json();
    let r = Rule { action: Some("allow".to_string()), features: None, os: None };
    let mut l = lib("x:y:1");
    l.rules = Some(vec![r]);
    child.libraries = vec![l.clone()];
    let merged = merge_client_json(empty_json(), child);
    assert_eq!(merged.libraries, vec![l]);
}

#[test]
fn merging_the_same_child_twice_keeps_the_libraries() {
    let mut parent = empty_json();
    parent.libraries = vec![lib("org.ow2.asm:asm:9.3"), lib("com.google.guava:guava:31.0")];
    let mut child = empty_json();
    child.libraries = vec![lib("org.ow2.asm:asm:9.6"), lib("net.fabricmc:fabric-loader:0.15.0")];
    let once = merge_client_json(parent, child.clone());
    let twice = merge_client_json(once.clone(), child);
    assert_eq!(twice.libraries, once.libraries);
}
