use null_launcher::client_json::{Rule, OS};
use null_launcher::rules::{is_library_allowed, rule_os_name};

fn rule(action: Option<&str>, os: Option<(&str, Option<&str>)>, features: Option<Vec<(&str, bool)>>) -> Rule {
    Rule {
        action: action.map(|a| a.to_string()),
        features: features.map(|fs| fs.into_iter().map(|(k, v)| (k.to_string(), v)).collect()),
        os: os.map(|(n, a)| OS { name: Some(n.to_string()), version: None, arch: a.map(|x| x.to_string()) }),
    }
}

#[test]
fn no_rules_allow() {
    assert!(is_library_allowed(&None, &vec![], "linux", "x86_64"));
}

#[test]
fn empty_rules_disallow() {
    assert!(!is_library_allowed(&Some(vec![]), &vec![], "linux", "x86_64"));
}

#[test]
fn allow_then_disallow_on_osx() {
    let rules = Some(vec![rule(Some("allow"), None, None), rule(Some("disallow"), Some(("osx", None)), None)]);
    assert!(is_library_allowed(&rules, &vec![], "linux", "x86_64"));
    assert!(!is_library_allowed(&rules, &vec![], "osx", "aarch64"));
}

#[test]
fn allow_only_on_windows() {
    let rules = Some(vec![rule(Some("allow"), Some(("windows", None)), None)]);
    assert!(is_library_allowed(&rules, &vec![], "windows", "x86_64"));
    assert!(!is_library_allowed(&rules, &vec![], "linux", "x86_64"));
}

#[test]
fn arch_is_checked_with_a_system_name() {
    let rules = Some(vec![rule(Some("allow"), Some(("linux", Some("x86"))), None)]);
    assert!(is_library_allowed(&rules, &vec![], "linux", "x86"));
    assert!(!is_library_allowed(&rules, &vec![], "linux", "x86_64"));
}

#[test]
fn arch_alone_is_not_checked() {
    let r = Rule {
        action: Some("allow".to_string()),
        features: None,
        os: Some(OS { name: None, version: None, arch: Some("x86".to_string()) }),
    };
    assert!(is_library_allowed(&Some(vec![r]), &vec![], "linux", "x86_64"));
}

#[test]
fn features_must_match() {
    let rules = Some(vec![rule(Some("allow"), None, Some(vec![("is_demo_user", true)]))]);
    assert!(!is_library_allowed(&rules, &vec![], "linux", "x86_64"));
    let features = vec![("is_demo_user".to_string(), true)];
    assert!(is_library_allowed(&rules, &features, "linux", "x86_64"));
    let rules_off = Some(vec![rule(Some("allow"), None, Some(vec![("has_custom_resolution", false)]))]);
    assert!(is_library_allowed(&rules_off, &vec![], "linux", "x86_64"));
}

#[test]
fn rule_without_action_changes_nothing() {
    let rules = Some(vec![rule(Some("allow"), None, None), rule(None, None, None)]);
    assert!(is_library_allowed(&rules, &vec![], "linux", "x86_64"));
}

#[test]
fn unknown_action_disallows() {
    let rules = Some(vec![rule(Some("allow"), None, None), rule(Some("deny"), None, None)]);
    assert!(!is_library_allowed(&rules, &vec![], "linux", "x86_64"));
}

#[test]
fn last_deciding_rule_wins() {
    let rules = Some(vec![
        rule(Some("disallow"), None, None),
        rule(Some("allow"), Some(("linux", None)), None),
        rule(Some("disallow"), Some(("windows", None)), None),
    ]);
    assert!(is_library_allowed(&rules, &vec![], "linux", "x86_64"));
    assert!(!is_library_allowed(&rules, &vec![], "osx", "x86_64"));
}

#[test]
fn os_names_for_rules() {
    assert_eq!(rule_os_name("macos"), "osx");
    assert_eq!(rule_os_name("linux"), "linux");
    assert_eq!(rule_os_name("windows"), "windows");
}
