//! Rules that allow or disallow a library or an argument depending on the
//! operating system, the CPU architecture and the enabled features.

use vstd::prelude::*;
use crate::client_json::{keys_distinct, Rule};
use crate::text::{chars_of, str_eq};

verus! {

/// The value of the feature `name` in `features` (its first entry), or
/// `false` when it is not listed.
pub open spec fn feature_value(features: Seq<(String, bool)>, name: Seq<char>) -> bool
    decreases features.len(),
{
    if features.len() == 0 {
        false
    } else if features[0].0@ == name {
        features[0].1
    } else {
        feature_value(features.drop_first(), name)
    }
}

/// With distinct feature names, a feature has the value of its entry,
/// wherever it stands.
pub proof fn lemma_feature_value_distinct(features: Seq<(String, bool)>, i: int)
    requires
        keys_distinct(features),
        0 <= i < features.len(),
    ensures
        feature_value(features, features[i].0@) == features[i].1,
    decreases features.len(),
{
    if i > 0 {
        assert(features[0].0@ != features[i].0@);
        assert(features.drop_first()[i - 1] == features[i]);
        lemma_feature_value_distinct(features.drop_first(), i - 1);
    }
}

/// The rule's system condition holds on `os_name` / `arch`.  The
/// architecture is only looked at when the rule names a system.
pub open spec fn os_matches(rule: Rule, os_name: Seq<char>, arch: Seq<char>) -> bool {
    match rule.os {
        None => true,
        Some(os) => match os.name {
            None => true,
            Some(name) => name@ == os_name && match os.arch {
                None => true,
                Some(a) => a@ == arch,
            },
        },
    }
}

/// Every feature the rule names has, in `features`, the value the rule asks for.
pub open spec fn features_match(rule: Rule, features: Seq<(String, bool)>) -> bool {
    match rule.features {
        None => true,
        Some(fs) => forall|i: int|
            0 <= i < fs@.len() ==> feature_value(features, #[trigger] fs@[i].0@) == fs@[i].1,
    }
}

/// The rule applies on this system with these features.
pub open spec fn rule_applies(
    rule: Rule,
    features: Seq<(String, bool)>,
    os_name: Seq<char>,
    arch: Seq<char>,
) -> bool {
    os_matches(rule, os_name, arch) && features_match(rule, features)
}

/// The verdict of a list of rules: each rule that applies and has an action
/// sets it (`allow` allows, any other action disallows); with none, the
/// verdict is to disallow.
pub open spec fn rules_verdict(
    rules: Seq<Rule>,
    features: Seq<(String, bool)>,
    os_name: Seq<char>,
    arch: Seq<char>,
) -> bool
    decreases rules.len(),
{
    if rules.len() == 0 {
        false
    } else {
        let before = rules_verdict(rules.drop_last(), features, os_name, arch);
        let r = rules.last();
        if rule_applies(r, features, os_name, arch) {
            match r.action {
                Some(a) => a@ == "allow"@,
                None => before,
            }
        } else {
            before
        }
    }
}

/// A library or argument with no rules is allowed; one with rules gets their verdict.
pub open spec fn allowed_by(
    rules: Option<Vec<Rule>>,
    features: Seq<(String, bool)>,
    os_name: Seq<char>,
    arch: Seq<char>,
) -> bool {
    match rules {
        None => true,
        Some(rs) => rules_verdict(rs@, features, os_name, arch),
    }
}

/// The rule settles the outcome: it holds here and names an action.
pub open spec fn rule_decides(
    rule: Rule,
    features: Seq<(String, bool)>,
    os_name: Seq<char>,
    arch: Seq<char>,
) -> bool {
    rule_applies(rule, features, os_name, arch) && rule.action is Some
}

/// The value of the feature `name` in `features`.
pub fn feature_enabled(features: &Vec<(String, bool)>, name: &str) -> (res: bool)
    ensures
        res == feature_value(features@, name@),
{
    let n = features.len();
    assert(features@.skip(0) == features@);
    for i in 0..n
        invariant
            n == features@.len(),
            feature_value(features@, name@) == feature_value(features@.skip(i as int), name@),
    {
        let ghost t = features@.skip(i as int);
        assert(t[0] == features@[i as int]);
        assert(t.drop_first() == features@.skip(i + 1));
        if str_eq(features[i].0.as_str(), name) {
            return features[i].1;
        }
    }
    false
}

/// The rule's system condition holds on `os_name` / `arch`.
pub fn rule_os_matches(rule: &Rule, os_name: &str, arch: &str) -> (res: bool)
    ensures
        res == os_matches(*rule, os_name@, arch@),
{
    if let Some(os) = &rule.os {
        if let Some(name) = &os.name {
            if !str_eq(name.as_str(), os_name) {
                return false;
            }
            if let Some(a) = &os.arch {
                if !str_eq(a.as_str(), arch) {
                    return false;
                }
            }
        }
    }
    true
}

/// Every feature the rule names has the value the rule asks for.
pub fn rule_features_match(rule: &Rule, features: &Vec<(String, bool)>) -> (res: bool)
    ensures
        res == features_match(*rule, features@),
{
    if let Some(fs) = &rule.features {
        let n = fs.len();
        for i in 0..n
            invariant
                n == fs@.len(),
                rule.features == Some(*fs),
                forall|j: int|
                    0 <= j < i ==> feature_value(features@, #[trigger] fs@[j].0@) == fs@[j].1,
        {
            let actual = feature_enabled(features, fs[i].0.as_str());
            if actual != fs[i].1 {
                assert(feature_value(features@, fs@[i as int].0@) != fs@[i as int].1);
                assert(!(forall|j: int|
                    0 <= j < fs@.len() ==> feature_value(features@, #[trigger] fs@[j].0@)
                        == fs@[j].1));
                assert(rule.features is Some);
                assert(rule.features->0 == *fs);
                return false;
            }
        }
    }
    true
}

/// Whether a library (or a conditional argument) with these rules is used on
/// the system `os_name` / `arch` with these features.  `os_name` is the
/// system name rules use (`osx` for macOS, see [`rule_os_name`]).
pub fn is_library_allowed(
    rules: &Option<Vec<Rule>>,
    features: &Vec<(String, bool)>,
    os_name: &str,
    arch: &str,
) -> (res: bool)
    ensures
        res == allowed_by(*rules, features@, os_name@, arch@),
{
    match rules {
        None => true,
        Some(rs) => rules_list_allows(rs, features, os_name, arch),
    }
}

/// The verdict of a list of rules on the system `os_name` / `arch` with these features.
pub fn rules_list_allows(
    rules: &Vec<Rule>,
    features: &Vec<(String, bool)>,
    os_name: &str,
    arch: &str,
) -> (res: bool)
    ensures
        res == rules_verdict(rules@, features@, os_name@, arch@),
{
    let mut allowed = false;
    let n = rules.len();
    for i in 0..n
        invariant
            n == rules@.len(),
            allowed == rules_verdict(rules@.take(i as int), features@, os_name@, arch@),
    {
        let rule = &rules[i];
        assert(rules@.take(i + 1).drop_last() == rules@.take(i as int));
        assert(rules@.take(i + 1).last() == rules@[i as int]);
        if rule_os_matches(rule, os_name, arch) && rule_features_match(rule, features) {
            if let Some(action) = &rule.action {
                allowed = str_eq(action.as_str(), "allow");
            }
        }
    }
    assert(rules@.take(n as int) == rules@);
    allowed
}

/// The system name that rules use for the operating system `os`
/// (`std::env::consts::OS`): `osx` for `macos`, the name itself otherwise.
pub fn rule_os_name(os: &str) -> (res: String)
    ensures
        os@ == "macos"@ ==> res@ == "osx"@,
        os@ != "macos"@ ==> res@ == os@,
{
    if str_eq(os, "macos") {
        "osx".to_owned()
    } else {
        os.to_owned()
    }
}

/// A verdict of a rule list is the action of the last rule that decides it,
/// and with no deciding rule the list disallows.
#[verifier::spinoff_prover]
#[verifier::rlimit(40)]
pub proof fn lemma_last_deciding_rule_wins(
    rules: Seq<Rule>,
    features: Seq<(String, bool)>,
    os_name: Seq<char>,
    arch: Seq<char>,
)
    ensures
        (forall|i: int|
            0 <= i < rules.len() ==> !rule_decides(#[trigger] rules[i], features, os_name, arch))
            ==> !rules_verdict(rules, features, os_name, arch),
        forall|i: int|
            #![trigger rules[i]]
            0 <= i < rules.len() && rule_decides(rules[i], features, os_name, arch) && (forall|j: int|
                i < j < rules.len() ==> !rule_decides(#[trigger] rules[j], features, os_name, arch))
                ==> rules_verdict(rules, features, os_name, arch) == (rules[i].action->0@
                == "allow"@),
    decreases rules.len(),
{
    if rules.len() > 0 {
        let init = rules.drop_last();
        let n = rules.len() - 1;
        lemma_last_deciding_rule_wins(init, features, os_name, arch);
        assert forall|i: int| 0 <= i < init.len() implies init[i] == rules[i] by {}
        if forall|i: int|
            0 <= i < rules.len() ==> !rule_decides(#[trigger] rules[i], features, os_name, arch) {
            assert(!rule_decides(rules[n], features, os_name, arch));
            assert forall|i: int| 0 <= i < init.len() implies !rule_decides(
                #[trigger] init[i],
                features,
                os_name,
                arch,
            ) by {
                assert(init[i] == rules[i]);
            }
        }
        assert forall|i: int|
            #![trigger rules[i]]
            0 <= i < rules.len() && rule_decides(rules[i], features, os_name, arch) && (forall|j: int|
                i < j < rules.len() ==> !rule_decides(#[trigger] rules[j], features, os_name, arch))
                implies rules_verdict(rules, features, os_name, arch) == (rules[i].action->0@
            == "allow"@) by {
            if i < n {
                assert(!rule_decides(rules[n], features, os_name, arch));
                assert(init[i] == rules[i]);
                assert forall|j: int| i < j < init.len() implies !rule_decides(
                    #[trigger] init[j],
                    features,
                    os_name,
                    arch,
                ) by {
                    assert(init[j] == rules[j]);
                }
            }
        }
    }
}

} // verus!
