use seeky::execpolicy::{ArgPattern, Policy, Rule, Verdict, WildcardRule};

fn cmd(parts: &[&str]) -> Vec<String> {
    parts.iter().map(|s| s.to_string()).collect()
}

fn safe_ls_policy() -> Policy {
    Policy {
        rules: vec![Rule {
            program: "ls".to_string(),
            args: ArgPattern::AnyArgs,
            verdict: Verdict::Safe,
        }],
        wildcard_rules: vec![],
        known_good: vec![],
        known_bad: vec![],
    }
}

#[test]
fn verify_everything_in_bad_list_is_rejected() {
    let policy = seeky::execpolicy::default_policy().expect("failed to load default policy");
    let violations = policy.check_each_bad_list_individually();
    assert!(violations.is_empty());
}

#[test]
fn default_policy_classifies_known_good_as_safe() {
    let policy = seeky::execpolicy::default_policy().expect("failed to load default policy");
    assert_eq!(policy.classify(&cmd(&["ls", "-la"])), Verdict::Safe);
    assert_eq!(policy.classify(&cmd(&["pwd"])), Verdict::Safe);
}

#[test]
fn rm_rf_root_never_safe() {
    let policy = seeky::execpolicy::default_policy().expect("failed to load default policy");
    let v = policy.classify(&cmd(&["rm", "-rf", "/"]));
    assert!(v == Verdict::Forbidden || v == Verdict::MatchButInconclusive);
    assert_eq!(v, Verdict::Forbidden);
}

#[test]
fn rm_rf_root_without_rule_is_inconclusive() {
    let policy = safe_ls_policy();
    assert_eq!(
        policy.classify(&cmd(&["rm", "-rf", "/"])),
        Verdict::MatchButInconclusive
    );
}

#[test]
fn unknown_command_is_inconclusive_not_safe() {
    let policy = seeky::execpolicy::default_policy().expect("failed to load default policy");
    assert_eq!(
        policy.classify(&cmd(&["some-unknown-tool", "--flag"])),
        Verdict::MatchButInconclusive
    );
    assert_eq!(policy.classify(&cmd(&[])), Verdict::MatchButInconclusive);
}

#[test]
fn first_matching_rule_wins() {
    let policy = Policy {
        rules: vec![
            Rule {
                program: "git".to_string(),
                args: ArgPattern::ExactArgs(cmd(&["status"])),
                verdict: Verdict::Safe,
            },
            Rule {
                program: "git".to_string(),
                args: ArgPattern::AnyArgs,
                verdict: Verdict::MatchButInconclusive,
            },
        ],
        wildcard_rules: vec![],
        known_good: vec![],
        known_bad: vec![],
    };
    assert_eq!(policy.classify(&cmd(&["git", "status"])), Verdict::Safe);
    assert_eq!(
        policy.classify(&cmd(&["git", "push"])),
        Verdict::MatchButInconclusive
    );
}

#[test]
fn program_rules_take_precedence_over_wildcards() {
    let policy = Policy {
        rules: vec![Rule {
            program: "ls".to_string(),
            args: ArgPattern::AnyArgs,
            verdict: Verdict::Safe,
        }],
        wildcard_rules: vec![WildcardRule {
            args: ArgPattern::AnyArgs,
            verdict: Verdict::Forbidden,
        }],
        known_good: vec![],
        known_bad: vec![],
    };
    assert_eq!(policy.classify(&cmd(&["ls"])), Verdict::Safe);
    assert_eq!(policy.classify(&cmd(&["anything"])), Verdict::Forbidden);
}

#[test]
fn arg_patterns_match_shapes() {
    let policy = Policy {
        rules: vec![
            Rule {
                program: "pwd".to_string(),
                args: ArgPattern::NoArgs,
                verdict: Verdict::Safe,
            },
            Rule {
                program: "rm".to_string(),
                args: ArgPattern::PrefixArgs(cmd(&["-rf"])),
                verdict: Verdict::Forbidden,
            },
        ],
        wildcard_rules: vec![],
        known_good: vec![],
        known_bad: vec![],
    };
    assert_eq!(policy.classify(&cmd(&["pwd"])), Verdict::Safe);
    assert_eq!(
        policy.classify(&cmd(&["pwd", "x"])),
        Verdict::MatchButInconclusive
    );
    assert_eq!(policy.classify(&cmd(&["rm", "-rf", "dir"])), Verdict::Forbidden);
    assert_eq!(
        policy.classify(&cmd(&["rm", "file"])),
        Verdict::MatchButInconclusive
    );
}

#[test]
fn self_check_reports_violating_indices() {
    let policy = Policy {
        rules: vec![Rule {
            program: "rm".to_string(),
            args: ArgPattern::AnyArgs,
            verdict: Verdict::Safe,
        }],
        wildcard_rules: vec![],
        known_good: vec![],
        known_bad: vec![cmd(&["rm", "-rf", "/"]), cmd(&["shutdown", "now"])],
    };
    let violations = policy.check_each_bad_list_individually();
    assert_eq!(violations, vec![0]);
}

#[test]
fn default_policy_carries_the_documented_examples() {
    let policy = seeky::execpolicy::default_policy().expect("failed to load default policy");
    assert_eq!(policy.known_bad.len(), 3);
    assert!(policy.known_bad.contains(&cmd(&["rm", "-rf", "/"])));
    assert!(policy.known_bad.contains(&cmd(&["sudo", "rm", "-rf", "/"])));
    assert!(policy.known_bad.contains(&cmd(&["shutdown", "-h", "now"])));
    assert_eq!(policy.known_good.len(), 2);
    assert!(policy.known_good.contains(&cmd(&["ls", "-la"])));
    assert!(policy.known_good.contains(&cmd(&["pwd"])));
}
