use bom_fixer::fix_rule::{parse_fix_rule, Args, FixMode};
use std::collections::HashSet;

fn as_set(exts: &Vec<String>) -> HashSet<String> {
    exts.iter().cloned().collect()
}

#[test]
fn fix_rule_test_set_mode() {
    let args = Args {
        path: None,
        add: false,
        remove: false,
        add_strict: false,
        add_bom: None,
        remove_bom: None,
    };

    let fix_rule = parse_fix_rule(&args).unwrap();

    assert_eq!(fix_rule.mode, FixMode::Remove);
}

#[test]
fn fix_rule_test_set_mode_as_add() {
    let args = Args {
        path: None,
        add: true,
        remove: false,
        add_strict: false,
        add_bom: None,
        remove_bom: None,
    };
    let expected_remove = vec![
        "html", "css", "svg", // web development
        "js", "ts", // programming language
        "md", // document
        "json", "toml", "yaml", "csv", "xml", // data
        "ini", "conf", "cfg", // config
        "sh", "bat", "ps1", // other
    ]
    .iter()
    .map(|x| x.to_string())
    .collect::<HashSet<String>>();

    let fix_rule = parse_fix_rule(&args).unwrap();

    assert_eq!(fix_rule.mode, FixMode::Add);
    assert_eq!(as_set(&fix_rule.remove), expected_remove);
}

#[test]
fn fix_rule_test_set_mode_as_remove() {
    let args = Args {
        path: None,
        add: false,
        remove: true,
        add_strict: false,
        add_bom: None,
        remove_bom: None,
    };

    let fix_rule = parse_fix_rule(&args).unwrap();

    assert_eq!(fix_rule.mode, FixMode::Remove);
}

#[test]
fn fix_rule_test_set_mode_as_add_strict() {
    let args = Args {
        path: None,
        add: false,
        remove: false,
        add_strict: true,
        add_bom: None,
        remove_bom: None,
    };

    let fix_rule = parse_fix_rule(&args).unwrap();

    assert_eq!(fix_rule.mode, FixMode::Add);
    assert_eq!(as_set(&fix_rule.remove), HashSet::new());
}

#[test]
fn fix_rule_test_set_mode_as_add_with_add_bom() {
    let args = Args {
        path: None,
        add: true,
        remove: false,
        add_strict: false,
        add_bom: Some(vec!["html".to_string()]),
        remove_bom: None,
    };

    let fix_rule_result = parse_fix_rule(&args);
    assert_eq!(fix_rule_result.is_err(), true);
    assert_eq!(
        fix_rule_result.err().unwrap().to_string(),
        "You can not set add_bom with add mode."
    );
}

#[test]
fn fix_rule_test_set_mode_as_remove_with_add_bom() {
    let args = Args {
        path: None,
        add: false,
        remove: true,
        add_strict: false,
        add_bom: Some(vec!["cs".to_string()]),
        remove_bom: None,
    };
    let expected_add = vec!["cs"]
        .iter()
        .map(|x| x.to_string())
        .collect::<HashSet<String>>();

    let fix_rule = parse_fix_rule(&args).unwrap();
    assert_eq!(fix_rule.mode, FixMode::Remove);
    assert_eq!(as_set(&fix_rule.add), expected_add);
}

#[test]
fn fix_rule_test_set_mode_as_add_strict_with_add_bom() {
    let args = Args {
        path: None,
        add: false,
        remove: false,
        add_strict: true,
        add_bom: Some(vec!["cs".to_string()]),
        remove_bom: None,
    };

    let fix_rule_result = parse_fix_rule(&args);
    assert!(fix_rule_result.is_err());
    assert_eq!(
        fix_rule_result.err().unwrap().to_string(),
        "You can not set add_bom with add-strict mode."
    );
}

#[test]
fn fix_rule_test_set_mode_as_add_with_remove_bom() {
    let args = Args {
        path: None,
        add: true,
        remove: false,
        add_strict: false,
        add_bom: None,
        remove_bom: Some(vec!["cs".to_string()]),
    };
    let expected_remove = vec![
        "html", "css", "svg", // web development
        "js", "ts", // programming language
        "md", // document
        "json", "toml", "yaml", "csv", "xml", // data
        "ini", "conf", "cfg", // config
        "sh", "bat", "ps1", // other
        "cs",
    ]
    .iter()
    .map(|x| x.to_string())
    .collect::<HashSet<String>>();

    let fix_rule = parse_fix_rule(&args).unwrap();
    assert_eq!(fix_rule.mode, FixMode::Add);
    assert_eq!(as_set(&fix_rule.remove), expected_remove);
}

#[test]
fn fix_rule_test_set_mode_as_remove_with_remove_bom() {
    let args = Args {
        path: None,
        add: false,
        remove: true,
        add_strict: false,
        add_bom: None,
        remove_bom: Some(vec!["cs".to_string()]),
    };

    let result_fix_rule = parse_fix_rule(&args);
    assert!(result_fix_rule.is_err());
    assert_eq!(
        result_fix_rule.err().unwrap().to_string(),
        "You can not set remove_bom with remove mode."
    );
}

#[test]
fn fix_rule_test_set_mode_as_add_strict_with_remove_bom() {
    let args = Args {
        path: None,
        add: false,
        remove: false,
        add_strict: true,
        add_bom: None,
        remove_bom: Some(vec!["html".to_string()]),
    };
    let expected_remove = vec!["html"]
        .iter()
        .map(|x| x.to_string())
        .collect::<HashSet<String>>();

    let fix_rule = parse_fix_rule(&args).unwrap();
    assert_eq!(fix_rule.mode, FixMode::Add);
    assert_eq!(as_set(&fix_rule.remove), expected_remove);
}

#[test]
fn fix_rule_test_set_mode_as_add_with_add_bom_and_remove_bom() {
    let args = Args {
        path: None,
        add: true,
        remove: false,
        add_strict: false,
        add_bom: Some(vec!["html".to_string()]),
        remove_bom: Some(vec!["html".to_string()]),
    };

    let fix_rule_result = parse_fix_rule(&args);
    assert!(fix_rule_result.is_err());
    assert_eq!(
        fix_rule_result.err().unwrap().to_string(),
        "You can not set add_bom with add mode."
    );
}

#[test]
fn fix_rule_test_set_mode_as_remove_with_add_bom_and_remove_bom() {
    let args = Args {
        path: None,
        add: false,
        remove: true,
        add_strict: false,
        add_bom: Some(vec!["html".to_string()]),
        remove_bom: Some(vec!["html".to_string()]),
    };

    let fix_rule_result = parse_fix_rule(&args);
    assert!(fix_rule_result.is_err());
    assert_eq!(
        fix_rule_result.err().unwrap().to_string(),
        "You can not set remove_bom with remove mode."
    );
}

#[test]
fn fix_rule_test_set_mode_as_add_strict_with_add_bom_and_remove_bom() {
    let args = Args {
        path: None,
        add: false,
        remove: false,
        add_strict: true,
        add_bom: Some(vec!["html".to_string()]),
        remove_bom: Some(vec!["html".to_string()]),
    };

    let fix_rule_result = parse_fix_rule(&args);
    assert!(fix_rule_result.is_err());
    assert_eq!(
        fix_rule_result.err().unwrap().to_string(),
        "You can not set add_bom with add-strict mode."
    );
}
