use bom_fixer::fix_rule::{parse_args, Args, FileDecision, FixMode, FixRule, ResolveError};
use bom_fixer::formatter::{get_extension, BomFormatter};

fn strings(v: &[&str]) -> Vec<String> {
    v.iter().map(|s| s.to_string()).collect()
}

#[test]
fn add_and_remove_flags_conflict() {
    let args = Args {
        path: None,
        add: true,
        remove: true,
        add_strict: false,
        add_bom: None,
        remove_bom: None,
    };
    let err = parse_args(&args).err().unwrap();
    assert_eq!(err, ResolveError::MultipleModes);
    assert_eq!(err.to_string(), "You can not set multiple fix mode.");
}

#[test]
fn all_three_flags_conflict() {
    let args = Args {
        path: None,
        add: true,
        remove: true,
        add_strict: true,
        add_bom: None,
        remove_bom: None,
    };
    assert_eq!(parse_args(&args).err(), Some(ResolveError::MultipleModes));
    let args = Args {
        path: None,
        add: false,
        remove: true,
        add_strict: true,
        add_bom: None,
        remove_bom: None,
    };
    assert_eq!(parse_args(&args).err(), Some(ResolveError::MultipleModes));
}

#[test]
fn both_override_lists_refused_in_every_mode() {
    for (add, remove, add_strict, expected) in [
        (true, false, false, ResolveError::AddOverrideInAddMode),
        (false, true, false, ResolveError::RemoveOverrideInRemoveMode),
        (false, false, true, ResolveError::AddOverrideInAddStrictMode),
        (false, false, false, ResolveError::RemoveOverrideInRemoveMode),
    ] {
        let args = Args {
            path: None,
            add,
            remove,
            add_strict,
            add_bom: Some(strings(&["cs"])),
            remove_bom: Some(strings(&["cs"])),
        };
        assert_eq!(parse_args(&args).err(), Some(expected));
    }
}

#[test]
fn overlapping_rule_is_refused() {
    let err = FixRule::new(FixMode::Add, &strings(&["cs"]), &strings(&["CS", "md"])).err();
    assert_eq!(err, Some(ResolveError::OverlappingOverrides));
    assert_eq!(
        err.unwrap().to_string(),
        "You can not both add and remove BOM for one extension."
    );
}

#[test]
fn disjoint_rule_is_built_lower_cased() {
    let rule = FixRule::new(FixMode::Remove, &strings(&["CS", "cs", "Txt"]), &strings(&["md"])).unwrap();
    assert_eq!(rule.mode, FixMode::Remove);
    let mut add = rule.add.clone();
    add.sort();
    assert_eq!(add, strings(&["cs", "txt"]));
    assert_eq!(rule.remove, strings(&["md"]));
}

#[test]
fn overrides_are_lower_cased() {
    let args = Args {
        path: None,
        add: false,
        remove: false,
        add_strict: true,
        add_bom: None,
        remove_bom: Some(strings(&["JSON", "Md"])),
    };
    let rule = parse_args(&args).unwrap();
    let mut remove = rule.remove.clone();
    remove.sort();
    assert_eq!(remove, strings(&["json", "md"]));
}

#[test]
fn no_flag_means_remove_with_add_overrides() {
    let args = Args {
        path: None,
        add: false,
        remove: false,
        add_strict: false,
        add_bom: Some(strings(&["cs"])),
        remove_bom: None,
    };
    let rule = parse_args(&args).unwrap();
    assert_eq!(rule.mode, FixMode::Remove);
    assert_eq!(rule.decide(&"cs".to_string()), FileDecision::AddBom);
    assert_eq!(rule.decide(&"txt".to_string()), FileDecision::RemoveBom);
    assert_eq!(rule.decide_for_path(&"src/Main.CS".to_string()), FileDecision::AddBom);
}

#[test]
fn decision_precedence() {
    let rule = FixRule { mode: FixMode::Add, add: strings(&["md"]), remove: strings(&["md", "json"]) };
    assert_eq!(rule.decide(&"md".to_string()), FileDecision::RemoveBom);
    assert_eq!(rule.decide(&"json".to_string()), FileDecision::RemoveBom);
    assert_eq!(rule.decide(&"txt".to_string()), FileDecision::AddBom);
    assert_eq!(rule.decide(&"".to_string()), FileDecision::AddBom);
}

#[test]
fn extension_of_paths() {
    assert_eq!(get_extension(&"dir/File.JSON".to_string()), "json");
    assert_eq!(get_extension(&"archive.tar.gz".to_string()), "gz");
    assert_eq!(get_extension(&"Makefile".to_string()), "");
    assert_eq!(get_extension(&"dir.d/.bashrc".to_string()), "");
    assert_eq!(get_extension(&"notes.".to_string()), "");
}

#[test]
fn formatter_sorts_files_by_decision() {
    let rule = parse_args(&Args {
        path: None,
        add: true,
        remove: false,
        add_strict: false,
        add_bom: None,
        remove_bom: Some(strings(&["cs"])),
    })
    .unwrap();
    let files = strings(&["a.html", "b.CS", "c.txt", "d", "e.rs"]);
    let mut formatter = BomFormatter::new(&rule);
    assert!(formatter.files_to_add_bom.is_empty());
    assert!(formatter.files_to_remove_bom.is_empty());
    formatter.register_files(&files);
    let add: Vec<&str> = formatter.files_to_add_bom.iter().map(|s| s.as_str()).collect();
    let remove: Vec<&str> = formatter.files_to_remove_bom.iter().map(|s| s.as_str()).collect();
    assert_eq!(add, vec!["c.txt", "d", "e.rs"]);
    assert_eq!(remove, vec!["a.html", "b.CS"]);
}

#[test]
fn formatter_registers_in_remove_mode() {
    let rule = parse_args(&Args {
        path: None,
        add: false,
        remove: true,
        add_strict: false,
        add_bom: Some(strings(&["txt"])),
        remove_bom: None,
    })
    .unwrap();
    let files = strings(&["a.txt", "b.md"]);
    let mut formatter = BomFormatter::new(&rule);
    formatter.register_add_bom(&files);
    assert_eq!(formatter.files_to_add_bom.len(), 1);
    assert!(formatter.files_to_remove_bom.is_empty());
    formatter.register_remove_bom(&files);
    assert_eq!(formatter.files_to_remove_bom.len(), 1);
    assert_eq!(formatter.files_to_remove_bom[0].as_str(), "b.md");
}
