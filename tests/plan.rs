use librarian::config::SystemParameters;
use librarian::line::ParseErrorKind;
use librarian::model::System;
use librarian::notes::{get_all_actions, get_archive_actions, need_to_apply, pending_actions, Action};
use std::collections::HashSet;

fn build(config: &str) -> System {
    System::from_parameters(&SystemParameters {
        system_id: "S".to_string(),
        separator: None,
        name: "Sys".to_string(),
        config: config.to_string(),
    })
    .unwrap()
}

fn describe_all(actions: &[Action]) -> Vec<String> {
    actions.iter().map(|a| a.describe()).collect()
}

#[test]
fn example_plan_has_directory_and_file_for_both() {
    let system = build("00-01 Admin\n 01 Finance\n  01+ Budget\n   X01 Notes");
    let actions = get_all_actions("/notes", &system);
    assert_eq!(
        describe_all(&actions),
        vec![
            "Create Directory /notes/S/S.00-01 Admin",
            "Create Directory /notes/S/S.00-01 Admin/S.01 Finance",
            "Create Directory /notes/S/S.00-01 Admin/S.01 Finance/S.01.01 Budget",
            "Create File /notes/S/S.00-01 Admin/S.01 Finance/S.01.01 Budget.md",
            "Create Directory /notes/S/S.00-01 Admin/S.01 Finance/S.01.01 Budget/S.01.01.X01 Notes",
        ]
    );
}

#[test]
fn index_folder_plans_an_index_and_no_directory() {
    let system = build("00-09 Admin\n 01 Meta\n  02! Index");
    let actions = get_all_actions("notes/", &system);
    assert_eq!(actions.len(), 3);
    match &actions[2] {
        Action::WriteIndex(path, root) => {
            assert_eq!(path, "notes/S/S.00-09 Admin/S.01 Meta/S.01.02 Index.md");
            assert!(std::ptr::eq(*root, &system));
        }
        other => panic!("unexpected {:?}", other),
    }
    assert!(actions[2].target().ends_with("02 Index.md"));
    assert!(!actions
        .iter()
        .any(|a| matches!(a, Action::CreateDirectory(p) if p.ends_with("Index"))));
}

#[test]
fn file_folder_plans_a_file() {
    let system = build("00-09 A\n 01 C\n  03- Log");
    let actions = get_all_actions("", &system);
    assert_eq!(
        describe_all(&actions),
        vec![
            "Create Directory S/S.00-09 A",
            "Create Directory S/S.00-09 A/S.01 C",
            "Create File S/S.00-09 A/S.01 C/S.01.03 Log.md",
        ]
    );
}

#[test]
fn second_run_needs_only_indexes() {
    let system = build("00-09 A\n 01 C\n  01 Plain\n  02+ Both\n  03- File\n  04! Index\n   X1 Sub\n   X2- Note");
    let first = get_all_actions("/root", &system);
    let mut present: HashSet<String> = HashSet::new();
    for action in &first {
        assert!(need_to_apply(action, present.contains(action.target())));
        present.insert(action.target().to_string());
    }
    let second = get_all_actions("/root", &system);
    assert_eq!(describe_all(&first), describe_all(&second));
    let needed: Vec<&Action> = second
        .iter()
        .filter(|a| need_to_apply(a, present.contains(a.target())))
        .collect();
    assert_eq!(needed.len(), 1);
    assert!(matches!(needed[0], Action::WriteIndex(_, _)));
}

#[test]
fn archive_plan_holds_directories_only() {
    let system = build("00-09 A\n 01 C\n  01 Plain\n  02+ Both\n  03- File\n  04! Index\n   X1 Sub\n   X2- Note");
    let archive = get_archive_actions("/archive", &system);
    assert!(archive.iter().all(|a| matches!(a, Action::CreateDirectory(_))));
    let all = get_all_actions("/archive", &system);
    let dirs: Vec<String> = all
        .iter()
        .filter(|a| matches!(a, Action::CreateDirectory(_)))
        .map(|a| a.describe())
        .collect();
    assert_eq!(describe_all(&archive), dirs);
    assert_eq!(archive.len(), 5);
}

#[test]
fn dry_run_lines() {
    let system = build("00-09 A\n 01 C\n  04! Index\n  05- File");
    let actions = get_all_actions("/n", &system);
    assert_eq!(actions[0].dry_run(false), "Would Create Directory /n/S/S.00-09 A\n");
    assert_eq!(actions[0].dry_run(true), "");
    assert_eq!(actions[2].dry_run(true), "Would Write Index /n/S/S.00-09 A/S.01 C/S.01.04 Index.md\n");
    assert_eq!(actions[3].dry_run(false), "Would Create File /n/S/S.00-09 A/S.01 C/S.01.05 File.md\n");
    assert!(need_to_apply(&actions[2], true));
    assert!(!need_to_apply(&actions[3], true));
}

#[test]
fn bad_first_line_builds_no_tree() {
    let err = System::from_parameters(&SystemParameters {
        system_id: "S".to_string(),
        separator: None,
        name: "Sys".to_string(),
        config: "abc Bad".to_string(),
    })
    .unwrap_err();
    assert_eq!(err.line_no, 1);
    assert_eq!(err.kind, ParseErrorKind::BadNumber);
}

#[test]
fn empty_system_plans_nothing() {
    let system = build("");
    assert!(get_all_actions("/n", &system).is_empty());
    assert!(get_archive_actions("/n", &system).is_empty());
}

#[test]
fn pending_keeps_what_is_still_needed_in_order() {
    let system = build("00-09 A\n 01 C\n  01 Plain\n  02+ Both\n  04! Index");
    let actions = get_all_actions("/p", &system);
    assert_eq!(actions.len(), 6);
    let exists = vec![true, false, true, true, false, true];
    let pending = pending_actions(actions, &exists);
    assert_eq!(
        describe_all(&pending),
        vec![
            "Create Directory /p/S/S.00-09 A/S.01 C",
            "Create File /p/S/S.00-09 A/S.01 C/S.01.02 Both.md",
            "Write Index /p/S/S.00-09 A/S.01 C/S.01.04 Index.md",
        ]
    );
}

#[test]
fn pending_after_a_full_run_is_the_index_alone() {
    let system = build("00-09 A\n 01 C\n  01 Plain\n  02+ Both\n  03- File\n  04! Index");
    let actions = get_all_actions("/p", &system);
    let exists = vec![true; actions.len()];
    let pending = pending_actions(actions, &exists);
    assert_eq!(describe_all(&pending), vec!["Write Index /p/S/S.00-09 A/S.01 C/S.01.04 Index.md"]);
}
