use librarian::jid::JohnnyId;

fn full_id() -> JohnnyId {
    JohnnyId::default()
        .system_id("system")
        .area_id(0, 1, "area")
        .category_id(1, "cat")
        .folder_id(2, "fold")
        .xfolder_id("xfolder", "xfold")
}

#[test]
fn test_full_jid() {
    let id = JohnnyId::default()
        .system_id("system")
        .area_id(0, 1, "area")
        .category_id(1, "cat")
        .folder_id(2, "fold")
        .xfolder_id("xfolder", "xfold");

    assert_eq!(id.by_seperator("."), "system.01.02.xfolder");
    assert_eq!(id.by_seperator_bound("."), "system.01.02.xfolder xfold");
}

#[test]
fn test_system_jid() {
    let id = JohnnyId::default().system_id("system");
    assert_eq!(id.by_seperator("."), "system");
}

#[test]
fn test_area_jid() {
    let id = JohnnyId::default()
        .system_id("system")
        .area_id(0, 1, "area");
    assert_eq!(id.by_seperator("."), "system.00-01");
}

#[test]
fn test_category_jid() {
    let id = JohnnyId::default()
        .system_id("system")
        .area_id(0, 1, "area")
        .category_id(1, "cat");
    assert_eq!(id.by_seperator("."), "system.01");
}

#[test]
fn test_folder_jid() {
    let id = JohnnyId::default()
        .system_id("system")
        .area_id(0, 1, "area")
        .category_id(1, "cat")
        .folder_id(2, "fold");
    assert_eq!(id.by_seperator("."), "system.01.02");
}

#[test]
fn test_parent_of_full() {
    let id = JohnnyId::default()
        .system_id("system")
        .area_id(0, 1, "area")
        .category_id(1, "cat")
        .folder_id(2, "fold")
        .xfolder_id("xfolder", "xfold");

    let parent = id.parent();
    assert_eq!(
        parent.map(|p| p.by_seperator(".")),
        Some("system.01.02".to_string())
    );
}

#[test]
fn test_path_of_full() {
    let id = JohnnyId::default()
        .system_id("system")
        .area_id(0, 1, "area")
        .category_id(1, "cat")
        .folder_id(2, "fold")
        .xfolder_id("xfolder", "xfold");

    let path = id.as_path();
    assert_eq!(
        path.as_str(),
        "system/system.00-01 area/system.01 cat/system.01.02 fold/system.01.02.xfolder xfold"
    );
}

#[test]
fn test_path_system() {
    let id = JohnnyId::default().system_id("system");
    let path = id.as_path();
    assert_eq!(path.as_str(), "system");
}

#[test]
fn test_area_path() {
    let id = JohnnyId::default()
        .system_id("system")
        .area_id(0, 1, "area");

    let path = id.as_path();
    assert_eq!(path.as_str(), "system/system.00-01 area");
}

#[test]
fn test_path_category() {
    let id = JohnnyId::default()
        .system_id("system")
        .area_id(0, 1, "area")
        .category_id(1, "cat");
    let path = id.as_path();
    assert_eq!(path.as_str(), "system/system.00-01 area/system.01 cat");
}

#[test]
fn test_path_folder() {
    let id = JohnnyId::default()
        .system_id("system")
        .area_id(0, 1, "area")
        .category_id(1, "cat")
        .folder_id(2, "fold");
    let path = id.as_path();
    assert_eq!(
        path.as_str(),
        "system/system.00-01 area/system.01 cat/system.01.02 fold"
    );
}

#[test]
fn bound_rendering_of_area_keeps_its_topic() {
    let id = JohnnyId::default().system_id("S").area_id(10, 19, "Work");
    assert_eq!(id.by_seperator_bound("."), "S.10-19 Work");
    assert_eq!(id.by_seperator_bound("::"), "S::10-19 Work");
}

#[test]
fn compact_rendering_uses_the_given_separator() {
    assert_eq!(full_id().by_seperator("/"), "system/01/02/xfolder");
    assert_eq!(full_id().by_seperator_bound("-"), "system-01-02-xfolder xfold");
}

#[test]
fn three_digit_ids_are_not_truncated() {
    let id = JohnnyId::default()
        .system_id("S")
        .area_id(100, 255, "Big")
        .category_id(200, "Cat");
    assert_eq!(id.by_seperator("."), "S.200");
    let area = JohnnyId::default().system_id("S").area_id(100, 255, "Big");
    assert_eq!(area.by_seperator("."), "S.100-255");
}

#[test]
fn path_is_parent_path_then_own_bound_rendering() {
    let ids = vec![
        JohnnyId::default().system_id("S"),
        JohnnyId::default().system_id("S").area_id(0, 9, "A"),
        JohnnyId::default()
            .system_id("S")
            .area_id(0, 9, "A")
            .category_id(3, "C"),
        full_id(),
    ];
    for id in ids {
        let parent = id.parent().unwrap();
        let parent_path = parent.as_path();
        let own = id.by_seperator_bound(".");
        let expected = if parent_path.is_empty() {
            own
        } else {
            format!("{}/{}", parent_path, own)
        };
        assert_eq!(id.as_path(), expected);
    }
}

#[test]
fn parent_of_system_is_empty_and_of_empty_is_none() {
    let system = JohnnyId::default().system_id("S");
    let parent = system.parent().unwrap();
    assert_eq!(parent.level(), 0);
    assert!(parent.parent().is_none());
    assert_eq!(full_id().level(), 5);
}

#[test]
fn clone_keeps_every_segment() {
    let id = full_id();
    let copy = id.clone();
    assert_eq!(copy.by_seperator_bound("."), id.by_seperator_bound("."));
    assert_eq!(copy.as_path(), id.as_path());
}
