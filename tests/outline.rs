use librarian::config::SystemParameters;
use librarian::line::{parse_single, ParseErrorKind, ParsedKind};
use librarian::model::{FolderKind, FullId, HasFolderKind, HasJohnnyId, System};

fn params(system_id: &str, config: &str) -> SystemParameters {
    SystemParameters {
        system_id: system_id.to_string(),
        separator: Some(".".to_string()),
        name: "Test System".to_string(),
        config: config.to_string(),
    }
}

#[test]
fn indentation_selects_the_record_kind() {
    assert!(matches!(parse_single(1, "00-09 Admin"), Ok(ParsedKind::Area(0, 9, "Admin"))));
    assert!(matches!(parse_single(2, " 01 Finance"), Ok(ParsedKind::Category(1, "Finance"))));
    assert!(matches!(
        parse_single(3, "  02 Budget"),
        Ok(ParsedKind::Folder(2, FolderKind::Folder, "Budget"))
    ));
    assert!(matches!(
        parse_single(4, "   X01 Notes"),
        Ok(ParsedKind::ExtendedFolder("X01", FolderKind::Folder, "Notes"))
    ));
    let err = parse_single(5, "    01 Too deep").unwrap_err();
    assert_eq!(err.kind, ParseErrorKind::Indent);
    assert_eq!(err.line_no, 5);
    assert_eq!(err.line, "    01 Too deep");
}

#[test]
fn tabs_count_as_indentation() {
    assert!(matches!(parse_single(1, "\t01 Finance"), Ok(ParsedKind::Category(1, "Finance"))));
    assert!(matches!(
        parse_single(1, "\t\t\t\t01 x"),
        Err(e) if e.kind == ParseErrorKind::Indent
    ));
}

#[test]
fn folder_styles_select_the_kind_and_are_stripped() {
    assert!(matches!(
        parse_single(1, "  01- Receipts"),
        Ok(ParsedKind::Folder(1, FolderKind::File, "Receipts"))
    ));
    assert!(matches!(
        parse_single(1, "  01+ Budget"),
        Ok(ParsedKind::Folder(1, FolderKind::Both, "Budget"))
    ));
    assert!(matches!(
        parse_single(1, "  01 -Receipts"),
        Ok(ParsedKind::Folder(1, FolderKind::File, "Receipts"))
    ));
    assert!(matches!(
        parse_single(1, "  01 +Budget"),
        Ok(ParsedKind::Folder(1, FolderKind::Both, "Budget"))
    ));
    assert!(matches!(
        parse_single(1, "  02 !Index"),
        Ok(ParsedKind::Folder(2, FolderKind::Index, "Index"))
    ));
    assert!(matches!(parse_single(1, "  03"), Ok(ParsedKind::Folder(3, FolderKind::Folder, ""))));
}

#[test]
fn extended_folders_are_folders_or_files() {
    assert!(matches!(
        parse_single(1, "   X01 -Doc"),
        Ok(ParsedKind::ExtendedFolder("X01", FolderKind::File, "Doc"))
    ));
    assert!(matches!(
        parse_single(1, "   X02 +Both"),
        Ok(ParsedKind::ExtendedFolder("X02", FolderKind::Folder, "Both"))
    ));
    assert!(matches!(
        parse_single(1, "   X03 !Idx"),
        Ok(ParsedKind::ExtendedFolder("X03", FolderKind::Folder, "Idx"))
    ));
}

#[test]
fn category_keeps_a_leading_style_character() {
    assert!(matches!(parse_single(1, " 01 +Money"), Ok(ParsedKind::Category(1, "+Money"))));
}

#[test]
fn each_error_kind() {
    let bad = parse_single(7, "abc Bad").unwrap_err();
    assert_eq!((bad.line_no, bad.kind), (7, ParseErrorKind::BadNumber));
    let no_end = parse_single(1, "05 Topic").unwrap_err();
    assert_eq!(no_end.kind, ParseErrorKind::MissingId);
    let empty_end = parse_single(1, "05- Topic").unwrap_err();
    assert_eq!(empty_end.kind, ParseErrorKind::MissingId);
    let big = parse_single(1, "00-256 Topic").unwrap_err();
    assert_eq!(big.kind, ParseErrorKind::BadNumber);
    let blank = parse_single(1, "").unwrap_err();
    assert_eq!(blank.kind, ParseErrorKind::MissingId);
    let no_xid = parse_single(1, "   ").unwrap_err();
    assert_eq!(no_xid.kind, ParseErrorKind::MissingId);
    let cat = parse_single(1, " x1 Cat").unwrap_err();
    assert_eq!(cat.kind, ParseErrorKind::BadNumber);
}

#[test]
fn example_outline_builds_the_expected_tree() {
    let config = "00-01 Admin\n 01 Finance\n  01+ Budget\n   X01 Notes";
    let system = System::from_parameters(&params("S", config)).unwrap();
    assert_eq!(system.areas.len(), 1);
    let area = &system.areas[0];
    assert_eq!(area.id_range, (0, 1));
    let category = &area.categories[0];
    assert_eq!(category.topic, "Finance");
    let folder = &category.folders[0];
    assert_eq!(folder.kind, FolderKind::Both);
    assert_eq!(folder.topic, "Budget");
    let xfolder = &folder.folders[0];
    assert_eq!(xfolder.kind, FolderKind::Folder);
    assert_eq!(
        xfolder.as_path(),
        "S/S.00-01 Admin/S.01 Finance/S.01.01 Budget/S.01.01.X01 Notes"
    );
}

#[test]
fn extended_folder_style_after_its_id() {
    assert!(matches!(
        parse_single(1, "   X01- Doc"),
        Ok(ParsedKind::ExtendedFolder("X01", FolderKind::File, "Doc"))
    ));
    assert!(matches!(
        parse_single(1, "   X02! Idx"),
        Ok(ParsedKind::ExtendedFolder("X02", FolderKind::Folder, "Idx"))
    ));
    let err = parse_single(9, "   - Nameless").unwrap_err();
    assert_eq!((err.line_no, err.kind), (9, ParseErrorKind::MissingId));
}

#[test]
fn category_tolerates_a_style_after_its_id() {
    assert!(matches!(parse_single(1, " 01+ Money"), Ok(ParsedKind::Category(1, "Money"))));
}

#[test]
fn both_style_folder_path() {
    let config = "00-01 Admin\n 01 Finance\n  01 +Budget\n   X01 Notes";
    let system = System::from_parameters(&params("S", config)).unwrap();
    let folder = &system.areas[0].categories[0].folders[0];
    assert_eq!(*folder.kind(), FolderKind::Both);
    assert_eq!(folder.id(), "S.01.01 Budget");
    let xfolder = &folder.folders[0];
    assert_eq!(
        xfolder.as_path(),
        "S/S.00-01 Admin/S.01 Finance/S.01.01 Budget/S.01.01.X01 Notes"
    );
    assert_eq!(xfolder.name(), "Notes");
    assert_eq!(xfolder.jid().by_seperator("."), "S.01.01.X01");
}

#[test]
fn bad_line_fails_the_whole_build() {
    let config = "00-09 Admin\n 01 Finance\nabc Bad\n 02 Other";
    let err = System::from_parameters(&params("S", config)).unwrap_err();
    assert_eq!(err.line_no, 3);
    assert_eq!(err.kind, ParseErrorKind::BadNumber);
    assert_eq!(err.line, "abc Bad");
}

#[test]
fn orphans_are_dropped() {
    let config = " 01 Orphan category\n  02 Orphan folder\n   X1 Orphan xfolder\n10-19 Work\n  03 No category yet\n 11 Projects";
    let system = System::from_parameters(&params("S", config)).unwrap();
    assert_eq!(system.areas.len(), 1);
    assert_eq!(system.areas[0].categories.len(), 1);
    assert_eq!(system.areas[0].categories[0].folders.len(), 0);
    assert_eq!(system.areas[0].categories[0].id.by_seperator("."), "S.11");
}

#[test]
fn children_go_under_the_latest_parent() {
    let config = "00-09 A\n 01 C1\n 02 C2\n  05 F\n10-19 B\n 11 C3";
    let system = System::from_parameters(&params("S", config)).unwrap();
    assert_eq!(system.areas.len(), 2);
    assert_eq!(system.areas[0].categories.len(), 2);
    assert_eq!(system.areas[0].categories[0].folders.len(), 0);
    assert_eq!(system.areas[0].categories[1].folders.len(), 1);
    assert_eq!(system.areas[1].categories[0].topic, "C3");
    assert_eq!(system.areas[1].categories[0].as_path(), "S/S.10-19 B/S.11 C3");
}

#[test]
fn empty_outline_builds_an_empty_system() {
    let system = System::from_parameters(&params("S", "")).unwrap();
    assert!(system.areas.is_empty());
    assert_eq!(system.name, "Test System");
    assert_eq!(system.id(), "S Test System");
}

#[test]
fn windows_line_endings_are_accepted() {
    let config = "00-09 Admin\r\n 01 Finance\r\n";
    let system = System::from_parameters(&params("S", config)).unwrap();
    assert_eq!(system.areas[0].topic, "Admin");
    assert_eq!(system.areas[0].categories[0].topic, "Finance");
}

#[test]
fn folder_kind_directives() {
    assert_eq!(FolderKind::from_char('-'), FolderKind::File);
    assert_eq!(FolderKind::from_char('+'), FolderKind::Both);
    assert_eq!(FolderKind::from_char('!'), FolderKind::Index);
    assert_eq!(FolderKind::from_char('a'), FolderKind::Folder);
    assert_eq!(FolderKind::default(), FolderKind::Folder);
    assert!(FolderKind::Folder.is_folder());
    assert!(!FolderKind::Index.is_folder());
}
