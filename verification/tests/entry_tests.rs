use slingshot::{make_entry, FileData};

#[test]
fn test_make_entry_for_plain_file() {
    let e = make_entry("/home/user/notes.txt".to_owned(), true, false);
    assert_eq!(e.shortname, "notes.txt");
    assert_eq!(e.absolute, "/home/user/notes.txt");
    assert_eq!(e.extension, "txt");
    assert_eq!(e.icon, "\u{f0214} ");
    assert!(!e.marked_for_deletion);
}

#[test]
fn test_make_entry_known_extension_gets_its_glyph() {
    let e = make_entry("/srv/app/main.py".to_owned(), true, false);
    assert_eq!(e.extension, "py");
    assert_eq!(e.icon, "\u{e73c} ");
    let e = make_entry("/srv/app/lib.rs".to_owned(), true, false);
    assert_eq!(e.icon, "\u{e7a8} ");
}

#[test]
fn test_make_entry_for_directory() {
    let e = make_entry("/home/user/projects".to_owned(), false, true);
    assert_eq!(e.shortname, "projects");
    assert_eq!(e.extension, "");
    assert_eq!(e.icon, "\u{e5ff} ");
}

#[test]
fn test_make_entry_extensionless_file_keeps_name_as_extension() {
    let e = make_entry("/home/user/Makefile2".to_owned(), true, false);
    assert_eq!(e.shortname, "Makefile2");
    assert_eq!(e.extension, "Makefile2");
}

#[test]
fn test_make_entry_hidden_file_has_no_extension() {
    let e = make_entry("/home/user/.gitignore".to_owned(), true, false);
    assert_eq!(e.shortname, ".gitignore");
    // A leading dot alone names no extension, so the whole name stands in.
    assert_eq!(e.extension, ".gitignore");
}

#[test]
fn test_toggle_mark_for_deletion() {
    let mut fd = FileData {
        shortname: "a".to_owned(),
        absolute: "/a".to_owned(),
        extension: "".to_owned(),
        icon: "".to_owned(),
        marked_for_deletion: false,
    };
    fd.toggle_mark_for_deletion();
    assert!(fd.marked_for_deletion);
    fd.toggle_mark_for_deletion();
    assert!(!fd.marked_for_deletion);
}
