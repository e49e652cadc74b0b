use onenote_parser::entry_path::{
    check_confined, check_entry_name, check_windows_confined, components, forward_slashes,
    is_within, reserved_mark, resolve_entry_path, resolve_windows_entry_path,
};
use onenote_parser::errors::{ErrorKind, PathProblem};
use onenote_parser::notebook::{
    classify_entry, find_toc_entry, section_group_toc, is_recycle_bin_entry, is_toc_file, last_component, record_entry,
    resolve_toc_entries, EntryKind,
};
use std::path::Path;
use tempfile::tempdir;

#[test]
fn test_resolve_entry_path_rejects_traversal() {
    let dir = tempdir().unwrap();
    let base = dir.path();

    let err = resolve_entry_path(base.to_str().unwrap(), "../secret.one").unwrap_err();
    let err = err.message();
    assert!(err.contains("invalid path components"));
}

#[test]
fn test_resolve_entry_path_rejects_absolute() {
    let dir = tempdir().unwrap();
    let base = dir.path();

    let candidate = "/etc/passwd";
    let err = resolve_entry_path(base.to_str().unwrap(), candidate).unwrap_err();
    let err = err.message();
    assert!(err.contains("relative path"));

    // The same entry under Windows rules, with a drive.
    let candidate = r"C:\secret.one";
    let err = resolve_windows_entry_path(base.to_str().unwrap(), candidate).unwrap_err();
    let err = err.message();
    assert!(err.contains("relative path"));
}

#[test]
fn test_resolve_entry_path_accepts_relative() {
    let dir = tempdir().unwrap();
    let base = dir.path();

    let resolved = resolve_entry_path(base.to_str().unwrap(), "Section 1.one").unwrap();
    assert_eq!(Path::new(&resolved), Path::new(base).join("Section 1.one"));
}

#[test]
fn resolve_joins_names_with_separators() {
    assert_eq!(resolve_entry_path("/notes", "Group/Section 1.one").unwrap(), "/notes/Group/Section 1.one");
    assert_eq!(resolve_entry_path("/notes/", "Section.one").unwrap(), "/notes/Section.one");
    assert_eq!(resolve_entry_path("", "Section.one").unwrap(), "Section.one");
}

#[test]
fn resolve_skips_empty_and_current_components() {
    assert_eq!(resolve_entry_path("/b", "./a//./c.one/").unwrap(), "/b/a/c.one");
}

#[test]
fn resolve_refuses_parent_component_after_names() {
    let err = resolve_entry_path("/b", "a/../c.one").unwrap_err();
    assert!(matches!(err, ErrorKind::InvalidPath { problem: PathProblem::InvalidComponents }));
    let err = resolve_entry_path("/b", "a/..").unwrap_err();
    assert!(matches!(err, ErrorKind::InvalidPath { problem: PathProblem::InvalidComponents }));
}

#[test]
fn resolve_refuses_empty_entry() {
    for entry in ["", ".", "./", "//"] {
        let err = resolve_entry_path("/b", entry);
        // "//" is absolute; the others have no name.
        match err {
            Err(ErrorKind::InvalidPath { problem: PathProblem::Empty }) => assert!(entry != "//"),
            Err(ErrorKind::InvalidPath { problem: PathProblem::NotRelative }) => assert_eq!(entry, "//"),
            other => panic!("unexpected result {:?}", other),
        }
    }
    let err = resolve_entry_path("/b", "").unwrap_err();
    assert_eq!(err.message(), "invalid path: section entry is empty");
}

#[test]
fn resolve_refuses_names_that_sanitisation_changes() {
    let err = resolve_entry_path("/b", "sec:ret.one").unwrap_err();
    match &err {
        ErrorKind::InvalidPath { problem: PathProblem::InvalidCharacters { name } } => {
            assert_eq!(name, "sec:ret.one")
        }
        other => panic!("unexpected error {:?}", other),
    }
    assert_eq!(err.message(), "invalid path: section entry contains invalid characters: sec:ret.one");
    // The first offending component is the one reported.
    let err = resolve_entry_path("/b", "ok/a?b/../c").unwrap_err();
    assert!(matches!(err, ErrorKind::InvalidPath { problem: PathProblem::InvalidCharacters { .. } }));
}

#[test]
fn check_entry_name_compares_with_sanitised_name() {
    assert!(check_entry_name("Section.one", "Section.one").is_ok());
    match check_entry_name("a:b", "a_b") {
        Err(ErrorKind::InvalidPath { problem: PathProblem::InvalidCharacters { name } }) => {
            assert_eq!(name, "a:b")
        }
        other => panic!("unexpected result {:?}", other),
    }
    // Sanitisation marks names that Windows reserves for devices; such names
    // are kept.
    assert!(check_entry_name("CON.one", "CON_.one").is_ok());
    assert!(check_entry_name("aux", "aux_").is_ok());
    assert!(check_entry_name("CON.one", "CON.one_").is_err());
}

#[test]
fn reserved_mark_goes_after_the_base_name() {
    assert_eq!(reserved_mark("CON.one"), "CON_.one");
    assert_eq!(reserved_mark("NUL"), "NUL_");
    assert_eq!(reserved_mark("COM1.jpg.png"), "COM1.jpg_.png");
    assert_eq!(reserved_mark("a."), "a_.");
    assert_eq!(reserved_mark(""), "_");
}

#[test]
fn reserved_device_names_are_accepted() {
    assert_eq!(resolve_entry_path("/n", "CON.one").unwrap(), "/n/CON.one");
    assert_eq!(resolve_entry_path("/n", "NUL.one").unwrap(), "/n/NUL.one");
    assert_eq!(resolve_entry_path("/n", "COM1.one").unwrap(), "/n/COM1.one");
    assert_eq!(resolve_entry_path("/n", "g/lpt9").unwrap(), "/n/g/lpt9");
    assert!(resolve_entry_path("/n", "../CON.one").is_err());
    assert!(resolve_entry_path("/n", "CO:N.one").is_err());
}

#[test]
fn resolved_entries_stay_inside_the_base_directory() {
    for entry in ["a/b", "./x.one", "x/./y", "..", "../x", "a/../../x", "/x", "a/b/..", "...", "x/.../y"] {
        if let Ok(p) = resolve_entry_path("/base", entry) {
            let rest = p.strip_prefix("/base/").unwrap();
            for part in rest.split('/') {
                assert!(!part.is_empty() && part != "." && part != "..", "{} from {}", p, entry);
            }
        }
    }
}

#[test]
fn resolve_toc_entries_fails_on_first_refused_entry() {
    let entries = vec!["a.one".to_string(), "b.one".to_string()];
    assert_eq!(resolve_toc_entries("/n", &entries).unwrap(), vec!["/n/a.one", "/n/b.one"]);
    let entries = vec!["a.one".to_string(), "/abs".to_string(), "../x".to_string()];
    let err = resolve_toc_entries("/n", &entries).unwrap_err();
    assert!(matches!(err, ErrorKind::InvalidPath { problem: PathProblem::NotRelative }));
    assert!(resolve_toc_entries("/n", &Vec::new()).unwrap().is_empty());
}

#[test]
fn recycle_bin_and_toc_files_are_recognised() {
    assert!(is_recycle_bin_entry("/n/OneNote_RecycleBin"));
    assert!(!is_recycle_bin_entry("/n/OneNote_RecycleBin/x.one"));
    assert!(!is_recycle_bin_entry("/n/OneNote_RecycleBinX"));
    assert_eq!(last_component("/a/b/c.one"), "c.one");
    assert_eq!(last_component("c.one"), "c.one");
    assert_eq!(last_component("/a/"), "a");
    assert_eq!(last_component("/a/b/."), "b");
    assert_eq!(last_component("/"), "");
    assert!(is_recycle_bin_entry("/n/OneNote_RecycleBin/"));
    assert!(is_toc_file("/g/Open Notebook.onetoc2/"));
    assert!(is_toc_file("/g/Open Notebook.onetoc2"));
    assert!(!is_toc_file("/g/.onetoc2"));
    assert!(!is_toc_file("/g/x.one"));
    assert!(!is_toc_file("/g/x.onetoc2/y"));
    let listing = vec!["/g/a.one".to_string(), "/g/b.onetoc2".to_string(), "/g/c.onetoc2".to_string()];
    assert_eq!(find_toc_entry(&listing), Some(1));
    assert_eq!(find_toc_entry(&vec!["/g/a.one".to_string()]), None);
}

#[test]
fn entries_are_classified_for_reading() {
    assert_eq!(classify_entry("/n/a.one", true, false), Some(EntryKind::Section));
    assert_eq!(classify_entry("/n/Group", true, true), Some(EntryKind::SectionGroup));
    assert_eq!(classify_entry("/n/a.one", false, false), None);
    assert_eq!(classify_entry("/n/OneNote_RecycleBin", true, true), None);
}

#[test]
fn components_drop_empty_and_current_pieces() {
    assert_eq!(components("/a//b/./c/"), vec!["a", "b", "c"]);
    assert_eq!(components("a/../b"), vec!["a", "..", "b"]);
    assert!(components("/").is_empty());
}

#[test]
fn within_compares_whole_components() {
    assert!(is_within("/home/n", "/home/n/a.one"));
    assert!(is_within("/home/n/", "/home/n"));
    assert!(!is_within("/home/n", "/home/notes/a.one"));
    assert!(!is_within("/home/n", "/home"));
    assert!(!is_within("home/n", "/home/n/a.one"));
    assert!(is_within("/", "/etc/passwd"));
}

#[test]
fn resolved_entries_are_within_their_base() {
    let path = resolve_entry_path("/n/book", "g/a.one").unwrap();
    assert!(is_within("/n/book", &path));
    assert_eq!(resolve_entry_path("", "g/a.one").unwrap(), "g/a.one");
}

#[test]
fn confinement_refuses_paths_outside_the_base() {
    assert!(check_confined("/n/book", "/n/book/a.one").is_ok());
    let err = check_confined("/n/book", "/n/other/a.one").unwrap_err();
    assert!(matches!(err, ErrorKind::InvalidPath { problem: PathProblem::EscapesBase }));
    assert_eq!(err.message(), "invalid path: section entry escapes base directory");
}

#[test]
fn failed_entries_leave_warnings() {
    let mut entries: Vec<u32> = Vec::new();
    let mut warnings: Vec<String> = Vec::new();
    record_entry(&mut entries, &mut warnings, "/n/a.one", Ok(1));
    record_entry(
        &mut entries,
        &mut warnings,
        "/n/b.one",
        Err(ErrorKind::NotASectionFile { file: "b.one".to_string() }),
    );
    record_entry(&mut entries, &mut warnings, "/n/c.one", Ok(3));
    assert_eq!(entries, vec![1, 3]);
    assert_eq!(
        warnings,
        vec!["failed to import section /n/b.one: file is not a section file: b.one".to_string()]
    );
}

#[test]
fn section_groups_need_a_table_of_contents() {
    let listing = vec!["/g/a.one".to_string(), "/g/b.onetoc2".to_string(), "/g/c.onetoc2".to_string()];
    assert_eq!(section_group_toc("/g", &listing).unwrap(), 1);
    let err = section_group_toc("/g", &vec!["/g/a.one".to_string()]).unwrap_err();
    assert!(matches!(&err, ErrorKind::TocFileMissing { dir } if dir == "/g"));
    assert_eq!(err.message(), "table of contents file is missing in dir /g");
}

#[test]
fn windows_entries_use_both_separators() {
    assert_eq!(forward_slashes("a\\b/c"), "a/b/c");
    assert_eq!(resolve_windows_entry_path("", "Group\\Section.one").unwrap(), "Group/Section.one");
    assert_eq!(resolve_windows_entry_path("C:\\n", "Section 1.one").unwrap(), "C:\\n/Section 1.one");
    for (entry, relative) in [
        ("C:\\secret.one", true),
        ("\\\\server\\share\\x.one", true),
        ("\\\\?\\C:\\x.one", true),
        ("C:x.one", false),
        ("\\x.one", false),
        ("..\\x.one", false),
    ] {
        let err = resolve_windows_entry_path("C:\\n", entry).unwrap_err();
        if relative {
            assert!(err.message().contains("relative path"), "{}", entry);
        } else {
            assert!(err.message().contains("invalid path components"), "{}", entry);
        }
    }
    assert!(check_windows_confined("\\\\?\\C:\\n", "\\\\?\\C:\\n\\a.one").is_ok());
    assert!(check_windows_confined("\\\\?\\C:\\n", "\\\\?\\C:\\other\\a.one").is_err());
}
