//! Tests of the diff building, selection, and apply pipeline against the
//! in-memory filesystem.

use scm_record::{
    apply_changes, make_binary_description, process_opts, ChangeType, DiffContext, Error, File,
    FileContents, FileInfo, FileMode, Filesystem, Opts, RecordState, Section, SectionChangedLine,
    SelectedContents, TestFilesystem,
};
use scm_record::{file_info, select_all};

fn fi(contents: &str) -> FileInfo {
    file_info(contents.to_string())
}

fn scl(is_checked: bool, change_type: ChangeType, line: &str) -> SectionChangedLine {
    SectionChangedLine {
        is_checked,
        change_type,
        line: line.to_string(),
    }
}

fn read(fs: &TestFilesystem, path: &str) -> FileInfo {
    fs.read_file_info(&path.to_string()).unwrap()
}

fn absent_info() -> FileInfo {
    FileInfo {
        file_mode: FileMode::Absent,
        contents: FileContents::Absent,
    }
}

fn opts_single(left: &str, right: &str) -> Opts {
    Opts {
        dir_diff: false,
        left: left.to_string(),
        right: right.to_string(),
        base: None,
        output: None,
        read_only: false,
        dry_run: false,
    }
}

fn state_of(files: Vec<File>) -> RecordState {
    RecordState {
        is_read_only: false,
        commits: Vec::new(),
        files,
    }
}

fn check_diff() {
    let mut filesystem = TestFilesystem::new(vec![
        ("left".to_string(), fi("foo\ncommon1\ncommon2\nbar\n")),
        ("right".to_string(), fi("qux1\ncommon1\ncommon2\nqux2\n")),
    ]);
    let DiffContext {
        mut files,
        write_root,
    } = process_opts(&filesystem, &opts_single("left", "right")).unwrap();
    let expected = vec![File {
        old_path: Some("left".to_string()),
        path: "right".to_string(),
        file_mode: FileMode::Unix(0o100644),
        sections: vec![
            Section::Changed {
                lines: vec![
                    scl(false, ChangeType::Removed, "foo\n"),
                    scl(false, ChangeType::Added, "qux1\n"),
                ],
            },
            Section::Unchanged {
                lines: vec!["common1\n".to_string(), "common2\n".to_string()],
            },
            Section::Changed {
                lines: vec![
                    scl(false, ChangeType::Removed, "bar\n"),
                    scl(false, ChangeType::Added, "qux2\n"),
                ],
            },
        ],
    }];
    assert_eq!(files, expected);

    select_all(&mut files);
    apply_changes(&mut filesystem, &write_root, state_of(files)).unwrap();
    assert_eq!(read(&filesystem, "left"), fi("foo\ncommon1\ncommon2\nbar\n"));
    assert_eq!(read(&filesystem, "right"), fi("qux1\ncommon1\ncommon2\nqux2\n"));
}

#[test]
fn lib_test_diff() {
    check_diff();
}

#[test]
fn test_scm_diff_editor_test_diff() {
    check_diff();
}

fn check_diff_no_changes() {
    let mut filesystem = TestFilesystem::new(vec![
        ("left".to_string(), fi("foo\ncommon1\ncommon2\nbar\n")),
        ("right".to_string(), fi("qux1\ncommon1\ncommon2\nqux2\n")),
    ]);
    let DiffContext { files, write_root } =
        process_opts(&filesystem, &opts_single("left", "right")).unwrap();

    apply_changes(&mut filesystem, &write_root, state_of(files)).unwrap();
    assert_eq!(read(&filesystem, "left"), fi("foo\ncommon1\ncommon2\nbar\n"));
    assert_eq!(read(&filesystem, "right"), fi("foo\ncommon1\ncommon2\nbar\n"));
}

#[test]
fn lib_test_diff_no_changes() {
    check_diff_no_changes();
}

#[test]
fn test_scm_diff_editor_test_diff_no_changes() {
    check_diff_no_changes();
}

fn check_diff_absent_left() {
    let mut filesystem = TestFilesystem::new(vec![("right".to_string(), fi("right\n"))]);
    let DiffContext {
        mut files,
        write_root,
    } = process_opts(&filesystem, &opts_single("left", "right")).unwrap();
    let expected = vec![File {
        old_path: Some("left".to_string()),
        path: "right".to_string(),
        file_mode: FileMode::Absent,
        sections: vec![
            Section::FileMode {
                is_checked: false,
                mode: FileMode::Unix(0o100644),
            },
            Section::Changed {
                lines: vec![scl(false, ChangeType::Added, "right\n")],
            },
        ],
    }];
    assert_eq!(files, expected);

    select_all(&mut files);
    apply_changes(&mut filesystem, &write_root, state_of(files)).unwrap();
    assert_eq!(read(&filesystem, "right"), fi("right\n"));
    assert_eq!(read(&filesystem, "left"), absent_info());
}

#[test]
fn lib_test_diff_absent_left() {
    check_diff_absent_left();
}

#[test]
fn test_scm_diff_editor_test_diff_absent_left() {
    check_diff_absent_left();
}

fn check_diff_absent_right() {
    let mut filesystem = TestFilesystem::new(vec![("left".to_string(), fi("left\n"))]);
    let DiffContext {
        mut files,
        write_root,
    } = process_opts(&filesystem, &opts_single("left", "right")).unwrap();
    let expected = vec![File {
        old_path: Some("left".to_string()),
        path: "right".to_string(),
        file_mode: FileMode::Unix(0o100644),
        sections: vec![
            Section::FileMode {
                is_checked: false,
                mode: FileMode::Absent,
            },
            Section::Changed {
                lines: vec![scl(false, ChangeType::Removed, "left\n")],
            },
        ],
    }];
    assert_eq!(files, expected);

    select_all(&mut files);
    apply_changes(&mut filesystem, &write_root, state_of(files)).unwrap();
    assert_eq!(read(&filesystem, "left"), fi("left\n"));
    assert_eq!(read(&filesystem, "right"), absent_info());
}

#[test]
fn lib_test_diff_absent_right() {
    check_diff_absent_right();
}

#[test]
fn test_scm_diff_editor_test_diff_absent_right() {
    check_diff_absent_right();
}

fn check_reject_diff_non_files() {
    let filesystem = TestFilesystem::new(vec![
        ("left/foo".to_string(), fi("left\n")),
        ("right/foo".to_string(), fi("right\n")),
    ]);
    let result = process_opts(&filesystem, &opts_single("left", "right"));
    match result {
        Err(Error::ReadFile { path, source }) => {
            assert_eq!(path, "left".to_string());
            assert_eq!(source, "is a directory".to_string());
        }
        other => panic!("expected a read error, got {other:?}"),
    }
}

#[test]
fn lib_test_reject_diff_non_files() {
    check_reject_diff_non_files();
}

#[test]
fn test_scm_diff_editor_test_reject_diff_non_files() {
    check_reject_diff_non_files();
}

fn check_diff_files_in_subdirectories() {
    let mut filesystem = TestFilesystem::new(vec![
        ("left/foo".to_string(), fi("left contents\n")),
        ("right/foo".to_string(), fi("right contents\n")),
    ]);
    let DiffContext { files, write_root } =
        process_opts(&filesystem, &opts_single("left/foo", "right/foo")).unwrap();

    apply_changes(&mut filesystem, &write_root, state_of(files)).unwrap();
    assert_eq!(read(&filesystem, "left/foo"), fi("left contents\n"));
    assert_eq!(read(&filesystem, "right/foo"), fi("left contents\n"));
}

#[test]
fn lib_test_diff_files_in_subdirectories() {
    check_diff_files_in_subdirectories();
}

#[test]
fn test_scm_diff_editor_test_diff_files_in_subdirectories() {
    check_diff_files_in_subdirectories();
}

#[test]
fn lib_test_dir_diff_no_changes() {
    check_diff_files_in_subdirectories();
}

#[test]
fn test_scm_diff_editor_test_dir_diff_no_changes() {
    check_diff_files_in_subdirectories();
}

fn check_create_merge() {
    let base_contents = "Hello world 1\nHello world 2\nHello world 3\nHello world 4\n";
    let left_contents = "Hello world 1\nHello world 2\nHello world L\nHello world 4\n";
    let right_contents = "Hello world 1\nHello world 2\nHello world R\nHello world 4\n";
    let mut filesystem = TestFilesystem::new(vec![
        ("base".to_string(), fi(base_contents)),
        ("left".to_string(), fi(left_contents)),
        ("right".to_string(), fi(right_contents)),
    ]);
    let DiffContext {
        mut files,
        write_root,
    } = process_opts(
        &filesystem,
        &Opts {
            dir_diff: false,
            left: "left".to_string(),
            right: "right".to_string(),
            read_only: false,
            dry_run: false,
            base: Some("base".to_string()),
            output: Some("output".to_string()),
        },
    )
    .unwrap();
    let expected = vec![File {
        old_path: Some("base".to_string()),
        path: "output".to_string(),
        file_mode: FileMode::Unix(0o100644),
        sections: vec![
            Section::Unchanged {
                lines: vec!["Hello world 1\n".to_string(), "Hello world 2\n".to_string()],
            },
            Section::Changed {
                lines: vec![
                    scl(false, ChangeType::Added, "Hello world L\n"),
                    scl(false, ChangeType::Removed, "Hello world 3\n"),
                    scl(false, ChangeType::Added, "Hello world R\n"),
                ],
            },
            Section::Unchanged {
                lines: vec!["Hello world 4\n".to_string()],
            },
        ],
    }];
    assert_eq!(files, expected);

    select_all(&mut files);
    apply_changes(&mut filesystem, &write_root, state_of(files)).unwrap();
    assert_eq!(read(&filesystem, "base"), fi(base_contents));
    assert_eq!(read(&filesystem, "left"), fi(left_contents));
    assert_eq!(read(&filesystem, "right"), fi(right_contents));
    assert_eq!(
        read(&filesystem, "output"),
        fi("Hello world 1\nHello world 2\nHello world L\nHello world R\nHello world 4\n")
    );
}

#[test]
fn lib_test_create_merge() {
    check_create_merge();
}

#[test]
fn test_scm_diff_editor_test_create_merge() {
    check_create_merge();
}

fn check_new_file() {
    let new_file_contents = "Hello world 1\nHello world 2\n";
    let mut filesystem = TestFilesystem::new(vec![("right".to_string(), fi(new_file_contents))]);
    let DiffContext {
        mut files,
        write_root,
    } = process_opts(&filesystem, &opts_single("left", "right")).unwrap();
    let expected = vec![File {
        old_path: Some("left".to_string()),
        path: "right".to_string(),
        file_mode: FileMode::Absent,
        sections: vec![
            Section::FileMode {
                is_checked: false,
                mode: FileMode::Unix(0o100644),
            },
            Section::Changed {
                lines: vec![
                    scl(false, ChangeType::Added, "Hello world 1\n"),
                    scl(false, ChangeType::Added, "Hello world 2\n"),
                ],
            },
        ],
    }];
    assert_eq!(files, expected);

    // Select no changes from the new file.
    apply_changes(&mut filesystem, &write_root, state_of(files.clone())).unwrap();
    assert_eq!(read(&filesystem, "right"), absent_info());

    // Select all changes from the new file.
    select_all(&mut files);
    apply_changes(&mut filesystem, &write_root, state_of(files.clone())).unwrap();
    assert_eq!(read(&filesystem, "right"), fi(new_file_contents));

    // Select only some changes from the new file.
    match files[0].sections.get_mut(1).unwrap() {
        Section::Changed { ref mut lines } => lines[0].is_checked = false,
        _ => panic!("Expected changed section"),
    }
    apply_changes(&mut filesystem, &write_root, state_of(files.clone())).unwrap();
    assert_eq!(read(&filesystem, "right"), fi("Hello world 2\n"));
}

#[test]
fn lib_test_new_file() {
    check_new_file();
}

#[test]
fn test_scm_diff_editor_test_new_file() {
    check_new_file();
}

#[test]
fn test_state_binary_selected_contents() {
    let run = |is_checked: bool, binary: bool| {
        let file = File {
            old_path: None,
            path: "foo".to_string(),
            file_mode: FileMode::Unix(0o100644),
            sections: vec![
                Section::Changed {
                    lines: vec![scl(is_checked, ChangeType::Removed, "foo\n")],
                },
                Section::Binary {
                    is_checked: binary,
                    old_description: Some(make_binary_description("abc123", 123)),
                    new_description: Some(make_binary_description("def456", 456)),
                },
            ],
        };
        file.get_selected_contents()
    };

    let binary_contents = SelectedContents::Binary {
        old_description: Some("abc123 (123 bytes)".to_string()),
        new_description: Some("def456 (456 bytes)".to_string()),
    };

    let (selected, unselected) = run(false, false);
    assert_eq!(selected.file_mode, FileMode::Unix(0o100644));
    assert_eq!(selected.contents, SelectedContents::Unchanged);
    assert_eq!(unselected.file_mode, FileMode::Unix(0o100644));
    assert_eq!(unselected.contents, binary_contents);

    let (selected, unselected) = run(true, false);
    assert_eq!(selected.contents, SelectedContents::Unchanged);
    assert_eq!(unselected.contents, binary_contents);

    // The result when both a text and a binary segment are selected is
    // arbitrary; callers should avoid building both kinds of sections in the
    // same file.
    let (selected, unselected) = run(false, true);
    assert_eq!(selected.contents, binary_contents);
    assert_eq!(unselected.contents, SelectedContents::Unchanged);

    let (selected, unselected) = run(true, true);
    assert_eq!(selected.contents, binary_contents);
    assert_eq!(unselected.contents, SelectedContents::Unchanged);
}
