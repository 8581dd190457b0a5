//! Tests of the individual components: tristate propagation, conflict
//! markers, diff building, merge parsing, classification, paths, and the
//! dry-run plan.

use scm_record::{
    apply_changes, classify_file_bytes, classify_mode, create_diff, create_merge, dry_run_plan,
    file_info, make_binary_description, make_conflict_markers, parse_merge_sections, process_opts,
    ChangeType, Error, File, FileContents, FileInfo, FileMode, Filesystem, Opts, PlanEntry,
    RecordState, Section, SectionChangedLine, SelectedContents, TestFilesystem, Tristate,
};
use scm_record::paths::{join_paths, parent_path, strip_path_prefix};
use scm_record::strutil::{split_lines, u64_to_string};
use scm_record::util::{IsizeExt, UsizeExt};

fn scl(is_checked: bool, change_type: ChangeType, line: &str) -> SectionChangedLine {
    SectionChangedLine {
        is_checked,
        change_type,
        line: line.to_string(),
    }
}

fn plain_file(sections: Vec<Section>) -> File {
    File {
        old_path: None,
        path: "file".to_string(),
        file_mode: FileMode::Unix(0o100644),
        sections,
    }
}

#[test]
fn test_tristate_set_checked() {
    let mut file = plain_file(vec![
        Section::Changed {
            lines: vec![
                scl(false, ChangeType::Added, "a\n"),
                scl(false, ChangeType::Removed, "b\n"),
            ],
        },
        Section::FileMode {
            is_checked: false,
            mode: FileMode::Absent,
        },
    ]);
    assert_eq!(file.tristate(), Tristate::False);
    file.set_checked(true);
    assert_eq!(file.tristate(), Tristate::True);
    file.set_checked(false);
    assert_eq!(file.tristate(), Tristate::False);

    match &mut file.sections[0] {
        Section::Changed { lines } => lines[0].is_checked = true,
        _ => unreachable!(),
    }
    assert_eq!(file.tristate(), Tristate::Partial);

    let empty = plain_file(vec![Section::Unchanged {
        lines: vec!["context\n".to_string()],
    }]);
    assert_eq!(empty.tristate(), Tristate::False);
}

#[test]
fn test_section_tristate_and_toggle() {
    let mut section = Section::Changed {
        lines: vec![
            scl(true, ChangeType::Added, "a\n"),
            scl(false, ChangeType::Added, "b\n"),
        ],
    };
    assert_eq!(section.tristate(), Tristate::Partial);
    assert!(section.is_editable());
    section.toggle_all();
    assert_eq!(
        section,
        Section::Changed {
            lines: vec![
                scl(false, ChangeType::Added, "a\n"),
                scl(true, ChangeType::Added, "b\n"),
            ],
        }
    );
    let before = section.clone();
    section.toggle_all();
    section.toggle_all();
    assert_eq!(section, before);

    section.set_checked(true);
    assert_eq!(section.tristate(), Tristate::True);

    let unchanged = Section::Unchanged { lines: Vec::new() };
    assert!(!unchanged.is_editable());
    assert_eq!(unchanged.tristate(), Tristate::False);
}

#[test]
fn test_conflict_markers_avoid_contents() {
    let base = "text with <<<<<<<<<< ten and ========= nine\n";
    let left = "more |||||||||||| twelve\n";
    let right = "and >>>>>>> seven\n";
    let (l, bs, be, r) = make_conflict_markers(base, left, right);
    assert_eq!(l.len(), bs.len());
    assert_eq!(bs.len(), be.len());
    assert_eq!(be.len(), r.len());
    assert!(l.len() >= 7);
    let all = format!("{base}{left}{right}");
    assert!(!all.contains(&l));
    assert!(!all.contains(&bs));
    assert!(!all.contains(&be));
    assert!(!all.contains(&r));
    // Twelve pipes force a marker of at least thirteen characters.
    assert!(l.len() >= 13);

    let (l2, _, _, r2) = make_conflict_markers("plain\n", "text\n", "here\n");
    assert_eq!(l2, "<<<<<<<".to_string());
    assert_eq!(r2, ">>>>>>>".to_string());

    // A run that spans the boundary between two of the texts counts as one
    // run of their concatenation.
    let (l3, _, _, _) = make_conflict_markers("x<<<<", "<<<<y", "z");
    assert_eq!(l3.len(), 9);

    // Exactly seven markers in the content force a length of eight.
    let (_, _, be4, _) = make_conflict_markers("a=======b\n", "c\n", "d\n");
    assert_eq!(be4, "========".to_string());
}

#[test]
fn test_create_diff_simple() {
    let old = "foo\ncommon1\ncommon2\nbar\n";
    let new = "qux1\ncommon1\ncommon2\nqux2\n";
    let sections = create_diff(old, new);
    assert_eq!(
        sections,
        vec![
            Section::Changed {
                lines: vec![
                    scl(false, ChangeType::Removed, "foo\n"),
                    scl(false, ChangeType::Added, "qux1\n"),
                ],
            },
            Section::Unchanged {
                lines: vec!["common1\n".to_string(), "common2\n".to_string()],
            },
            Section::Changed {
                lines: vec![
                    scl(false, ChangeType::Removed, "bar\n"),
                    scl(false, ChangeType::Added, "qux2\n"),
                ],
            },
        ]
    );

    // Reconstructing each side from the sections gives the input back.
    let mut old_side = String::new();
    let mut new_side = String::new();
    for section in &sections {
        match section {
            Section::Unchanged { lines } => {
                for line in lines {
                    old_side.push_str(line);
                    new_side.push_str(line);
                }
            }
            Section::Changed { lines } => {
                for line in lines {
                    match line.change_type {
                        ChangeType::Removed => old_side.push_str(&line.line),
                        ChangeType::Added => new_side.push_str(&line.line),
                    }
                }
            }
            _ => unreachable!(),
        }
    }
    assert_eq!(old_side, old);
    assert_eq!(new_side, new);
}

#[test]
fn test_create_diff_no_trailing_newline() {
    let sections = create_diff("a\nb", "a\nc");
    assert_eq!(
        sections,
        vec![
            Section::Unchanged {
                lines: vec!["a\n".to_string()],
            },
            Section::Changed {
                lines: vec![
                    scl(false, ChangeType::Removed, "b"),
                    scl(false, ChangeType::Added, "c"),
                ],
            },
        ]
    );
}

#[test]
fn test_create_diff_equal_inputs() {
    assert_eq!(create_diff("same\n", "same\n"), Vec::new());
    assert_eq!(create_diff("", ""), Vec::new());
}

#[test]
fn test_create_merge_clean() {
    let sections = create_merge("base\n", "base\n", "other\n");
    assert_eq!(sections, Vec::new());
}

#[test]
fn test_parse_merge_sections_direct() {
    let text = "one\n<<<<<<< ours\nleft\n||||||| base\nmiddle\n=======\nright\n>>>>>>> theirs\ntwo\n";
    let sections = parse_merge_sections(text, 7);
    assert_eq!(
        sections,
        vec![
            Section::Unchanged {
                lines: vec!["one\n".to_string()],
            },
            Section::Changed {
                lines: vec![
                    scl(false, ChangeType::Added, "left\n"),
                    scl(false, ChangeType::Removed, "middle\n"),
                    scl(false, ChangeType::Added, "right\n"),
                ],
            },
            Section::Unchanged {
                lines: vec!["two\n".to_string()],
            },
        ]
    );

    // An unterminated conflict is discarded.
    let unterminated = "one\n<<<<<<< ours\nleft\n";
    let sections = parse_merge_sections(unterminated, 7);
    assert_eq!(
        sections,
        vec![Section::Unchanged {
            lines: vec!["one\n".to_string()],
        }]
    );
}

#[test]
fn test_selected_contents_partial_new_file() {
    let file = File {
        old_path: None,
        path: "new".to_string(),
        file_mode: FileMode::Absent,
        sections: vec![
            Section::FileMode {
                is_checked: true,
                mode: FileMode::Unix(0o100644),
            },
            Section::Changed {
                lines: vec![
                    scl(false, ChangeType::Added, "first\n"),
                    scl(true, ChangeType::Added, "second\n"),
                ],
            },
        ],
    };
    let (selected, unselected) = file.get_selected_contents();
    assert_eq!(selected.file_mode, FileMode::Unix(0o100644));
    assert_eq!(
        selected.contents,
        SelectedContents::Text {
            contents: "second\n".to_string(),
        }
    );
    assert_eq!(unselected.file_mode, FileMode::Absent);
    assert_eq!(
        unselected.contents,
        SelectedContents::Text {
            contents: "first\n".to_string(),
        }
    );
}

#[test]
fn test_selected_contents_empty_file_creation() {
    // Only the mode section of an absent file is checked: the selected
    // contents are empty text, never unchanged.
    let file = File {
        old_path: None,
        path: "new".to_string(),
        file_mode: FileMode::Absent,
        sections: vec![Section::FileMode {
            is_checked: true,
            mode: FileMode::Unix(0o100644),
        }],
    };
    let (selected, _unselected) = file.get_selected_contents();
    assert_eq!(selected.file_mode, FileMode::Unix(0o100644));
    assert_eq!(
        selected.contents,
        SelectedContents::Text {
            contents: String::new(),
        }
    );
}

#[test]
fn test_selected_contents_empty_existing_file() {
    // Unselecting every added line of an existing file empties it rather
    // than reporting it unchanged.
    let file = plain_file(vec![Section::Changed {
        lines: vec![scl(true, ChangeType::Removed, "only\n")],
    }]);
    let (selected, unselected) = file.get_selected_contents();
    assert_eq!(
        selected.contents,
        SelectedContents::Text {
            contents: String::new(),
        }
    );
    assert_eq!(
        unselected.contents,
        SelectedContents::Text {
            contents: "only\n".to_string(),
        }
    );
}

#[test]
fn test_classify_file_bytes() {
    let text = classify_file_bytes(b"hello".to_vec());
    assert_eq!(
        text,
        FileContents::Text {
            contents: "hello".to_string(),
            hash: "aaf4c61ddcc5e8a2dabede0f3b482cd9aea9434d".to_string(),
            num_bytes: 5,
        }
    );

    let empty = classify_file_bytes(Vec::new());
    assert_eq!(
        empty,
        FileContents::Text {
            contents: String::new(),
            hash: "da39a3ee5e6b4b0d3255bfef95601890afd80709".to_string(),
            num_bytes: 0,
        }
    );

    let with_nul = classify_file_bytes(vec![b'a', 0, b'b']);
    match with_nul {
        FileContents::Binary { num_bytes, .. } => assert_eq!(num_bytes, 3),
        other => panic!("expected binary contents, got {other:?}"),
    }

    let invalid_utf8 = classify_file_bytes(vec![0xff, 0xfe]);
    assert!(matches!(invalid_utf8, FileContents::Binary { .. }));
}

#[test]
fn test_classify_mode() {
    assert_eq!(classify_mode(false, false, None), FileMode::Absent);
    assert_eq!(classify_mode(true, true, None), FileMode::Unix(0o120000));
    assert_eq!(
        classify_mode(true, false, Some(0o755)),
        FileMode::Unix(0o100755)
    );
    assert_eq!(
        classify_mode(true, false, Some(0o644)),
        FileMode::Unix(0o100644)
    );
    // The user-execute bit alone decides.
    assert_eq!(
        classify_mode(true, false, Some(0o100)),
        FileMode::Unix(0o100755)
    );
    assert_eq!(
        classify_mode(true, false, Some(0o011)),
        FileMode::Unix(0o100644)
    );
    assert_eq!(classify_mode(true, false, None), FileMode::Unix(0o100644));
}

#[test]
fn test_make_binary_description() {
    assert_eq!(
        make_binary_description("abc123", 123),
        "abc123 (123 bytes)".to_string()
    );
    assert_eq!(make_binary_description("d", 0), "d (0 bytes)".to_string());
}

#[test]
fn test_u64_to_string() {
    assert_eq!(u64_to_string(0), "0".to_string());
    assert_eq!(u64_to_string(7), "7".to_string());
    assert_eq!(u64_to_string(456), "456".to_string());
    assert_eq!(u64_to_string(u64::MAX), "18446744073709551615".to_string());
}

#[test]
fn test_split_lines() {
    let lines = split_lines("a\nbc\n\nd");
    assert_eq!(
        lines,
        vec![
            "a\n".to_string(),
            "bc\n".to_string(),
            "\n".to_string(),
            "d".to_string(),
        ]
    );
    assert_eq!(split_lines(""), Vec::<String>::new());
    assert_eq!(split_lines("x\n"), vec!["x\n".to_string()]);
}

#[test]
fn test_paths() {
    assert_eq!(join_paths("", "foo"), "foo".to_string());
    assert_eq!(join_paths("root", "foo"), "root/foo".to_string());
    assert_eq!(join_paths("root", ""), "root".to_string());
    assert_eq!(
        strip_path_prefix("left/foo", "left"),
        Some("foo".to_string())
    );
    assert_eq!(strip_path_prefix("left", "left"), Some(String::new()));
    assert_eq!(strip_path_prefix("leftfoo", "left"), None);
    assert_eq!(strip_path_prefix("right/foo", "left"), None);
    assert_eq!(parent_path("a/b/c"), Some("a/b".to_string()));
    assert_eq!(parent_path("a"), Some(String::new()));
    assert_eq!(parent_path(""), None);
}

#[test]
fn test_dir_diff_paths_union() {
    let filesystem = TestFilesystem::new(vec![
        ("left/b".to_string(), file_info("1\n".to_string())),
        ("right/a".to_string(), file_info("2\n".to_string())),
        ("left/a".to_string(), file_info("3\n".to_string())),
        ("right/c/d".to_string(), file_info("4\n".to_string())),
        ("right/b".to_string(), file_info("5\n".to_string())),
    ]);
    let paths = filesystem
        .read_dir_diff_paths(&"left".to_string(), &"right".to_string())
        .unwrap();
    assert_eq!(
        paths,
        vec![
            "a".to_string(),
            "b".to_string(),
            "c/d".to_string(),
        ]
    );
}

#[test]
fn test_dir_diff_mode() {
    let mut filesystem = TestFilesystem::new(vec![
        ("left/foo".to_string(), file_info("old\n".to_string())),
        ("right/foo".to_string(), file_info("new\n".to_string())),
        ("right/extra".to_string(), file_info("added\n".to_string())),
    ]);
    let scm_record::DiffContext {
        mut files,
        write_root,
    } = process_opts(
        &filesystem,
        &Opts {
            dir_diff: true,
            left: "left".to_string(),
            right: "right".to_string(),
            base: None,
            output: None,
            read_only: false,
            dry_run: false,
        },
    )
    .unwrap();
    assert_eq!(write_root, "right".to_string());
    let shown: Vec<String> = files.iter().map(|f| f.path.clone()).collect();
    assert_eq!(shown, vec!["extra".to_string(), "foo".to_string()]);

    scm_record::select_all(&mut files);
    apply_changes(
        &mut filesystem,
        &write_root,
        RecordState {
            is_read_only: false,
            commits: Vec::new(),
            files,
        },
    )
    .unwrap();
    assert_eq!(
        filesystem.read_file_info(&"right/foo".to_string()).unwrap(),
        file_info("new\n".to_string())
    );
    assert_eq!(
        filesystem
            .read_file_info(&"right/extra".to_string())
            .unwrap(),
        file_info("added\n".to_string())
    );
}

#[test]
fn test_apply_read_only_changes_nothing() {
    let mut filesystem = TestFilesystem::new(vec![
        ("left".to_string(), file_info("old\n".to_string())),
        ("right".to_string(), file_info("new\n".to_string())),
    ]);
    let mut file = File {
        old_path: Some("left".to_string()),
        path: "right".to_string(),
        file_mode: FileMode::Unix(0o100644),
        sections: vec![Section::Changed {
            lines: vec![
                scl(false, ChangeType::Removed, "old\n"),
                scl(false, ChangeType::Added, "new\n"),
            ],
        }],
    };
    file.set_checked(true);
    let result = apply_changes(
        &mut filesystem,
        &String::new(),
        RecordState {
            is_read_only: true,
            commits: Vec::new(),
            files: vec![file],
        },
    );
    assert!(result.is_ok());
    assert_eq!(
        filesystem.read_file_info(&"right".to_string()).unwrap(),
        file_info("new\n".to_string())
    );
    assert_eq!(
        filesystem.read_file_info(&"left".to_string()).unwrap(),
        file_info("old\n".to_string())
    );
}

#[test]
fn test_apply_binary_replacement() {
    let binary_info = FileInfo {
        file_mode: FileMode::Unix(0o100644),
        contents: FileContents::Binary {
            hash: "abc123".to_string(),
            num_bytes: 123,
        },
    };
    let mut filesystem = TestFilesystem::new(vec![("old_bin".to_string(), binary_info.clone())]);
    let file = File {
        old_path: Some("old_bin".to_string()),
        path: "new_bin".to_string(),
        file_mode: FileMode::Unix(0o100644),
        sections: vec![Section::Binary {
            is_checked: true,
            old_description: Some("abc123 (123 bytes)".to_string()),
            new_description: Some("def456 (456 bytes)".to_string()),
        }],
    };

    // Checked: the old file is copied over the new path.
    apply_changes(
        &mut filesystem,
        &String::new(),
        RecordState {
            is_read_only: false,
            commits: Vec::new(),
            files: vec![file.clone()],
        },
    )
    .unwrap();
    assert_eq!(
        filesystem.read_file_info(&"new_bin".to_string()).unwrap(),
        binary_info
    );

    // Unchecked: applying is a no-op.
    let mut unchecked = file;
    unchecked.set_checked(false);
    let mut filesystem2 = TestFilesystem::new(vec![("old_bin".to_string(), binary_info)]);
    apply_changes(
        &mut filesystem2,
        &String::new(),
        RecordState {
            is_read_only: false,
            commits: Vec::new(),
            files: vec![unchecked],
        },
    )
    .unwrap();
    assert_eq!(
        filesystem2.read_file_info(&"new_bin".to_string()).unwrap(),
        FileInfo {
            file_mode: FileMode::Absent,
            contents: FileContents::Absent,
        }
    );
}

#[test]
fn test_apply_stops_at_first_failure() {
    // The second file copies its binary contents from a directory, which the
    // in-memory filesystem refuses: the first file's write must have
    // happened, the third file's must not.
    let mut filesystem = TestFilesystem::new(vec![(
        "dir/inner".to_string(),
        file_info("x\n".to_string()),
    )]);
    let write = |path: &str, line: &str| File {
        old_path: None,
        path: path.to_string(),
        file_mode: FileMode::Absent,
        sections: vec![
            Section::FileMode {
                is_checked: true,
                mode: FileMode::Unix(0o100644),
            },
            Section::Changed {
                lines: vec![scl(true, ChangeType::Added, line)],
            },
        ],
    };
    let failing = File {
        old_path: Some("dir".to_string()),
        path: "copied".to_string(),
        file_mode: FileMode::Unix(0o100644),
        sections: vec![Section::Binary {
            is_checked: true,
            old_description: None,
            new_description: None,
        }],
    };
    let result = apply_changes(
        &mut filesystem,
        &String::new(),
        RecordState {
            is_read_only: false,
            commits: Vec::new(),
            files: vec![write("first", "a\n"), failing, write("third", "c\n")],
        },
    );
    assert_eq!(
        result.unwrap_err(),
        Error::ReadFile {
            path: "dir".to_string(),
            source: "is a directory".to_string(),
        }
    );
    assert_eq!(
        filesystem.read_file_info(&"first".to_string()).unwrap(),
        file_info("a\n".to_string())
    );
    assert_eq!(
        filesystem.read_file_info(&"third".to_string()).unwrap(),
        FileInfo {
            file_mode: FileMode::Absent,
            contents: FileContents::Absent,
        }
    );
}

#[test]
fn test_merge_missing_and_binary_inputs() {
    let filesystem = TestFilesystem::new(vec![
        ("left".to_string(), file_info("l\n".to_string())),
        ("right".to_string(), file_info("r\n".to_string())),
    ]);
    let result = process_opts(
        &filesystem,
        &Opts {
            dir_diff: false,
            left: "left".to_string(),
            right: "right".to_string(),
            base: Some("base".to_string()),
            output: Some("output".to_string()),
            read_only: false,
            dry_run: false,
        },
    );
    assert_eq!(
        result.unwrap_err(),
        Error::MissingMergeFile {
            path: "base".to_string(),
        }
    );

    let binary_base = TestFilesystem::new(vec![
        (
            "base".to_string(),
            FileInfo {
                file_mode: FileMode::Unix(0o100644),
                contents: FileContents::Binary {
                    hash: "ff".to_string(),
                    num_bytes: 2,
                },
            },
        ),
        ("left".to_string(), file_info("l\n".to_string())),
        ("right".to_string(), file_info("r\n".to_string())),
    ]);
    let result = process_opts(
        &binary_base,
        &Opts {
            dir_diff: false,
            left: "left".to_string(),
            right: "right".to_string(),
            base: Some("base".to_string()),
            output: Some("output".to_string()),
            read_only: false,
            dry_run: false,
        },
    );
    assert_eq!(
        result.unwrap_err(),
        Error::BinaryMergeFile {
            path: "base".to_string(),
        }
    );
}

#[test]
fn test_dry_run_plan() {
    let delete_file = File {
        old_path: None,
        path: "gone".to_string(),
        file_mode: FileMode::Unix(0o100644),
        sections: vec![
            Section::FileMode {
                is_checked: true,
                mode: FileMode::Absent,
            },
            Section::Changed {
                lines: vec![scl(true, ChangeType::Removed, "bye\n")],
            },
        ],
    };
    let update_file = File {
        old_path: None,
        path: "kept".to_string(),
        file_mode: FileMode::Absent,
        sections: vec![
            Section::FileMode {
                is_checked: true,
                mode: FileMode::Unix(0o100644),
            },
            Section::Changed {
                lines: vec![scl(true, ChangeType::Added, "hi\n")],
            },
        ],
    };
    // A file with no checkable sections and no lines stays unchanged; one
    // with context lines is rewritten with those lines.
    let unchanged_file = File {
        old_path: None,
        path: "same".to_string(),
        file_mode: FileMode::Unix(0o100644),
        sections: Vec::new(),
    };
    let plan = dry_run_plan(
        &"root".to_string(),
        &RecordState {
            is_read_only: false,
            commits: Vec::new(),
            files: vec![delete_file, update_file, unchanged_file],
        },
    );
    assert_eq!(
        plan,
        vec![
            PlanEntry::Delete {
                path: "root/gone".to_string(),
            },
            PlanEntry::ChangeMode {
                path: "root/kept".to_string(),
                old_mode: FileMode::Absent,
                new_mode: FileMode::Unix(0o100644),
            },
            PlanEntry::UpdateText {
                path: "root/kept".to_string(),
                contents: "hi\n".to_string(),
            },
            PlanEntry::LeaveUnchanged {
                path: "root/same".to_string(),
            },
        ]
    );
}

#[test]
fn test_tristate_from_bool() {
    assert_eq!(Tristate::from_bool(true), Tristate::True);
    assert_eq!(Tristate::from_bool(false), Tristate::False);
}

#[test]
fn test_integer_conversions() {
    assert_eq!(5usize.unwrap_isize(), 5isize);
    assert_eq!(70000usize.clamp_into_u16(), u16::MAX);
    assert_eq!(9usize.clamp_into_u16(), 9u16);
    assert_eq!(5isize.unwrap_usize(), 5usize);
    assert_eq!((-3isize).clamp_into_u16(), 0u16);
    assert_eq!(IsizeExt::clamp_into_u16(90000isize), u16::MAX);
    assert_eq!((-9isize).clamp_into_usize(), 0usize);
    assert_eq!(17isize.clamp_into_usize(), 17usize);
}
