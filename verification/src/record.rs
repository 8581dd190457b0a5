//! Building the files to review from a filesystem, and applying the
//! reviewed selection back to it.

use vstd::prelude::*;

use crate::diff::{
    create_diff, make_section_changed_lines, plain_diff_sections, sections_new_text,
    sections_old_text,
};
use crate::fs::{
    dir_diff_union, paths_as_set, spec_lookup, spec_text_file_info, Error, FileContents,
    FileContentsV, FileInfo, FsModel, Filesystem, Result,
};
use crate::helpers::{make_binary_description, spec_binary_description};
use crate::merge::{create_merge, markers_free, merge3_of, push_section, spec_merge_sections};
use crate::paths::{spec_join, spec_parent};
use crate::strutil::{lex_lt, spec_split_lines};
use crate::types::{
    ChangeType, File, FileMode, FileV, LineV, RecordState, Section, SectionV, SelectedContentsV,
};

verus! {

/// The changed-section lines for a file that is entirely added or removed.
pub open spec fn whole_file_lines(contents: Seq<char>, change_type: ChangeType) -> Seq<LineV> {
    spec_split_lines(contents).map_values(
        |l: Seq<char>| (LineV { is_checked: false, change_type, line: l }),
    )
}

/// The leading file mode section of a created file: present exactly when the
/// two sides' modes differ, unchecked, carrying the right-hand mode.
pub open spec fn mode_prefix(left_mode: FileMode, right_mode: FileMode) -> Seq<SectionV> {
    if left_mode != right_mode {
        seq![SectionV::FileMode { is_checked: false, mode: right_mode }]
    } else {
        Seq::empty()
    }
}

/// The content sections of a created file, by the two sides' contents: a
/// wholly added or removed text, a text diff, or a binary change with
/// descriptions; the text diff is pinned down by what reconstructs from it.
pub open spec fn content_sections(
    lc: FileContentsV,
    rc: FileContentsV,
    body: Seq<SectionV>,
) -> bool {
    match (lc, rc) {
        (FileContentsV::Absent, FileContentsV::Absent) => body == Seq::<SectionV>::empty(),
        (FileContentsV::Absent, FileContentsV::Text { contents, .. }) => body == seq![
            SectionV::Changed { lines: whole_file_lines(contents, ChangeType::Added) },
        ],
        (FileContentsV::Absent, FileContentsV::Binary { hash, num_bytes }) => body == seq![
            SectionV::Binary {
                is_checked: false,
                old_description: None,
                new_description: Some(spec_binary_description(hash, num_bytes)),
            },
        ],
        (FileContentsV::Text { contents, .. }, FileContentsV::Absent) => body == seq![
            SectionV::Changed { lines: whole_file_lines(contents, ChangeType::Removed) },
        ],
        (
            FileContentsV::Text { contents: old_contents, .. },
            FileContentsV::Text { contents: new_contents, .. },
        ) => {
            &&& body == crate::diff::spec_fold_diff(
                crate::diff::diff_of(
                    old_contents,
                    new_contents,
                    crate::diff::spec_context_len(old_contents, new_contents),
                ),
            )
            &&& (old_contents == new_contents ==> body == Seq::<SectionV>::empty())
            &&& (old_contents != new_contents ==> {
                &&& plain_diff_sections(body)
                &&& crate::diff::folded_diff_sections(body)
                &&& sections_old_text(body) == old_contents
                &&& sections_new_text(body) == new_contents
            })
        },
        (FileContentsV::Binary { hash, num_bytes }, FileContentsV::Absent) => body == seq![
            SectionV::Binary {
                is_checked: false,
                old_description: Some(spec_binary_description(hash, num_bytes)),
                new_description: None,
            },
        ],
        (
            FileContentsV::Text { hash: old_hash, num_bytes: old_num_bytes, .. },
            FileContentsV::Binary { hash: new_hash, num_bytes: new_num_bytes },
        ) => body == seq![
            SectionV::Binary {
                is_checked: false,
                old_description: Some(spec_binary_description(old_hash, old_num_bytes)),
                new_description: Some(spec_binary_description(new_hash, new_num_bytes)),
            },
        ],
        (
            FileContentsV::Binary { hash: old_hash, num_bytes: old_num_bytes },
            FileContentsV::Text { hash: new_hash, num_bytes: new_num_bytes, .. },
        ) => body == seq![
            SectionV::Binary {
                is_checked: false,
                old_description: Some(spec_binary_description(old_hash, old_num_bytes)),
                new_description: Some(spec_binary_description(new_hash, new_num_bytes)),
            },
        ],
        (
            FileContentsV::Binary { hash: old_hash, num_bytes: old_num_bytes },
            FileContentsV::Binary { hash: new_hash, num_bytes: new_num_bytes },
        ) => body == seq![
            SectionV::Binary {
                is_checked: false,
                old_description: Some(spec_binary_description(old_hash, old_num_bytes)),
                new_description: Some(spec_binary_description(new_hash, new_num_bytes)),
            },
        ],
    }
}

/// What a file built from two paths looks like: both sides are read from the
/// filesystem model, the display path and old path are set from the display
/// paths, the file mode is the left side's, and the sections are a possible
/// mode section followed by the content sections.
pub open spec fn file_create_ok(
    fs: FsModel,
    left_path: Seq<char>,
    left_disp: Seq<char>,
    right_path: Seq<char>,
    right_disp: Seq<char>,
    f: FileV,
) -> bool {
    match (spec_lookup(fs, left_path), spec_lookup(fs, right_path)) {
        (Some(li), Some(ri)) => {
            &&& f.old_path == (if left_disp != right_disp {
                Some(left_disp)
            } else {
                None::<Seq<char>>
            })
            &&& f.path == right_disp
            &&& f.file_mode == li.file_mode
            &&& exists|body: Seq<SectionV>|
                {
                    &&& #[trigger] content_sections(li.contents, ri.contents, body)
                    &&& f.sections == mode_prefix(li.file_mode, ri.file_mode) + body
                }
        },
        _ => false,
    }
}

/// Build the reviewable file of a two-sided comparison: both paths are read
/// from the filesystem, their mode difference becomes a file mode section,
/// and their contents become changed, unchanged, or binary sections.
pub fn create_file<F: Filesystem>(
    filesystem: &F,
    left_path: String,
    left_display_path: String,
    right_path: String,
    right_display_path: String,
) -> (r: Result<File>)
    ensures
        r matches Ok(f) ==> file_create_ok(
            filesystem.fs(),
            left_path@,
            left_display_path@,
            right_path@,
            right_display_path@,
            f@,
        ),
        r is Err ==> (spec_lookup(filesystem.fs(), left_path@) is None || spec_lookup(
            filesystem.fs(),
            right_path@,
        ) is None),
        spec_lookup(filesystem.fs(), left_path@) is None ==> (r matches Err(e) && (e matches
            Error::ReadFile { path: p, source: s } && p@ == left_path@ && s@
            == "is a directory"@)),
        spec_lookup(filesystem.fs(), left_path@) is Some && spec_lookup(
            filesystem.fs(),
            right_path@,
        ) is None ==> (r matches Err(e) && (e matches Error::ReadFile { path: p, source: s } && p@
            == right_path@ && s@ == "is a directory"@)),
        spec_lookup(filesystem.fs(), left_path@) is Some && spec_lookup(
            filesystem.fs(),
            right_path@,
        ) is Some ==> r is Ok,
{
    let left_info = match filesystem.read_file_info(&left_path) {
        Ok(info) => info,
        Err(e) => {
            return Err(e);
        },
    };
    let right_info = match filesystem.read_file_info(&right_path) {
        Ok(info) => info,
        Err(e) => {
            return Err(e);
        },
    };
    let FileInfo { file_mode: left_file_mode, contents: left_contents } = left_info;
    let FileInfo { file_mode: right_file_mode, contents: right_contents } = right_info;
    let ghost lc = left_contents@;
    let ghost rc = right_contents@;

    let mut sections: Vec<Section> = Vec::new();
    if !(left_file_mode == right_file_mode) {
        push_section(&mut sections, Section::FileMode { is_checked: false, mode: right_file_mode });
    }
    proof {
        assert(Seq::<Section>::empty().map_values(|s: Section| s@) =~= Seq::<SectionV>::empty());
        assert(sections@.map_values(|s: Section| s@) =~= mode_prefix(
            left_file_mode,
            right_file_mode,
        ));
    }
    let ghost prefix = sections@.map_values(|s: Section| s@);

    match (left_contents, right_contents) {
        (FileContents::Absent, FileContents::Absent) => {
            proof {
                assert(content_sections(lc, rc, Seq::<SectionV>::empty()));
                assert(prefix + Seq::<SectionV>::empty() =~= prefix);
            }
        },
        (FileContents::Absent, FileContents::Text { contents, .. }) => {
            let lines = make_section_changed_lines(contents.as_str(), ChangeType::Added);
            push_section(&mut sections, Section::Changed { lines });
            proof {
                let body = seq![
                    SectionV::Changed { lines: whole_file_lines(contents@, ChangeType::Added) },
                ];
                assert(content_sections(lc, rc, body));
                assert(prefix + body =~= prefix.push(body[0]));
            }
        },
        (FileContents::Absent, FileContents::Binary { hash, num_bytes }) => {
            let desc = make_binary_description(hash.as_str(), num_bytes);
            push_section(
                &mut sections,
                Section::Binary {
                    is_checked: false,
                    old_description: None,
                    new_description: Some(desc),
                },
            );
            proof {
                let body = seq![
                    SectionV::Binary {
                        is_checked: false,
                        old_description: None,
                        new_description: Some(spec_binary_description(hash@, num_bytes)),
                    },
                ];
                assert(content_sections(lc, rc, body));
                assert(prefix + body =~= prefix.push(body[0]));
            }
        },
        (FileContents::Text { contents, .. }, FileContents::Absent) => {
            let lines = make_section_changed_lines(contents.as_str(), ChangeType::Removed);
            push_section(&mut sections, Section::Changed { lines });
            proof {
                let body = seq![
                    SectionV::Changed { lines: whole_file_lines(contents@, ChangeType::Removed) },
                ];
                assert(content_sections(lc, rc, body));
                assert(prefix + body =~= prefix.push(body[0]));
            }
        },
        (
            FileContents::Text { contents: old_contents, .. },
            FileContents::Text { contents: new_contents, .. },
        ) => {
            let mut body = create_diff(old_contents.as_str(), new_contents.as_str());
            let ghost body_vec = body@;
            let ghost bodyv = body@.map_values(|s: Section| s@);
            let ghost pre_secs = sections@;
            let ghost pre_len = sections@.len();
            sections.append(&mut body);
            proof {
                let post = sections@.map_values(|s: Section| s@);
                assert(sections@ == pre_secs + body_vec);
                assert forall|j: int| 0 <= j < post.len() implies #[trigger] post[j] == (prefix
                    + bodyv)[j] by {
                    assert(post[j] == sections@[j]@);
                    if j < pre_len {
                        assert(sections@[j] == pre_secs[j]);
                        assert(prefix[j] == pre_secs[j]@);
                    } else {
                        assert(sections@[j] == body_vec[j - pre_len]);
                        assert(bodyv[j - pre_len] == body_vec[j - pre_len]@);
                    }
                }
                assert(post =~= prefix + bodyv);
                if old_contents@ == new_contents@ {
                    assert(bodyv =~= Seq::<SectionV>::empty());
                }
                assert(content_sections(lc, rc, bodyv));
            }
        },
        (FileContents::Binary { hash, num_bytes }, FileContents::Absent) => {
            let desc = make_binary_description(hash.as_str(), num_bytes);
            push_section(
                &mut sections,
                Section::Binary {
                    is_checked: false,
                    old_description: Some(desc),
                    new_description: None,
                },
            );
            proof {
                let body = seq![
                    SectionV::Binary {
                        is_checked: false,
                        old_description: Some(spec_binary_description(hash@, num_bytes)),
                        new_description: None,
                    },
                ];
                assert(content_sections(lc, rc, body));
                assert(prefix + body =~= prefix.push(body[0]));
            }
        },
        (
            FileContents::Text { hash: old_hash, num_bytes: old_num_bytes, .. },
            FileContents::Binary { hash: new_hash, num_bytes: new_num_bytes },
        ) => {
            let old_desc = make_binary_description(old_hash.as_str(), old_num_bytes);
            let new_desc = make_binary_description(new_hash.as_str(), new_num_bytes);
            push_section(
                &mut sections,
                Section::Binary {
                    is_checked: false,
                    old_description: Some(old_desc),
                    new_description: Some(new_desc),
                },
            );
            proof {
                let body = seq![
                    SectionV::Binary {
                        is_checked: false,
                        old_description: Some(spec_binary_description(old_hash@, old_num_bytes)),
                        new_description: Some(spec_binary_description(new_hash@, new_num_bytes)),
                    },
                ];
                assert(content_sections(lc, rc, body));
                assert(prefix + body =~= prefix.push(body[0]));
            }
        },
        (
            FileContents::Binary { hash: old_hash, num_bytes: old_num_bytes },
            FileContents::Text { hash: new_hash, num_bytes: new_num_bytes, .. },
        ) => {
            let old_desc = make_binary_description(old_hash.as_str(), old_num_bytes);
            let new_desc = make_binary_description(new_hash.as_str(), new_num_bytes);
            push_section(
                &mut sections,
                Section::Binary {
                    is_checked: false,
                    old_description: Some(old_desc),
                    new_description: Some(new_desc),
                },
            );
            proof {
                let body = seq![
                    SectionV::Binary {
                        is_checked: false,
                        old_description: Some(spec_binary_description(old_hash@, old_num_bytes)),
                        new_description: Some(spec_binary_description(new_hash@, new_num_bytes)),
                    },
                ];
                assert(content_sections(lc, rc, body));
                assert(prefix + body =~= prefix.push(body[0]));
            }
        },
        (
            FileContents::Binary { hash: old_hash, num_bytes: old_num_bytes },
            FileContents::Binary { hash: new_hash, num_bytes: new_num_bytes },
        ) => {
            let old_desc = make_binary_description(old_hash.as_str(), old_num_bytes);
            let new_desc = make_binary_description(new_hash.as_str(), new_num_bytes);
            push_section(
                &mut sections,
                Section::Binary {
                    is_checked: false,
                    old_description: Some(old_desc),
                    new_description: Some(new_desc),
                },
            );
            proof {
                let body = seq![
                    SectionV::Binary {
                        is_checked: false,
                        old_description: Some(spec_binary_description(old_hash@, old_num_bytes)),
                        new_description: Some(spec_binary_description(new_hash@, new_num_bytes)),
                    },
                ];
                assert(content_sections(lc, rc, body));
                assert(prefix + body =~= prefix.push(body[0]));
            }
        },
    }

    let old_path = if !(left_display_path == right_display_path) {
        Some(left_display_path)
    } else {
        None
    };
    Ok(File { old_path, path: right_display_path, file_mode: left_file_mode, sections })
}

/// Whether the three merge inputs, when they are all text, are together
/// small enough to concatenate in memory.
pub open spec fn merge_lengths_ok(
    fs: FsModel,
    base_path: Seq<char>,
    left_path: Seq<char>,
    right_path: Seq<char>,
) -> bool {
    match (spec_lookup(fs, base_path), spec_lookup(fs, left_path), spec_lookup(fs, right_path)) {
        (Some(bi), Some(li), Some(ri)) => match (bi.contents, li.contents, ri.contents) {
            (
                FileContentsV::Text { contents: bc, .. },
                FileContentsV::Text { contents: lc, .. },
                FileContentsV::Text { contents: rc, .. },
            ) => bc.len() + lc.len() + rc.len() < usize::MAX,
            _ => true,
        },
        _ => true,
    }
}

/// The precondition failure of a three-way merge, if any: the first absent
/// input makes a missing-file error, then the first binary input makes a
/// binary-file error; the flag is true for a missing file.
pub open spec fn merge_input_error(
    bc: FileContentsV,
    lc: FileContentsV,
    rc: FileContentsV,
    base_path: Seq<char>,
    left_path: Seq<char>,
    right_path: Seq<char>,
) -> Option<(bool, Seq<char>)> {
    if bc is Absent {
        Some((true, base_path))
    } else if lc is Absent {
        Some((true, left_path))
    } else if rc is Absent {
        Some((true, right_path))
    } else if bc is Binary {
        Some((false, base_path))
    } else if lc is Binary {
        Some((false, left_path))
    } else if rc is Binary {
        Some((false, right_path))
    } else {
        None
    }
}

/// What a merge preview file looks like: the three inputs are text in the
/// filesystem model, the display paths name the base and the output, the
/// mode is the left side's, and the sections are a merge of the three texts
/// under collision-free conflict markers.
pub open spec fn merge_file_ok(
    fs: FsModel,
    base_path: Seq<char>,
    left_path: Seq<char>,
    right_path: Seq<char>,
    output_path: Seq<char>,
    f: FileV,
) -> bool {
    match (spec_lookup(fs, base_path), spec_lookup(fs, left_path), spec_lookup(fs, right_path)) {
        (Some(bi), Some(li), Some(ri)) => match (bi.contents, li.contents, ri.contents) {
            (
                FileContentsV::Text { contents: bc, .. },
                FileContentsV::Text { contents: lc, .. },
                FileContentsV::Text { contents: rc, .. },
            ) => {
                &&& f.old_path == Some(base_path)
                &&& f.path == output_path
                &&& f.file_mode == li.file_mode
                &&& exists|len: nat|
                    {
                        &&& len >= 7
                        &&& #[trigger] markers_free(bc + lc + rc, len)
                        &&& f.sections == spec_merge_sections(merge3_of(bc, lc, rc, len), len)
                    }
            },
            _ => false,
        },
        _ => false,
    }
}

/// Build the reviewable file of a three-way merge: the base, left, and
/// right paths must exist and hold text; their merge becomes the sections.
pub fn create_merge_file<F: Filesystem>(
    filesystem: &F,
    base_path: String,
    left_path: String,
    right_path: String,
    output_path: String,
) -> (r: Result<File>)
    requires
        merge_lengths_ok(filesystem.fs(), base_path@, left_path@, right_path@),
    ensures
        r matches Ok(f) ==> merge_file_ok(
            filesystem.fs(),
            base_path@,
            left_path@,
            right_path@,
            output_path@,
            f@,
        ),
        spec_lookup(filesystem.fs(), left_path@) is None ==> (r matches Err(e) && (e matches
            Error::ReadFile { path: p, source: s } && p@ == left_path@ && s@
            == "is a directory"@)),
        spec_lookup(filesystem.fs(), left_path@) is Some && spec_lookup(
            filesystem.fs(),
            right_path@,
        ) is None ==> (r matches Err(e) && (e matches Error::ReadFile { path: p, source: s } && p@
            == right_path@ && s@ == "is a directory"@)),
        spec_lookup(filesystem.fs(), left_path@) is Some && spec_lookup(
            filesystem.fs(),
            right_path@,
        ) is Some && spec_lookup(filesystem.fs(), base_path@) is None ==> (r matches Err(e) && (
        e matches Error::ReadFile { path: p, source: s } && p@ == base_path@ && s@
            == "is a directory"@)),
        match (
            spec_lookup(filesystem.fs(), base_path@),
            spec_lookup(filesystem.fs(), left_path@),
            spec_lookup(filesystem.fs(), right_path@),
        ) {
            (Some(bi), Some(li), Some(ri)) => match merge_input_error(
                bi.contents,
                li.contents,
                ri.contents,
                base_path@,
                left_path@,
                right_path@,
            ) {
                Some((missing, p)) => r matches Err(e) && (if missing {
                    e matches Error::MissingMergeFile { path: q } && q@ == p
                } else {
                    e matches Error::BinaryMergeFile { path: q } && q@ == p
                }),
                None => r is Ok,
            },
            _ => true,
        },
{
    let left_info = match filesystem.read_file_info(&left_path) {
        Ok(info) => info,
        Err(e) => {
            return Err(e);
        },
    };
    let right_info = match filesystem.read_file_info(&right_path) {
        Ok(info) => info,
        Err(e) => {
            return Err(e);
        },
    };
    let base_info = match filesystem.read_file_info(&base_path) {
        Ok(info) => info,
        Err(e) => {
            return Err(e);
        },
    };
    let left_file_mode = left_info.file_mode;
    match (base_info.contents, left_info.contents, right_info.contents) {
        (FileContents::Absent, _, _) => Err(Error::MissingMergeFile { path: base_path }),
        (_, FileContents::Absent, _) => Err(Error::MissingMergeFile { path: left_path }),
        (_, _, FileContents::Absent) => Err(Error::MissingMergeFile { path: right_path }),
        (FileContents::Binary { .. }, _, _) => Err(Error::BinaryMergeFile { path: base_path }),
        (_, FileContents::Binary { .. }, _) => Err(Error::BinaryMergeFile { path: left_path }),
        (_, _, FileContents::Binary { .. }) => Err(Error::BinaryMergeFile { path: right_path }),
        (
            FileContents::Text { contents: base_contents, .. },
            FileContents::Text { contents: left_contents, .. },
            FileContents::Text { contents: right_contents, .. },
        ) => {
            let sections = create_merge(
                base_contents.as_str(),
                left_contents.as_str(),
                right_contents.as_str(),
            );
            Ok(
                File {
                    old_path: Some(base_path),
                    path: output_path,
                    file_mode: left_file_mode,
                    sections,
                },
            )
        },
    }
}

/// Options for a run of the change selector.
#[derive(Clone, Debug, Eq, PartialEq)]
pub struct Opts {
    /// Instead of comparing two files, compare two directories recursively.
    pub dir_diff: bool,
    /// The left-hand file to compare, or directory in directory mode.
    pub left: String,
    /// The right-hand file to compare, or directory in directory mode.
    pub right: String,
    /// Disable all editing controls and do not write the selected contents.
    pub read_only: bool,
    /// Show what would be written, but do not write it.
    pub dry_run: bool,
    /// Render a mergetool, with this file as the base of a three-way diff.
    /// Requires an output and conflicts with directory mode.
    pub base: Option<String>,
    /// Write the resolved merge conflicts to this file.
    pub output: Option<String>,
}

/// Information about the files to display and diff.
#[derive(Clone, Debug, Eq, PartialEq)]
pub struct DiffContext {
    /// The files to diff: one entry for a single comparison or merge, one
    /// per path for a directory comparison.
    pub files: Vec<File>,
    /// When writing results, this path is prepended to each file's path. It
    /// may be empty, meaning files are overwritten in place.
    pub write_root: String,
}

/// Whether a sequence of path values is strictly increasing.
pub open spec fn sorted_path_seq(qs: Seq<Seq<char>>) -> bool {
    forall|a: int, b: int| 0 <= a < b < qs.len() ==> lex_lt(qs[a], qs[b])
}

/// The set of a sequence of path values.
pub open spec fn path_seq_set(qs: Seq<Seq<char>>) -> Set<Seq<char>> {
    Set::new(|q: Seq<char>| qs.contains(q))
}

/// Whether every file pair named by the union of relative paths under the
/// two roots can be read: neither joined path is a directory.
pub open spec fn dir_diff_readable(fs: FsModel, left: Seq<char>, right: Seq<char>) -> bool {
    forall|q: Seq<char>|
        #[trigger] dir_diff_union(fs, left, right).contains(q) ==> spec_lookup(
            fs,
            spec_join(left, q),
        ) is Some && spec_lookup(fs, spec_join(right, q)) is Some
}

/// Process the options to find the files to diff: a single comparison, a
/// recursive directory comparison, or a three-way merge.
#[verifier::loop_isolation(false)]
pub fn process_opts<F: Filesystem>(filesystem: &F, opts: &Opts) -> (r: Result<DiffContext>)
    requires
        opts.base is Some ==> opts.output is Some,
        !(opts.dir_diff && opts.base is Some),
        opts.base matches Some(b) ==> merge_lengths_ok(
            filesystem.fs(),
            b@,
            opts.left@,
            opts.right@,
        ),
    ensures
        !opts.dir_diff && opts.base is None ==> {
            &&& (r matches Ok(ctx) ==> ctx.write_root@ == Seq::<char>::empty() && ctx.files@.len()
                == 1 && file_create_ok(
                filesystem.fs(),
                opts.left@,
                opts.left@,
                opts.right@,
                opts.right@,
                ctx.files@[0]@,
            ))
            &&& (r is Ok == (spec_lookup(filesystem.fs(), opts.left@) is Some && spec_lookup(
                filesystem.fs(),
                opts.right@,
            ) is Some))
            &&& (spec_lookup(filesystem.fs(), opts.left@) is None ==> (r matches Err(e) && (
            e matches Error::ReadFile { path: p, source: s } && p@ == opts.left@ && s@
                == "is a directory"@)))
            &&& (spec_lookup(filesystem.fs(), opts.left@) is Some && spec_lookup(
                filesystem.fs(),
                opts.right@,
            ) is None ==> (r matches Err(e) && (e matches Error::ReadFile { path: p, source: s }
                && p@ == opts.right@ && s@ == "is a directory"@)))
        },
        opts.base matches Some(b) ==> {
            &&& (r matches Ok(ctx) ==> ctx.write_root@ == Seq::<char>::empty() && ctx.files@.len()
                == 1 && merge_file_ok(
                filesystem.fs(),
                b@,
                opts.left@,
                opts.right@,
                opts.output.unwrap()@,
                ctx.files@[0]@,
            ))
            &&& (r is Ok == match (
                spec_lookup(filesystem.fs(), b@),
                spec_lookup(filesystem.fs(), opts.left@),
                spec_lookup(filesystem.fs(), opts.right@),
            ) {
                (Some(bi), Some(li), Some(ri)) => merge_input_error(
                    bi.contents,
                    li.contents,
                    ri.contents,
                    b@,
                    opts.left@,
                    opts.right@,
                ) is None,
                _ => false,
            })
        },
        opts.dir_diff ==> (r matches Ok(ctx) ==> {
            &&& ctx.write_root@ == opts.right@
            &&& exists|qs: Seq<Seq<char>>|
                {
                    &&& #[trigger] sorted_path_seq(qs)
                    &&& path_seq_set(qs) == dir_diff_union(
                        filesystem.fs(),
                        opts.left@,
                        opts.right@,
                    )
                    &&& ctx.files@.len() == qs.len()
                    &&& forall|i: int|
                        0 <= i < qs.len() ==> file_create_ok(
                            filesystem.fs(),
                            spec_join(opts.left@, qs[i]),
                            qs[i],
                            spec_join(opts.right@, qs[i]),
                            qs[i],
                            #[trigger] ctx.files@[i]@,
                        )
                }
        }),
        opts.dir_diff && F::infallible() && dir_diff_readable(
            filesystem.fs(),
            opts.left@,
            opts.right@,
        ) ==> r is Ok,
{
    if !opts.dir_diff && matches!(opts.base, None) {
        let file = match create_file(
            filesystem,
            opts.left.clone(),
            opts.left.clone(),
            opts.right.clone(),
            opts.right.clone(),
        ) {
            Ok(file) => file,
            Err(e) => {
                return Err(e);
            },
        };
        let mut files: Vec<File> = Vec::new();
        files.push(file);
        return Ok(DiffContext { files, write_root: String::new() });
    }
    if opts.dir_diff {
        let display_paths = match filesystem.read_dir_diff_paths(&opts.left, &opts.right) {
            Ok(paths) => paths,
            Err(e) => {
                proof {
                    assert(!F::infallible());
                }
                return Err(e);
            },
        };
        let ghost qs = display_paths@.map_values(|s: String| s@);
        proof {
            assert forall|j: int| 0 <= j < display_paths@.len() implies #[trigger] qs[j]
                == display_paths@[j]@ by {
                assert(display_paths@.map_values(|s: String| s@)[j] == display_paths@[j]@);
            }
            assert(qs.len() == display_paths@.len());
            assert(sorted_path_seq(qs));
            assert forall|q: Seq<char>| #[trigger]
                path_seq_set(qs).contains(q) == paths_as_set(display_paths@).contains(q) by {
                if qs.contains(q) {
                    let j = choose|j: int| 0 <= j < qs.len() && qs[j] == q;
                    assert(display_paths@[j]@ == q);
                }
                if paths_as_set(display_paths@).contains(q) {
                    let j = choose|j: int|
                        0 <= j < display_paths@.len() && display_paths@[j]@ == q;
                    assert(qs[j] == q);
                }
            }
            assert(path_seq_set(qs) =~= paths_as_set(display_paths@));
        }
        let mut files: Vec<File> = Vec::new();
        let n = display_paths.len();
        let mut i: usize = 0;
        while i < n
            invariant
                i <= n,
                files@.len() == i,
                forall|j: int|
                    0 <= j < i ==> file_create_ok(
                        filesystem.fs(),
                        spec_join(opts.left@, qs[j]),
                        qs[j],
                        spec_join(opts.right@, qs[j]),
                        qs[j],
                        #[trigger] files@[j]@,
                    ),
            decreases n - i,
        {
            let display_path = &display_paths[i];
            let left_path = crate::paths::join_paths(opts.left.as_str(), display_path.as_str());
            let right_path = crate::paths::join_paths(opts.right.as_str(), display_path.as_str());
            let file = match create_file(
                filesystem,
                left_path,
                display_path.clone(),
                right_path,
                display_path.clone(),
            ) {
                Ok(file) => file,
                Err(e) => {
                    proof {
                        if dir_diff_readable(filesystem.fs(), opts.left@, opts.right@) {
                            assert(paths_as_set(display_paths@).contains(qs[i as int])) by {
                                assert(display_paths@[i as int]@ == qs[i as int]);
                            }
                            assert(dir_diff_union(
                                filesystem.fs(),
                                opts.left@,
                                opts.right@,
                            ).contains(qs[i as int]));
                            assert(false);
                        }
                    }
                    return Err(e);
                },
            };
            files.push(file);
            i = i + 1;
        }
        return Ok(DiffContext { files, write_root: opts.right.clone() });
    }
    // Merge mode: the options carry a base, and then also an output.
    let base = match &opts.base {
        Some(base) => base.clone(),
        None => {
            proof {
                assert(false);
            }
            return Err(Error::Cancelled);
        },
    };
    let output = match &opts.output {
        Some(output) => output.clone(),
        None => {
            proof {
                assert(false);
            }
            return Err(Error::Cancelled);
        },
    };
    let file = match create_merge_file(
        filesystem,
        base,
        opts.left.clone(),
        opts.right.clone(),
        output,
    ) {
        Ok(file) => file,
        Err(e) => {
            return Err(e);
        },
    };
    let mut files: Vec<File> = Vec::new();
    files.push(file);
    Ok(DiffContext { files, write_root: String::new() })
}

/// The filesystem after applying one file's selected changes on an
/// implementation `F`: a removal when the selected mode is absent, then a
/// copy for binary contents or a directory creation and write for text
/// contents, recorded with `F`'s hash. `None` stands for a copy whose source
/// cannot be read.
pub open spec fn spec_apply_one<F: Filesystem>(fs: FsModel, root: Seq<char>, f: FileV) -> Option<
    FsModel,
> {
    let sel = crate::types::spec_selection(f).0;
    let path = spec_join(root, f.path);
    let fs1 = if sel.file_mode is Absent {
        FsModel { files: fs.files.remove(path), dirs: fs.dirs }
    } else {
        fs
    };
    match sel.contents {
        SelectedContentsV::Unchanged => Some(fs1),
        SelectedContentsV::Binary { .. } => {
            let src = match f.old_path {
                Some(op) => op,
                None => path,
            };
            match spec_lookup(fs1, src) {
                Some(info) => Some(
                    FsModel { files: fs1.files.insert(path, info), dirs: fs1.dirs },
                ),
                None => None,
            }
        },
        SelectedContentsV::Text { contents } => {
            let fs2 = match spec_parent(path) {
                Some(d) => FsModel { files: fs1.files, dirs: fs1.dirs.insert(d) },
                None => fs1,
            };
            Some(
                FsModel {
                    files: fs2.files.insert(
                        path,
                        spec_text_file_info(contents, F::written_hash(contents)),
                    ),
                    dirs: fs2.dirs,
                },
            )
        },
    }
}

/// The filesystem after applying every file's selected changes, in order.
pub open spec fn spec_apply_all<F: Filesystem>(
    fs: FsModel,
    root: Seq<char>,
    files: Seq<FileV>,
) -> Option<FsModel>
    decreases files.len(),
{
    if files.len() == 0 {
        Some(fs)
    } else {
        match spec_apply_all::<F>(fs, root, files.drop_last()) {
            Some(m) => spec_apply_one::<F>(m, root, files.last()),
            None => None,
        }
    }
}

/// A prefix of an applicable plan is applicable: when every file's
/// operations go through, so do the first `i` files' and then file `i`'s.
proof fn lemma_apply_all_prefix<F: Filesystem>(
    fs: FsModel,
    root: Seq<char>,
    files: Seq<FileV>,
    i: int,
)
    requires
        0 <= i < files.len(),
        spec_apply_all::<F>(fs, root, files) is Some,
    ensures
        spec_apply_all::<F>(fs, root, files.take(i)) matches Some(m) && spec_apply_one::<F>(
            m,
            root,
            files[i],
        ) is Some,
    decreases files.len(),
{
    if i == files.len() - 1 {
        assert(files.take(i) =~= files.drop_last());
    } else {
        lemma_apply_all_prefix::<F>(fs, root, files.drop_last(), i);
        assert(files.drop_last().take(i) =~= files.take(i));
        assert(files.drop_last()[i] == files[i]);
    }
}

/// Whether a file's selected changes ask for no filesystem operation at all:
/// its selected mode is present (no removal) and its selected contents are
/// unchanged (no copy and no write).
pub open spec fn spec_file_is_noop(f: FileV) -> bool {
    let sel = crate::types::spec_selection(f).0;
    !(sel.file_mode is Absent) && sel.contents is Unchanged
}

/// Whether no file of the list asks for any filesystem operation.
pub open spec fn spec_all_noop(files: Seq<FileV>) -> bool {
    forall|i: int| 0 <= i < files.len() ==> spec_file_is_noop(#[trigger] files[i])
}

/// The filesystem states that can be left behind when applying one file
/// stops at a failing operation: unchanged before the removal, after the
/// removal but before a content operation, or, for text contents, after the
/// parent directory was created but before the write.
pub open spec fn spec_apply_one_partial(
    fs: FsModel,
    root: Seq<char>,
    f: FileV,
    m: FsModel,
) -> bool {
    let sel = crate::types::spec_selection(f).0;
    let path = spec_join(root, f.path);
    let fs1 = if sel.file_mode is Absent {
        FsModel { files: fs.files.remove(path), dirs: fs.dirs }
    } else {
        fs
    };
    ||| m == fs
    ||| m == fs1
    ||| (sel.contents is Text && (spec_parent(path) matches Some(d) && m == (FsModel {
        files: fs1.files,
        dirs: fs1.dirs.insert(d),
    })))
}

/// A failing operation while applying file `i` leaves the earlier files
/// applied and file `i` at most partially applied, and shows that some file
/// asked for an operation.
proof fn lemma_apply_stop<F: Filesystem>(
    files: Seq<FileV>,
    i: int,
    fs0: FsModel,
    m: FsModel,
    root: Seq<char>,
    cur: FsModel,
)
    requires
        0 <= i < files.len(),
        spec_apply_all::<F>(fs0, root, files.take(i)) == Some(m),
        spec_apply_one_partial(m, root, files[i], cur),
        !spec_file_is_noop(files[i]),
    ensures
        exists|j: int|
            0 <= j < files.len() && (#[trigger] spec_apply_all::<F>(
                fs0,
                root,
                files.take(j),
            ) matches Some(mm) && spec_apply_one_partial(mm, root, files[j], cur)),
        !spec_all_noop(files),
{
    assert(spec_apply_all::<F>(fs0, root, files.take(i)) matches Some(mm)
        && spec_apply_one_partial(mm, root, files[i], cur));
}

/// After the user has selected changes in the provided state, write the
/// results to the provided filesystem: under each file's selected changes,
/// an absent mode deletes the file, binary contents are copied from the old
/// path, and text contents are written after creating the parent directory.
/// A read-only state writes nothing. On success the filesystem holds every
/// file's operations, applied in file order; a state that asks for no
/// operation succeeds; against an infallible filesystem every applicable
/// selection (each copy's source readable at its turn) succeeds; and a
/// failure stops at the first failing operation, leaving the operations of
/// the earlier files applied and the failing file at most partially applied.
#[verifier::loop_isolation(false)]
pub fn apply_changes<F: Filesystem>(
    filesystem: &mut F,
    write_root: &String,
    state: RecordState,
) -> (r: Result<()>)
    ensures
        state.is_read_only ==> r is Ok && final(filesystem).fs() == old(filesystem).fs(),
        !state.is_read_only && r is Ok ==> Some(final(filesystem).fs()) == spec_apply_all::<F>(
            old(filesystem).fs(),
            write_root@,
            crate::types::files_view(state.files@),
        ),
        !state.is_read_only && spec_all_noop(crate::types::files_view(state.files@)) ==> r is Ok,
        F::infallible() && spec_apply_all::<F>(
            old(filesystem).fs(),
            write_root@,
            crate::types::files_view(state.files@),
        ) is Some ==> r is Ok,
        !state.is_read_only && r is Err ==> exists|i: int|
            0 <= i < state.files@.len() && (#[trigger] spec_apply_all::<F>(
                old(filesystem).fs(),
                write_root@,
                crate::types::files_view(state.files@).take(i),
            ) matches Some(m) && spec_apply_one_partial(
                m,
                write_root@,
                crate::types::files_view(state.files@)[i],
                final(filesystem).fs(),
            )),
{
    if state.is_read_only {
        return Ok(());
    }
    let files = state.files;
    let ghost fv = crate::types::files_view(files@);
    let ghost fs0 = filesystem.fs();
    proof {
        assert forall|j: int| 0 <= j < files@.len() implies #[trigger] fv[j] == files@[j]@ by {}
        assert(fv.len() == files@.len());
        assert(spec_apply_all::<F>(fs0, write_root@, fv.take(0)) == Some(fs0));
    }
    let n = files.len();
    let mut i: usize = 0;
    while i < n
        invariant
            i <= n,
            Some(filesystem.fs()) == spec_apply_all::<F>(fs0, write_root@, fv.take(i as int)),
        decreases n - i,
    {
        proof {
            assert(fv.take(i + 1).drop_last() =~= fv.take(i as int));
            assert(fv.take(i + 1).last() == fv[i as int]);
        }
        let file = &files[i];
        let file_path = crate::paths::join_paths(write_root.as_str(), file.path.as_str());
        let (selected, _unselected) = file.get_selected_contents();
        let ghost fs_before = filesystem.fs();
        let ghost sel = crate::types::spec_selection(fv[i as int]).0;
        let ghost spath = spec_join(write_root@, fv[i as int].path);
        let ghost fs1 = if sel.file_mode is Absent {
            FsModel { files: fs_before.files.remove(spath), dirs: fs_before.dirs }
        } else {
            fs_before
        };
        proof {
            assert(selected@ == sel);
            assert(file_path@ == spath);
        }
        if selected.file_mode == FileMode::Absent {
            match filesystem.remove_file(&file_path) {
                Ok(_) => {},
                Err(e) => {
                    proof {
                        lemma_apply_stop::<F>(
                            fv,
                            i as int,
                            fs0,
                            fs_before,
                            write_root@,
                            filesystem.fs(),
                        );
                    }
                    return Err(e);
                },
            }
        }
        proof {
            assert(filesystem.fs() == fs1);
        }
        match selected.contents {
            crate::types::SelectedContents::Unchanged => {
                // Do nothing.
            },
            crate::types::SelectedContents::Binary { .. } => {
                let old_path = match &file.old_path {
                    Some(old_path) => old_path.clone(),
                    None => file_path.clone(),
                };
                match filesystem.copy_file(&old_path, &file_path) {
                    Ok(_) => {},
                    Err(e) => {
                        proof {
                            lemma_apply_stop::<F>(
                                fv,
                                i as int,
                                fs0,
                                fs_before,
                                write_root@,
                                filesystem.fs(),
                            );
                            if F::infallible() && spec_apply_all::<F>(
                                fs0,
                                write_root@,
                                fv,
                            ) is Some {
                                lemma_apply_all_prefix::<F>(fs0, write_root@, fv, i as int);
                                assert(spec_apply_one::<F>(fs_before, write_root@, fv[i as int])
                                    is Some);
                                assert(spec_lookup(fs1, old_path@) is Some);
                                assert(false);
                            }
                        }
                        return Err(e);
                    },
                }
            },
            crate::types::SelectedContents::Text { contents } => {
                match crate::paths::parent_path(file_path.as_str()) {
                    Some(parent_dir) => {
                        match filesystem.create_dir_all(&parent_dir) {
                            Ok(_) => {},
                            Err(e) => {
                                proof {
                                    lemma_apply_stop::<F>(
                                        fv,
                                        i as int,
                                        fs0,
                                        fs_before,
                                        write_root@,
                                        filesystem.fs(),
                                    );
                                }
                                return Err(e);
                            },
                        }
                    },
                    None => {},
                }
                match filesystem.write_file(&file_path, &contents) {
                    Ok(_) => {},
                    Err(e) => {
                        proof {
                            lemma_apply_stop::<F>(
                                fv,
                                i as int,
                                fs0,
                                fs_before,
                                write_root@,
                                filesystem.fs(),
                            );
                        }
                        return Err(e);
                    },
                }
            },
        }
        proof {
            assert(Some(filesystem.fs()) == spec_apply_one::<F>(
                fs_before,
                write_root@,
                fv[i as int],
            ));
        }
        i = i + 1;
    }
    proof {
        assert(fv.take(n as int) =~= fv);
    }
    Ok(())
}

/// One entry of a dry-run plan: the action that applying the selection would
/// take for one file.
#[derive(Clone, Debug, Eq, PartialEq)]
pub enum PlanEntry {
    /// The file would be deleted.
    Delete {
        /// The target path.
        path: String,
    },
    /// The file's mode would change.
    ChangeMode {
        /// The target path.
        path: String,
        /// The mode before the change.
        old_mode: FileMode,
        /// The mode after the change.
        new_mode: FileMode,
    },
    /// The file would be left unchanged.
    LeaveUnchanged {
        /// The target path.
        path: String,
    },
    /// The file would be replaced by a binary copy.
    UpdateBinary {
        /// The target path.
        path: String,
        /// The path the binary contents are copied from.
        source: String,
        /// The description of the old contents.
        old_description: Option<String>,
        /// The description of the new contents.
        new_description: Option<String>,
    },
    /// The file would be rewritten with text contents.
    UpdateText {
        /// The target path.
        path: String,
        /// The new contents.
        contents: String,
    },
}

/// The mathematical value of a `PlanEntry`.
pub enum PlanEntryV {
    /// A deletion.
    Delete {
        /// The target path.
        path: Seq<char> },
    /// A mode change.
    ChangeMode {
        /// The target path.
        path: Seq<char>,
        /// The mode before the change.
        old_mode: FileMode,
        /// The mode after the change.
        new_mode: FileMode,
    },
    /// No change.
    LeaveUnchanged {
        /// The target path.
        path: Seq<char> },
    /// A binary replacement.
    UpdateBinary {
        /// The target path.
        path: Seq<char>,
        /// The path the binary contents are copied from.
        source: Seq<char>,
        /// The description of the old contents.
        old_description: Option<Seq<char>>,
        /// The description of the new contents.
        new_description: Option<Seq<char>>,
    },
    /// A text rewrite.
    UpdateText {
        /// The target path.
        path: Seq<char>,
        /// The new contents.
        contents: Seq<char>,
    },
}

impl View for PlanEntry {
    type V = PlanEntryV;

    open spec fn view(&self) -> PlanEntryV {
        match self {
            PlanEntry::Delete { path } => PlanEntryV::Delete { path: path@ },
            PlanEntry::ChangeMode { path, old_mode, new_mode } => PlanEntryV::ChangeMode {
                path: path@,
                old_mode: *old_mode,
                new_mode: *new_mode,
            },
            PlanEntry::LeaveUnchanged { path } => PlanEntryV::LeaveUnchanged { path: path@ },
            PlanEntry::UpdateBinary { path, source, old_description, new_description } => {
                PlanEntryV::UpdateBinary {
                    path: path@,
                    source: source@,
                    old_description: crate::types::opt_str_view(*old_description),
                    new_description: crate::types::opt_str_view(*new_description),
                }
            },
            PlanEntry::UpdateText { path, contents } => PlanEntryV::UpdateText {
                path: path@,
                contents: contents@,
            },
        }
    }
}

/// The plan entries for one file: a deletion when the selected mode is
/// absent; otherwise a mode change entry when the mode differs, and then an
/// entry for the contents, with an unchanged entry only when the mode did
/// not change.
pub open spec fn spec_plan_file(root: Seq<char>, f: FileV) -> Seq<PlanEntryV> {
    let sel = crate::types::spec_selection(f).0;
    let path = spec_join(root, f.path);
    if sel.file_mode is Absent {
        seq![PlanEntryV::Delete { path }]
    } else {
        let mode_part: Seq<PlanEntryV> = if f.file_mode != sel.file_mode {
            seq![
                PlanEntryV::ChangeMode { path, old_mode: f.file_mode, new_mode: sel.file_mode },
            ]
        } else {
            Seq::empty()
        };
        mode_part + (match sel.contents {
            SelectedContentsV::Unchanged => {
                if f.file_mode == sel.file_mode {
                    seq![PlanEntryV::LeaveUnchanged { path }]
                } else {
                    Seq::<PlanEntryV>::empty()
                }
            },
            SelectedContentsV::Binary { old_description, new_description } => seq![
                PlanEntryV::UpdateBinary {
                    path,
                    source: match f.old_path {
                        Some(op) => op,
                        None => path,
                    },
                    old_description,
                    new_description,
                },
            ],
            SelectedContentsV::Text { contents } => seq![
                PlanEntryV::UpdateText { path, contents },
            ],
        })
    }
}

/// The plan entries of every file, in order.
pub open spec fn spec_plan(root: Seq<char>, files: Seq<FileV>) -> Seq<PlanEntryV>
    decreases files.len(),
{
    if files.len() == 0 {
        Seq::empty()
    } else {
        spec_plan(root, files.drop_last()) + spec_plan_file(root, files.last())
    }
}

/// Compute the plan of a dry run: one entry per planned action, in file
/// order, without touching any filesystem.
#[verifier::loop_isolation(false)]
pub fn dry_run_plan(write_root: &String, state: &RecordState) -> (r: Vec<PlanEntry>)
    ensures
        r@.map_values(|e: PlanEntry| e@) == spec_plan(
            write_root@,
            state.files@.map_values(|f: File| f@),
        ),
{
    let ghost fv = state.files@.map_values(|f: File| f@);
    proof {
        assert forall|j: int| 0 <= j < state.files@.len() implies #[trigger] fv[j]
            == state.files@[j]@ by {
            assert(state.files@.map_values(|f: File| f@)[j] == state.files@[j]@);
        }
        assert(fv.len() == state.files@.len());
    }
    let mut r: Vec<PlanEntry> = Vec::new();
    let n = state.files.len();
    let mut i: usize = 0;
    proof {
        assert(r@.map_values(|e: PlanEntry| e@) =~= spec_plan(write_root@, fv.take(0)));
    }
    while i < n
        invariant
            i <= n,
            r@.map_values(|e: PlanEntry| e@) == spec_plan(write_root@, fv.take(i as int)),
        decreases n - i,
    {
        proof {
            assert(fv.take(i + 1).drop_last() =~= fv.take(i as int));
            assert(fv.take(i + 1).last() == fv[i as int]);
        }
        let ghost pre = r@.map_values(|e: PlanEntry| e@);
        let file = &state.files[i];
        let file_path = crate::paths::join_paths(write_root.as_str(), file.path.as_str());
        let (selected, _unselected) = file.get_selected_contents();
        if selected.file_mode == FileMode::Absent {
            push_plan(&mut r, PlanEntry::Delete { path: file_path });
        } else {
            let mode_changed = !(file.file_mode == selected.file_mode);
            if mode_changed {
                push_plan(
                    &mut r,
                    PlanEntry::ChangeMode {
                        path: file_path.clone(),
                        old_mode: file.file_mode,
                        new_mode: selected.file_mode,
                    },
                );
            }
            match selected.contents {
                crate::types::SelectedContents::Unchanged => {
                    if !mode_changed {
                        push_plan(&mut r, PlanEntry::LeaveUnchanged { path: file_path });
                    }
                },
                crate::types::SelectedContents::Binary { old_description, new_description } => {
                    let source = match &file.old_path {
                        Some(old_path) => old_path.clone(),
                        None => file_path.clone(),
                    };
                    push_plan(
                        &mut r,
                        PlanEntry::UpdateBinary {
                            path: file_path,
                            source,
                            old_description,
                            new_description,
                        },
                    );
                },
                crate::types::SelectedContents::Text { contents } => {
                    push_plan(&mut r, PlanEntry::UpdateText { path: file_path, contents });
                },
            }
        }
        proof {
            assert(r@.map_values(|e: PlanEntry| e@) =~= pre + spec_plan_file(
                write_root@,
                fv[i as int],
            ));
        }
        i = i + 1;
    }
    proof {
        assert(fv.take(n as int) =~= fv);
    }
    r
}

/// Append one plan entry.
fn push_plan(r: &mut Vec<PlanEntry>, e: PlanEntry)
    ensures
        final(r)@.map_values(|x: PlanEntry| x@) == old(r)@.map_values(|x: PlanEntry| x@).push(e@),
{
    let ghost pre = r@.map_values(|x: PlanEntry| x@);
    let ghost ev = e@;
    r.push(e);
    proof {
        let post = r@.map_values(|x: PlanEntry| x@);
        assert forall|j: int| 0 <= j < post.len() implies #[trigger] post[j] == pre.push(ev)[j] by {
            assert(post[j] == r@[j]@);
            if j < pre.len() {
                assert(pre[j] == old(r)@[j]@);
            }
        }
        assert(post =~= pre.push(ev));
    }
}

} // verus!
