//! An interactive change selector for version-control tooling: it models file
//! changes as a tree of checkable sections and lines, projects the checkbox
//! state into the "selected" and "unselected" contents of each file, builds
//! sections from text diffs and three-way merges, and applies the selection
//! to a filesystem.

pub mod diff;
pub mod fs;
pub mod helpers;
pub mod merge;
pub mod paths;
pub mod record;
pub mod strutil;
pub mod testfs;
pub mod types;
pub mod util;

pub use diff::{create_diff, make_section_changed_lines, DiffLine};
pub use fs::{
    classify_file_bytes, classify_mode, Error, FileContents, FileInfo, Filesystem, Result,
};
pub use helpers::make_binary_description;
pub use merge::{
    choose_conflict_marker_len, create_merge, make_conflict_markers, parse_merge_sections,
};
pub use record::{
    apply_changes, create_file, create_merge_file, dry_run_plan, process_opts, DiffContext, Opts,
    PlanEntry,
};
pub use testfs::{file_info, select_all, TestFilesystem};
pub use types::{
    ChangeType, Commit, File, FileMode, RecordState, Section, SectionChangedLine, SelectedChanges,
    SelectedContents, Tristate,
};
pub use util::{IsizeExt, UsizeExt};
