//! Data types for the change selector: files, sections, lines, modes, and the
//! projection of the checkbox state into selected and unselected contents.

use vstd::prelude::*;
use vstd::string::StringExecFns;

verus! {

use crate::strutil::concat_lines;

/// The mode of a file.
#[derive(Clone, Copy, Debug, Hash, PartialEq, Eq, Structural, PartialOrd, Ord)]
pub enum FileMode {
    /// A read/write/execute style Unix file mode word.
    Unix(usize),
    /// Indicates that the file does not exist.
    Absent,
}

/// The type of a changed line in a diff.
#[derive(Clone, Copy, Debug, Hash, PartialEq, Eq, Structural, PartialOrd, Ord)]
pub enum ChangeType {
    /// The line was added.
    Added,
    /// The line was removed.
    Removed,
}

/// The state of a selection: none, some, or all of the underlying booleans.
#[derive(Clone, Copy, Debug, Hash, PartialEq, Eq, Structural, PartialOrd, Ord)]
pub enum Tristate {
    /// All elements are not selected.
    False,
    /// Some elements are selected.
    Partial,
    /// All elements are selected.
    True,
}

impl Tristate {
    /// The tristate corresponding to a single boolean.
    pub fn from_bool(value: bool) -> (r: Tristate)
        ensures
            r == (if value {
                Tristate::True
            } else {
                Tristate::False
            }),
    {
        if value {
            Tristate::True
        } else {
            Tristate::False
        }
    }
}

/// A changed line inside a `Section`, separately checkable.
#[derive(Clone, Debug, Eq, PartialEq)]
pub struct SectionChangedLine {
    /// Whether or not this line was selected to be recorded.
    pub is_checked: bool,
    /// The type of change this line was.
    pub change_type: ChangeType,
    /// The contents of the line, including its trailing newline character(s),
    /// if any.
    pub line: String,
}

/// The mathematical value of a `SectionChangedLine`.
pub struct LineV {
    /// Whether the line is selected.
    pub is_checked: bool,
    /// Whether the line was added or removed.
    pub change_type: ChangeType,
    /// The characters of the line.
    pub line: Seq<char>,
}

impl View for SectionChangedLine {
    type V = LineV;

    open spec fn view(&self) -> LineV {
        LineV { is_checked: self.is_checked, change_type: self.change_type, line: self.line@ }
    }
}

/// A section of a file to be rendered and recorded.
#[derive(Clone, Debug, Eq, PartialEq)]
pub enum Section {
    /// This section of the file is unchanged and just used for context. All
    /// context lines are kept, including their trailing newlines.
    Unchanged {
        /// The contents of the lines, including their trailing newline
        /// character(s), if any.
        lines: Vec<String>,
    },
    /// This section of the file is changed, and the user needs to select which
    /// specific changed lines to record.
    Changed {
        /// The contents of the lines, including their trailing newline
        /// character(s), if any.
        lines: Vec<SectionChangedLine>,
    },
    /// The Unix file mode of the file changed, and the user needs to accept
    /// that mode change or not.
    FileMode {
        /// Whether or not the file mode change was selected for inclusion.
        is_checked: bool,
        /// The mode of the file after these changes.
        mode: FileMode,
    },
    /// This file contains binary contents.
    Binary {
        /// Whether or not the binary contents change was selected.
        is_checked: bool,
        /// The description of the old binary contents, for use in the UI only.
        old_description: Option<String>,
        /// The description of the new binary contents, for use in the UI only.
        new_description: Option<String>,
    },
}

/// The mathematical value of a `Section`.
pub enum SectionV {
    /// Context lines.
    Unchanged {
        /// The characters of each line.
        lines: Seq<Seq<char>>,
    },
    /// Checkable changed lines.
    Changed {
        /// The value of each line.
        lines: Seq<LineV>,
    },
    /// A checkable file mode change.
    FileMode {
        /// Whether the change is selected.
        is_checked: bool,
        /// The target mode.
        mode: FileMode,
    },
    /// A checkable binary contents change.
    Binary {
        /// Whether the change is selected.
        is_checked: bool,
        /// The description of the old contents.
        old_description: Option<Seq<char>>,
        /// The description of the new contents.
        new_description: Option<Seq<char>>,
    },
}

/// The views of a vector of files.
pub open spec fn files_view(files: Seq<File>) -> Seq<FileV> {
    files.map_values(|f: File| f@)
}

/// The view of an optional string.
pub open spec fn opt_str_view(o: Option<String>) -> Option<Seq<char>> {
    match o {
        Some(s) => Some(s@),
        None => None,
    }
}

impl View for Section {
    type V = SectionV;

    open spec fn view(&self) -> SectionV {
        match self {
            Section::Unchanged { lines } => SectionV::Unchanged {
                lines: lines@.map_values(|l: String| l@),
            },
            Section::Changed { lines } => SectionV::Changed {
                lines: lines@.map_values(|l: SectionChangedLine| l@),
            },
            Section::FileMode { is_checked, mode } => SectionV::FileMode {
                is_checked: *is_checked,
                mode: *mode,
            },
            Section::Binary { is_checked, old_description, new_description } => SectionV::Binary {
                is_checked: *is_checked,
                old_description: opt_str_view(*old_description),
                new_description: opt_str_view(*new_description),
            },
        }
    }
}

/// The state of a file to be recorded.
#[derive(Clone, Debug, Eq, PartialEq)]
pub struct File {
    /// The path to the previous version of the file, for display purposes.
    /// This is set when the file was renamed or copied from another file.
    pub old_path: Option<String>,
    /// The path to the current version of the file, for display purposes.
    pub path: String,
    /// The Unix file mode of the file before any changes.
    pub file_mode: FileMode,
    /// The set of sections inside the file.
    pub sections: Vec<Section>,
}

/// The mathematical value of a `File`.
pub struct FileV {
    /// The previous display path, if it differs from `path`.
    pub old_path: Option<Seq<char>>,
    /// The current display path.
    pub path: Seq<char>,
    /// The mode before any changes.
    pub file_mode: FileMode,
    /// The value of each section.
    pub sections: Seq<SectionV>,
}

impl View for File {
    type V = FileV;

    open spec fn view(&self) -> FileV {
        FileV {
            old_path: opt_str_view(self.old_path),
            path: self.path@,
            file_mode: self.file_mode,
            sections: self.sections@.map_values(|s: Section| s@),
        }
    }
}

/// A container of selected changes and commit metadata.
#[derive(Clone, Debug, Default, Eq, PartialEq)]
pub struct Commit {
    /// The commit message, if one is shown and editable.
    pub message: Option<String>,
}

/// The state used to render the changes, updated in place by the user's
/// selections and finally applied to a filesystem.
#[derive(Clone, Debug, Default, Eq, PartialEq)]
pub struct RecordState {
    /// Render the UI as read-only, such that the checkbox states cannot be
    /// changed by the user.
    pub is_read_only: bool,
    /// The commits containing the selected changes.
    pub commits: Vec<Commit>,
    /// The state of each file, rendered in order.
    pub files: Vec<File>,
}

/// The contents of a file selected as part of the record operation.
#[derive(Clone, Debug, Hash, Eq, PartialEq, PartialOrd, Ord)]
pub enum SelectedContents {
    /// The file contents have not changed.
    Unchanged,
    /// The file contains binary contents.
    Binary {
        /// The UI description of the old version of the file.
        old_description: Option<String>,
        /// The UI description of the new version of the file.
        new_description: Option<String>,
    },
    /// The file contains the following text contents.
    Text {
        /// The contents of the file.
        contents: String,
    },
}

/// The mathematical value of a `SelectedContents`.
pub enum SelectedContentsV {
    /// No change to the contents.
    Unchanged,
    /// Binary contents.
    Binary {
        /// The description of the old contents.
        old_description: Option<Seq<char>>,
        /// The description of the new contents.
        new_description: Option<Seq<char>>,
    },
    /// Text contents.
    Text {
        /// The characters of the contents.
        contents: Seq<char>,
    },
}

impl View for SelectedContents {
    type V = SelectedContentsV;

    open spec fn view(&self) -> SelectedContentsV {
        match self {
            SelectedContents::Unchanged => SelectedContentsV::Unchanged,
            SelectedContents::Binary { old_description, new_description } => {
                SelectedContentsV::Binary {
                    old_description: opt_str_view(*old_description),
                    new_description: opt_str_view(*new_description),
                }
            },
            SelectedContents::Text { contents } => SelectedContentsV::Text {
                contents: contents@,
            },
        }
    }
}

/// The changes for a particular file selected as part of the record operation.
#[derive(Clone, Debug, Eq, PartialEq)]
pub struct SelectedChanges {
    /// The file's mode.
    pub file_mode: FileMode,
    /// The file's contents.
    pub contents: SelectedContents,
}

/// The mathematical value of a `SelectedChanges`.
pub struct SelectedChangesV {
    /// The file's mode.
    pub file_mode: FileMode,
    /// The file's contents.
    pub contents: SelectedContentsV,
}

impl View for SelectedChanges {
    type V = SelectedChangesV;

    open spec fn view(&self) -> SelectedChangesV {
        SelectedChangesV { file_mode: self.file_mode, contents: self.contents@ }
    }
}

/// Whether some boolean in the sequence is true.
pub open spec fn has_true(items: Seq<bool>) -> bool {
    exists|i: int| 0 <= i < items.len() && items[i]
}

/// Whether some boolean in the sequence is false.
pub open spec fn has_false(items: Seq<bool>) -> bool {
    exists|i: int| 0 <= i < items.len() && !items[i]
}

/// The tristate summary of a set of booleans: empty or all false is `False`,
/// all true (and at least one) is `True`, anything mixed is `Partial`.
pub open spec fn tristate_of(items: Seq<bool>) -> Tristate {
    if !has_true(items) {
        Tristate::False
    } else if !has_false(items) {
        Tristate::True
    } else {
        Tristate::Partial
    }
}

/// `has_true` distributes over concatenation.
pub proof fn lemma_has_true_concat(a: Seq<bool>, b: Seq<bool>)
    ensures
        has_true(a + b) == (has_true(a) || has_true(b)),
{
    if has_true(a) {
        let i = choose|i: int| 0 <= i < a.len() && a[i];
        assert((a + b)[i]);
    }
    if has_true(b) {
        let i = choose|i: int| 0 <= i < b.len() && b[i];
        assert((a + b)[a.len() + i]);
    }
    if has_true(a + b) {
        let i = choose|i: int| 0 <= i < (a + b).len() && (a + b)[i];
        if i < a.len() {
            assert(a[i]);
        } else {
            assert(b[i - a.len()]);
        }
    }
}

/// `has_false` distributes over concatenation.
pub proof fn lemma_has_false_concat(a: Seq<bool>, b: Seq<bool>)
    ensures
        has_false(a + b) == (has_false(a) || has_false(b)),
{
    if has_false(a) {
        let i = choose|i: int| 0 <= i < a.len() && !a[i];
        assert(!(a + b)[i]);
    }
    if has_false(b) {
        let i = choose|i: int| 0 <= i < b.len() && !b[i];
        assert(!(a + b)[a.len() + i]);
    }
    if has_false(a + b) {
        let i = choose|i: int| 0 <= i < (a + b).len() && !(a + b)[i];
        if i < a.len() {
            assert(!a[i]);
        } else {
            assert(!b[i - a.len()]);
        }
    }
}

/// The checkable booleans of a section, in order. Unchanged sections
/// contribute nothing.
pub open spec fn section_items(s: SectionV) -> Seq<bool> {
    match s {
        SectionV::Unchanged { .. } => Seq::empty(),
        SectionV::Changed { lines } => lines.map_values(|l: LineV| l.is_checked),
        SectionV::FileMode { is_checked, .. } => seq![is_checked],
        SectionV::Binary { is_checked, .. } => seq![is_checked],
    }
}

/// The checkable booleans of a sequence of sections, in order.
pub open spec fn file_items(sections: Seq<SectionV>) -> Seq<bool>
    decreases sections.len(),
{
    if sections.len() == 0 {
        Seq::empty()
    } else {
        file_items(sections.drop_last()) + section_items(sections.last())
    }
}

/// A section with every checkable boolean set to `checked`.
pub open spec fn spec_set_section(s: SectionV, checked: bool) -> SectionV {
    match s {
        SectionV::Unchanged { .. } => s,
        SectionV::Changed { lines } => SectionV::Changed {
            lines: lines.map_values(
                |l: LineV| LineV { is_checked: checked, change_type: l.change_type, line: l.line },
            ),
        },
        SectionV::FileMode { is_checked, mode } => SectionV::FileMode { is_checked: checked, mode },
        SectionV::Binary { is_checked, old_description, new_description } => SectionV::Binary {
            is_checked: checked,
            old_description,
            new_description,
        },
    }
}

/// A section with every checkable boolean inverted.
pub open spec fn spec_toggle_section(s: SectionV) -> SectionV {
    match s {
        SectionV::Unchanged { .. } => s,
        SectionV::Changed { lines } => SectionV::Changed {
            lines: lines.map_values(
                |l: LineV| LineV {
                    is_checked: !l.is_checked,
                    change_type: l.change_type,
                    line: l.line,
                },
            ),
        },
        SectionV::FileMode { is_checked, mode } => SectionV::FileMode {
            is_checked: !is_checked,
            mode,
        },
        SectionV::Binary { is_checked, old_description, new_description } => SectionV::Binary {
            is_checked: !is_checked,
            old_description,
            new_description,
        },
    }
}

impl Section {
    /// Whether or not this section contains user-editable content (as opposed
    /// to simply contextual content).
    pub fn is_editable(&self) -> (r: bool)
        ensures
            r == !(self@ is Unchanged),
    {
        match self {
            Section::Unchanged { .. } => false,
            Section::Changed { .. } | Section::FileMode { .. } | Section::Binary { .. } => true,
        }
    }

    /// Compute whether any checkable item of this section is checked, and
    /// whether any is unchecked.
    #[verifier::loop_isolation(false)]
    fn item_flags(&self) -> (r: (bool, bool))
        ensures
            r.0 == has_true(section_items(self@)),
            r.1 == has_false(section_items(self@)),
    {
        let ghost items = section_items(self@);
        let mut any_true: bool = false;
        let mut any_false: bool = false;
        match self {
            Section::Unchanged { .. } => {},
            Section::Changed { lines } => {
                proof {
                    assert forall|j: int| 0 <= j < lines@.len() implies #[trigger] items[j]
                        == lines@[j].is_checked by {
                        assert(lines@.map_values(|l: SectionChangedLine| l@)[j] == lines@[j]@);
                    }
                    assert(items.len() == lines@.len());
                }
                let n = lines.len();
                let mut i: usize = 0;
                while i < n
                    invariant
                        i <= n,
                        any_true == exists|j: int| 0 <= j < i && items[j],
                        any_false == exists|j: int| 0 <= j < i && !items[j],
                    decreases n - i,
                {
                    if lines[i].is_checked {
                        any_true = true;
                        proof {
                            assert(items[i as int]);
                        }
                    } else {
                        any_false = true;
                        proof {
                            assert(!items[i as int]);
                        }
                    }
                    i = i + 1;
                }
            },
            Section::FileMode { is_checked, .. } | Section::Binary { is_checked, .. } => {
                if *is_checked {
                    any_true = true;
                } else {
                    any_false = true;
                }
                proof {
                    assert(items.len() == 1);
                    assert(items[0] == *is_checked);
                }
            },
        }
        (any_true, any_false)
    }

    /// Get the tristate value of this section. If there are no checkable items
    /// in this section, returns `Tristate::False`.
    pub fn tristate(&self) -> (r: Tristate)
        ensures
            r == tristate_of(section_items(self@)),
    {
        let (any_true, any_false) = self.item_flags();
        if !any_true {
            Tristate::False
        } else if !any_false {
            Tristate::True
        } else {
            Tristate::Partial
        }
    }

    /// Select or unselect all items in this section.
    #[verifier::loop_isolation(false)]
    pub fn set_checked(&mut self, checked: bool)
        ensures
            final(self)@ == spec_set_section(old(self)@, checked),
    {
        match self {
            Section::Unchanged { .. } => {},
            Section::Changed { lines } => {
                let ghost orig = lines@;
                let n = lines.len();
                let mut i: usize = 0;
                while i < n
                    invariant
                        n == lines@.len(),
                        orig.len() == n,
                        i <= n,
                        forall|j: int| i <= j < n ==> #[trigger] lines@[j] == orig[j],
                        forall|j: int|
                            0 <= j < i ==> #[trigger] lines@[j] == (SectionChangedLine {
                                is_checked: checked,
                                change_type: orig[j].change_type,
                                line: orig[j].line,
                            }),
                    decreases n - i,
                {
                    let ct = lines[i].change_type;
                    let s = lines[i].line.clone();
                    lines[i] = SectionChangedLine { is_checked: checked, change_type: ct, line: s };
                    i = i + 1;
                }
                proof {
                    let f = |l: LineV| LineV {
                        is_checked: checked,
                        change_type: l.change_type,
                        line: l.line,
                    };
                    let new_lines = lines@.map_values(|l: SectionChangedLine| l@);
                    let old_lines = orig.map_values(|l: SectionChangedLine| l@);
                    assert forall|j: int| 0 <= j < n implies new_lines[j] == f(old_lines[j]) by {
                        assert(new_lines[j] == lines@[j]@);
                        assert(old_lines[j] == orig[j]@);
                    }
                    assert(new_lines =~= old_lines.map_values(f));
                }
            },
            Section::FileMode { is_checked, .. } => {
                *is_checked = checked;
            },
            Section::Binary { is_checked, .. } => {
                *is_checked = checked;
            },
        }
    }

    /// Invert the selection of every item in this section.
    #[verifier::loop_isolation(false)]
    pub fn toggle_all(&mut self)
        ensures
            final(self)@ == spec_toggle_section(old(self)@),
    {
        match self {
            Section::Unchanged { .. } => {},
            Section::Changed { lines } => {
                let ghost orig = lines@;
                let n = lines.len();
                let mut i: usize = 0;
                while i < n
                    invariant
                        n == lines@.len(),
                        orig.len() == n,
                        i <= n,
                        forall|j: int| i <= j < n ==> #[trigger] lines@[j] == orig[j],
                        forall|j: int|
                            0 <= j < i ==> #[trigger] lines@[j] == (SectionChangedLine {
                                is_checked: !orig[j].is_checked,
                                change_type: orig[j].change_type,
                                line: orig[j].line,
                            }),
                    decreases n - i,
                {
                    let c = lines[i].is_checked;
                    let ct = lines[i].change_type;
                    let s = lines[i].line.clone();
                    lines[i] = SectionChangedLine { is_checked: !c, change_type: ct, line: s };
                    i = i + 1;
                }
                proof {
                    let f = |l: LineV| LineV {
                        is_checked: !l.is_checked,
                        change_type: l.change_type,
                        line: l.line,
                    };
                    let new_lines = lines@.map_values(|l: SectionChangedLine| l@);
                    let old_lines = orig.map_values(|l: SectionChangedLine| l@);
                    assert forall|j: int| 0 <= j < n implies new_lines[j] == f(old_lines[j]) by {
                        assert(new_lines[j] == lines@[j]@);
                        assert(old_lines[j] == orig[j]@);
                    }
                    assert(new_lines =~= old_lines.map_values(f));
                }
            },
            Section::FileMode { is_checked, .. } => {
                *is_checked = !*is_checked;
            },
            Section::Binary { is_checked, .. } => {
                *is_checked = !*is_checked;
            },
        }
    }
}

/// A file with every checkable boolean set to `checked`.
pub open spec fn spec_set_file(f: FileV, checked: bool) -> FileV {
    FileV {
        old_path: f.old_path,
        path: f.path,
        file_mode: f.file_mode,
        sections: f.sections.map_values(|s: SectionV| spec_set_section(s, checked)),
    }
}

/// A file with every checkable boolean inverted.
pub open spec fn spec_toggle_file(f: FileV) -> FileV {
    FileV {
        old_path: f.old_path,
        path: f.path,
        file_mode: f.file_mode,
        sections: f.sections.map_values(|s: SectionV| spec_toggle_section(s)),
    }
}

impl File {
    /// Get the tristate value of the file over all checkable items of all its
    /// sections. If there are no checkable items, returns `Tristate::False`.
    #[verifier::loop_isolation(false)]
    pub fn tristate(&self) -> (r: Tristate)
        ensures
            r == tristate_of(file_items(self@.sections)),
    {
        let ghost secs = self@.sections;
        proof {
            assert forall|j: int| 0 <= j < self.sections@.len() implies #[trigger] secs[j]
                == self.sections@[j]@ by {
                assert(self.sections@.map_values(|s: Section| s@)[j] == self.sections@[j]@);
            }
            assert(secs.len() == self.sections@.len());
        }
        let mut any_true: bool = false;
        let mut any_false: bool = false;
        let n = self.sections.len();
        let mut i: usize = 0;
        while i < n
            invariant
                i <= n,
                any_true == has_true(file_items(secs.take(i as int))),
                any_false == has_false(file_items(secs.take(i as int))),
            decreases n - i,
        {
            let (t, f) = self.sections[i].item_flags();
            proof {
                assert(secs.take(i + 1).drop_last() =~= secs.take(i as int));
                assert(secs.take(i + 1).last() == secs[i as int]);
                lemma_has_true_concat(file_items(secs.take(i as int)), section_items(secs[i as int]));
                lemma_has_false_concat(
                    file_items(secs.take(i as int)),
                    section_items(secs[i as int]),
                );
            }
            if t {
                any_true = true;
            }
            if f {
                any_false = true;
            }
            i = i + 1;
        }
        proof {
            assert(secs.take(n as int) =~= secs);
        }
        if !any_true {
            Tristate::False
        } else if !any_false {
            Tristate::True
        } else {
            Tristate::Partial
        }
    }

    /// Set the selection of all sections and lines in this file.
    #[verifier::loop_isolation(false)]
    pub fn set_checked(&mut self, checked: bool)
        ensures
            final(self)@ == spec_set_file(old(self)@, checked),
    {
        let ghost orig = self.sections@;
        let n = self.sections.len();
        let mut i: usize = 0;
        while i < n
            invariant
                self.sections@.len() == n,
                i <= n,
                self.old_path == old(self).old_path,
                self.path == old(self).path,
                self.file_mode == old(self).file_mode,
                forall|j: int| i <= j < n ==> #[trigger] self.sections@[j] == orig[j],
                forall|j: int|
                    0 <= j < i ==> #[trigger] self.sections@[j]@ == spec_set_section(
                        orig[j]@,
                        checked,
                    ),
            decreases n - i,
        {
            self.sections[i].set_checked(checked);
            i = i + 1;
        }
        proof {
            let g = |s: SectionV| spec_set_section(s, checked);
            assert forall|j: int| 0 <= j < n implies #[trigger] self@.sections[j] == old(
                self,
            )@.sections.map_values(g)[j] by {
                assert(self@.sections[j] == self.sections@[j]@);
                assert(old(self)@.sections[j] == orig[j]@);
            }
            assert(self@.sections =~= old(self)@.sections.map_values(g));
        }
    }

    /// Invert the selection of all sections and lines in this file.
    #[verifier::loop_isolation(false)]
    pub fn toggle_all(&mut self)
        ensures
            final(self)@ == spec_toggle_file(old(self)@),
    {
        let ghost orig = self.sections@;
        let n = self.sections.len();
        let mut i: usize = 0;
        while i < n
            invariant
                self.sections@.len() == n,
                i <= n,
                self.old_path == old(self).old_path,
                self.path == old(self).path,
                self.file_mode == old(self).file_mode,
                forall|j: int| i <= j < n ==> #[trigger] self.sections@[j] == orig[j],
                forall|j: int|
                    0 <= j < i ==> #[trigger] self.sections@[j]@ == spec_toggle_section(orig[j]@),
            decreases n - i,
        {
            self.sections[i].toggle_all();
            i = i + 1;
        }
        proof {
            let g = |s: SectionV| spec_toggle_section(s);
            assert forall|j: int| 0 <= j < n implies #[trigger] self@.sections[j] == old(
                self,
            )@.sections.map_values(g)[j] by {
                assert(self@.sections[j] == self.sections@[j]@);
                assert(old(self)@.sections[j] == orig[j]@);
            }
            assert(self@.sections =~= old(self)@.sections.map_values(g));
        }
    }
}

/// After setting every checkbox of a section, the items are constantly
/// `checked`, and their number is unchanged.
pub proof fn lemma_section_items_set(s: SectionV, checked: bool)
    ensures
        section_items(spec_set_section(s, checked)).len() == section_items(s).len(),
        forall|j: int|
            0 <= j < section_items(s).len() ==> #[trigger] section_items(
                spec_set_section(s, checked),
            )[j] == checked,
{
    match s {
        SectionV::Unchanged { .. } => {},
        SectionV::Changed { lines } => {
            let f = |l: LineV| LineV {
                is_checked: checked,
                change_type: l.change_type,
                line: l.line,
            };
            let new_items = section_items(spec_set_section(s, checked));
            assert forall|j: int| 0 <= j < lines.len() implies #[trigger] new_items[j]
                == checked by {
                assert(lines.map_values(f)[j] == f(lines[j]));
            }
        },
        SectionV::FileMode { .. } => {},
        SectionV::Binary { .. } => {},
    }
}

/// After setting every checkbox of a file, the items are constantly `checked`,
/// and their number is unchanged.
pub proof fn lemma_file_items_set(sections: Seq<SectionV>, checked: bool)
    ensures
        file_items(spec_set_file_sections(sections, checked)).len() == file_items(sections).len(),
        forall|j: int|
            0 <= j < file_items(sections).len() ==> #[trigger] file_items(
                spec_set_file_sections(sections, checked),
            )[j] == checked,
    decreases sections.len(),
{
    let g = |s: SectionV| spec_set_section(s, checked);
    if sections.len() == 0 {
        assert(sections.map_values(g) =~= Seq::<SectionV>::empty());
    } else {
        lemma_file_items_set(sections.drop_last(), checked);
        lemma_section_items_set(sections.last(), checked);
        assert(sections.map_values(g).drop_last() =~= sections.drop_last().map_values(g));
        assert(sections.map_values(g).last() == g(sections.last()));
    }
}

/// The sections of `spec_set_file`, as a standalone function of a section
/// sequence.
pub open spec fn spec_set_file_sections(sections: Seq<SectionV>, checked: bool) -> Seq<SectionV> {
    sections.map_values(|s: SectionV| spec_set_section(s, checked))
}

/// Law: setting every checkbox of a file true makes its tristate `True`,
/// provided the file has at least one checkable item; setting every checkbox
/// false makes its tristate `False`.
pub proof fn lemma_set_checked_tristate(f: FileV, checked: bool)
    ensures
        checked && file_items(f.sections).len() > 0 ==> tristate_of(
            file_items(spec_set_file(f, checked).sections),
        ) == Tristate::True,
        !checked ==> tristate_of(file_items(spec_set_file(f, checked).sections))
            == Tristate::False,
{
    lemma_file_items_set(f.sections, checked);
    let new_items = file_items(spec_set_file(f, checked).sections);
    if checked && file_items(f.sections).len() > 0 {
        assert(new_items[0]);
        assert(!has_false(new_items));
        assert(tristate_of(new_items) == Tristate::True);
    }
    if !checked {
        assert(!has_true(new_items));
    }
}

/// Law: inverting every checkbox of a section twice restores the section.
pub proof fn lemma_toggle_section_involution(s: SectionV)
    ensures
        spec_toggle_section(spec_toggle_section(s)) == s,
{
    match s {
        SectionV::Changed { lines } => {
            let f = |l: LineV| LineV {
                is_checked: !l.is_checked,
                change_type: l.change_type,
                line: l.line,
            };
            let twice = lines.map_values(f).map_values(f);
            assert forall|j: int| 0 <= j < lines.len() implies #[trigger] twice[j] == lines[j] by {
                assert(lines.map_values(f)[j] == f(lines[j]));
                assert(twice[j] == f(lines.map_values(f)[j]));
            }
            assert(twice =~= lines);
        },
        _ => {},
    }
}

/// Law: inverting every checkbox of a file twice restores the file.
pub proof fn lemma_toggle_file_involution(f: FileV)
    ensures
        spec_toggle_file(spec_toggle_file(f)) == f,
{
    let g = |s: SectionV| spec_toggle_section(s);
    let twice = f.sections.map_values(g).map_values(g);
    assert forall|j: int| 0 <= j < f.sections.len() implies #[trigger] twice[j]
        == f.sections[j] by {
        assert(f.sections.map_values(g)[j] == g(f.sections[j]));
        assert(twice[j] == g(f.sections.map_values(g)[j]));
        lemma_toggle_section_involution(f.sections[j]);
    }
    assert(twice =~= f.sections);
}

/// Law: setting every checkbox of a single section true makes its tristate
/// `True`, provided the section has at least one checkable item; setting every
/// checkbox false makes its tristate `False`.
pub proof fn lemma_section_set_checked_tristate(s: SectionV, checked: bool)
    ensures
        checked && section_items(s).len() > 0 ==> tristate_of(
            section_items(spec_set_section(s, checked)),
        ) == Tristate::True,
        !checked ==> tristate_of(section_items(spec_set_section(s, checked))) == Tristate::False,
{
    lemma_section_items_set(s, checked);
    let new_items = section_items(spec_set_section(s, checked));
    if checked && section_items(s).len() > 0 {
        assert(new_items[0]);
        assert(!has_false(new_items));
    }
    if !checked {
        assert(!has_true(new_items));
    }
}

/// Pushing a string onto an accumulator of selected contents: text starts or
/// grows, binary contents absorb everything.
pub open spec fn spec_push(acc: SelectedContentsV, s: Seq<char>) -> SelectedContentsV {
    match acc {
        SelectedContentsV::Unchanged => SelectedContentsV::Text { contents: s },
        SelectedContentsV::Binary { .. } => acc,
        SelectedContentsV::Text { contents } => SelectedContentsV::Text { contents: contents + s },
    }
}

impl SelectedContents {
    /// Append a string to the accumulated contents.
    pub fn push_str(&mut self, s: &str)
        ensures
            final(self)@ == spec_push(old(self)@, s@),
    {
        match self {
            SelectedContents::Unchanged => {
                *self = SelectedContents::Text { contents: s.to_owned() };
            },
            SelectedContents::Binary { .. } => {
                // Do nothing.
            },
            SelectedContents::Text { contents } => {
                contents.append(s);
            },
        }
    }
}

/// The first file mode section of a file, with its checked state.
pub open spec fn spec_mode_section(sections: Seq<SectionV>) -> Option<(FileMode, bool)>
    decreases sections.len(),
{
    if sections.len() == 0 {
        None
    } else {
        match sections[0] {
            SectionV::FileMode { is_checked, mode } => Some((mode, is_checked)),
            _ => spec_mode_section(sections.drop_first()),
        }
    }
}

/// The mode of the selected changes: the mode of the checked file mode
/// section, or the file's original mode.
pub open spec fn spec_selected_mode(f: FileV) -> FileMode {
    match spec_mode_section(f.sections) {
        Some((mode, checked)) => if checked {
            mode
        } else {
            f.file_mode
        },
        None => f.file_mode,
    }
}

/// The mode of the unselected changes: the mode of the unchecked file mode
/// section, or the file's original mode.
pub open spec fn spec_unselected_mode(f: FileV) -> FileMode {
    match spec_mode_section(f.sections) {
        Some((mode, checked)) => if checked {
            f.file_mode
        } else {
            mode
        },
        None => f.file_mode,
    }
}

/// One changed line's effect on the pair of (selected, unselected)
/// accumulators. Added lines that are checked and removed lines that are not
/// go to the selected side; the others go to the unselected side, and, when
/// the selected mode is not absent, also push an empty string to the selected
/// side so that emptying an existing file is not reported as unchanged.
pub open spec fn spec_step_line(
    acc: (SelectedContentsV, SelectedContentsV),
    l: LineV,
    sel_absent: bool,
) -> (SelectedContentsV, SelectedContentsV) {
    if (l.change_type == ChangeType::Added && l.is_checked) || (l.change_type
        == ChangeType::Removed && !l.is_checked) {
        (spec_push(acc.0, l.line), acc.1)
    } else {
        (
            if !sel_absent {
                spec_push(acc.0, Seq::empty())
            } else {
                acc.0
            },
            spec_push(acc.1, l.line),
        )
    }
}

/// The effect of a changed section's lines on the accumulators, in order.
pub open spec fn spec_fold_lines(
    acc: (SelectedContentsV, SelectedContentsV),
    lines: Seq<LineV>,
    sel_absent: bool,
) -> (SelectedContentsV, SelectedContentsV)
    decreases lines.len(),
{
    if lines.len() == 0 {
        acc
    } else {
        spec_step_line(spec_fold_lines(acc, lines.drop_last(), sel_absent), lines.last(), sel_absent)
    }
}

/// The effect of an unchanged section's lines on one accumulator: every line
/// is pushed.
pub open spec fn spec_fold_unchanged(acc: SelectedContentsV, lines: Seq<Seq<char>>) -> SelectedContentsV
    decreases lines.len(),
{
    if lines.len() == 0 {
        acc
    } else {
        spec_push(spec_fold_unchanged(acc, lines.drop_last()), lines.last())
    }
}

/// One section's effect on the pair of accumulators.
pub open spec fn spec_step_section(
    acc: (SelectedContentsV, SelectedContentsV),
    s: SectionV,
    sel_absent: bool,
) -> (SelectedContentsV, SelectedContentsV) {
    match s {
        SectionV::Unchanged { lines } => (
            spec_fold_unchanged(acc.0, lines),
            spec_fold_unchanged(acc.1, lines),
        ),
        SectionV::Changed { lines } => spec_fold_lines(acc, lines, sel_absent),
        SectionV::FileMode { .. } => acc,
        SectionV::Binary { is_checked, old_description, new_description } => {
            let b = SelectedContentsV::Binary { old_description, new_description };
            if is_checked {
                (b, SelectedContentsV::Unchanged)
            } else {
                (SelectedContentsV::Unchanged, b)
            }
        },
    }
}

/// The effect of all sections on the pair of accumulators, in order.
pub open spec fn spec_fold_sections(
    acc: (SelectedContentsV, SelectedContentsV),
    sections: Seq<SectionV>,
    sel_absent: bool,
) -> (SelectedContentsV, SelectedContentsV)
    decreases sections.len(),
{
    if sections.len() == 0 {
        acc
    } else {
        spec_step_section(
            spec_fold_sections(acc, sections.drop_last(), sel_absent),
            sections.last(),
            sel_absent,
        )
    }
}

/// The empty-file rule: a file that did not exist but whose selected mode is
/// present must have text contents, so an accumulator left untouched becomes
/// the empty text.
pub open spec fn spec_empty_file_fixup(
    acc: SelectedContentsV,
    file_mode: FileMode,
    mode: FileMode,
) -> SelectedContentsV {
    if file_mode is Absent && !(mode is Absent) && acc is Unchanged {
        spec_push(acc, Seq::empty())
    } else {
        acc
    }
}

/// The full selection projection of a file: the selected and unselected
/// changes, each a mode and contents.
pub open spec fn spec_selection(f: FileV) -> (SelectedChangesV, SelectedChangesV) {
    let sel_mode = spec_selected_mode(f);
    let unsel_mode = spec_unselected_mode(f);
    let accs = spec_fold_sections(
        (SelectedContentsV::Unchanged, SelectedContentsV::Unchanged),
        f.sections,
        sel_mode is Absent,
    );
    (
        SelectedChangesV {
            file_mode: sel_mode,
            contents: spec_empty_file_fixup(accs.0, f.file_mode, sel_mode),
        },
        SelectedChangesV {
            file_mode: unsel_mode,
            contents: spec_empty_file_fixup(accs.1, f.file_mode, unsel_mode),
        },
    )
}

/// Clone an optional string.
fn clone_opt_str(o: &Option<String>) -> (r: Option<String>)
    ensures
        r == *o,
{
    match o {
        Some(s) => Some(s.clone()),
        None => None,
    }
}

impl File {
    /// Find the first file mode section of this file, if any.
    #[verifier::loop_isolation(false)]
    fn find_mode_section(&self) -> (r: Option<(FileMode, bool)>)
        ensures
            r == spec_mode_section(self@.sections),
    {
        let ghost secs = self@.sections;
        proof {
            assert forall|j: int| 0 <= j < self.sections@.len() implies #[trigger] secs[j]
                == self.sections@[j]@ by {
                assert(self.sections@.map_values(|s: Section| s@)[j] == self.sections@[j]@);
            }
            assert(secs.len() == self.sections@.len());
        }
        let n = self.sections.len();
        proof {
            assert(secs.subrange(0, n as int) =~= secs);
        }
        let mut i: usize = 0;
        while i < n
            invariant
                i <= n,
                spec_mode_section(secs) == spec_mode_section(secs.subrange(i as int, n as int)),
            decreases n - i,
        {
            match &self.sections[i] {
                Section::FileMode { is_checked, mode } => {
                    proof {
                        assert(secs.subrange(i as int, n as int)[0] == secs[i as int]);
                    }
                    return Some((*mode, *is_checked));
                },
                _ => {
                    proof {
                        assert(secs.subrange(i as int, n as int)[0] == secs[i as int]);
                        assert(secs.subrange(i as int, n as int).drop_first() =~= secs.subrange(
                            i + 1,
                            n as int,
                        ));
                    }
                },
            }
            i = i + 1;
        }
        proof {
            assert(secs.subrange(n as int, n as int) =~= Seq::<SectionV>::empty());
        }
        None
    }

    /// Calculate the `(selected, unselected)` changes of the file. The first
    /// value is suitable for staging or committing, and the second value is
    /// suitable for potentially recording again.
    #[verifier::loop_isolation(false)]
    pub fn get_selected_contents(&self) -> (r: (SelectedChanges, SelectedChanges))
        ensures
            (r.0@, r.1@) == spec_selection(self@),
    {
        let ghost secs = self@.sections;
        proof {
            assert forall|j: int| 0 <= j < self.sections@.len() implies #[trigger] secs[j]
                == self.sections@[j]@ by {
                assert(self.sections@.map_values(|s: Section| s@)[j] == self.sections@[j]@);
            }
            assert(secs.len() == self.sections@.len());
        }
        let mode_section = self.find_mode_section();
        let selected_file_mode = match mode_section {
            Some((mode, is_checked)) => if is_checked {
                mode
            } else {
                self.file_mode
            },
            None => self.file_mode,
        };
        let unselected_file_mode = match mode_section {
            Some((mode, is_checked)) => if is_checked {
                self.file_mode
            } else {
                mode
            },
            None => self.file_mode,
        };
        proof {
            assert(selected_file_mode == spec_selected_mode(self@));
            assert(unselected_file_mode == spec_unselected_mode(self@));
        }
        let ghost sel_absent = spec_selected_mode(self@) is Absent;
        let mut acc_selected = SelectedContents::Unchanged;
        let mut acc_unselected = SelectedContents::Unchanged;
        let ghost init = (acc_selected@, acc_unselected@);

        let n = self.sections.len();
        let mut i: usize = 0;
        while i < n
            invariant
                i <= n,
                (acc_selected@, acc_unselected@) == spec_fold_sections(
                    init,
                    secs.take(i as int),
                    sel_absent,
                ),
            decreases n - i,
        {
            let ghost pre = (acc_selected@, acc_unselected@);
            match &self.sections[i] {
                Section::Unchanged { lines } => {
                    let ghost lv = secs[i as int]->Unchanged_lines;
                    proof {
                        assert forall|j: int| 0 <= j < lines@.len() implies #[trigger] lv[j]
                            == lines@[j]@ by {
                            assert(lines@.map_values(|l: String| l@)[j] == lines@[j]@);
                        }
                        assert(lv.len() == lines@.len());
                    }
                    let m = lines.len();
                    let mut k: usize = 0;
                    while k < m
                        invariant
                            k <= m,
                            acc_selected@ == spec_fold_unchanged(pre.0, lv.take(k as int)),
                            acc_unselected@ == spec_fold_unchanged(pre.1, lv.take(k as int)),
                        decreases m - k,
                    {
                        proof {
                            assert(lv.take(k + 1).drop_last() =~= lv.take(k as int));
                            assert(lv.take(k + 1).last() == lv[k as int]);
                        }
                        acc_selected.push_str(lines[k].as_str());
                        acc_unselected.push_str(lines[k].as_str());
                        k = k + 1;
                    }
                    proof {
                        assert(lv.take(m as int) =~= lv);
                    }
                },
                Section::Changed { lines } => {
                    let ghost lv = secs[i as int]->Changed_lines;
                    proof {
                        assert forall|j: int| 0 <= j < lines@.len() implies #[trigger] lv[j]
                            == lines@[j]@ by {
                            assert(lines@.map_values(|l: SectionChangedLine| l@)[j] == lines@[j]@);
                        }
                        assert(lv.len() == lines@.len());
                    }
                    let m = lines.len();
                    let mut k: usize = 0;
                    while k < m
                        invariant
                            k <= m,
                            (acc_selected@, acc_unselected@) == spec_fold_lines(
                                pre,
                                lv.take(k as int),
                                sel_absent,
                            ),
                        decreases m - k,
                    {
                        proof {
                            assert(lv.take(k + 1).drop_last() =~= lv.take(k as int));
                            assert(lv.take(k + 1).last() == lv[k as int]);
                        }
                        let line = &lines[k];
                        let added = match line.change_type {
                            ChangeType::Added => true,
                            ChangeType::Removed => false,
                        };
                        if (added && line.is_checked) || (!added && !line.is_checked) {
                            acc_selected.push_str(line.line.as_str());
                        } else {
                            acc_unselected.push_str(line.line.as_str());
                            // Ensure that if the file existed before and still
                            // does, we never report the selected contents as
                            // unchanged when all lines are removed (emptying
                            // the file without deleting it).
                            if selected_file_mode != FileMode::Absent {
                                proof {
                                    reveal_strlit("");
                                    assert(""@ =~= Seq::<char>::empty());
                                }
                                acc_selected.push_str("");
                            }
                        }
                        k = k + 1;
                    }
                    proof {
                        assert(lv.take(m as int) =~= lv);
                    }
                },
                Section::FileMode { .. } => {
                    // Handled before the loop.
                },
                Section::Binary { is_checked, old_description, new_description } => {
                    let selected_contents = SelectedContents::Binary {
                        old_description: clone_opt_str(old_description),
                        new_description: clone_opt_str(new_description),
                    };
                    if *is_checked {
                        acc_selected = selected_contents;
                        acc_unselected = SelectedContents::Unchanged;
                    } else {
                        acc_selected = SelectedContents::Unchanged;
                        acc_unselected = selected_contents;
                    }
                },
            }
            proof {
                assert(secs.take(i + 1).drop_last() =~= secs.take(i as int));
                assert(secs.take(i + 1).last() == secs[i as int]);
            }
            i = i + 1;
        }
        proof {
            assert(secs.take(n as int) =~= secs);
        }

        // If an empty file was added, no line push will have turned the
        // accumulators into text, so handle that case here.
        if self.file_mode == FileMode::Absent && selected_file_mode != FileMode::Absent
            && matches!(acc_selected, SelectedContents::Unchanged) {
            proof {
                reveal_strlit("");
                assert(""@ =~= Seq::<char>::empty());
            }
            acc_selected.push_str("");
        }
        if self.file_mode == FileMode::Absent && unselected_file_mode != FileMode::Absent
            && matches!(acc_unselected, SelectedContents::Unchanged) {
            proof {
                reveal_strlit("");
                assert(""@ =~= Seq::<char>::empty());
            }
            acc_unselected.push_str("");
        }

        (
            SelectedChanges { contents: acc_selected, file_mode: selected_file_mode },
            SelectedChanges { contents: acc_unselected, file_mode: unselected_file_mode },
        )
    }
}

/// Whether a changed line belongs to the selected side: added lines that are
/// checked and removed lines that are not.
pub open spec fn line_is_selected(l: LineV) -> bool {
    (l.change_type == ChangeType::Added && l.is_checked) || (l.change_type == ChangeType::Removed
        && !l.is_checked)
}

/// The concatenation of the chosen lines of a changed section, for one side.
pub open spec fn chosen_lines_text(lines: Seq<LineV>, selected: bool) -> Seq<char>
    decreases lines.len(),
{
    if lines.len() == 0 {
        Seq::empty()
    } else {
        chosen_lines_text(lines.drop_last(), selected) + (if line_is_selected(lines.last())
            == selected {
            lines.last().line
        } else {
            Seq::empty()
        })
    }
}

/// The text contributed by one section to one side of the selection:
/// unchanged lines go to both sides, changed lines to the side they are
/// chosen for.
pub open spec fn section_side_text(s: SectionV, selected: bool) -> Seq<char> {
    match s {
        SectionV::Unchanged { lines } => concat_lines(lines),
        SectionV::Changed { lines } => chosen_lines_text(lines, selected),
        SectionV::FileMode { .. } => Seq::empty(),
        SectionV::Binary { .. } => Seq::empty(),
    }
}

/// The text contributed by all sections to one side of the selection.
pub open spec fn sections_side_text(sections: Seq<SectionV>, selected: bool) -> Seq<char>
    decreases sections.len(),
{
    if sections.len() == 0 {
        Seq::empty()
    } else {
        sections_side_text(sections.drop_last(), selected) + section_side_text(
            sections.last(),
            selected,
        )
    }
}

/// The text accumulated so far, where an untouched or binary accumulator
/// holds no text.
pub open spec fn content_of(c: SelectedContentsV) -> Seq<char> {
    match c {
        SelectedContentsV::Text { contents } => contents,
        _ => Seq::empty(),
    }
}

/// Pushing onto a non-binary accumulator appends to its content and keeps it
/// non-binary.
proof fn lemma_push_content(acc: SelectedContentsV, s: Seq<char>)
    requires
        !(acc is Binary),
    ensures
        !(spec_push(acc, s) is Binary),
        spec_push(acc, s) is Text,
        content_of(spec_push(acc, s)) == content_of(acc) + s,
{
    match acc {
        SelectedContentsV::Unchanged => {
            assert(content_of(acc) + s =~= s);
        },
        SelectedContentsV::Text { contents } => {},
        SelectedContentsV::Binary { .. } => {},
    }
}

/// Folding an unchanged section's lines appends their concatenation.
proof fn lemma_fold_unchanged_content(acc: SelectedContentsV, lines: Seq<Seq<char>>)
    requires
        !(acc is Binary),
    ensures
        !(spec_fold_unchanged(acc, lines) is Binary),
        content_of(spec_fold_unchanged(acc, lines)) == content_of(acc) + concat_lines(lines),
    decreases lines.len(),
{
    if lines.len() == 0 {
        assert(content_of(acc) + concat_lines(lines) =~= content_of(acc));
    } else {
        lemma_fold_unchanged_content(acc, lines.drop_last());
        lemma_push_content(spec_fold_unchanged(acc, lines.drop_last()), lines.last());
        assert(content_of(acc) + concat_lines(lines.drop_last()) + lines.last() =~= content_of(acc)
            + concat_lines(lines));
    }
}

/// Folding a changed section's lines appends the chosen lines to each side.
proof fn lemma_fold_lines_content(
    acc: (SelectedContentsV, SelectedContentsV),
    lines: Seq<LineV>,
    sel_absent: bool,
)
    requires
        !(acc.0 is Binary),
        !(acc.1 is Binary),
    ensures
        !(spec_fold_lines(acc, lines, sel_absent).0 is Binary),
        !(spec_fold_lines(acc, lines, sel_absent).1 is Binary),
        content_of(spec_fold_lines(acc, lines, sel_absent).0) == content_of(acc.0)
            + chosen_lines_text(lines, true),
        content_of(spec_fold_lines(acc, lines, sel_absent).1) == content_of(acc.1)
            + chosen_lines_text(lines, false),
    decreases lines.len(),
{
    if lines.len() == 0 {
        assert(content_of(acc.0) + chosen_lines_text(lines, true) =~= content_of(acc.0));
        assert(content_of(acc.1) + chosen_lines_text(lines, false) =~= content_of(acc.1));
    } else {
        lemma_fold_lines_content(acc, lines.drop_last(), sel_absent);
        let mid = spec_fold_lines(acc, lines.drop_last(), sel_absent);
        let l = lines.last();
        if line_is_selected(l) {
            lemma_push_content(mid.0, l.line);
            assert(content_of(acc.0) + chosen_lines_text(lines.drop_last(), true) + l.line
                =~= content_of(acc.0) + chosen_lines_text(lines, true));
            assert(content_of(acc.1) + chosen_lines_text(lines.drop_last(), false) =~= content_of(
                acc.1,
            ) + chosen_lines_text(lines, false));
        } else {
            lemma_push_content(mid.1, l.line);
            if !sel_absent {
                lemma_push_content(mid.0, Seq::empty());
            }
            assert(content_of(acc.0) + chosen_lines_text(lines.drop_last(), true) + Seq::<
                char,
            >::empty() =~= content_of(acc.0) + chosen_lines_text(lines, true));
            assert(content_of(acc.0) + chosen_lines_text(lines.drop_last(), true) =~= content_of(
                acc.0,
            ) + chosen_lines_text(lines, true));
            assert(content_of(acc.1) + chosen_lines_text(lines.drop_last(), false) + l.line
                =~= content_of(acc.1) + chosen_lines_text(lines, false));
        }
    }
}

/// Whether no section of the sequence is a binary section.
pub open spec fn no_binary_section(sections: Seq<SectionV>) -> bool {
    forall|i: int| 0 <= i < sections.len() ==> !(#[trigger] sections[i] is Binary)
}

/// Folding the sections of a binary-free file appends each side's chosen
/// text.
proof fn lemma_fold_sections_content(
    acc: (SelectedContentsV, SelectedContentsV),
    sections: Seq<SectionV>,
    sel_absent: bool,
)
    requires
        !(acc.0 is Binary),
        !(acc.1 is Binary),
        no_binary_section(sections),
    ensures
        !(spec_fold_sections(acc, sections, sel_absent).0 is Binary),
        !(spec_fold_sections(acc, sections, sel_absent).1 is Binary),
        content_of(spec_fold_sections(acc, sections, sel_absent).0) == content_of(acc.0)
            + sections_side_text(sections, true),
        content_of(spec_fold_sections(acc, sections, sel_absent).1) == content_of(acc.1)
            + sections_side_text(sections, false),
    decreases sections.len(),
{
    if sections.len() == 0 {
        assert(content_of(acc.0) + sections_side_text(sections, true) =~= content_of(acc.0));
        assert(content_of(acc.1) + sections_side_text(sections, false) =~= content_of(acc.1));
    } else {
        assert(no_binary_section(sections.drop_last())) by {
            assert forall|i: int|
                0 <= i < sections.drop_last().len() implies !(#[trigger] sections.drop_last()[i] is Binary) by {
                assert(sections.drop_last()[i] == sections[i]);
            }
        }
        lemma_fold_sections_content(acc, sections.drop_last(), sel_absent);
        let mid = spec_fold_sections(acc, sections.drop_last(), sel_absent);
        let s = sections.last();
        assert(!(s is Binary));
        match s {
            SectionV::Unchanged { lines } => {
                lemma_fold_unchanged_content(mid.0, lines);
                lemma_fold_unchanged_content(mid.1, lines);
            },
            SectionV::Changed { lines } => {
                lemma_fold_lines_content(mid, lines, sel_absent);
            },
            SectionV::FileMode { .. } => {},
            SectionV::Binary { .. } => {},
        }
        assert(content_of(acc.0) + sections_side_text(sections.drop_last(), true)
            + section_side_text(s, true) =~= content_of(acc.0) + sections_side_text(
            sections,
            true,
        ));
        assert(content_of(acc.1) + sections_side_text(sections.drop_last(), false)
            + section_side_text(s, false) =~= content_of(acc.1) + sections_side_text(
            sections,
            false,
        ));
    }
}

/// Law: the selection partitions a binary-free file. The selected contents
/// are exactly the unchanged lines interleaved with the checked added lines
/// and the unchecked removed lines, in order; the unselected contents are the
/// symmetric construction. An accumulator that was never pushed stays
/// `Unchanged`, in which case the corresponding text is empty.
pub proof fn lemma_selection_partition(f: FileV)
    requires
        no_binary_section(f.sections),
    ensures
        !(spec_selection(f).0.contents is Binary),
        !(spec_selection(f).1.contents is Binary),
        spec_selection(f).0.contents matches SelectedContentsV::Text { contents }
            ==> contents == sections_side_text(f.sections, true),
        spec_selection(f).0.contents is Unchanged ==> sections_side_text(f.sections, true)
            == Seq::<char>::empty(),
        spec_selection(f).1.contents matches SelectedContentsV::Text { contents }
            ==> contents == sections_side_text(f.sections, false),
        spec_selection(f).1.contents is Unchanged ==> sections_side_text(f.sections, false)
            == Seq::<char>::empty(),
{
    let init = (SelectedContentsV::Unchanged, SelectedContentsV::Unchanged);
    let sel_mode = spec_selected_mode(f);
    let unsel_mode = spec_unselected_mode(f);
    lemma_fold_sections_content(init, f.sections, sel_mode is Absent);
    let accs = spec_fold_sections(init, f.sections, sel_mode is Absent);
    assert(Seq::<char>::empty() + sections_side_text(f.sections, true) =~= sections_side_text(
        f.sections,
        true,
    ));
    assert(Seq::<char>::empty() + sections_side_text(f.sections, false) =~= sections_side_text(
        f.sections,
        false,
    ));
    if accs.0 is Unchanged && f.file_mode is Absent && !(sel_mode is Absent) {
        lemma_push_content(accs.0, Seq::empty());
        assert(Seq::<char>::empty() + Seq::<char>::empty() =~= Seq::<char>::empty());
    }
    if accs.1 is Unchanged && f.file_mode is Absent && !(unsel_mode is Absent) {
        lemma_push_content(accs.1, Seq::empty());
        assert(Seq::<char>::empty() + Seq::<char>::empty() =~= Seq::<char>::empty());
    }
}

/// Law: a trailing binary section decides the selection. In an existing file
/// whose last section is binary, a checked binary change makes the selected
/// contents that binary change and the unselected contents unchanged, and an
/// unchecked one the reverse — whatever the earlier sections hold.
pub proof fn lemma_binary_selection(f: FileV)
    requires
        !(f.file_mode is Absent),
        f.sections.len() > 0,
        f.sections.last() is Binary,
    ensures
        ({
            let sel = spec_selection(f);
            match f.sections.last() {
                SectionV::Binary { is_checked, old_description, new_description } => {
                    let b = SelectedContentsV::Binary { old_description, new_description };
                    if is_checked {
                        sel.0.contents == b && sel.1.contents == SelectedContentsV::Unchanged
                    } else {
                        sel.0.contents == SelectedContentsV::Unchanged && sel.1.contents == b
                    }
                },
                _ => false,
            }
        }),
{
}

/// Law: creating an empty file. If a binary-free file did not exist before
/// and the selected mode is present (the mode section is checked), the
/// selected contents are text, possibly empty, and never `Unchanged`.
pub proof fn lemma_empty_file_creation(f: FileV)
    requires
        no_binary_section(f.sections),
        f.file_mode is Absent,
        !(spec_selected_mode(f) is Absent),
    ensures
        spec_selection(f).0.contents is Text,
{
    let init = (SelectedContentsV::Unchanged, SelectedContentsV::Unchanged);
    let sel_mode = spec_selected_mode(f);
    lemma_fold_sections_content(init, f.sections, sel_mode is Absent);
    let accs = spec_fold_sections(init, f.sections, sel_mode is Absent);
    if accs.0 is Unchanged {
        lemma_push_content(accs.0, Seq::empty());
    }
}


} // verus!
