//! Building sections from a line diff of two texts. The line diff itself
//! comes from an outside diff engine; the folding of its lines into sections
//! is verified, and reconstructing either side from the sections gives the
//! corresponding input back.

use vstd::prelude::*;

use crate::strutil::{concat_lines, lemma_split_lines_concat, spec_split_lines, split_lines};
use crate::types::{ChangeType, LineV, Section, SectionChangedLine, SectionV};

verus! {

/// One line of a line-oriented diff.
#[derive(Clone, Debug, Eq, PartialEq)]
pub enum DiffLine {
    /// The line appears in both texts.
    Context(String),
    /// The line appears only in the old text.
    Delete(String),
    /// The line appears only in the new text.
    Insert(String),
}

/// The mathematical value of a `DiffLine`.
pub enum DiffLineV {
    /// A common line.
    Context(Seq<char>),
    /// A line of the old text only.
    Delete(Seq<char>),
    /// A line of the new text only.
    Insert(Seq<char>),
}

impl View for DiffLine {
    type V = DiffLineV;

    open spec fn view(&self) -> DiffLineV {
        match self {
            DiffLine::Context(l) => DiffLineV::Context(l@),
            DiffLine::Delete(l) => DiffLineV::Delete(l@),
            DiffLine::Insert(l) => DiffLineV::Insert(l@),
        }
    }
}

/// The lines of the old text within a diff: context and deleted lines.
pub open spec fn old_side(lines: Seq<DiffLineV>) -> Seq<Seq<char>>
    decreases lines.len(),
{
    if lines.len() == 0 {
        Seq::empty()
    } else {
        old_side(lines.drop_last()) + (match lines.last() {
            DiffLineV::Context(l) => seq![l],
            DiffLineV::Delete(l) => seq![l],
            DiffLineV::Insert(_) => Seq::empty(),
        })
    }
}

/// The lines of the new text within a diff: context and inserted lines.
pub open spec fn new_side(lines: Seq<DiffLineV>) -> Seq<Seq<char>>
    decreases lines.len(),
{
    if lines.len() == 0 {
        Seq::empty()
    } else {
        new_side(lines.drop_last()) + (match lines.last() {
            DiffLineV::Context(l) => seq![l],
            DiffLineV::Delete(_) => Seq::empty(),
            DiffLineV::Insert(l) => seq![l],
        })
    }
}

/// The line diff of two texts at a given context length. The diff engine is
/// deterministic, so its output is a function of these arguments alone.
pub uninterp spec fn diff_of(old: Seq<char>, new: Seq<char>, context_len: nat) -> Seq<DiffLineV>;

/// Relies on `diffy::DiffOptions::create_patch`: the patch depends on the
/// two texts and the context length alone. With a context length of at least
/// the number of lines of either text, the patch holds every line of both
/// texts in one run of hunks, so the context and deleted lines restore the
/// old text's lines and the context and inserted lines restore the new
/// text's lines; equal texts give an empty patch.
#[verifier::external_body]
fn diff_lines(old: &str, new: &str, context_len: usize) -> (r: Vec<DiffLine>)
    ensures
        r@.map_values(|l: DiffLine| l@) == diff_of(old@, new@, context_len as nat),
        old@ == new@ ==> r@.len() == 0,
        old@ != new@ && context_len >= spec_split_lines(old@).len() && context_len
            >= spec_split_lines(new@).len() ==> old_side(r@.map_values(|l: DiffLine| l@))
            == spec_split_lines(old@) && new_side(r@.map_values(|l: DiffLine| l@))
            == spec_split_lines(new@),
{
    let mut options = diffy::DiffOptions::new();
    options.set_context_len(context_len);
    let patch = options.create_patch(old, new);
    let mut r = Vec::new();
    for hunk in patch.hunks() {
        for line in hunk.lines() {
            r.push(match line {
                diffy::Line::Context(l) => DiffLine::Context((*l).to_owned()),
                diffy::Line::Delete(l) => DiffLine::Delete((*l).to_owned()),
                diffy::Line::Insert(l) => DiffLine::Insert((*l).to_owned()),
            });
        }
    }
    r
}

/// The lines of the old text within a changed section: the removed ones.
pub open spec fn removed_lines(lines: Seq<LineV>) -> Seq<Seq<char>>
    decreases lines.len(),
{
    if lines.len() == 0 {
        Seq::empty()
    } else {
        removed_lines(lines.drop_last()) + (if lines.last().change_type == ChangeType::Removed {
            seq![lines.last().line]
        } else {
            Seq::empty()
        })
    }
}

/// The lines of the new text within a changed section: the added ones.
pub open spec fn added_lines(lines: Seq<LineV>) -> Seq<Seq<char>>
    decreases lines.len(),
{
    if lines.len() == 0 {
        Seq::empty()
    } else {
        added_lines(lines.drop_last()) + (if lines.last().change_type == ChangeType::Added {
            seq![lines.last().line]
        } else {
            Seq::empty()
        })
    }
}

/// The lines of the old text within one section.
pub open spec fn section_old_lines(s: SectionV) -> Seq<Seq<char>> {
    match s {
        SectionV::Unchanged { lines } => lines,
        SectionV::Changed { lines } => removed_lines(lines),
        SectionV::FileMode { .. } => Seq::empty(),
        SectionV::Binary { .. } => Seq::empty(),
    }
}

/// The lines of the new text within one section.
pub open spec fn section_new_lines(s: SectionV) -> Seq<Seq<char>> {
    match s {
        SectionV::Unchanged { lines } => lines,
        SectionV::Changed { lines } => added_lines(lines),
        SectionV::FileMode { .. } => Seq::empty(),
        SectionV::Binary { .. } => Seq::empty(),
    }
}

/// The old text reconstructed from a sequence of sections: the unchanged
/// lines and the removed lines, in order.
pub open spec fn sections_old_text(sections: Seq<SectionV>) -> Seq<char>
    decreases sections.len(),
{
    if sections.len() == 0 {
        Seq::empty()
    } else {
        sections_old_text(sections.drop_last()) + concat_lines(
            section_old_lines(sections.last()),
        )
    }
}

/// The new text reconstructed from a sequence of sections: the unchanged
/// lines and the added lines, in order.
pub open spec fn sections_new_text(sections: Seq<SectionV>) -> Seq<char>
    decreases sections.len(),
{
    if sections.len() == 0 {
        Seq::empty()
    } else {
        sections_new_text(sections.drop_last()) + concat_lines(
            section_new_lines(sections.last()),
        )
    }
}

/// Whether a sequence of sections is a plain diff: only unchanged and
/// changed sections, with every changed line unchecked.
pub open spec fn plain_diff_sections(sections: Seq<SectionV>) -> bool {
    forall|i: int|
        0 <= i < sections.len() ==> match #[trigger] sections[i] {
            SectionV::Unchanged { .. } => true,
            SectionV::Changed { lines } => forall|j: int|
                0 <= j < lines.len() ==> !(#[trigger] lines[j].is_checked),
            SectionV::FileMode { .. } => false,
            SectionV::Binary { .. } => false,
        }
}

/// Whether a diff section holds at least one line.
pub open spec fn diff_section_nonempty(s: SectionV) -> bool {
    match s {
        SectionV::Unchanged { lines } => lines.len() > 0,
        SectionV::Changed { lines } => lines.len() > 0,
        SectionV::FileMode { .. } => true,
        SectionV::Binary { .. } => true,
    }
}

/// Whether a sequence of sections is maximally folded: every section holds
/// at least one line, and no two adjacent sections share a variant, so each
/// run of consecutive equal diff categories stands in a single section.
pub open spec fn folded_diff_sections(sections: Seq<SectionV>) -> bool {
    &&& forall|i: int| 0 <= i < sections.len() ==> diff_section_nonempty(#[trigger] sections[i])
    &&& forall|i: int|
        0 <= i < sections.len() - 1 ==> !((#[trigger] sections[i] is Unchanged) && sections[i
            + 1] is Unchanged) && !((sections[i] is Changed) && sections[i + 1] is Changed)
}

/// A folded diff stays folded when a nonempty section is appended whose
/// variant differs from the last one's.
proof fn lemma_folded_push(sections: Seq<SectionV>, s: SectionV)
    requires
        folded_diff_sections(sections),
        diff_section_nonempty(s),
        sections.len() > 0 ==> !((sections.last() is Unchanged) && s is Unchanged) && !((
        sections.last() is Changed) && s is Changed),
    ensures
        folded_diff_sections(sections.push(s)),
{
    let pushed = sections.push(s);
    assert forall|i: int| 0 <= i < pushed.len() implies diff_section_nonempty(
        #[trigger] pushed[i],
    ) by {
        if i < sections.len() {
            assert(pushed[i] == sections[i]);
        } else {
            assert(pushed[i] == s);
        }
    }
    assert forall|i: int| 0 <= i < pushed.len() - 1 implies !((#[trigger] pushed[i] is Unchanged)
        && pushed[i + 1] is Unchanged) && !((pushed[i] is Changed) && pushed[i
        + 1] is Changed) by {
        assert(pushed[i] == sections[i]);
        if i + 1 < sections.len() {
            assert(pushed[i + 1] == sections[i + 1]);
        } else {
            assert(pushed[i + 1] == s);
            assert(sections[i] == sections.last());
        }
    }
}

/// One step of folding diff lines into sections, over the state of emitted
/// sections, pending context lines, and pending changed lines: a line of a
/// new category first flushes the pending lines of the other category as a
/// section.
pub open spec fn spec_diff_step(
    st: (Seq<SectionV>, Seq<Seq<char>>, Seq<LineV>),
    l: DiffLineV,
) -> (Seq<SectionV>, Seq<Seq<char>>, Seq<LineV>) {
    match l {
        DiffLineV::Context(line) => {
            let flushed = if st.2.len() > 0 {
                st.0.push(SectionV::Changed { lines: st.2 })
            } else {
                st.0
            };
            (flushed, st.1.push(line), Seq::empty())
        },
        DiffLineV::Delete(line) => {
            let flushed = if st.1.len() > 0 {
                st.0.push(SectionV::Unchanged { lines: st.1 })
            } else {
                st.0
            };
            (
                flushed,
                Seq::empty(),
                st.2.push(LineV { is_checked: false, change_type: ChangeType::Removed, line }),
            )
        },
        DiffLineV::Insert(line) => {
            let flushed = if st.1.len() > 0 {
                st.0.push(SectionV::Unchanged { lines: st.1 })
            } else {
                st.0
            };
            (
                flushed,
                Seq::empty(),
                st.2.push(LineV { is_checked: false, change_type: ChangeType::Added, line }),
            )
        },
    }
}

/// The fold state after a sequence of diff lines.
pub open spec fn spec_diff_state(lines: Seq<DiffLineV>) -> (
    Seq<SectionV>,
    Seq<Seq<char>>,
    Seq<LineV>,
)
    decreases lines.len(),
{
    if lines.len() == 0 {
        (Seq::empty(), Seq::empty(), Seq::empty())
    } else {
        spec_diff_step(spec_diff_state(lines.drop_last()), lines.last())
    }
}

/// The sections a sequence of diff lines folds into: the fold state with the
/// pending lines flushed.
pub open spec fn spec_fold_diff(lines: Seq<DiffLineV>) -> Seq<SectionV> {
    let st = spec_diff_state(lines);
    let flushed = if st.1.len() > 0 {
        st.0.push(SectionV::Unchanged { lines: st.1 })
    } else {
        st.0
    };
    if st.2.len() > 0 {
        flushed.push(SectionV::Changed { lines: st.2 })
    } else {
        flushed
    }
}

/// The context length used when building a diff: the larger line count of
/// the two texts, so that the whole of both appears in the patch.
pub open spec fn spec_context_len(old: Seq<char>, new: Seq<char>) -> nat {
    if spec_split_lines(old).len() > spec_split_lines(new).len() {
        spec_split_lines(old).len()
    } else {
        spec_split_lines(new).len()
    }
}

/// The concatenation of the old-side lines of a diff.
pub open spec fn old_text_of(lines: Seq<DiffLineV>) -> Seq<char> {
    concat_lines(old_side(lines))
}

/// The concatenation of the new-side lines of a diff.
pub open spec fn new_text_of(lines: Seq<DiffLineV>) -> Seq<char> {
    concat_lines(new_side(lines))
}

/// In a changed section whose lines are all unchecked, the lines chosen for
/// the selected side are exactly the removed lines, and the lines chosen for
/// the unselected side are exactly the added lines.
proof fn lemma_unchecked_chosen_lines(lines: Seq<LineV>)
    requires
        forall|j: int| 0 <= j < lines.len() ==> !(#[trigger] lines[j].is_checked),
    ensures
        crate::types::chosen_lines_text(lines, true) == concat_lines(removed_lines(lines)),
        crate::types::chosen_lines_text(lines, false) == concat_lines(added_lines(lines)),
    decreases lines.len(),
{
    if lines.len() == 0 {
        assert(crate::types::chosen_lines_text(lines, true) =~= concat_lines(
            removed_lines(lines),
        ));
        assert(crate::types::chosen_lines_text(lines, false) =~= concat_lines(
            added_lines(lines),
        ));
    } else {
        assert(forall|j: int|
            0 <= j < lines.drop_last().len() ==> !(#[trigger] lines.drop_last()[j].is_checked));
        lemma_unchecked_chosen_lines(lines.drop_last());
        let l = lines.last();
        assert(!l.is_checked);
        if l.change_type == ChangeType::Removed {
            assert(crate::types::line_is_selected(l));
            lemma_concat_snoc(removed_lines(lines.drop_last()), l.line);
            assert(removed_lines(lines.drop_last()).push(l.line) =~= removed_lines(
                lines.drop_last(),
            ) + seq![l.line]);
            assert(added_lines(lines) =~= added_lines(lines.drop_last()));
            assert(crate::types::chosen_lines_text(lines, false)
                =~= crate::types::chosen_lines_text(lines.drop_last(), false));
        } else {
            assert(!crate::types::line_is_selected(l));
            lemma_concat_snoc(added_lines(lines.drop_last()), l.line);
            assert(added_lines(lines.drop_last()).push(l.line) =~= added_lines(lines.drop_last())
                + seq![l.line]);
            assert(removed_lines(lines) =~= removed_lines(lines.drop_last()));
            assert(crate::types::chosen_lines_text(lines, true)
                =~= crate::types::chosen_lines_text(lines.drop_last(), true));
        }
    }
}

/// Law: in a plain diff, whose changed lines are all unchecked, the selected
/// side carries exactly the old text and the unselected side exactly the new
/// text. Selecting nothing of a freshly built diff therefore keeps the old
/// contents, and the leftover side is the new contents.
pub proof fn lemma_plain_diff_selection_text(sections: Seq<SectionV>)
    requires
        plain_diff_sections(sections),
    ensures
        crate::types::sections_side_text(sections, true) == sections_old_text(sections),
        crate::types::sections_side_text(sections, false) == sections_new_text(sections),
    decreases sections.len(),
{
    if sections.len() == 0 {
        assert(crate::types::sections_side_text(sections, true) =~= sections_old_text(sections));
        assert(crate::types::sections_side_text(sections, false) =~= sections_new_text(sections));
    } else {
        assert(forall|i: int|
            0 <= i < sections.drop_last().len() ==> match #[trigger] sections.drop_last()[i] {
                SectionV::Unchanged { .. } => true,
                SectionV::Changed { lines } => forall|j: int|
                    0 <= j < lines.len() ==> !(#[trigger] lines[j].is_checked),
                SectionV::FileMode { .. } => false,
                SectionV::Binary { .. } => false,
            }) by {
            assert(forall|i: int|
                0 <= i < sections.drop_last().len() ==> sections.drop_last()[i] == sections[i]);
        }
        lemma_plain_diff_selection_text(sections.drop_last());
        let s = sections.last();
        assert(sections[sections.len() - 1] == s);
        match s {
            SectionV::Unchanged { lines } => {},
            SectionV::Changed { lines } => {
                lemma_unchecked_chosen_lines(lines);
            },
            SectionV::FileMode { .. } => {
                assert(false);
            },
            SectionV::Binary { .. } => {
                assert(false);
            },
        }
    }
}

/// Appending one element to a section sequence adds its text at the end.
proof fn lemma_sections_text_snoc(sections: Seq<SectionV>, s: SectionV)
    ensures
        sections_old_text(sections.push(s)) == sections_old_text(sections) + concat_lines(
            section_old_lines(s),
        ),
        sections_new_text(sections.push(s)) == sections_new_text(sections) + concat_lines(
            section_new_lines(s),
        ),
{
    assert(sections.push(s).drop_last() =~= sections);
    assert(sections.push(s).last() == s);
}

/// Appending a line to a line sequence extends each reconstruction.
proof fn lemma_concat_snoc(lines: Seq<Seq<char>>, l: Seq<char>)
    ensures
        concat_lines(lines.push(l)) == concat_lines(lines) + l,
{
    assert(lines.push(l).drop_last() =~= lines);
    assert(lines.push(l).last() == l);
}

/// Appending a changed line extends the removed and added reconstructions.
proof fn lemma_changed_snoc(lines: Seq<LineV>, l: LineV)
    ensures
        removed_lines(lines.push(l)) == removed_lines(lines) + (if l.change_type
            == ChangeType::Removed {
            seq![l.line]
        } else {
            Seq::<Seq<char>>::empty()
        }),
        added_lines(lines.push(l)) == added_lines(lines) + (if l.change_type == ChangeType::Added {
            seq![l.line]
        } else {
            Seq::<Seq<char>>::empty()
        }),
{
    assert(lines.push(l).drop_last() =~= lines);
    assert(lines.push(l).last() == l);
}

/// Build a changed-lines section body from file contents, one entry per
/// line, all unchecked.
#[verifier::loop_isolation(false)]
pub fn make_section_changed_lines(contents: &str, change_type: ChangeType) -> (r: Vec<
    SectionChangedLine,
>)
    ensures
        r@.map_values(|l: SectionChangedLine| l@) == spec_split_lines(contents@).map_values(
            |l: Seq<char>| (LineV { is_checked: false, change_type, line: l }),
        ),
{
    let lines = split_lines(contents);
    let ghost lv = spec_split_lines(contents@);
    proof {
        assert forall|j: int| 0 <= j < lines@.len() implies #[trigger] lines@[j]@ == lv[j] by {
            assert(lines@.map_values(|l: String| l@)[j] == lines@[j]@);
        }
        assert(lines@.len() == lv.len());
    }
    let n = lines.len();
    let mut r: Vec<SectionChangedLine> = Vec::new();
    let mut i: usize = 0;
    while i < n
        invariant
            i <= n,
            r@.len() == i,
            forall|j: int|
                0 <= j < i ==> #[trigger] r@[j]@ == (LineV {
                    is_checked: false,
                    change_type,
                    line: lv[j],
                }),
        decreases n - i,
    {
        let line = lines[i].clone();
        r.push(SectionChangedLine { is_checked: false, change_type, line });
        i = i + 1;
    }
    proof {
        let f = |l: Seq<char>| (LineV { is_checked: false, change_type, line: l });
        let rv = r@.map_values(|l: SectionChangedLine| l@);
        let fv = lv.map_values(f);
        assert forall|j: int| 0 <= j < n implies #[trigger] rv[j] == fv[j] by {
            assert(rv[j] == r@[j]@);
            assert(fv[j] == f(lv[j]));
        }
        assert(rv =~= fv);
    }
    r
}

/// Fold a sequence of diff lines into sections: consecutive context lines
/// become one unchanged section and consecutive deleted or inserted lines
/// one changed section, exactly as `spec_fold_diff` states. Reconstructing
/// either side from the sections gives the corresponding side of the diff
/// lines back.
#[verifier::loop_isolation(false)]
pub fn fold_diff_sections(dl: &Vec<DiffLine>) -> (r: Vec<Section>)
    ensures
        r@.map_values(|s: Section| s@) == spec_fold_diff(dl@.map_values(|l: DiffLine| l@)),
        sections_old_text(r@.map_values(|s: Section| s@)) == old_text_of(
            dl@.map_values(|l: DiffLine| l@),
        ),
        sections_new_text(r@.map_values(|s: Section| s@)) == new_text_of(
            dl@.map_values(|l: DiffLine| l@),
        ),
        plain_diff_sections(r@.map_values(|s: Section| s@)),
        folded_diff_sections(r@.map_values(|s: Section| s@)),
        dl@.len() == 0 ==> r@.len() == 0,
{
    let ghost dlv = dl@.map_values(|l: DiffLine| l@);
    proof {
        assert forall|j: int| 0 <= j < dl@.len() implies #[trigger] dlv[j] == dl@[j]@ by {
            assert(dl@.map_values(|l: DiffLine| l@)[j] == dl@[j]@);
        }
        assert(dlv.len() == dl@.len());
    }

    let mut sections: Vec<Section> = Vec::new();
    let mut cur_unchanged: Vec<String> = Vec::new();
    let mut cur_changed: Vec<SectionChangedLine> = Vec::new();
    let n = dl.len();
    let mut i: usize = 0;
    proof {
        assert(old_text_of(dlv.take(0)) =~= Seq::<char>::empty());
        assert(new_text_of(dlv.take(0)) =~= Seq::<char>::empty());
        assert(sections_old_text(Seq::<SectionV>::empty()) + concat_lines(
            Seq::<Seq<char>>::empty(),
        ) + concat_lines(Seq::<Seq<char>>::empty()) =~= Seq::<char>::empty());
        assert(dlv.take(0) =~= Seq::<DiffLineV>::empty());
    }
    while i < n
        invariant
            i <= n,
            cur_unchanged@.len() == 0 || cur_changed@.len() == 0,
            sections@.map_values(|s: Section| s@) == spec_diff_state(dlv.take(i as int)).0,
            cur_unchanged@.map_values(|l: String| l@) == spec_diff_state(dlv.take(i as int)).1,
            cur_changed@.map_values(|l: SectionChangedLine| l@) == spec_diff_state(
                dlv.take(i as int),
            ).2,
            sections_old_text(sections@.map_values(|s: Section| s@)) + concat_lines(
                cur_unchanged@.map_values(|l: String| l@),
            ) + concat_lines(
                removed_lines(cur_changed@.map_values(|l: SectionChangedLine| l@)),
            ) == old_text_of(dlv.take(i as int)),
            sections_new_text(sections@.map_values(|s: Section| s@)) + concat_lines(
                cur_unchanged@.map_values(|l: String| l@),
            ) + concat_lines(
                added_lines(cur_changed@.map_values(|l: SectionChangedLine| l@)),
            ) == new_text_of(dlv.take(i as int)),
            plain_diff_sections(sections@.map_values(|s: Section| s@)),
            folded_diff_sections(sections@.map_values(|s: Section| s@)),
            forall|j: int|
                0 <= j < cur_changed@.len() ==> !(#[trigger] cur_changed@[j].is_checked),
            dlv.len() == 0 ==> sections@.len() == 0 && cur_unchanged@.len() == 0
                && cur_changed@.len() == 0,
            i == 0 ==> sections@.len() == 0 && cur_unchanged@.len() == 0 && cur_changed@.len()
                == 0,
            i > 0 ==> cur_unchanged@.len() > 0 || cur_changed@.len() > 0,
            cur_unchanged@.len() > 0 ==> sections@.len() == 0 || sections@.map_values(
                |s: Section| s@,
            ).last() is Changed,
            cur_changed@.len() > 0 ==> sections@.len() == 0 || sections@.map_values(
                |s: Section| s@,
            ).last() is Unchanged,
        decreases n - i,
    {
        let ghost flushed0 = sections@.map_values(|s: Section| s@);
        let ghost cu0 = cur_unchanged@.map_values(|l: String| l@);
        let ghost cc0 = cur_changed@.map_values(|l: SectionChangedLine| l@);
        proof {
            assert forall|j: int| 0 <= j < cc0.len() implies !(#[trigger] cc0[j].is_checked) by {
                assert(cc0[j] == cur_changed@[j]@);
            }
            assert(cu0.len() == cur_unchanged@.len());
            assert(cc0.len() == cur_changed@.len());
            assert(flushed0.len() == sections@.len());
        }
        let line = &dl[i];
        match line {
            DiffLine::Context(l) => {
                proof {
                    if cc0.len() > 0 {
                        lemma_plain_push(flushed0, SectionV::Changed { lines: cc0 });
                        lemma_folded_push(flushed0, SectionV::Changed { lines: cc0 });
                    }
                }
                flush_changed(&mut sections, &mut cur_changed);
                push_unchanged_line(&mut cur_unchanged, l);
                proof {
                    let st1 = spec_diff_step((flushed0, cu0, cc0), dlv[i as int]);
                    assert(sections@.map_values(|s: Section| s@) == st1.0);
                    assert(cur_unchanged@.map_values(|x: String| x@) == st1.1);
                    assert(cur_changed@.map_values(|x: SectionChangedLine| x@) =~= st1.2);
                }
            },
            DiffLine::Delete(l) => {
                proof {
                    if cu0.len() > 0 {
                        lemma_plain_push(flushed0, SectionV::Unchanged { lines: cu0 });
                        lemma_folded_push(flushed0, SectionV::Unchanged { lines: cu0 });
                    }
                }
                flush_unchanged(&mut sections, &mut cur_unchanged);
                push_changed_line(&mut cur_changed, l, ChangeType::Removed);
                proof {
                    let st1 = spec_diff_step((flushed0, cu0, cc0), dlv[i as int]);
                    assert(sections@.map_values(|s: Section| s@) == st1.0);
                    assert(cur_unchanged@.map_values(|x: String| x@) =~= st1.1);
                    assert(cur_changed@.map_values(|x: SectionChangedLine| x@) == st1.2);
                }
            },
            DiffLine::Insert(l) => {
                proof {
                    if cu0.len() > 0 {
                        lemma_plain_push(flushed0, SectionV::Unchanged { lines: cu0 });
                        lemma_folded_push(flushed0, SectionV::Unchanged { lines: cu0 });
                    }
                }
                flush_unchanged(&mut sections, &mut cur_unchanged);
                push_changed_line(&mut cur_changed, l, ChangeType::Added);
                proof {
                    let st1 = spec_diff_step((flushed0, cu0, cc0), dlv[i as int]);
                    assert(sections@.map_values(|s: Section| s@) == st1.0);
                    assert(cur_unchanged@.map_values(|x: String| x@) =~= st1.1);
                    assert(cur_changed@.map_values(|x: SectionChangedLine| x@) == st1.2);
                }
            },
        }
        proof {
            let flushed1 = sections@.map_values(|s: Section| s@);
            let cu1 = cur_unchanged@.map_values(|l: String| l@);
            let cc1 = cur_changed@.map_values(|l: SectionChangedLine| l@);
            if cur_unchanged@.len() == 0 {
                assert(cu1 =~= Seq::<Seq<char>>::empty());
            }
            if cur_changed@.len() == 0 {
                assert(cc1 =~= Seq::<LineV>::empty());
            }
            lemma_step_texts(flushed0, cu0, cc0, flushed1, cu1, cc1, dlv, i as int);
            assert(dlv.take(i + 1).drop_last() =~= dlv.take(i as int));
            assert(dlv.take(i + 1).last() == dlv[i as int]);
            assert(spec_diff_state(dlv.take(i + 1)) == spec_diff_step(
                (flushed0, cu0, cc0),
                dlv[i as int],
            ));
        }
        i = i + 1;
    }
    proof {
        assert(dlv.take(n as int) =~= dlv);
    }
    let ghost flushed0 = sections@.map_values(|s: Section| s@);
    let ghost cu0 = cur_unchanged@.map_values(|l: String| l@);
    let ghost cc0 = cur_changed@.map_values(|l: SectionChangedLine| l@);
    proof {
        assert forall|j: int| 0 <= j < cc0.len() implies !(#[trigger] cc0[j].is_checked) by {
            assert(cc0[j] == cur_changed@[j]@);
        }
        assert(cu0.len() == cur_unchanged@.len());
        assert(cc0.len() == cur_changed@.len());
        assert(flushed0.len() == sections@.len());
        if cu0.len() > 0 {
            lemma_plain_push(flushed0, SectionV::Unchanged { lines: cu0 });
            lemma_folded_push(flushed0, SectionV::Unchanged { lines: cu0 });
        }
    }
    flush_unchanged(&mut sections, &mut cur_unchanged);
    let ghost mid = sections@.map_values(|s: Section| s@);
    proof {
        if cu0.len() > 0 {
            lemma_sections_text_snoc(flushed0, SectionV::Unchanged { lines: cu0 });
        }
        if cc0.len() > 0 {
            lemma_plain_push(mid, SectionV::Changed { lines: cc0 });
            assert(cu0.len() == 0);
            assert(mid == flushed0);
            lemma_folded_push(mid, SectionV::Changed { lines: cc0 });
        }
    }
    flush_changed(&mut sections, &mut cur_changed);
    proof {
        let fin = sections@.map_values(|s: Section| s@);
        if cc0.len() > 0 {
            lemma_sections_text_snoc(mid, SectionV::Changed { lines: cc0 });
            assert(cu0.len() == 0);
            assert(concat_lines(cu0) =~= Seq::<char>::empty());
        } else {
            assert(concat_lines(removed_lines(cc0)) =~= Seq::<char>::empty());
            assert(concat_lines(added_lines(cc0)) =~= Seq::<char>::empty());
        }
        if cu0.len() == 0 {
            assert(concat_lines(cu0) =~= Seq::<char>::empty());
        }
        assert(sections_old_text(fin) =~= sections_old_text(flushed0) + concat_lines(cu0)
            + concat_lines(removed_lines(cc0)));
        assert(sections_new_text(fin) =~= sections_new_text(flushed0) + concat_lines(cu0)
            + concat_lines(added_lines(cc0)));
        assert(fin == spec_fold_diff(dlv));
        if dlv.len() == 0 {
            assert(flushed0.len() == 0 && cu0.len() == 0 && cc0.len() == 0);
            assert(fin == flushed0);
            assert(sections@.len() == fin.len());
        }
    }
    sections
}

/// Build the ordered sections of a two-sided text diff: exactly the fold of
/// the engine's line diff at full context, so all context is kept.
/// Reconstructing the old side from the sections (unchanged plus removed
/// lines, in order) gives the old text back, and symmetrically for the new
/// side; identical texts give no sections.
pub fn create_diff(old_contents: &str, new_contents: &str) -> (r: Vec<Section>)
    ensures
        r@.map_values(|s: Section| s@) == spec_fold_diff(
            diff_of(
                old_contents@,
                new_contents@,
                spec_context_len(old_contents@, new_contents@),
            ),
        ),
        old_contents@ == new_contents@ ==> r@.len() == 0,
        old_contents@ != new_contents@ ==> sections_old_text(
            r@.map_values(|s: Section| s@),
        ) == old_contents@ && sections_new_text(r@.map_values(|s: Section| s@))
            == new_contents@,
        plain_diff_sections(r@.map_values(|s: Section| s@)),
        folded_diff_sections(r@.map_values(|s: Section| s@)),
{
    // Use the larger line count of the two files as the context length, so
    // that the whole of both files appears in the patch.
    let old_lines = split_lines(old_contents);
    let new_lines = split_lines(new_contents);
    let old_line_count = old_lines.len();
    let new_line_count = new_lines.len();
    proof {
        assert(old_lines@.map_values(|l: String| l@).len() == old_lines@.len());
        assert(new_lines@.map_values(|l: String| l@).len() == new_lines@.len());
    }
    let context_len = if old_line_count > new_line_count {
        old_line_count
    } else {
        new_line_count
    };
    proof {
        assert(context_len as nat == spec_context_len(old_contents@, new_contents@));
    }
    let dl = diff_lines(old_contents, new_contents, context_len);
    let ghost dlv = dl@.map_values(|l: DiffLine| l@);
    let sections = fold_diff_sections(&dl);
    proof {
        if old_contents@ != new_contents@ {
            assert(old_side(dlv) == spec_split_lines(old_contents@));
            assert(new_side(dlv) == spec_split_lines(new_contents@));
            lemma_split_lines_concat(old_contents@);
            lemma_split_lines_concat(new_contents@);
        }
    }
    sections
}

/// A plain diff stays plain when a context or unchecked changed section is
/// appended.
pub(crate) proof fn lemma_plain_push(sections: Seq<SectionV>, s: SectionV)
    requires
        plain_diff_sections(sections),
        match s {
            SectionV::Unchanged { .. } => true,
            SectionV::Changed { lines } => forall|j: int|
                0 <= j < lines.len() ==> !(#[trigger] lines[j].is_checked),
            SectionV::FileMode { .. } => false,
            SectionV::Binary { .. } => false,
        },
    ensures
        plain_diff_sections(sections.push(s)),
{
    assert forall|i: int| 0 <= i < sections.push(s).len() implies match #[trigger] sections.push(
        s,
    )[i] {
        SectionV::Unchanged { .. } => true,
        SectionV::Changed { lines } => forall|j: int|
            0 <= j < lines.len() ==> !(#[trigger] lines[j].is_checked),
        SectionV::FileMode { .. } => false,
        SectionV::Binary { .. } => false,
    } by {
        if i < sections.len() {
            assert(sections.push(s)[i] == sections[i]);
        } else {
            assert(sections.push(s)[i] == s);
        }
    }
}

/// Move a pending changed section, if any, into the section list.
fn flush_changed(sections: &mut Vec<Section>, cur_changed: &mut Vec<SectionChangedLine>)
    ensures
        final(cur_changed)@.len() == 0,
        old(cur_changed)@.len() == 0 ==> final(sections)@.map_values(|s: Section| s@) == old(
            sections,
        )@.map_values(|s: Section| s@),
        old(cur_changed)@.len() > 0 ==> final(sections)@.map_values(|s: Section| s@) == old(
            sections,
        )@.map_values(|s: Section| s@).push(
            SectionV::Changed {
                lines: old(cur_changed)@.map_values(|l: SectionChangedLine| l@),
            },
        ),
{
    if cur_changed.len() > 0 {
        let mut lines: Vec<SectionChangedLine> = Vec::new();
        core::mem::swap(&mut lines, cur_changed);
        let ghost pre = sections@.map_values(|s: Section| s@);
        sections.push(Section::Changed { lines });
        proof {
            let post = sections@.map_values(|s: Section| s@);
            assert forall|j: int| 0 <= j < sections@.len() implies #[trigger] post[j] == (if j
                < pre.len() {
                pre[j]
            } else {
                SectionV::Changed {
                    lines: old(cur_changed)@.map_values(|l: SectionChangedLine| l@),
                }
            }) by {
                assert(post[j] == sections@[j]@);
                if j < pre.len() {
                    assert(pre[j] == old(sections)@[j]@);
                }
            }
            assert(post =~= pre.push(
                SectionV::Changed {
                    lines: old(cur_changed)@.map_values(|l: SectionChangedLine| l@),
                },
            ));
        }
    }
}

/// Move a pending unchanged section, if any, into the section list.
fn flush_unchanged(sections: &mut Vec<Section>, cur_unchanged: &mut Vec<String>)
    ensures
        final(cur_unchanged)@.len() == 0,
        old(cur_unchanged)@.len() == 0 ==> final(sections)@.map_values(|s: Section| s@) == old(
            sections,
        )@.map_values(|s: Section| s@),
        old(cur_unchanged)@.len() > 0 ==> final(sections)@.map_values(|s: Section| s@) == old(
            sections,
        )@.map_values(|s: Section| s@).push(
            SectionV::Unchanged { lines: old(cur_unchanged)@.map_values(|l: String| l@) },
        ),
{
    if cur_unchanged.len() > 0 {
        let mut lines: Vec<String> = Vec::new();
        core::mem::swap(&mut lines, cur_unchanged);
        let ghost pre = sections@.map_values(|s: Section| s@);
        sections.push(Section::Unchanged { lines });
        proof {
            let post = sections@.map_values(|s: Section| s@);
            assert forall|j: int| 0 <= j < sections@.len() implies #[trigger] post[j] == (if j
                < pre.len() {
                pre[j]
            } else {
                SectionV::Unchanged { lines: old(cur_unchanged)@.map_values(|l: String| l@) }
            }) by {
                assert(post[j] == sections@[j]@);
                if j < pre.len() {
                    assert(pre[j] == old(sections)@[j]@);
                }
            }
            assert(post =~= pre.push(
                SectionV::Unchanged { lines: old(cur_unchanged)@.map_values(|l: String| l@) },
            ));
        }
    }
}

/// Append one context line to the pending unchanged section.
fn push_unchanged_line(cur_unchanged: &mut Vec<String>, l: &String)
    ensures
        final(cur_unchanged)@.map_values(|s: String| s@) == old(cur_unchanged)@.map_values(
            |s: String| s@,
        ).push(l@),
        final(cur_unchanged)@.len() == old(cur_unchanged)@.len() + 1,
{
    let ghost pre = cur_unchanged@.map_values(|s: String| s@);
    cur_unchanged.push(l.clone());
    proof {
        let post = cur_unchanged@.map_values(|s: String| s@);
        assert forall|j: int| 0 <= j < cur_unchanged@.len() implies #[trigger] post[j] == (if j
            < pre.len() {
            pre[j]
        } else {
            l@
        }) by {
            assert(post[j] == cur_unchanged@[j]@);
            if j < pre.len() {
                assert(pre[j] == old(cur_unchanged)@[j]@);
            }
        }
        assert(post =~= pre.push(l@));
    }
}

/// Append one changed line to the pending changed section.
fn push_changed_line(cur_changed: &mut Vec<SectionChangedLine>, l: &String, change_type: ChangeType)
    ensures
        final(cur_changed)@.map_values(|x: SectionChangedLine| x@) == old(
            cur_changed,
        )@.map_values(|x: SectionChangedLine| x@).push(
            LineV { is_checked: false, change_type, line: l@ },
        ),
        final(cur_changed)@.len() == old(cur_changed)@.len() + 1,
        forall|j: int|
            0 <= j < final(cur_changed)@.len() ==> final(cur_changed)@[j].is_checked == (if j < old(
                cur_changed,
            )@.len() {
                old(cur_changed)@[j].is_checked
            } else {
                false
            }),
{
    let ghost pre = cur_changed@.map_values(|x: SectionChangedLine| x@);
    cur_changed.push(SectionChangedLine { is_checked: false, change_type, line: l.clone() });
    proof {
        let post = cur_changed@.map_values(|x: SectionChangedLine| x@);
        assert forall|j: int| 0 <= j < cur_changed@.len() implies #[trigger] post[j] == (if j
            < pre.len() {
            pre[j]
        } else {
            LineV { is_checked: false, change_type, line: l@ }
        }) by {
            assert(post[j] == cur_changed@[j]@);
            if j < pre.len() {
                assert(pre[j] == old(cur_changed)@[j]@);
            }
        }
        assert(post =~= pre.push(LineV { is_checked: false, change_type, line: l@ }));
    }
}

/// One step of the section fold preserves the reconstruction equations.
#[verifier::rlimit(30)]
proof fn lemma_step_texts(
    flushed0: Seq<SectionV>,
    cu0: Seq<Seq<char>>,
    cc0: Seq<LineV>,
    flushed1: Seq<SectionV>,
    cu1: Seq<Seq<char>>,
    cc1: Seq<LineV>,
    dlv: Seq<DiffLineV>,
    i: int,
)
    requires
        0 <= i < dlv.len(),
        cu0.len() == 0 || cc0.len() == 0,
        sections_old_text(flushed0) + concat_lines(cu0) + concat_lines(removed_lines(cc0))
            == old_text_of(dlv.take(i)),
        sections_new_text(flushed0) + concat_lines(cu0) + concat_lines(added_lines(cc0))
            == new_text_of(dlv.take(i)),
        match dlv[i] {
            DiffLineV::Context(l) => {
                &&& (cc0.len() == 0 ==> flushed1 == flushed0)
                &&& (cc0.len() > 0 ==> flushed1 == flushed0.push(SectionV::Changed { lines: cc0 }))
                &&& cu1 == cu0.push(l)
                &&& cc1 == Seq::<LineV>::empty()
            },
            DiffLineV::Delete(l) => {
                &&& (cu0.len() == 0 ==> flushed1 == flushed0)
                &&& (cu0.len() > 0 ==> flushed1 == flushed0.push(
                    SectionV::Unchanged { lines: cu0 },
                ))
                &&& cc1 == cc0.push(
                    LineV { is_checked: false, change_type: ChangeType::Removed, line: l },
                )
                &&& cu1 == Seq::<Seq<char>>::empty()
            },
            DiffLineV::Insert(l) => {
                &&& (cu0.len() == 0 ==> flushed1 == flushed0)
                &&& (cu0.len() > 0 ==> flushed1 == flushed0.push(
                    SectionV::Unchanged { lines: cu0 },
                ))
                &&& cc1 == cc0.push(
                    LineV { is_checked: false, change_type: ChangeType::Added, line: l },
                )
                &&& cu1 == Seq::<Seq<char>>::empty()
            },
        },
    ensures
        sections_old_text(flushed1) + concat_lines(cu1) + concat_lines(removed_lines(cc1))
            == old_text_of(dlv.take(i + 1)),
        sections_new_text(flushed1) + concat_lines(cu1) + concat_lines(added_lines(cc1))
            == new_text_of(dlv.take(i + 1)),
{
    assert(dlv.take(i + 1).drop_last() =~= dlv.take(i));
    assert(dlv.take(i + 1).last() == dlv[i]);
    let so0 = sections_old_text(flushed0);
    let sn0 = sections_new_text(flushed0);
    match dlv[i] {
        DiffLineV::Context(l) => {
            assert(old_side(dlv.take(i + 1)) == old_side(dlv.take(i)) + seq![l]);
            assert(new_side(dlv.take(i + 1)) == new_side(dlv.take(i)) + seq![l]);
            lemma_concat_snoc(old_side(dlv.take(i)), l);
            lemma_concat_snoc(new_side(dlv.take(i)), l);
            assert(old_side(dlv.take(i)) + seq![l] =~= old_side(dlv.take(i)).push(l));
            assert(new_side(dlv.take(i)) + seq![l] =~= new_side(dlv.take(i)).push(l));
            lemma_concat_snoc(cu0, l);
            assert(cu1 =~= cu0.push(l));
            if cc0.len() > 0 {
                lemma_sections_text_snoc(flushed0, SectionV::Changed { lines: cc0 });
                assert(cu0.len() == 0);
                assert(concat_lines(cu0) =~= Seq::<char>::empty());
            }
            assert(concat_lines(removed_lines(cc1)) =~= Seq::<char>::empty());
            assert(concat_lines(added_lines(cc1)) =~= Seq::<char>::empty());
            assert(sections_old_text(flushed1) + concat_lines(cu1) + concat_lines(
                removed_lines(cc1),
            ) =~= old_text_of(dlv.take(i + 1)));
            assert(sections_new_text(flushed1) + concat_lines(cu1) + concat_lines(
                added_lines(cc1),
            ) =~= new_text_of(dlv.take(i + 1)));
        },
        DiffLineV::Delete(l) => {
            assert(old_side(dlv.take(i + 1)) == old_side(dlv.take(i)) + seq![l]);
            assert(new_side(dlv.take(i + 1)) == new_side(dlv.take(i)) + Seq::<Seq<char>>::empty());
            assert(new_side(dlv.take(i + 1)) =~= new_side(dlv.take(i)));
            lemma_concat_snoc(old_side(dlv.take(i)), l);
            assert(old_side(dlv.take(i)) + seq![l] =~= old_side(dlv.take(i)).push(l));
            lemma_changed_snoc(
                cc0,
                LineV { is_checked: false, change_type: ChangeType::Removed, line: l },
            );
            lemma_concat_snoc(removed_lines(cc0), l);
            assert(removed_lines(cc0) + seq![l] =~= removed_lines(cc0).push(l));
            assert(added_lines(cc1) =~= added_lines(cc0));
            if cu0.len() > 0 {
                lemma_sections_text_snoc(flushed0, SectionV::Unchanged { lines: cu0 });
                assert(cc0.len() == 0);
                assert(concat_lines(removed_lines(cc0)) =~= Seq::<char>::empty());
                assert(concat_lines(added_lines(cc0)) =~= Seq::<char>::empty());
            }
            assert(concat_lines(cu1) =~= Seq::<char>::empty());
            assert(sections_old_text(flushed1) + concat_lines(cu1) + concat_lines(
                removed_lines(cc1),
            ) =~= old_text_of(dlv.take(i + 1)));
            assert(sections_new_text(flushed1) + concat_lines(cu1) + concat_lines(
                added_lines(cc1),
            ) =~= new_text_of(dlv.take(i + 1)));
        },
        DiffLineV::Insert(l) => {
            assert(new_side(dlv.take(i + 1)) == new_side(dlv.take(i)) + seq![l]);
            assert(old_side(dlv.take(i + 1)) == old_side(dlv.take(i)) + Seq::<Seq<char>>::empty());
            assert(old_side(dlv.take(i + 1)) =~= old_side(dlv.take(i)));
            lemma_concat_snoc(new_side(dlv.take(i)), l);
            assert(new_side(dlv.take(i)) + seq![l] =~= new_side(dlv.take(i)).push(l));
            lemma_changed_snoc(
                cc0,
                LineV { is_checked: false, change_type: ChangeType::Added, line: l },
            );
            lemma_concat_snoc(added_lines(cc0), l);
            assert(added_lines(cc0) + seq![l] =~= added_lines(cc0).push(l));
            assert(removed_lines(cc1) =~= removed_lines(cc0));
            if cu0.len() > 0 {
                lemma_sections_text_snoc(flushed0, SectionV::Unchanged { lines: cu0 });
                assert(cc0.len() == 0);
                assert(concat_lines(removed_lines(cc0)) =~= Seq::<char>::empty());
                assert(concat_lines(added_lines(cc0)) =~= Seq::<char>::empty());
            }
            assert(concat_lines(cu1) =~= Seq::<char>::empty());
            assert(sections_old_text(flushed1) + concat_lines(cu1) + concat_lines(
                removed_lines(cc1),
            ) =~= old_text_of(dlv.take(i + 1)));
            assert(sections_new_text(flushed1) + concat_lines(cu1) + concat_lines(
                added_lines(cc1),
            ) =~= new_text_of(dlv.take(i + 1)));
        },
    }
}

} // verus!
