//! Three-way merge support: choosing conflict marker lengths that cannot
//! collide with file content, running the outside merge engine, and parsing
//! its conflict output into sections with a verified state machine.

use vstd::prelude::*;
use vstd::string::StrSliceExecFns;
use vstd::string::StringExecFns;

use crate::strutil::{
    chars_of, has_run, lemma_has_run_mono, longest_run, run_at, spec_split_lines, split_lines,
};
use crate::types::{ChangeType, LineV, Section, SectionChangedLine, SectionV};

verus! {

/// Whether `needle` occurs as a contiguous subsequence of `hay`.
pub open spec fn seq_contains(hay: Seq<char>, needle: Seq<char>) -> bool {
    exists|i: int|
        0 <= i && i + needle.len() <= hay.len() && #[trigger] hay.subrange(
            i,
            i + needle.len() as int,
        ) == needle
}

/// A conflict marker: `len` repetitions of one marker character.
pub open spec fn marker_repeat(c: char, len: nat) -> Seq<char> {
    Seq::new(len, |i: int| c)
}

/// Whether none of the four conflict markers of the given length occurs in
/// the text.
pub open spec fn markers_free(all: Seq<char>, len: nat) -> bool {
    &&& !seq_contains(all, marker_repeat('<', len))
    &&& !seq_contains(all, marker_repeat('|', len))
    &&& !seq_contains(all, marker_repeat('=', len))
    &&& !seq_contains(all, marker_repeat('>', len))
}

/// Without a run of `len` repetitions of `c`, the text does not contain the
/// marker of that length.
proof fn lemma_no_run_no_marker(s: Seq<char>, c: char, len: nat)
    requires
        !has_run(s, c, len),
    ensures
        !seq_contains(s, marker_repeat(c, len)),
{
    if seq_contains(s, marker_repeat(c, len)) {
        let needle = marker_repeat(c, len);
        let i = choose|i: int|
            0 <= i && i + needle.len() <= s.len() && #[trigger] s.subrange(
                i,
                i + needle.len() as int,
            ) == needle;
        assert forall|j: int| i <= j < i + len implies #[trigger] s[j] == c by {
            assert(s.subrange(i, i + len as int)[j - i] == marker_repeat(c, len)[j - i]);
        }
        assert(run_at(s, c, i, len));
    }
}

/// Choose the length of the conflict markers: the smallest length of at
/// least seven that is longer than any run of a marker character in the
/// three texts, so that no marker can occur in any of them.
pub fn choose_conflict_marker_len(base: &str, left: &str, right: &str) -> (r: usize)
    requires
        base@.len() + left@.len() + right@.len() < usize::MAX,
    ensures
        r >= 7,
        markers_free(base@ + left@ + right@, r as nat),
        r > 7 ==> {
            let all = base@ + left@ + right@;
            ||| has_run(all, '<', (r - 1) as nat)
            ||| has_run(all, '|', (r - 1) as nat)
            ||| has_run(all, '=', (r - 1) as nat)
            ||| has_run(all, '>', (r - 1) as nat)
        },
{
    let all = base.to_owned().concat(left).concat(right);
    proof {
        assert(all@ =~= base@ + left@ + right@);
    }
    let chars = chars_of(all.as_str());
    let m1 = longest_run(&chars, '<');
    let m2 = longest_run(&chars, '|');
    let m3 = longest_run(&chars, '=');
    let m4 = longest_run(&chars, '>');
    let mut best = m1;
    if m2 > best {
        best = m2;
    }
    if m3 > best {
        best = m3;
    }
    if m4 > best {
        best = m4;
    }
    let len = if best >= 7 {
        best + 1
    } else {
        7
    };
    proof {
        let av = base@ + left@ + right@;
        assert(chars@ == av);
        if has_run(av, '<', len as nat) {
            lemma_has_run_mono(av, '<', len as nat, (m1 + 1) as nat);
        }
        if has_run(av, '|', len as nat) {
            lemma_has_run_mono(av, '|', len as nat, (m2 + 1) as nat);
        }
        if has_run(av, '=', len as nat) {
            lemma_has_run_mono(av, '=', len as nat, (m3 + 1) as nat);
        }
        if has_run(av, '>', len as nat) {
            lemma_has_run_mono(av, '>', len as nat, (m4 + 1) as nat);
        }
        lemma_no_run_no_marker(av, '<', len as nat);
        lemma_no_run_no_marker(av, '|', len as nat);
        lemma_no_run_no_marker(av, '=', len as nat);
        lemma_no_run_no_marker(av, '>', len as nat);
    }
    len
}

/// Build a string of `n` repetitions of a one-character marker.
#[verifier::loop_isolation(false)]
fn repeat_marker(part: &str, n: usize) -> (r: String)
    requires
        part@.len() == 1,
    ensures
        r@ == marker_repeat(part@[0], n as nat),
{
    let mut r = String::new();
    let mut i: usize = 0;
    proof {
        assert(r@ =~= marker_repeat(part@[0], 0));
    }
    while i < n
        invariant
            i <= n,
            r@ == marker_repeat(part@[0], i as nat),
        decreases n - i,
    {
        r.append(part);
        proof {
            assert(r@ =~= marker_repeat(part@[0], (i + 1) as nat));
        }
        i = i + 1;
    }
    r
}

/// Produce the four conflict markers for the three texts: runs of `<`, `|`,
/// `=`, and `>` of a common length, the smallest length of at least seven at
/// which none of them occurs anywhere in the concatenation of the texts.
pub fn make_conflict_markers(base: &str, left: &str, right: &str) -> (r: (
    String,
    String,
    String,
    String,
))
    requires
        base@.len() + left@.len() + right@.len() < usize::MAX,
    ensures
        exists|len: nat|
            {
                &&& len >= 7
                &&& #[trigger] markers_free(base@ + left@ + right@, len)
                &&& (len > 7 ==> {
                    let all = base@ + left@ + right@;
                    ||| has_run(all, '<', (len - 1) as nat)
                    ||| has_run(all, '|', (len - 1) as nat)
                    ||| has_run(all, '=', (len - 1) as nat)
                    ||| has_run(all, '>', (len - 1) as nat)
                })
                &&& r.0@ == marker_repeat('<', len)
                &&& r.1@ == marker_repeat('|', len)
                &&& r.2@ == marker_repeat('=', len)
                &&& r.3@ == marker_repeat('>', len)
            },
{
    let len = choose_conflict_marker_len(base, left, right);
    proof {
        reveal_strlit("<");
        reveal_strlit("|");
        reveal_strlit("=");
        reveal_strlit(">");
    }
    let left_marker = repeat_marker("<", len);
    let base_start_marker = repeat_marker("|", len);
    let base_end_marker = repeat_marker("=", len);
    let right_marker = repeat_marker(">", len);
    (left_marker, base_start_marker, base_end_marker, right_marker)
}

/// The result of a three-way merge of the given texts with the given
/// conflict marker length: the merged text on a clean merge, the conflict
/// text otherwise. The result depends on the arguments alone.
pub uninterp spec fn merge3_of(
    base: Seq<char>,
    left: Seq<char>,
    right: Seq<char>,
    marker_len: nat,
) -> Result<Seq<char>, Seq<char>>;

/// Relies on `diffy::MergeOptions::merge` with diff3-style conflicts: a
/// clean merge returns the merged text, a conflicted merge returns the text
/// annotated with conflict markers of the configured length, and the result
/// depends on the three texts and the marker length alone.
#[verifier::external_body]
fn merge3(base: &str, left: &str, right: &str, marker_len: usize) -> (r: Result<String, String>)
    ensures
        match r {
            Ok(s) => merge3_of(base@, left@, right@, marker_len as nat) == Ok::<
                Seq<char>,
                Seq<char>,
            >(s@),
            Err(s) => merge3_of(base@, left@, right@, marker_len as nat) == Err::<
                Seq<char>,
                Seq<char>,
            >(s@),
        },
{
    let mut options = diffy::MergeOptions::new();
    options.set_conflict_marker_length(marker_len);
    options.set_conflict_style(diffy::ConflictStyle::Diff3);
    options.merge(base, left, right)
}

/// Whether the first `n` characters of `s` exist and are all `c`.
pub open spec fn starts_run(s: Seq<char>, c: char, n: nat) -> bool {
    s.len() >= n && (forall|j: int| 0 <= j < n ==> #[trigger] s[j] == c)
}

/// Check whether a line starts with `n` repetitions of `c`.
#[verifier::loop_isolation(false)]
fn starts_with_run(s: &str, c: char, n: usize) -> (r: bool)
    ensures
        r == starts_run(s@, c, n as nat),
{
    let len = s.unicode_len();
    if len < n {
        return false;
    }
    let mut i: usize = 0;
    while i < n
        invariant
            i <= n,
            n <= s@.len(),
            forall|j: int| 0 <= j < i ==> #[trigger] s@[j] == c,
        decreases n - i,
    {
        if s.get_char(i) != c {
            return false;
        }
        i = i + 1;
    }
    true
}

/// The kind of conflict marker a line carries.
#[derive(Clone, Copy, Debug, PartialEq, Eq, Structural)]
pub enum MarkerKind {
    /// The marker opening the left side.
    Left,
    /// The marker opening the base section.
    BaseStart,
    /// The marker closing the base section.
    BaseEnd,
    /// The marker closing the right side.
    Right,
}

/// The marker classification of a line: which marker, if any, the line
/// starts with.
pub open spec fn spec_marker_of(line: Seq<char>, len: nat) -> Option<MarkerKind> {
    if starts_run(line, '<', len) {
        Some(MarkerKind::Left)
    } else if starts_run(line, '|', len) {
        Some(MarkerKind::BaseStart)
    } else if starts_run(line, '=', len) {
        Some(MarkerKind::BaseEnd)
    } else if starts_run(line, '>', len) {
        Some(MarkerKind::Right)
    } else {
        None
    }
}

/// Classify which conflict marker, if any, a line starts with.
fn marker_of(line: &str, len: usize) -> (r: Option<MarkerKind>)
    ensures
        r == spec_marker_of(line@, len as nat),
{
    if starts_with_run(line, '<', len) {
        Some(MarkerKind::Left)
    } else if starts_with_run(line, '|', len) {
        Some(MarkerKind::BaseStart)
    } else if starts_with_run(line, '=', len) {
        Some(MarkerKind::BaseEnd)
    } else if starts_with_run(line, '>', len) {
        Some(MarkerKind::Right)
    } else {
        None
    }
}

/// The state of the conflict parser.
pub enum ParseState {
    /// Between sections.
    Empty,
    /// Collecting context lines.
    Unchanged {
        /// The context lines seen so far.
        lines: Vec<String>,
    },
    /// Collecting the left side of a conflict.
    Left {
        /// The left lines seen so far.
        left_lines: Vec<String>,
    },
    /// Collecting the base of a conflict.
    Base {
        /// The left lines of the conflict.
        left_lines: Vec<String>,
        /// The base lines seen so far.
        base_lines: Vec<String>,
    },
    /// Collecting the right side of a conflict.
    Right {
        /// The left lines of the conflict.
        left_lines: Vec<String>,
        /// The base lines of the conflict.
        base_lines: Vec<String>,
        /// The right lines seen so far.
        right_lines: Vec<String>,
    },
}

/// The mathematical value of a `ParseState`.
pub enum ParseStateV {
    /// Between sections.
    Empty,
    /// Collecting context lines.
    Unchanged {
        /// The context lines seen so far.
        lines: Seq<Seq<char>>,
    },
    /// Collecting the left side of a conflict.
    Left {
        /// The left lines seen so far.
        left_lines: Seq<Seq<char>>,
    },
    /// Collecting the base of a conflict.
    Base {
        /// The left lines of the conflict.
        left_lines: Seq<Seq<char>>,
        /// The base lines seen so far.
        base_lines: Seq<Seq<char>>,
    },
    /// Collecting the right side of a conflict.
    Right {
        /// The left lines of the conflict.
        left_lines: Seq<Seq<char>>,
        /// The base lines of the conflict.
        base_lines: Seq<Seq<char>>,
        /// The right lines seen so far.
        right_lines: Seq<Seq<char>>,
    },
}

impl View for ParseState {
    type V = ParseStateV;

    open spec fn view(&self) -> ParseStateV {
        match self {
            ParseState::Empty => ParseStateV::Empty,
            ParseState::Unchanged { lines } => ParseStateV::Unchanged {
                lines: lines@.map_values(|l: String| l@),
            },
            ParseState::Left { left_lines } => ParseStateV::Left {
                left_lines: left_lines@.map_values(|l: String| l@),
            },
            ParseState::Base { left_lines, base_lines } => ParseStateV::Base {
                left_lines: left_lines@.map_values(|l: String| l@),
                base_lines: base_lines@.map_values(|l: String| l@),
            },
            ParseState::Right { left_lines, base_lines, right_lines } => ParseStateV::Right {
                left_lines: left_lines@.map_values(|l: String| l@),
                base_lines: base_lines@.map_values(|l: String| l@),
                right_lines: right_lines@.map_values(|l: String| l@),
            },
        }
    }
}

/// The changed lines of an emitted conflict section: the left lines as
/// added, then the base lines as removed, then the right lines as added.
pub open spec fn conflict_lines(
    left_lines: Seq<Seq<char>>,
    base_lines: Seq<Seq<char>>,
    right_lines: Seq<Seq<char>>,
) -> Seq<LineV> {
    left_lines.map_values(
        |l: Seq<char>| (LineV { is_checked: false, change_type: ChangeType::Added, line: l }),
    ) + base_lines.map_values(
        |l: Seq<char>| (LineV { is_checked: false, change_type: ChangeType::Removed, line: l }),
    ) + right_lines.map_values(
        |l: Seq<char>| (LineV { is_checked: false, change_type: ChangeType::Added, line: l }),
    )
}

/// One step of the conflict parser: the next state and the section it
/// emits, if any. A marker that is not expected in the current state is
/// treated as an ordinary line.
pub open spec fn spec_step(st: ParseStateV, line: Seq<char>, len: nat) -> (
    ParseStateV,
    Option<SectionV>,
) {
    let m = spec_marker_of(line, len);
    match st {
        ParseStateV::Empty => {
            if m == Some(MarkerKind::Left) {
                (ParseStateV::Left { left_lines: Seq::empty() }, None)
            } else {
                (ParseStateV::Unchanged { lines: seq![line] }, None)
            }
        },
        ParseStateV::Unchanged { lines } => {
            if m == Some(MarkerKind::Left) {
                (
                    ParseStateV::Left { left_lines: Seq::empty() },
                    Some(SectionV::Unchanged { lines }),
                )
            } else {
                (ParseStateV::Unchanged { lines: lines.push(line) }, None)
            }
        },
        ParseStateV::Left { left_lines } => {
            if m == Some(MarkerKind::BaseStart) {
                (ParseStateV::Base { left_lines, base_lines: Seq::empty() }, None)
            } else {
                (ParseStateV::Left { left_lines: left_lines.push(line) }, None)
            }
        },
        ParseStateV::Base { left_lines, base_lines } => {
            if m == Some(MarkerKind::BaseEnd) {
                (ParseStateV::Right { left_lines, base_lines, right_lines: Seq::empty() }, None)
            } else {
                (ParseStateV::Base { left_lines, base_lines: base_lines.push(line) }, None)
            }
        },
        ParseStateV::Right { left_lines, base_lines, right_lines } => {
            if m == Some(MarkerKind::Right) {
                (
                    ParseStateV::Empty,
                    Some(
                        SectionV::Changed {
                            lines: conflict_lines(left_lines, base_lines, right_lines),
                        },
                    ),
                )
            } else {
                (
                    ParseStateV::Right {
                        left_lines,
                        base_lines,
                        right_lines: right_lines.push(line),
                    },
                    None,
                )
            }
        },
    }
}

/// Running the parser over a sequence of lines: the emitted sections and
/// the final state.
pub open spec fn spec_parse(lines: Seq<Seq<char>>, len: nat) -> (Seq<SectionV>, ParseStateV)
    decreases lines.len(),
{
    if lines.len() == 0 {
        (Seq::empty(), ParseStateV::Empty)
    } else {
        let prev = spec_parse(lines.drop_last(), len);
        let step = spec_step(prev.1, lines.last(), len);
        match step.1 {
            Some(s) => (prev.0.push(s), step.0),
            None => (prev.0, step.0),
        }
    }
}

/// Finishing the parse: a pending context section is emitted, a pending
/// unterminated conflict is discarded.
pub open spec fn spec_finish(secs: Seq<SectionV>, st: ParseStateV) -> Seq<SectionV> {
    match st {
        ParseStateV::Unchanged { lines } => secs.push(SectionV::Unchanged { lines }),
        _ => secs,
    }
}

/// The sections parsed from a conflict-annotated merge text.
pub open spec fn spec_parse_merge(text: Seq<char>, len: nat) -> Seq<SectionV> {
    let parsed = spec_parse(spec_split_lines(text), len);
    spec_finish(parsed.0, parsed.1)
}

/// The lines of an emitted conflict section are all unchecked.
proof fn lemma_conflict_lines_unchecked(
    left_lines: Seq<Seq<char>>,
    base_lines: Seq<Seq<char>>,
    right_lines: Seq<Seq<char>>,
)
    ensures
        forall|j: int|
            0 <= j < conflict_lines(left_lines, base_lines, right_lines).len() ==> !(
            #[trigger] conflict_lines(left_lines, base_lines, right_lines)[j].is_checked),
{
    let added = |l: Seq<char>| (LineV {
        is_checked: false,
        change_type: ChangeType::Added,
        line: l,
    });
    let removed = |l: Seq<char>| (LineV {
        is_checked: false,
        change_type: ChangeType::Removed,
        line: l,
    });
    let whole = conflict_lines(left_lines, base_lines, right_lines);
    assert forall|j: int| 0 <= j < whole.len() implies !(#[trigger] whole[j].is_checked) by {
        let a = left_lines.map_values(added);
        let b = base_lines.map_values(removed);
        let c = right_lines.map_values(added);
        if j < a.len() {
            assert(whole[j] == a[j]);
            assert(a[j] == added(left_lines[j]));
        } else if j < a.len() + b.len() {
            assert(whole[j] == b[j - a.len()]);
            assert(b[j - a.len()] == removed(base_lines[j - a.len()]));
        } else {
            assert(whole[j] == c[j - a.len() - b.len()]);
            assert(c[j - a.len() - b.len()] == added(right_lines[j - a.len() - b.len()]));
        }
    }
}

/// Every section the parser emits is a context section or a changed section
/// whose lines are all unchecked.
proof fn lemma_parse_plain(lines: Seq<Seq<char>>, len: nat)
    ensures
        crate::diff::plain_diff_sections(spec_parse(lines, len).0),
    decreases lines.len(),
{
    if lines.len() == 0 {
    } else {
        lemma_parse_plain(lines.drop_last(), len);
        let prev = spec_parse(lines.drop_last(), len);
        let step = spec_step(prev.1, lines.last(), len);
        match step.1 {
            Some(s) => {
                match s {
                    SectionV::Changed { .. } => {
                        match prev.1 {
                            ParseStateV::Right { left_lines, base_lines, right_lines } => {
                                lemma_conflict_lines_unchecked(
                                    left_lines,
                                    base_lines,
                                    right_lines,
                                );
                            },
                            _ => {},
                        }
                    },
                    _ => {},
                }
                crate::diff::lemma_plain_push(prev.0, s);
            },
            None => {},
        }
    }
}

/// The sections parsed from any merge text are plain: only unchanged and
/// changed sections, with every changed line unchecked.
pub proof fn lemma_parse_merge_plain(text: Seq<char>, len: nat)
    ensures
        crate::diff::plain_diff_sections(spec_parse_merge(text, len)),
{
    lemma_parse_plain(spec_split_lines(text), len);
    let parsed = spec_parse(spec_split_lines(text), len);
    match parsed.1 {
        ParseStateV::Unchanged { lines } => {
            crate::diff::lemma_plain_push(parsed.0, SectionV::Unchanged { lines });
        },
        _ => {},
    }
}

/// The view of an optional section.
pub open spec fn opt_section_view(o: Option<Section>) -> Option<SectionV> {
    match o {
        Some(s) => Some(s@),
        None => None,
    }
}

/// Build changed-section lines from collected conflict lines.
#[verifier::loop_isolation(false)]
fn build_changed_lines(lines: &Vec<String>, change_type: ChangeType) -> (r: Vec<
    SectionChangedLine,
>)
    ensures
        r@.map_values(|l: SectionChangedLine| l@) == lines@.map_values(|l: String| l@).map_values(
            |l: Seq<char>| (LineV { is_checked: false, change_type, line: l }),
        ),
{
    let ghost lv = lines@.map_values(|l: String| l@);
    proof {
        assert forall|j: int| 0 <= j < lines@.len() implies #[trigger] lv[j] == lines@[j]@ by {}
        assert(lv.len() == lines@.len());
    }
    let n = lines.len();
    let mut r: Vec<SectionChangedLine> = Vec::new();
    let mut i: usize = 0;
    while i < n
        invariant
            i <= n,
            r@.len() == i,
            forall|j: int|
                0 <= j < i ==> #[trigger] r@[j]@ == (LineV {
                    is_checked: false,
                    change_type,
                    line: lv[j],
                }),
        decreases n - i,
    {
        let line = lines[i].clone();
        r.push(SectionChangedLine { is_checked: false, change_type, line });
        i = i + 1;
    }
    proof {
        let f = |l: Seq<char>| (LineV { is_checked: false, change_type, line: l });
        let rv = r@.map_values(|l: SectionChangedLine| l@);
        let fv = lv.map_values(f);
        assert forall|j: int| 0 <= j < n implies #[trigger] rv[j] == fv[j] by {
            assert(rv[j] == r@[j]@);
            assert(fv[j] == f(lv[j]));
        }
        assert(rv =~= fv);
    }
    r
}

/// One step of the conflict parser on an owned state.
fn step(st: ParseState, line: &String, marker_len: usize) -> (r: (ParseState, Option<Section>))
    ensures
        (r.0@, opt_section_view(r.1)) == spec_step(st@, line@, marker_len as nat),
{
    proof {
        assert(Seq::<String>::empty().map_values(|l: String| l@) =~= Seq::<Seq<char>>::empty());
    }
    let m = marker_of(line.as_str(), marker_len);
    match st {
        ParseState::Empty => {
            if matches!(m, Some(MarkerKind::Left)) {
                (ParseState::Left { left_lines: Vec::new() }, None)
            } else {
                let mut lines: Vec<String> = Vec::new();
                lines.push(line.clone());
                proof {
                    assert(lines@.map_values(|l: String| l@) =~= seq![line@]);
                }
                (ParseState::Unchanged { lines }, None)
            }
        },
        ParseState::Unchanged { mut lines } => {
            if matches!(m, Some(MarkerKind::Left)) {
                (ParseState::Left { left_lines: Vec::new() }, Some(Section::Unchanged { lines }))
            } else {
                let ghost pre = lines@.map_values(|l: String| l@);
                lines.push(line.clone());
                proof {
                    lemma_view_push(lines@, pre, line@);
                }
                (ParseState::Unchanged { lines }, None)
            }
        },
        ParseState::Left { mut left_lines } => {
            if matches!(m, Some(MarkerKind::BaseStart)) {
                (ParseState::Base { left_lines, base_lines: Vec::new() }, None)
            } else {
                let ghost pre = left_lines@.map_values(|l: String| l@);
                left_lines.push(line.clone());
                proof {
                    lemma_view_push(left_lines@, pre, line@);
                }
                (ParseState::Left { left_lines }, None)
            }
        },
        ParseState::Base { left_lines, mut base_lines } => {
            if matches!(m, Some(MarkerKind::BaseEnd)) {
                (ParseState::Right { left_lines, base_lines, right_lines: Vec::new() }, None)
            } else {
                let ghost pre = base_lines@.map_values(|l: String| l@);
                base_lines.push(line.clone());
                proof {
                    lemma_view_push(base_lines@, pre, line@);
                }
                (ParseState::Base { left_lines, base_lines }, None)
            }
        },
        ParseState::Right { left_lines, base_lines, mut right_lines } => {
            if matches!(m, Some(MarkerKind::Right)) {
                let mut changed = build_changed_lines(&left_lines, ChangeType::Added);
                let mut removed = build_changed_lines(&base_lines, ChangeType::Removed);
                let mut added = build_changed_lines(&right_lines, ChangeType::Added);
                let ghost av = changed@;
                let ghost bv = removed@;
                let ghost cv = added@;
                let ghost a = av.map_values(|l: SectionChangedLine| l@);
                let ghost b = bv.map_values(|l: SectionChangedLine| l@);
                let ghost c = cv.map_values(|l: SectionChangedLine| l@);
                changed.append(&mut removed);
                changed.append(&mut added);
                proof {
                    assert(changed@ =~= av + bv + cv);
                    let whole = changed@.map_values(|l: SectionChangedLine| l@);
                    assert forall|j: int| 0 <= j < whole.len() implies #[trigger] whole[j] == (a + b
                        + c)[j] by {
                        assert(whole[j] == changed@[j]@);
                        if j < av.len() {
                            assert(changed@[j] == av[j]);
                            assert(a[j] == av[j]@);
                        } else if j < av.len() + bv.len() {
                            assert(changed@[j] == bv[j - av.len()]);
                            assert(b[j - av.len()] == bv[j - av.len()]@);
                        } else {
                            assert(changed@[j] == cv[j - av.len() - bv.len()]);
                            assert(c[j - av.len() - bv.len()] == cv[j - av.len() - bv.len()]@);
                        }
                    }
                    assert(whole =~= a + b + c);
                }
                (ParseState::Empty, Some(Section::Changed { lines: changed }))
            } else {
                let ghost pre = right_lines@.map_values(|l: String| l@);
                right_lines.push(line.clone());
                proof {
                    lemma_view_push(right_lines@, pre, line@);
                }
                (ParseState::Right { left_lines, base_lines, right_lines }, None)
            }
        },
    }
}

/// Pushing onto a string vector pushes its view.
proof fn lemma_view_push(post_vec: Seq<String>, pre: Seq<Seq<char>>, l: Seq<char>)
    requires
        post_vec.len() == pre.len() + 1,
        forall|j: int| 0 <= j < pre.len() ==> pre[j] == #[trigger] post_vec[j]@,
        post_vec.last()@ == l,
    ensures
        post_vec.map_values(|s: String| s@) == pre.push(l),
{
    let post = post_vec.map_values(|s: String| s@);
    assert forall|j: int| 0 <= j < post.len() implies #[trigger] post[j] == pre.push(l)[j] by {
        assert(post[j] == post_vec[j]@);
    }
    assert(post =~= pre.push(l));
}

/// Append a section to a section list.
pub(crate) fn push_section(sections: &mut Vec<Section>, s: Section)
    ensures
        final(sections)@.map_values(|x: Section| x@) == old(sections)@.map_values(
            |x: Section| x@,
        ).push(s@),
{
    let ghost pre = sections@.map_values(|x: Section| x@);
    let ghost sv = s@;
    sections.push(s);
    proof {
        let post = sections@.map_values(|x: Section| x@);
        assert forall|j: int| 0 <= j < post.len() implies #[trigger] post[j] == pre.push(sv)[j] by {
            assert(post[j] == sections@[j]@);
            if j < pre.len() {
                assert(pre[j] == old(sections)@[j]@);
            }
        }
        assert(post =~= pre.push(sv));
    }
}

/// Parse the textual output of a conflicted diff3-style merge into sections:
/// context lines between conflicts become unchanged sections, and each
/// conflict becomes a changed section holding the left lines as added, the
/// base lines as removed, and the right lines as added. An unterminated
/// conflict at the end of the input is discarded.
#[verifier::loop_isolation(false)]
pub fn parse_merge_sections(text: &str, marker_len: usize) -> (r: Vec<Section>)
    ensures
        r@.map_values(|s: Section| s@) == spec_parse_merge(text@, marker_len as nat),
        crate::diff::plain_diff_sections(r@.map_values(|s: Section| s@)),
{
    proof {
        lemma_parse_merge_plain(text@, marker_len as nat);
    }
    let lines = split_lines(text);
    let ghost lv = spec_split_lines(text@);
    proof {
        assert forall|j: int| 0 <= j < lines@.len() implies #[trigger] lines@[j]@ == lv[j] by {
            assert(lines@.map_values(|l: String| l@)[j] == lines@[j]@);
        }
        assert(lines@.len() == lv.len());
    }
    let mut sections: Vec<Section> = Vec::new();
    let mut state = ParseState::Empty;
    let n = lines.len();
    let mut i: usize = 0;
    proof {
        assert(lv.take(0) =~= Seq::<Seq<char>>::empty());
        assert(sections@.map_values(|s: Section| s@) =~= Seq::<SectionV>::empty());
    }
    while i < n
        invariant
            i <= n,
            sections@.map_values(|s: Section| s@) == spec_parse(
                lv.take(i as int),
                marker_len as nat,
            ).0,
            state@ == spec_parse(lv.take(i as int), marker_len as nat).1,
        decreases n - i,
    {
        proof {
            assert(lv.take(i + 1).drop_last() =~= lv.take(i as int));
            assert(lv.take(i + 1).last() == lv[i as int]);
        }
        let mut st = ParseState::Empty;
        core::mem::swap(&mut st, &mut state);
        let (new_state, emitted) = step(st, &lines[i], marker_len);
        state = new_state;
        match emitted {
            Some(sec) => {
                push_section(&mut sections, sec);
            },
            None => {},
        }
        i = i + 1;
    }
    proof {
        assert(lv.take(n as int) =~= lv);
    }
    match state {
        ParseState::Unchanged { lines } => {
            push_section(&mut sections, Section::Unchanged { lines });
        },
        _ => {},
    }
    sections
}

/// The sections of a merge result: none for a clean merge, the parsed
/// conflict sections otherwise.
pub open spec fn spec_merge_sections(res: Result<Seq<char>, Seq<char>>, len: nat) -> Seq<
    SectionV,
> {
    match res {
        Ok(_) => Seq::empty(),
        Err(text) => spec_parse_merge(text, len),
    }
}

/// Build the sections of a three-way merge preview. A marker length is
/// chosen that cannot collide with any of the three texts; a clean merge
/// yields no sections, and a conflicted merge is parsed into sections.
pub fn create_merge(base_contents: &str, left_contents: &str, right_contents: &str) -> (r: Vec<
    Section,
>)
    requires
        base_contents@.len() + left_contents@.len() + right_contents@.len() < usize::MAX,
    ensures
        exists|len: nat|
            {
                &&& len >= 7
                &&& #[trigger] markers_free(base_contents@ + left_contents@ + right_contents@, len)
                &&& r@.map_values(|s: Section| s@) == spec_merge_sections(
                    merge3_of(base_contents@, left_contents@, right_contents@, len),
                    len,
                )
            },
        crate::diff::plain_diff_sections(r@.map_values(|s: Section| s@)),
{
    let marker_len = choose_conflict_marker_len(base_contents, left_contents, right_contents);
    let merged = merge3(base_contents, left_contents, right_contents, marker_len);
    let r: Vec<Section> = match merged {
        Ok(_) => Vec::new(),
        Err(conflicted) => parse_merge_sections(conflicted.as_str(), marker_len),
    };
    proof {
        let len = marker_len as nat;
        if merge3_of(base_contents@, left_contents@, right_contents@, len) is Ok {
            assert(r@.map_values(|s: Section| s@) =~= Seq::<SectionV>::empty());
        }
        assert({
            &&& len >= 7
            &&& markers_free(base_contents@ + left_contents@ + right_contents@, len)
            &&& r@.map_values(|s: Section| s@) == spec_merge_sections(
                merge3_of(base_contents@, left_contents@, right_contents@, len),
                len,
            )
        });
    }
    r
}

} // verus!
