//! An in-memory filesystem. It stores files as a list of path/information
//! entries where the latest entry for a path wins, and implements the
//! modeled `Filesystem` trait, so everything proved against the model holds
//! of it.

use vstd::prelude::*;
use vstd::string::StringExecFns;

use crate::fs::{
    dir_diff_union, paths_as_set, spec_absent_info, spec_lookup, spec_text_file_info,
    strictly_sorted_paths, Error, FileContents, FileInfo, FileInfoV, FsModel, Filesystem, Result,
};
use crate::paths::{ancestor_dirs, spec_ancestors, spec_parent, spec_strip_prefix,
    strip_path_prefix};
use crate::strutil::{lemma_lex_total, lemma_lex_trans, lex_lt, str_lex_lt};
use crate::types::FileMode;

verus! {

/// The map held by a list of path/information entries, where a later entry
/// for the same path wins.
pub open spec fn files_map(entries: Seq<(String, FileInfo)>) -> Map<Seq<char>, FileInfoV>
    decreases entries.len(),
{
    if entries.len() == 0 {
        Map::empty()
    } else {
        files_map(entries.drop_last()).insert(entries.last().0@, entries.last().1@)
    }
}

/// The set held by a list of directory names.
pub open spec fn dirs_set(dirs: Seq<String>) -> Set<Seq<char>>
    decreases dirs.len(),
{
    if dirs.len() == 0 {
        Set::empty()
    } else {
        dirs_set(dirs.drop_last()).insert(dirs.last()@)
    }
}

/// A path is in the entry map exactly when some entry carries it, and the
/// latest such entry gives its value.
proof fn lemma_files_map_last(entries: Seq<(String, FileInfo)>, p: Seq<char>, li: int)
    requires
        0 <= li < entries.len(),
        entries[li].0@ == p,
        forall|j: int| li < j < entries.len() ==> #[trigger] entries[j].0@ != p,
    ensures
        files_map(entries).dom().contains(p),
        files_map(entries)[p] == entries[li].1@,
    decreases entries.len(),
{
    if li == entries.len() - 1 {
    } else {
        assert(entries.drop_last()[li] == entries[li]);
        lemma_files_map_last(entries.drop_last(), p, li);
    }
}

/// A path carried by no entry is not in the entry map.
proof fn lemma_files_map_absent(entries: Seq<(String, FileInfo)>, p: Seq<char>)
    requires
        forall|j: int| 0 <= j < entries.len() ==> #[trigger] entries[j].0@ != p,
    ensures
        !files_map(entries).dom().contains(p),
    decreases entries.len(),
{
    if entries.len() > 0 {
        assert(entries.last().0@ != p);
        lemma_files_map_absent(entries.drop_last(), p);
    }
}

/// Membership in the entry map is membership in some entry.
proof fn lemma_files_map_dom(entries: Seq<(String, FileInfo)>, p: Seq<char>)
    ensures
        files_map(entries).dom().contains(p) == exists|j: int|
            0 <= j < entries.len() && #[trigger] entries[j].0@ == p,
    decreases entries.len(),
{
    if entries.len() > 0 {
        lemma_files_map_dom(entries.drop_last(), p);
        if entries.last().0@ == p {
            assert(entries[entries.len() - 1].0@ == p);
        } else {
            if exists|j: int| 0 <= j < entries.drop_last().len() && #[trigger] entries.drop_last()[j].0@ == p {
                let j = choose|j: int|
                    0 <= j < entries.drop_last().len() && #[trigger] entries.drop_last()[j].0@ == p;
                assert(entries[j].0@ == p);
            }
            if exists|j: int| 0 <= j < entries.len() && #[trigger] entries[j].0@ == p {
                let j = choose|j: int| 0 <= j < entries.len() && #[trigger] entries[j].0@ == p;
                assert(entries.drop_last()[j].0@ == p);
            }
        }
    }
}

/// A directory name is in the directory set exactly when some entry carries
/// it.
proof fn lemma_dirs_set_mem(dirs: Seq<String>, p: Seq<char>)
    ensures
        dirs_set(dirs).contains(p) == exists|j: int|
            0 <= j < dirs.len() && #[trigger] dirs[j]@ == p,
    decreases dirs.len(),
{
    if dirs.len() > 0 {
        lemma_dirs_set_mem(dirs.drop_last(), p);
        if dirs.last()@ == p {
            assert(dirs[dirs.len() - 1]@ == p);
        } else {
            if exists|j: int| 0 <= j < dirs.drop_last().len() && #[trigger] dirs.drop_last()[j]@ == p {
                let j = choose|j: int|
                    0 <= j < dirs.drop_last().len() && #[trigger] dirs.drop_last()[j]@ == p;
                assert(dirs[j]@ == p);
            }
            if exists|j: int| 0 <= j < dirs.len() && #[trigger] dirs[j]@ == p {
                let j = choose|j: int| 0 <= j < dirs.len() && #[trigger] dirs[j]@ == p;
                assert(dirs.drop_last()[j]@ == p);
            }
        }
    }
}

/// The entries of a list with the entries for one path left out.
pub open spec fn entries_without(entries: Seq<(String, FileInfo)>, p: Seq<char>) -> Seq<
    (String, FileInfo),
>
    decreases entries.len(),
{
    if entries.len() == 0 {
        Seq::empty()
    } else if entries.last().0@ == p {
        entries_without(entries.drop_last(), p)
    } else {
        entries_without(entries.drop_last(), p).push(entries.last())
    }
}

/// Leaving the entries of one path out removes that path from the map.
proof fn lemma_entries_without(entries: Seq<(String, FileInfo)>, p: Seq<char>)
    ensures
        files_map(entries_without(entries, p)) == files_map(entries).remove(p),
    decreases entries.len(),
{
    if entries.len() == 0 {
        assert(files_map(entries).remove(p) =~= Map::empty());
    } else {
        lemma_entries_without(entries.drop_last(), p);
        let prev = files_map(entries.drop_last());
        if entries.last().0@ == p {
            assert(prev.insert(p, entries.last().1@).remove(p) =~= prev.remove(p));
        } else {
            let kept = entries_without(entries.drop_last(), p).push(entries.last());
            assert(kept.drop_last() =~= entries_without(entries.drop_last(), p));
            assert(kept.last() == entries.last());
            assert(prev.remove(p).insert(entries.last().0@, entries.last().1@) =~= prev.insert(
                entries.last().0@,
                entries.last().1@,
            ).remove(p));
        }
    }
}

/// Whether `d` is an ancestor directory of one of the first `i` entry paths.
pub open spec fn is_ancestor_below(
    files: Seq<(String, FileInfo)>,
    i: int,
    d: Seq<char>,
) -> bool {
    exists|a: int, j: int|
        0 <= a < i && 0 <= j < spec_ancestors(files[a].0@).len() && #[trigger] spec_ancestors(
            files[a].0@,
        )[j] == d
}

/// The set of ancestor directories of all entry paths.
pub open spec fn ancestors_union(files: Seq<(String, FileInfo)>) -> Set<Seq<char>> {
    Set::new(|d: Seq<char>| is_ancestor_below(files, files.len() as int, d))
}

/// In-memory filesystem for testing purposes.
#[derive(Debug)]
pub struct TestFilesystem {
    files: Vec<(String, FileInfo)>,
    dirs: Vec<String>,
}

impl TestFilesystem {
    /// Construct a new in-memory filesystem with the provided files, and
    /// with every ancestor directory of their paths.
    #[verifier::loop_isolation(false)]
    pub fn new(files: Vec<(String, FileInfo)>) -> (r: TestFilesystem)
        ensures
            r.fs() == (FsModel { files: files_map(files@), dirs: ancestors_union(files@) }),
    {
        let mut dirs: Vec<String> = Vec::new();
        let n = files.len();
        let mut i: usize = 0;
        proof {
            assert forall|d: Seq<char>|
                #[trigger] dirs_set(dirs@).contains(d) == is_ancestor_below(files@, 0, d) by {}
        }
        while i < n
            invariant
                i <= n,
                forall|d: Seq<char>|
                    #[trigger] dirs_set(dirs@).contains(d) == is_ancestor_below(
                        files@,
                        i as int,
                        d,
                    ),
            decreases n - i,
        {
            let ancestors = ancestor_dirs(files[i].0.as_str());
            let ghost anc = spec_ancestors(files@[i as int].0@);
            proof {
                assert forall|j: int| 0 <= j < ancestors@.len() implies #[trigger] ancestors@[j]@
                    == anc[j] by {
                    assert(ancestors@.map_values(|s: String| s@)[j] == ancestors@[j]@);
                }
                assert(ancestors@.len() == anc.len());
            }
            let m = ancestors.len();
            let mut k: usize = 0;
            while k < m
                invariant
                    k <= m,
                    forall|d: Seq<char>|
                        #[trigger] dirs_set(dirs@).contains(d) == (is_ancestor_below(
                            files@,
                            i as int,
                            d,
                        ) || exists|j: int| 0 <= j < k && anc[j] == d),
                decreases m - k,
            {
                let ghost pre = dirs@;
                let d = ancestors[k].clone();
                dirs.push(d);
                proof {
                    assert(dirs@.drop_last() =~= pre);
                    assert(dirs@.last()@ == anc[k as int]);
                    assert forall|d2: Seq<char>|
                        #[trigger] dirs_set(dirs@).contains(d2) == (is_ancestor_below(
                            files@,
                            i as int,
                            d2,
                        ) || exists|j: int| 0 <= j < k + 1 && anc[j] == d2) by {
                        if dirs_set(pre).contains(d2) || anc[k as int] == d2 {
                            if anc[k as int] == d2 {
                                assert(0 <= k < k + 1 && anc[k as int] == d2);
                            }
                        }
                        if exists|j: int| 0 <= j < k + 1 && anc[j] == d2 {
                            let j = choose|j: int| 0 <= j < k + 1 && anc[j] == d2;
                            if j < k {
                                assert(dirs_set(pre).contains(d2));
                            }
                        }
                    }
                }
                k = k + 1;
            }
            proof {
                assert forall|d: Seq<char>|
                    #[trigger] dirs_set(dirs@).contains(d) == is_ancestor_below(
                        files@,
                        i + 1,
                        d,
                    ) by {
                    if dirs_set(dirs@).contains(d) {
                        if is_ancestor_below(files@, i as int, d) {
                            let (a, j) = choose|a: int, j: int|
                                0 <= a < i && 0 <= j < spec_ancestors(files@[a].0@).len()
                                    && #[trigger] spec_ancestors(files@[a].0@)[j] == d;
                            assert(0 <= a < i + 1 && 0 <= j < spec_ancestors(files@[a].0@).len()
                                && spec_ancestors(files@[a].0@)[j] == d);
                        } else {
                            let j = choose|j: int| 0 <= j < m && anc[j] == d;
                            assert(spec_ancestors(files@[i as int].0@)[j] == d);
                        }
                    }
                    if is_ancestor_below(files@, i + 1, d) {
                        let (a, j) = choose|a: int, j: int|
                            0 <= a < i + 1 && 0 <= j < spec_ancestors(files@[a].0@).len()
                                && #[trigger] spec_ancestors(files@[a].0@)[j] == d;
                        if a < i {
                            assert(is_ancestor_below(files@, i as int, d));
                        } else {
                            assert(anc[j] == d);
                        }
                    }
                }
            }
            i = i + 1;
        }
        let r = TestFilesystem { files, dirs };
        proof {
            assert(r.fs().dirs =~= ancestors_union(r.files@));
        }
        r
    }
}

impl Filesystem for TestFilesystem {
    closed spec fn fs(&self) -> FsModel {
        FsModel { files: files_map(self.files@), dirs: dirs_set(self.dirs@) }
    }

    open spec fn infallible() -> bool {
        true
    }

    open spec fn written_hash(contents: Seq<char>) -> Seq<char> {
        "abc123"@
    }

    #[verifier::loop_isolation(false)]
    fn read_dir_diff_paths(&self, left: &String, right: &String) -> (r: Result<Vec<String>>) {
        let mut out: Vec<String> = Vec::new();
        let n = self.files.len();
        let mut i: usize = 0;
        proof {
            assert forall|q: Seq<char>| !(#[trigger] paths_as_set(out@).contains(q)) by {}
        }
        while i < n
            invariant
                i <= n,
                strictly_sorted_paths(out@),
                forall|q: Seq<char>|
                    #[trigger] paths_as_set(out@).contains(q) == exists|j: int|
                        0 <= j < i && (spec_strip_prefix(#[trigger] self.files@[j].0@, left@)
                            == Some(q) || spec_strip_prefix(self.files@[j].0@, right@) == Some(q)),
            decreases n - i,
        {
            let key = &self.files[i].0;
            match strip_path_prefix(key.as_str(), left.as_str()) {
                Some(q) => {
                    insert_sorted_unique(&mut out, q);
                },
                None => {},
            }
            match strip_path_prefix(key.as_str(), right.as_str()) {
                Some(q) => {
                    insert_sorted_unique(&mut out, q);
                },
                None => {},
            }
            i = i + 1;
        }
        proof {
            lemma_union_equal(self.files@, out@, self.fs(), left@, right@);
        }
        Ok(out)
    }

    #[verifier::loop_isolation(false)]
    fn read_file_info(&self, path: &String) -> (r: Result<FileInfo>) {
        let n = self.files.len();
        let mut i: usize = n;
        while i > 0
            invariant
                i <= n,
                forall|j: int| i <= j < n ==> #[trigger] self.files@[j].0@ != path@,
            decreases i,
        {
            if self.files[i - 1].0 == *path {
                proof {
                    lemma_files_map_last(self.files@, path@, i - 1);
                }
                    return Ok(self.files[i - 1].1.clone_info());
            }
            i = i - 1;
        }
        proof {
            lemma_files_map_absent(self.files@, path@);
        }
        let mut d: usize = 0;
        let nd = self.dirs.len();
        while d < nd
            invariant
                d <= nd,
                forall|j: int| 0 <= j < d ==> #[trigger] self.dirs@[j]@ != path@,
            decreases nd - d,
        {
            if self.dirs[d] == *path {
                proof {
                    lemma_dirs_set_mem(self.dirs@, path@);
                }
                return Err(
                    Error::ReadFile { path: path.clone(), source: is_directory_message() },
                );
            }
            d = d + 1;
        }
        proof {
            lemma_dirs_set_mem(self.dirs@, path@);
        }
        Ok(FileInfo { file_mode: FileMode::Absent, contents: FileContents::Absent })
    }

    fn write_file(&mut self, path: &String, contents: &String) -> (r: Result<()>) {
        let info = file_info(contents.clone());
        let ghost pre = self.files@;
        self.files.push((path.clone(), info));
        proof {
            assert(self.files@.drop_last() =~= pre);
            assert(self.fs() == (FsModel {
                files: files_map(pre).insert(
                    path@,
                    spec_text_file_info(contents@, "abc123"@),
                ),
                dirs: dirs_set(self.dirs@),
            }));
        }
        Ok(())
    }

    fn copy_file(&mut self, old_path: &String, new_path: &String) -> (r: Result<()>) {
        let info = match self.read_file_info(old_path) {
            Ok(info) => info,
            Err(e) => {
                return Err(e);
            },
        };
        let ghost pre = self.files@;
        let ghost iv = info@;
        self.files.push((new_path.clone(), info));
        proof {
            assert(self.files@.drop_last() =~= pre);
            assert(self.fs() == (FsModel {
                files: files_map(pre).insert(new_path@, iv),
                dirs: dirs_set(self.dirs@),
            }));
        }
        Ok(())
    }

    #[verifier::loop_isolation(false)]
    fn remove_file(&mut self, path: &String) -> (r: Result<()>) {
        let ghost entries = self.files@;
        let ghost target = entries_without(entries, path@);
        let ghost dirs0 = self.dirs@;
        let mut reversed: Vec<(String, FileInfo)> = Vec::new();
        proof {
            assert(target =~= entries_without(self.files@, path@) + reversed@.reverse());
        }
        while self.files.len() > 0
            invariant
                self.dirs@ == dirs0,
                target == entries_without(self.files@, path@) + reversed@.reverse(),
            decreases self.files@.len(),
        {
            let ghost cur = self.files@;
            let ghost rev0 = reversed@;
            let e = match self.files.pop() {
                Some(e) => e,
                None => {
                    proof {
                        assert(false);
                    }
                    return Ok(());
                },
            };
            if !(e.0 == *path) {
                reversed.push(e);
                proof {
                    lemma_reverse_push(rev0, e);
                    assert(entries_without(cur, path@) =~= entries_without(
                        self.files@,
                        path@,
                    ).push(e));
                    assert(entries_without(self.files@, path@).push(e) + rev0.reverse()
                        =~= entries_without(self.files@, path@) + (seq![e] + rev0.reverse()));
                }
            } else {
                proof {
                    assert(entries_without(cur, path@) =~= entries_without(self.files@, path@));
                }
            }
        }
        proof {
            assert(entries_without(self.files@, path@) =~= Seq::<(String, FileInfo)>::empty());
            assert(target =~= reversed@.reverse());
        }
        while reversed.len() > 0
            invariant
                self.dirs@ == dirs0,
                target == self.files@ + reversed@.reverse(),
            decreases reversed@.len(),
        {
            let ghost rev0 = reversed@;
            let ghost built = self.files@;
            let e = match reversed.pop() {
                Some(e) => e,
                None => {
                    proof {
                        assert(false);
                    }
                    return Ok(());
                },
            };
            self.files.push(e);
            proof {
                lemma_reverse_push(reversed@, e);
                assert(rev0 =~= reversed@.push(e));
                assert(built + (seq![e] + reversed@.reverse()) =~= built.push(e)
                    + reversed@.reverse());
            }
        }
        proof {
            assert(reversed@.reverse() =~= Seq::<(String, FileInfo)>::empty());
            assert(self.files@ =~= target);
            lemma_entries_without(entries, path@);
            assert(self.fs() == (FsModel {
                files: files_map(entries).remove(path@),
                dirs: dirs_set(dirs0),
            }));
        }
        Ok(())
    }

    fn create_dir_all(&mut self, path: &String) -> (r: Result<()>) {
        let ghost pre = self.dirs@;
        self.dirs.push(path.clone());
        proof {
            assert(self.dirs@.drop_last() =~= pre);
            assert(self.fs() == (FsModel {
                files: files_map(self.files@),
                dirs: dirs_set(pre).insert(path@),
            }));
        }
        Ok(())
    }
}

/// The message attached to an attempt to read a directory as a file.
fn is_directory_message() -> (r: String)
    ensures
        r@ == "is a directory"@,
{
    let r = String::from_str("is a directory");
    r
}

/// Helper function to create a `FileInfo` holding the provided text contents
/// and a default hash and file mode.
pub fn file_info(contents: String) -> (r: FileInfo)
    ensures
        r@ == spec_text_file_info(contents@, "abc123"@),
{
    let num_bytes: u64 = contents.as_str().len() as u64;
    FileInfo {
        file_mode: FileMode::Unix(0o100644),
        contents: FileContents::Text {
            contents,
            hash: String::from_str("abc123"),
            num_bytes,
        },
    }
}

/// Set all checkboxes of the given files.
#[verifier::loop_isolation(false)]
pub fn select_all(files: &mut Vec<crate::types::File>)
    ensures
        final(files)@.len() == old(files)@.len(),
        forall|i: int|
            0 <= i < old(files)@.len() ==> #[trigger] final(files)@[i]@ == crate::types::spec_set_file(
                old(files)@[i]@,
                true,
            ),
{
    let n = files.len();
    let ghost orig = files@;
    let mut i: usize = 0;
    while i < n
        invariant
            files@.len() == n,
            i <= n,
            forall|j: int| i <= j < n ==> #[trigger] files@[j] == orig[j],
            forall|j: int|
                0 <= j < i ==> #[trigger] files@[j]@ == crate::types::spec_set_file(orig[j]@, true),
        decreases n - i,
    {
        files[i].set_checked(true);
        i = i + 1;
    }
}

/// Insert a path into a sorted list of unique paths, keeping it sorted; a
/// path already present is left alone.
#[verifier::loop_isolation(false)]
fn insert_sorted_unique(out: &mut Vec<String>, s: String)
    requires
        strictly_sorted_paths(old(out)@),
    ensures
        strictly_sorted_paths(final(out)@),
        paths_as_set(final(out)@) == paths_as_set(old(out)@).insert(s@),
{
    let n = out.len();
    let mut idx: usize = 0;
    while idx < n
        invariant
            idx <= n,
            forall|j: int| 0 <= j < idx ==> lex_lt(#[trigger] out@[j]@, s@),
        decreases n - idx,
    {
        if !str_lex_lt(out[idx].as_str(), s.as_str()) {
            break ;
        }
        idx = idx + 1;
    }
    if idx < n {
        if !str_lex_lt(s.as_str(), out[idx].as_str()) {
            proof {
                lemma_lex_total(s@, out@[idx as int]@);
                assert(paths_as_set(out@).contains(s@)) by {
                    assert(out@[idx as int]@ == s@);
                }
                assert(paths_as_set(out@) =~= paths_as_set(out@).insert(s@));
            }
            return ;
        }
    }
    let ghost pre = out@;
    out.insert(idx, s);
    proof {
        assert(out@ =~= pre.insert(idx as int, s));
        assert forall|a: int, b: int| 0 <= a < b < out@.len() implies lex_lt(
            #[trigger] out@[a]@,
            #[trigger] out@[b]@,
        ) by {
            let sa = if a < idx {
                pre[a]
            } else if a == idx {
                s
            } else {
                pre[a - 1]
            };
            let sb = if b < idx {
                pre[b]
            } else if b == idx {
                s
            } else {
                pre[b - 1]
            };
            assert(out@[a] == sa);
            assert(out@[b] == sb);
            if b == idx {
                assert(lex_lt(pre[a]@, s@));
            } else if a == idx {
                assert(idx < pre.len());
                assert(lex_lt(s@, pre[idx as int]@));
                if b - 1 > idx {
                    assert(lex_lt(pre[idx as int]@, pre[b - 1]@));
                    lemma_lex_trans(s@, pre[idx as int]@, pre[b - 1]@);
                }
            } else if a < idx && b > idx {
                assert(lex_lt(pre[a]@, pre[b - 1]@));
            }
        }
        assert forall|q: Seq<char>| #[trigger]
            paths_as_set(out@).contains(q) == paths_as_set(pre).insert(s@).contains(q) by {
            if paths_as_set(out@).contains(q) {
                let j = choose|j: int| 0 <= j < out@.len() && out@[j]@ == q;
                if j == idx {
                } else if j < idx {
                    assert(pre[j]@ == q);
                } else {
                    assert(pre[j - 1]@ == q);
                }
            }
            if paths_as_set(pre).contains(q) {
                let j = choose|j: int| 0 <= j < pre.len() && pre[j]@ == q;
                if j < idx {
                    assert(out@[j]@ == q);
                } else {
                    assert(out@[j + 1]@ == q);
                }
            }
            if q == s@ {
                assert(out@[idx as int]@ == q);
            }
        }
        assert(paths_as_set(out@) =~= paths_as_set(pre).insert(s@));
    }
}

/// Reversing a sequence after a push puts the new element first.
proof fn lemma_reverse_push(s: Seq<(String, FileInfo)>, e: (String, FileInfo))
    ensures
        s.push(e).reverse() == seq![e] + s.reverse(),
{
    assert(s.push(e).reverse() =~= seq![e] + s.reverse());
}

/// The accumulated stripped paths of all entries equal the union set of the
/// model.
proof fn lemma_union_equal(
    entries: Seq<(String, FileInfo)>,
    out: Seq<String>,
    fs: FsModel,
    left: Seq<char>,
    right: Seq<char>,
)
    requires
        fs.files == files_map(entries),
        forall|q: Seq<char>|
            #[trigger] paths_as_set(out).contains(q) == exists|j: int|
                0 <= j < entries.len() && (spec_strip_prefix(#[trigger] entries[j].0@, left)
                    == Some(q) || spec_strip_prefix(entries[j].0@, right) == Some(q)),
    ensures
        paths_as_set(out) == dir_diff_union(fs, left, right),
{
    assert forall|q: Seq<char>| #[trigger]
        paths_as_set(out).contains(q) == dir_diff_union(fs, left, right).contains(q) by {
        if paths_as_set(out).contains(q) {
            let j = choose|j: int|
                0 <= j < entries.len() && (spec_strip_prefix(#[trigger] entries[j].0@, left)
                    == Some(q) || spec_strip_prefix(entries[j].0@, right) == Some(q));
            lemma_files_map_dom(entries, entries[j].0@);
            assert(fs.files.dom().contains(entries[j].0@));
        }
        if dir_diff_union(fs, left, right).contains(q) {
            let k = choose|k: Seq<char>|
                #[trigger] fs.files.dom().contains(k) && (spec_strip_prefix(k, left) == Some(q)
                    || spec_strip_prefix(k, right) == Some(q));
            lemma_files_map_dom(entries, k);
            let j = choose|j: int| 0 <= j < entries.len() && #[trigger] entries[j].0@ == k;
            assert(spec_strip_prefix(entries[j].0@, left) == Some(q) || spec_strip_prefix(
                entries[j].0@,
                right,
            ) == Some(q));
        }
    }
    assert(paths_as_set(out) =~= dir_diff_union(fs, left, right));
}

} // verus!
