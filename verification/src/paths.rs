//! Verified path handling over plain strings: joining, prefix stripping,
//! parent directories, and ancestor chains. Paths use `/` as the separator.

use vstd::prelude::*;
use vstd::string::StrSliceExecFns;
use vstd::string::StringExecFns;

verus! {

/// Joining a root and a relative path: an empty root or path leaves the
/// other unchanged, otherwise they are separated by a slash.
pub open spec fn spec_join(root: Seq<char>, p: Seq<char>) -> Seq<char> {
    if root.len() == 0 {
        p
    } else if p.len() == 0 {
        root
    } else {
        root + seq!['/'] + p
    }
}

/// Join a root directory and a relative path.
pub fn join_paths(root: &str, p: &str) -> (r: String)
    ensures
        r@ == spec_join(root@, p@),
{
    if root.unicode_len() == 0 {
        p.to_owned()
    } else if p.unicode_len() == 0 {
        root.to_owned()
    } else {
        proof {
            reveal_strlit("/");
            assert("/"@ =~= seq!['/']);
        }
        let r = root.to_owned().concat("/").concat(p);
        proof {
            assert(r@ =~= root@ + seq!['/'] + p@);
        }
        r
    }
}

/// Stripping a root prefix from a path: the remainder after the root and a
/// separating slash, the empty path if they are equal, the path itself under
/// an empty root, and nothing otherwise.
pub open spec fn spec_strip_prefix(p: Seq<char>, root: Seq<char>) -> Option<Seq<char>> {
    if root.len() == 0 {
        Some(p)
    } else if p == root {
        Some(Seq::empty())
    } else if p.len() > root.len() && p.take(root.len() as int) == root && p[root.len() as int]
        == '/' {
        Some(p.skip(root.len() as int + 1))
    } else {
        None
    }
}

/// Strip `root` (followed by a path separator) from the front of `p`.
pub fn strip_path_prefix(p: &str, root: &str) -> (r: Option<String>)
    ensures
        crate::types::opt_str_view(r) == spec_strip_prefix(p@, root@),
{
    let np = p.unicode_len();
    let nr = root.unicode_len();
    if nr == 0 {
        return Some(p.to_owned());
    }
    if np == nr {
        let pe = p.to_owned();
        let re = root.to_owned();
        if pe == re {
            return Some(String::new());
        } else {
            return None;
        }
    }
    if np > nr {
        let prefix = p.substring_char(0, nr).to_owned();
        let re = root.to_owned();
        if prefix == re {
            if p.get_char(nr) == '/' {
                proof {
                    assert(p@ != root@);
                }
                return Some(p.substring_char(nr + 1, np).to_owned());
            }
        }
        return None;
    }
    None
}

/// The parent directory portion of a path: everything before the last slash,
/// or the empty path if there is none.
pub open spec fn spec_chop(p: Seq<char>) -> Seq<char>
    decreases p.len(),
{
    if p.len() == 0 {
        Seq::empty()
    } else if p.last() == '/' {
        p.drop_last()
    } else {
        spec_chop(p.drop_last())
    }
}

/// The parent of a path: no parent for the empty path, otherwise the part
/// before the last slash.
pub open spec fn spec_parent(p: Seq<char>) -> Option<Seq<char>> {
    if p.len() == 0 {
        None
    } else {
        Some(spec_chop(p))
    }
}

/// The parent portion is strictly shorter than the path.
pub proof fn lemma_chop_shorter(p: Seq<char>)
    requires
        p.len() > 0,
    ensures
        spec_chop(p).len() < p.len(),
    decreases p.len(),
{
    if p.last() == '/' {
    } else if p.len() == 1 {
        assert(p.drop_last().len() == 0);
        assert(spec_chop(p.drop_last()) == Seq::<char>::empty());
    } else {
        lemma_chop_shorter(p.drop_last());
    }
}

/// When the last slash of `p` stands at position `k`, the parent portion is
/// the prefix before it.
proof fn lemma_chop_at(p: Seq<char>, k: int)
    requires
        0 <= k < p.len(),
        p[k] == '/',
        forall|j: int| k < j < p.len() ==> p[j] != '/',
    ensures
        spec_chop(p) == p.take(k),
    decreases p.len(),
{
    if k == p.len() - 1 {
        assert(p.take(k) =~= p.drop_last());
    } else {
        assert(p.last() != '/');
        lemma_chop_at(p.drop_last(), k);
        assert(p.drop_last().take(k) =~= p.take(k));
    }
}

/// A path without slashes has an empty parent portion.
proof fn lemma_chop_none(p: Seq<char>)
    requires
        forall|j: int| 0 <= j < p.len() ==> p[j] != '/',
    ensures
        spec_chop(p) == Seq::<char>::empty(),
    decreases p.len(),
{
    if p.len() > 0 {
        lemma_chop_none(p.drop_last());
    }
}

/// The parent of a path, or `None` for the empty path.
#[verifier::loop_isolation(false)]
pub fn parent_path(p: &str) -> (r: Option<String>)
    ensures
        crate::types::opt_str_view(r) == spec_parent(p@),
{
    let n = p.unicode_len();
    if n == 0 {
        return None;
    }
    let mut i: usize = n;
    while i > 0
        invariant
            i <= n,
            forall|j: int| i <= j < n ==> p@[j] != '/',
        decreases i,
    {
        if p.get_char(i - 1) == '/' {
            proof {
                lemma_chop_at(p@, i - 1);
            }
            return Some(p.substring_char(0, i - 1).to_owned());
        }
        i = i - 1;
    }
    proof {
        lemma_chop_none(p@);
    }
    Some(String::new())
}

/// The chain of ancestors of a path, nearest first, ending with the empty
/// path. The path itself is not included.
pub open spec fn spec_ancestors(p: Seq<char>) -> Seq<Seq<char>>
    decreases p.len(),
    via spec_ancestors_dec
{
    if p.len() == 0 {
        Seq::empty()
    } else {
        seq![spec_chop(p)] + spec_ancestors(spec_chop(p))
    }
}

#[via_fn]
proof fn spec_ancestors_dec(p: Seq<char>) {
    if p.len() > 0 {
        lemma_chop_shorter(p);
    }
}

/// The ancestors of a path, nearest first.
#[verifier::loop_isolation(false)]
pub fn ancestor_dirs(p: &str) -> (r: Vec<String>)
    ensures
        r@.map_values(|s: String| s@) == spec_ancestors(p@),
{
    let mut r: Vec<String> = Vec::new();
    let mut cur: String = p.to_owned();
    let ghost whole = spec_ancestors(p@);
    proof {
        assert(r@.map_values(|s: String| s@) =~= Seq::<Seq<char>>::empty());
        assert(Seq::<Seq<char>>::empty() + spec_ancestors(p@) =~= spec_ancestors(p@));
    }
    loop
        invariant
            whole == r@.map_values(|s: String| s@) + spec_ancestors(cur@),
        decreases cur@.len(),
    {
        match parent_path(cur.as_str()) {
            None => {
                proof {
                    assert(spec_ancestors(cur@) =~= Seq::<Seq<char>>::empty());
                    assert(r@.map_values(|s: String| s@) + Seq::<Seq<char>>::empty()
                        =~= r@.map_values(|s: String| s@));
                }
                return r;
            },
            Some(parent) => {
                proof {
                    lemma_chop_shorter(cur@);
                    let pre = r@.map_values(|s: String| s@);
                    assert(spec_ancestors(cur@) == seq![spec_chop(cur@)] + spec_ancestors(
                        spec_chop(cur@),
                    ));
                    assert(pre + (seq![parent@] + spec_ancestors(parent@)) =~= (pre
                        + seq![parent@]) + spec_ancestors(parent@));
                }
                let ghost pre = r@.map_values(|s: String| s@);
                r.push(parent.clone());
                proof {
                    assert(r@.map_values(|s: String| s@) =~= pre + seq![parent@]);
                }
                cur = parent;
            },
        }
    }
}

} // verus!
