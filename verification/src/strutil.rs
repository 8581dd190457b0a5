//! Verified string utilities: character extraction, splitting into lines,
//! runs of repeated characters, lexicographic order, and decimal formatting.

use vstd::prelude::*;
use vstd::string::StrSliceExecFns;
use vstd::string::StringExecFns;

verus! {

/// The characters of a string, as a vector.
#[verifier::loop_isolation(false)]
pub fn chars_of(s: &str) -> (r: Vec<char>)
    ensures
        r@ == s@,
{
    let n = s.unicode_len();
    let mut r: Vec<char> = Vec::new();
    let mut i: usize = 0;
    while i < n
        invariant
            i <= n,
            r@ == s@.take(i as int),
        decreases n - i,
    {
        let c = s.get_char(i);
        r.push(c);
        proof {
            assert(r@ =~= s@.take(i + 1));
        }
        i = i + 1;
    }
    proof {
        assert(s@.take(n as int) =~= s@);
    }
    r
}

/// The lines of a string, split after each newline character; the final line
/// may lack a trailing newline, and an empty string has no lines.
pub open spec fn spec_split_lines(s: Seq<char>) -> Seq<Seq<char>>
    decreases s.len(),
{
    if s.len() == 0 {
        Seq::empty()
    } else {
        let rest = spec_split_lines(s.drop_first());
        if s[0] == '\n' {
            seq![seq![s[0]]] + rest
        } else if rest.len() == 0 {
            seq![s]
        } else {
            seq![seq![s[0]] + rest[0]] + rest.drop_first()
        }
    }
}

/// The concatenation of a sequence of lines.
pub open spec fn concat_lines(lines: Seq<Seq<char>>) -> Seq<char>
    decreases lines.len(),
{
    if lines.len() == 0 {
        Seq::empty()
    } else {
        concat_lines(lines.drop_last()) + lines.last()
    }
}

/// Concatenation unfolds at the front as well.
pub proof fn lemma_concat_lines_cons(a: Seq<char>, rest: Seq<Seq<char>>)
    ensures
        concat_lines(seq![a] + rest) == a + concat_lines(rest),
    decreases rest.len(),
{
    if rest.len() == 0 {
        assert(seq![a] + rest =~= seq![a]);
        assert(concat_lines(seq![a]) == concat_lines(seq![a].drop_last()) + a);
        assert(concat_lines(seq![a].drop_last()) =~= Seq::<char>::empty()) by {
            assert(seq![a].drop_last() =~= Seq::<Seq<char>>::empty());
        }
        assert(Seq::<char>::empty() + a =~= a);
        assert(a + concat_lines(rest) =~= a);
    } else {
        lemma_concat_lines_cons(a, rest.drop_last());
        assert((seq![a] + rest).drop_last() =~= seq![a] + rest.drop_last());
        assert((seq![a] + rest).last() == rest.last());
        assert(a + concat_lines(rest.drop_last()) + rest.last() =~= a + concat_lines(rest));
    }
}

/// Splitting a string into lines and concatenating them gives the string
/// back.
pub proof fn lemma_split_lines_concat(s: Seq<char>)
    ensures
        concat_lines(spec_split_lines(s)) == s,
    decreases s.len(),
{
    if s.len() == 0 {
        assert(concat_lines(spec_split_lines(s)) =~= s);
    } else {
        lemma_split_lines_concat(s.drop_first());
        let rest = spec_split_lines(s.drop_first());
        if s[0] == '\n' {
            lemma_concat_lines_cons(seq![s[0]], rest);
            assert(seq![s[0]] + s.drop_first() =~= s);
        } else if rest.len() == 0 {
            assert(concat_lines(seq![s]) == concat_lines(seq![s].drop_last()) + s);
            assert(seq![s].drop_last() =~= Seq::<Seq<char>>::empty());
            assert(Seq::<char>::empty() + s =~= s);
        } else {
            lemma_concat_lines_cons(seq![s[0]] + rest[0], rest.drop_first());
            assert(seq![rest[0]] + rest.drop_first() =~= rest);
            lemma_concat_lines_cons(rest[0], rest.drop_first());
            assert(seq![s[0]] + rest[0] + concat_lines(rest.drop_first()) =~= seq![s[0]] + (rest[0]
                + concat_lines(rest.drop_first())));
            assert(seq![s[0]] + concat_lines(rest) =~= s) by {
                assert(seq![s[0]] + s.drop_first() =~= s);
            }
        }
    }
}

/// A nonempty string whose characters before position `k - 1` are not
/// newlines and whose character at `k - 1` is a newline splits into its first
/// `k` characters followed by the lines of the remainder.
proof fn lemma_split_lines_step(s: Seq<char>, k: int)
    requires
        1 <= k <= s.len(),
        forall|j: int| 0 <= j < k - 1 ==> s[j] != '\n',
        s[k - 1] == '\n',
    ensures
        spec_split_lines(s) == seq![s.take(k)] + spec_split_lines(s.skip(k)),
    decreases k,
{
    if k == 1 {
        assert(s[0] == '\n');
        assert(s.take(1) =~= seq![s[0]]);
        assert(s.skip(1) =~= s.drop_first());
    } else {
        assert(s[0] != '\n');
        lemma_split_lines_step(s.drop_first(), k - 1);
        let rest = spec_split_lines(s.drop_first());
        assert(rest == seq![s.drop_first().take(k - 1)] + spec_split_lines(s.drop_first().skip(k - 1)));
        assert(rest.len() > 0);
        assert(rest[0] == s.drop_first().take(k - 1));
        assert(spec_split_lines(s) == seq![seq![s[0]] + rest[0]] + rest.drop_first());
        assert(seq![s[0]] + rest[0] =~= s.take(k));
        assert(rest.drop_first() =~= spec_split_lines(s.drop_first().skip(k - 1)));
        assert(s.drop_first().skip(k - 1) =~= s.skip(k));
    }
}

/// A nonempty string without newlines is a single line.
proof fn lemma_split_lines_whole(s: Seq<char>)
    requires
        s.len() > 0,
        forall|j: int| 0 <= j < s.len() ==> s[j] != '\n',
    ensures
        spec_split_lines(s) == seq![s],
    decreases s.len(),
{
    if s.len() == 1 {
        assert(s[0] != '\n');
        assert(spec_split_lines(s.drop_first()) =~= Seq::<Seq<char>>::empty()) by {
            assert(s.drop_first().len() == 0);
        }
    } else {
        assert(s[0] != '\n');
        lemma_split_lines_whole(s.drop_first());
        let rest = spec_split_lines(s.drop_first());
        assert(rest[0] == s.drop_first());
        assert(seq![s[0]] + s.drop_first() =~= s);
        assert(rest.drop_first() =~= Seq::<Seq<char>>::empty());
        assert(seq![seq![s[0]] + rest[0]] + rest.drop_first() =~= seq![s]);
    }
}

/// Split a string into its lines, each retaining its trailing newline.
#[verifier::loop_isolation(false)]
pub fn split_lines(s: &str) -> (r: Vec<String>)
    ensures
        r@.map_values(|l: String| l@) == spec_split_lines(s@),
{
    let n = s.unicode_len();
    let mut r: Vec<String> = Vec::new();
    let mut start: usize = 0;
    let mut i: usize = 0;
    proof {
        assert(r@.map_values(|l: String| l@) =~= Seq::<Seq<char>>::empty());
        assert(s@.skip(0) =~= s@);
        assert(Seq::<Seq<char>>::empty() + spec_split_lines(s@) =~= spec_split_lines(s@));
    }
    while i < n
        invariant
            start <= i <= n,
            forall|j: int| start <= j < i ==> s@[j] != '\n',
            spec_split_lines(s@) == r@.map_values(|l: String| l@) + spec_split_lines(
                s@.skip(start as int),
            ),
        decreases n - i,
    {
        let c = s.get_char(i);
        if c == '\n' {
            let ghost pre = r@.map_values(|l: String| l@);
            let line = s.substring_char(start, i + 1).to_owned();
            r.push(line);
            proof {
                lemma_split_lines_step(s@.skip(start as int), i + 1 - start);
                assert(s@.skip(start as int).take(i + 1 - start) =~= s@.subrange(
                    start as int,
                    i + 1,
                ));
                assert(s@.skip(start as int).skip(i + 1 - start) =~= s@.skip(i + 1));
                assert(r@.map_values(|l: String| l@) =~= pre + seq![s@.subrange(start as int, i + 1)]);
                assert(pre + (seq![s@.subrange(start as int, i + 1)] + spec_split_lines(
                    s@.skip(i + 1),
                )) =~= (pre + seq![s@.subrange(start as int, i + 1)]) + spec_split_lines(
                    s@.skip(i + 1),
                ));
            }
            start = i + 1;
        }
        i = i + 1;
    }
    if start < n {
        let ghost pre = r@.map_values(|l: String| l@);
        let line = s.substring_char(start, n).to_owned();
        r.push(line);
        proof {
            lemma_split_lines_whole(s@.skip(start as int));
            assert(s@.skip(start as int) =~= s@.subrange(start as int, n as int));
            assert(r@.map_values(|l: String| l@) =~= pre + seq![s@.subrange(start as int, n as int)]);
            assert(pre + seq![s@.subrange(start as int, n as int)] =~= pre + (seq![
                s@.subrange(start as int, n as int),
            ] + Seq::<Seq<char>>::empty()));
        }
    } else {
        proof {
            assert(s@.skip(start as int) =~= Seq::<char>::empty());
            assert(r@.map_values(|l: String| l@) + Seq::<Seq<char>>::empty() =~= r@.map_values(
                |l: String| l@,
            ));
        }
    }
    r
}

/// Whether a run of `n` occurrences of `c` starts at position `i` of `s`.
pub open spec fn run_at(s: Seq<char>, c: char, i: int, n: nat) -> bool {
    0 <= i && i + n <= s.len() && (forall|j: int| i <= j < i + n ==> #[trigger] s[j] == c)
}

/// Whether `n` consecutive occurrences of `c` appear in `s`.
pub open spec fn has_run(s: Seq<char>, c: char, n: nat) -> bool {
    exists|i: int| #[trigger] run_at(s, c, i, n)
}

/// A shorter run exists wherever a longer one does.
pub proof fn lemma_has_run_mono(s: Seq<char>, c: char, n: nat, m: nat)
    requires
        m <= n,
        has_run(s, c, n),
    ensures
        has_run(s, c, m),
{
    let i = choose|i: int| #[trigger] run_at(s, c, i, n);
    assert(run_at(s, c, i, m));
}

/// The length of the longest run of `c` in `s`.
#[verifier::loop_isolation(false)]
pub fn longest_run(s: &Vec<char>, c: char) -> (r: usize)
    ensures
        r <= s@.len(),
        !has_run(s@, c, (r + 1) as nat),
        r > 0 ==> has_run(s@, c, r as nat),
{
    let n = s.len();
    let mut best: usize = 0;
    let mut cur: usize = 0;
    let mut i: usize = 0;
    while i < n
        invariant
            i <= n,
            cur <= i,
            best <= i,
            cur <= best,
            forall|j: int| i - cur <= j < i ==> #[trigger] s@[j] == c,
            cur == i || s@[i - cur - 1] != c,
            !has_run(s@.take(i as int), c, (best + 1) as nat),
            best > 0 ==> has_run(s@.take(i as int), c, best as nat),
        decreases n - i,
    {
        let ghost pre = s@.take(i + 1);
        if s[i] == c {
            let new_cur = cur + 1;
            let new_best = if new_cur > best {
                new_cur
            } else {
                best
            };
            proof {
                // The current run, extended by position i, is a run in the
                // longer prefix.
                assert(run_at(pre, c, i + 1 - new_cur, new_cur as nat));
                if new_best == best && best > 0 {
                    let st = choose|st: int| #[trigger] run_at(s@.take(i as int), c, st, best as nat);
                    assert(run_at(pre, c, st, best as nat));
                }
                if has_run(pre, c, (new_best + 1) as nat) {
                    let st = choose|st: int| #[trigger] run_at(pre, c, st, (new_best + 1) as nat);
                    if st + new_best + 1 <= i {
                        assert(run_at(s@.take(i as int), c, st, (new_best + 1) as nat));
                        lemma_has_run_mono(
                            s@.take(i as int),
                            c,
                            (new_best + 1) as nat,
                            (best + 1) as nat,
                        );
                        assert(false);
                    } else {
                        // The run ends just past position i and is longer than
                        // the current run, so it covers the character before
                        // the current run, which is not c.
                        assert(st + new_best + 1 == i + 1);
                        assert(st == i - new_best);
                        assert(st <= i - cur - 1);
                        assert(cur < i);
                        assert(st <= i - cur - 1 < st + new_best + 1);
                        assert(pre[i - cur - 1] == c);
                        assert(pre[i - cur - 1] == s@[i - cur - 1]);
                        assert(false);
                    }
                }
            }
            cur = new_cur;
            best = new_best;
        } else {
            proof {
                if has_run(pre, c, (best + 1) as nat) {
                    let st = choose|st: int| #[trigger] run_at(pre, c, st, (best + 1) as nat);
                    if st + best + 1 <= i {
                        assert(run_at(s@.take(i as int), c, st, (best + 1) as nat));
                        assert(false);
                    } else {
                        assert(st <= i < st + best + 1);
                        assert(pre[i as int] == c);
                        assert(false);
                    }
                }
                if best > 0 {
                    let st = choose|st: int| #[trigger] run_at(s@.take(i as int), c, st, best as nat);
                    assert(run_at(pre, c, st, best as nat));
                }
            }
            cur = 0;
        }
        i = i + 1;
    }
    proof {
        assert(s@.take(n as int) =~= s@);
    }
    best
}

/// Comparison of character sequences: strictly less in lexicographic order by
/// character code.
pub open spec fn lex_lt(a: Seq<char>, b: Seq<char>) -> bool
    decreases a.len(),
{
    if b.len() == 0 {
        false
    } else if a.len() == 0 {
        true
    } else if a[0] != b[0] {
        (a[0] as u32) < (b[0] as u32)
    } else {
        lex_lt(a.drop_first(), b.drop_first())
    }
}

/// Two sequences with neither below the other are equal.
pub proof fn lemma_lex_total(a: Seq<char>, b: Seq<char>)
    requires
        !lex_lt(a, b),
        !lex_lt(b, a),
    ensures
        a == b,
    decreases a.len(),
{
    if b.len() == 0 {
        assert(a =~= b);
    } else if a.len() == 0 {
        assert(false);
    } else if a[0] != b[0] {
        assert((a[0] as u32) != (b[0] as u32)) by {
            vstd::utf8::char_u32_cast(a[0], a[0] as u32);
            vstd::utf8::char_u32_cast(b[0], b[0] as u32);
        }
        assert(false);
    } else {
        lemma_lex_total(a.drop_first(), b.drop_first());
        assert(a =~= seq![a[0]] + a.drop_first());
        assert(b =~= seq![b[0]] + b.drop_first());
    }
}

/// Lexicographic order is transitive.
pub proof fn lemma_lex_trans(a: Seq<char>, b: Seq<char>, c: Seq<char>)
    requires
        lex_lt(a, b),
        lex_lt(b, c),
    ensures
        lex_lt(a, c),
    decreases a.len(),
{
    if c.len() == 0 {
        assert(false);
    } else if a.len() == 0 {
    } else if b.len() == 0 {
        assert(false);
    } else {
        if a[0] == b[0] && b[0] == c[0] {
            lemma_lex_trans(a.drop_first(), b.drop_first(), c.drop_first());
        }
    }
}

/// Compare two strings lexicographically by character code.
#[verifier::loop_isolation(false)]
pub fn str_lex_lt(a: &str, b: &str) -> (r: bool)
    ensures
        r == lex_lt(a@, b@),
{
    let na = a.unicode_len();
    let nb = b.unicode_len();
    let mut i: usize = 0;
    proof {
        assert(a@.skip(0) =~= a@);
        assert(b@.skip(0) =~= b@);
    }
    loop
        invariant
            i <= na,
            i <= nb,
            forall|j: int| 0 <= j < i ==> a@[j] == b@[j],
            lex_lt(a@, b@) == lex_lt(a@.skip(i as int), b@.skip(i as int)),
        decreases na - i,
    {
        if i >= nb {
            proof {
                assert(b@.skip(i as int).len() == 0);
            }
            return false;
        }
        if i >= na {
            proof {
                assert(a@.skip(i as int).len() == 0);
                assert(b@.skip(i as int).len() > 0);
            }
            return true;
        }
        let ca = a.get_char(i);
        let cb = b.get_char(i);
        if ca != cb {
            proof {
                assert(a@.skip(i as int)[0] == ca);
                assert(b@.skip(i as int)[0] == cb);
            }
            return (ca as u32) < (cb as u32);
        }
        proof {
            assert(a@.skip(i as int)[0] == ca);
            assert(b@.skip(i as int)[0] == cb);
            assert(a@.skip(i as int).drop_first() =~= a@.skip(i + 1));
            assert(b@.skip(i as int).drop_first() =~= b@.skip(i + 1));
        }
        i = i + 1;
    }
}

/// The decimal digit character for a value below ten.
pub open spec fn digit_char(d: nat) -> char {
    if d == 0 {
        '0'
    } else if d == 1 {
        '1'
    } else if d == 2 {
        '2'
    } else if d == 3 {
        '3'
    } else if d == 4 {
        '4'
    } else if d == 5 {
        '5'
    } else if d == 6 {
        '6'
    } else if d == 7 {
        '7'
    } else if d == 8 {
        '8'
    } else {
        '9'
    }
}

/// The decimal representation of a natural number, without leading zeros.
pub open spec fn dec_str(n: nat) -> Seq<char>
    decreases n,
{
    if n < 10 {
        seq![digit_char(n)]
    } else {
        dec_str(n / 10) + seq![digit_char(n % 10)]
    }
}

/// The decimal digit string for a value below ten.
fn digit_str(d: u64) -> (r: &'static str)
    requires
        d < 10,
    ensures
        r@ == seq![digit_char(d as nat)],
{
    proof {
        reveal_strlit("0");
        reveal_strlit("1");
        reveal_strlit("2");
        reveal_strlit("3");
        reveal_strlit("4");
        reveal_strlit("5");
        reveal_strlit("6");
        reveal_strlit("7");
        reveal_strlit("8");
        reveal_strlit("9");
    }
    let r = if d == 0 {
        "0"
    } else if d == 1 {
        "1"
    } else if d == 2 {
        "2"
    } else if d == 3 {
        "3"
    } else if d == 4 {
        "4"
    } else if d == 5 {
        "5"
    } else if d == 6 {
        "6"
    } else if d == 7 {
        "7"
    } else if d == 8 {
        "8"
    } else {
        "9"
    };
    proof {
        assert(r@ =~= seq![digit_char(d as nat)]);
    }
    r
}

/// The decimal digit string for a byte value below ten.
pub(crate) fn digit_str_u8(d: u8) -> (r: &'static str)
    requires
        d < 10,
    ensures
        r@ == seq![digit_char(d as nat)],
{
    digit_str(d as u64)
}

/// Format a number in decimal.
pub fn u64_to_string(n: u64) -> (r: String)
    ensures
        r@ == dec_str(n as nat),
    decreases n,
{
    if n < 10 {
        let d = digit_str(n);
        d.to_owned()
    } else {
        let prefix = u64_to_string(n / 10);
        let r = prefix.concat(digit_str(n % 10));
        proof {
            assert(r@ =~= dec_str(n as nat));
        }
        r
    }
}

} // verus!
