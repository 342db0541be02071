//! Reading the debug output of `nix develop` for the files a flake's shell depends on.
//!
//! The evaluation of a flake shows up in three kinds of lines, in this order:
//! `evaluating derivation 'git+file://<dir>...#<attr>'...` names a flake and its source
//! directory; `got tree '<tree>' from '<flake>'` names the store tree a flake was copied to;
//! `checking access to '<tree>/<file>'` names a file of that tree, which stands for the same
//! file in the source directory.

use crate::builder::{BuildError, BuildErrorView, LogDatum, LogDatumView, RootedPath, RunResult, string_from_utf8};
use crate::path::parent_of;
use crate::watch::WatchPathBuf;
use crate::path::{AbsPathBuf, chars_of, is_absolute, path_join};
use vstd::prelude::*;
use vstd::utf8::{decode_utf8, valid_utf8};

verus! {

/// Whether `pat` occurs in `s` at position `p`.
pub open spec fn occurs_at(s: Seq<char>, p: int, pat: Seq<char>) -> bool {
    0 <= p && p + pat.len() <= s.len() && s.subrange(p, p + pat.len()) == pat
}

/// The position of the first `c` at or after `i`, or the length of `s` when there is none.
pub open spec fn next_char(s: Seq<char>, i: int, c: char) -> int
    decreases s.len() - i,
{
    if i < 0 || i >= s.len() {
        s.len() as int
    } else if s[i] == c {
        i
    } else {
        next_char(s, i + 1, c)
    }
}

/// The search for a character stays inside the text and finds the first one.
pub proof fn lemma_next_char(s: Seq<char>, i: int, c: char)
    requires
        0 <= i <= s.len(),
    ensures
        i <= next_char(s, i, c) <= s.len(),
        next_char(s, i, c) < s.len() ==> s[next_char(s, i, c)] == c,
        forall|k: int| i <= k < next_char(s, i, c) ==> s[k] != c,
    decreases s.len() - i,
{
    if i < s.len() && s[i] != c {
        lemma_next_char(s, i + 1, c);
    }
}

/// Whitespace, as Unicode defines it (what `\s` matches).
pub open spec fn is_white_space(c: char) -> bool {
    ||| ('\u{9}' <= c && c <= '\u{d}')
    ||| c == ' '
    ||| c == '\u{85}'
    ||| c == '\u{a0}'
    ||| c == '\u{1680}'
    ||| ('\u{2000}' <= c && c <= '\u{200a}')
    ||| c == '\u{2028}'
    ||| c == '\u{2029}'
    ||| c == '\u{202f}'
    ||| c == '\u{205f}'
    ||| c == '\u{3000}'
}

/// Whether a character is whitespace (see `is_white_space`).
fn white_space(c: char) -> (r: bool)
    ensures
        r == is_white_space(c),
{
    ('\u{9}' <= c && c <= '\u{d}') || c == ' ' || c == '\u{85}' || c == '\u{a0}' || c == '\u{1680}' || ('\u{2000}' <= c
        && c <= '\u{200a}') || c == '\u{2028}' || c == '\u{2029}' || c == '\u{202f}' || c == '\u{205f}' || c
        == '\u{3000}'
}

/// The first position at or after `c` that a path component can be read up to.
fn find_char(s: &Vec<char>, i: usize, c: char) -> (r: usize)
    requires
        i <= s@.len(),
    ensures
        r == next_char(s@, i as int, c),
{
    let mut j = i;
    while j < s.len() && s[j] != c
        invariant
            i <= j <= s@.len(),
            next_char(s@, i as int, c) == next_char(s@, j as int, c),
        decreases s@.len() - j,
    {
        j = j + 1;
    }
    j
}

/// Whether `pat` occurs in `s` at `p` (see `occurs_at`).
fn occurs_at_exec(s: &Vec<char>, p: usize, pat: &Vec<char>) -> (r: bool)
    ensures
        r == occurs_at(s@, p as int, pat@),
{
    let n = s.len();
    if p > n || pat.len() > n - p {
        return false;
    }
    let mut k: usize = 0;
    while k < pat.len()
        invariant
            n == s@.len(),
            p + pat@.len() <= s@.len(),
            k <= pat@.len(),
            forall|m: int| 0 <= m < k ==> s@[p + m] == pat@[m],
        decreases pat@.len() - k,
    {
        if s[p + k] != pat[k] {
            proof {
                assert(s@.subrange(p as int, p + pat@.len())[k as int] != pat@[k as int]);
            }
            return false;
        }
        k = k + 1;
    }
    proof {
        assert(s@.subrange(p as int, p + pat@.len()) =~= pat@);
    }
    true
}

/// The opening of a file access of a tree: `checking access to '<tree>/`.
pub open spec fn access_prefix(tree: Seq<char>) -> Seq<char> {
    "checking access to '"@ + tree + "/"@
}

/// A file access of the tree (with prefix `pre`) starts at `p`: the prefix is there and a
/// quote closes the file name after it.
pub open spec fn access_at(s: Seq<char>, pre: Seq<char>, p: int) -> bool {
    occurs_at(s, p, pre) && next_char(s, p + pre.len(), '\'') < s.len()
}

/// The first file access at or after `p`.
pub open spec fn access_search(s: Seq<char>, pre: Seq<char>, p: int) -> Option<int>
    decreases s.len() + 1 - p,
{
    if p < 0 || p > s.len() {
        None
    } else if access_at(s, pre, p) {
        Some(p)
    } else {
        access_search(s, pre, p + 1)
    }
}

/// The file named by the first access with prefix `pre` in `s`: from the end of the prefix
/// to the closing quote.
pub open spec fn accessed_file(s: Seq<char>, pre: Seq<char>) -> Option<Seq<char>> {
    match access_search(s, pre, 0) {
        Some(p) => Some(s.subrange(p + pre.len(), next_char(s, p + pre.len(), '\''))),
        None => None,
    }
}

/// `accessed_file`, computed: where the file name starts and ends in `s`.
fn find_access(s: &Vec<char>, pre: &Vec<char>) -> (r: Option<(usize, usize)>)
    ensures
        match accessed_file(s@, pre@) {
            Some(f) => r matches Some(v) && v.0 <= v.1 <= s@.len() && s@.subrange(v.0 as int, v.1 as int) == f,
            None => r is None,
        },
{
    let mut p: usize = 0;
    while p < s.len()
        invariant
            p <= s@.len(),
            access_search(s@, pre@, 0) == access_search(s@, pre@, p as int),
        decreases s@.len() - p,
    {
        if occurs_at_exec(s, p, pre) {
            let f0 = p + pre.len();
            let f1 = find_char(s, f0, '\'');
            if f1 < s.len() {
                proof {
                    lemma_next_char(s@, f0 as int, '\'');
                }
                return Some((f0, f1));
            }
        }
        p = p + 1;
    }
    proof {
        assert(!access_at(s@, pre@, s@.len() as int));
        assert(access_search(s@, pre@, s@.len() + 1int) is None);
    }
    None
}

/// The opening of a tree line: `got tree '`.
pub open spec fn got_tree_prefix() -> Seq<char> {
    "got tree '"@
}

/// What follows the tree in a tree line of a flake: `' from '<flake>'`.
pub open spec fn from_flake(flake: Seq<char>) -> Seq<char> {
    "' from '"@ + flake + "'"@
}

/// A tree line of `flake` starts at `p`.
pub open spec fn got_tree_at(s: Seq<char>, flake: Seq<char>, p: int) -> bool {
    let t0 = p + got_tree_prefix().len();
    occurs_at(s, p, got_tree_prefix()) && next_char(s, t0, '\'') < s.len() && occurs_at(
        s,
        next_char(s, t0, '\''),
        from_flake(flake),
    )
}

/// The first tree line of `flake` at or after `p`.
pub open spec fn got_tree_search(s: Seq<char>, flake: Seq<char>, p: int) -> Option<int>
    decreases s.len() + 1 - p,
{
    if p < 0 || p > s.len() {
        None
    } else if got_tree_at(s, flake, p) {
        Some(p)
    } else {
        got_tree_search(s, flake, p + 1)
    }
}

/// The tree that the first tree line of `flake` in `s` names.
pub open spec fn got_tree(s: Seq<char>, flake: Seq<char>) -> Option<Seq<char>> {
    match got_tree_search(s, flake, 0) {
        Some(p) => {
            let t0 = p + got_tree_prefix().len();
            Some(s.subrange(t0, next_char(s, t0, '\'')))
        },
        None => None,
    }
}

/// `got_tree`, computed; `prefix` is `got_tree_prefix` and `suffix` is `from_flake` of the
/// flake.
fn find_got_tree(s: &Vec<char>, prefix: &Vec<char>, suffix: &Vec<char>, Ghost(flake): Ghost<Seq<char>>) -> (r: Option<(usize, usize)>)
    requires
        prefix@ == got_tree_prefix(),
        suffix@ == from_flake(flake),
    ensures
        match got_tree(s@, flake) {
            Some(t) => r matches Some(v) && v.0 <= v.1 <= s@.len() && s@.subrange(v.0 as int, v.1 as int) == t,
            None => r is None,
        },
{
    let mut p: usize = 0;
    while p < s.len()
        invariant
            prefix@ == got_tree_prefix(),
            suffix@ == from_flake(flake),
            p <= s@.len(),
            got_tree_search(s@, flake, 0) == got_tree_search(s@, flake, p as int),
        decreases s@.len() - p,
    {
        if occurs_at_exec(s, p, prefix) {
            let t0 = p + prefix.len();
            let q = find_char(s, t0, '\'');
            if q < s.len() && occurs_at_exec(s, q, suffix) {
                proof {
                    lemma_next_char(s@, t0 as int, '\'');
                }
                return Some((t0, q));
            }
        }
        p = p + 1;
    }
    proof {
        assert(!got_tree_at(s@, flake, s@.len() as int));
        assert(got_tree_search(s@, flake, s@.len() + 1int) is None);
    }
    None
}

/// The opening of a derivation line up to the flake: `evaluating derivation '`.
pub open spec fn drv_prefix() -> Seq<char> {
    "evaluating derivation '"@
}

/// The scheme of a flake in a local git repository: `git+file://`.
pub open spec fn git_file() -> Seq<char> {
    "git+file://"@
}

/// How a derivation line ends: `'...`.
pub open spec fn dots() -> Seq<char> {
    "'..."@
}

/// Whether the attribute from `c` on (no whitespace) is followed by `'...`.
pub open spec fn dots_tail(s: Seq<char>, c: int) -> bool
    decreases s.len() - c,
{
    if c < 0 || c >= s.len() {
        false
    } else if occurs_at(s, c, dots()) {
        true
    } else if is_white_space(s[c]) {
        false
    } else {
        dots_tail(s, c + 1)
    }
}

/// Where the source directory starts, for a derivation line at `p`.
pub open spec fn drv_dir_start(p: int) -> int {
    p + drv_prefix().len() + git_file().len()
}

/// A derivation line at `p` whose source directory ends at `a`: the directory has no `?`,
/// and after it come more of the flake reference (no `#`), a `#`, the attribute and `'...`.
pub open spec fn drv_ok(s: Seq<char>, p: int, a: int) -> bool {
    &&& occurs_at(s, p, drv_prefix() + git_file())
    &&& drv_dir_start(p) <= a <= next_char(s, drv_dir_start(p), '?')
    &&& next_char(s, a, '#') < s.len()
    &&& dots_tail(s, next_char(s, a, '#') + 1)
}

/// The longest source directory (ending at `a` or before) of a derivation line at `p`.
pub open spec fn drv_best_end(s: Seq<char>, p: int, a: int) -> Option<int>
    decreases a - p,
{
    if a <= p || a < drv_dir_start(p) {
        None
    } else if drv_ok(s, p, a) {
        Some(a)
    } else {
        drv_best_end(s, p, a - 1)
    }
}

/// The longest source directory of a derivation line at `p`.
pub open spec fn drv_end(s: Seq<char>, p: int) -> Option<int> {
    drv_best_end(s, p, next_char(s, drv_dir_start(p), '?'))
}

/// The first derivation line at or after `p`.
pub open spec fn drv_search(s: Seq<char>, p: int) -> Option<int>
    decreases s.len() + 1 - p,
{
    if p < 0 || p > s.len() {
        None
    } else if occurs_at(s, p, drv_prefix() + git_file()) && drv_end(s, p) is Some {
        Some(p)
    } else {
        drv_search(s, p + 1)
    }
}

/// The flake reference and the source directory of the first derivation line of a local
/// git flake in `s`.
pub open spec fn drv_flake(s: Seq<char>) -> Option<(Seq<char>, Seq<char>)> {
    match drv_search(s, 0) {
        Some(p) => {
            let a = drv_end(s, p).unwrap();
            let b = next_char(s, a, '#');
            Some((s.subrange(p + drv_prefix().len(), b), s.subrange(drv_dir_start(p), a)))
        },
        None => None,
    }
}

/// `dots_tail`, computed.
fn dots_tail_exec(s: &Vec<char>, c: usize, dots_chars: &Vec<char>) -> (r: bool)
    requires
        dots_chars@ == dots(),
    ensures
        r == dots_tail(s@, c as int),
{
    let mut i = c;
    while i < s.len()
        invariant
            dots_chars@ == dots(),
            c <= i,
            dots_tail(s@, c as int) == dots_tail(s@, i as int),
        decreases s@.len() - i,
    {
        if occurs_at_exec(s, i, dots_chars) {
            return true;
        }
        if white_space(s[i]) {
            return false;
        }
        i = i + 1;
    }
    false
}

/// `drv_end` of a derivation line at `p` (whose directory starts at `a0`; the first `?`
/// after it is at `q0`), computed.
fn best_drv_end(s: &Vec<char>, p: usize, a0: usize, q0: usize, dots_chars: &Vec<char>) -> (r: Option<usize>)
    requires
        dots_chars@ == dots(),
        occurs_at(s@, p as int, drv_prefix() + git_file()),
        a0 == drv_dir_start(p as int),
        a0 <= q0 <= s@.len(),
        q0 == next_char(s@, a0 as int, '?'),
    ensures
        match drv_end(s@, p as int) {
            Some(a) => r == Some(a as usize) && a0 <= a <= q0,
            None => r is None,
        },
{
    let mut a = q0;
    while a >= a0 && a > p
        invariant
            dots_chars@ == dots(),
            occurs_at(s@, p as int, drv_prefix() + git_file()),
            a0 == drv_dir_start(p as int),
            a0 <= q0 <= s@.len(),
            q0 == next_char(s@, a0 as int, '?'),
            a <= q0,
            drv_end(s@, p as int) == drv_best_end(s@, p as int, a as int),
        decreases a,
    {
        let b = find_char(s, a, '#');
        if b < s.len() && dots_tail_exec(s, b + 1, dots_chars) {
            return Some(a);
        }
        if a == 0 {
            return None;
        }
        a = a - 1;
    }
    None
}

/// `drv_flake`, computed; `opening` is the opening of a derivation line of a local git
/// flake, and `prefix_len` the length of its part before the flake.
fn find_drv_flake(s: &Vec<char>, opening: &Vec<char>, prefix_len: usize, dots_chars: &Vec<char>) -> (r: Option<(usize, usize, usize, usize)>)
    requires
        opening@ == drv_prefix() + git_file(),
        prefix_len == drv_prefix().len(),
        dots_chars@ == dots(),
    ensures
        match drv_flake(s@) {
            Some((f, d)) => r matches Some(v) && v.0 <= v.1 <= s@.len() && v.2 <= v.3 <= s@.len() && s@.subrange(v.0 as int, v.1 as int) == f
                && s@.subrange(v.2 as int, v.3 as int) == d,
            None => r is None,
        },
{
    let mut p: usize = 0;
    while p < s.len()
        invariant
            opening@ == drv_prefix() + git_file(),
            prefix_len == drv_prefix().len(),
            dots_chars@ == dots(),
            p <= s@.len(),
            drv_search(s@, 0) == drv_search(s@, p as int),
        decreases s@.len() - p,
    {
        if occurs_at_exec(s, p, opening) {
            let a0 = p + opening.len();
            proof {
                assert(a0 == drv_dir_start(p as int));
            }
            let q0 = find_char(s, a0, '?');
            proof {
                lemma_next_char(s@, a0 as int, '?');
            }
            let best = best_drv_end(s, p, a0, q0, dots_chars);
            if let Some(a) = best {
                let b = find_char(s, a, '#');
                proof {
                    lemma_next_char(s@, a as int, '#');
                    assert(drv_prefix().len() <= (drv_prefix() + git_file()).len());
                }
                return Some((p + prefix_len, b, a0, a));
            }
        }
        p = p + 1;
    }
    proof {
        assert(drv_search(s@, s@.len() + 1int) is None);
    }
    None
}

/// Names with the directory each stands for, a name at most once.
pub type DirTable = Seq<(Seq<char>, Seq<char>)>;

/// The position of the entry for `k` at or after `i`, or the length when there is none.
pub open spec fn key_index(m: DirTable, k: Seq<char>, i: int) -> int
    decreases m.len() - i,
{
    if i < 0 || i >= m.len() {
        m.len() as int
    } else if m[i].0 == k {
        i
    } else {
        key_index(m, k, i + 1)
    }
}

/// The table with `k` standing for `v`: its entry is replaced when it has one, and added
/// at the end otherwise.
pub open spec fn table_insert(m: DirTable, k: Seq<char>, v: Seq<char>) -> DirTable {
    let i = key_index(m, k, 0);
    if i < m.len() {
        m.update(i, (k, v))
    } else {
        m.push((k, v))
    }
}

/// What the parser knows: the flakes seen (by reference, with their source directories),
/// and the trees they were copied to (with the same directories).
pub struct DevView {
    /// The flakes, with their source directories
    pub flakes: DirTable,
    /// The store trees, with the source directories they stand for
    pub trees: DirTable,
}

/// The first tree (from position `k` on) that `s` reads a file of.
pub open spec fn first_tree_hit(trees: DirTable, s: Seq<char>, k: int) -> Option<int>
    decreases trees.len() - k,
{
    if k < 0 || k >= trees.len() {
        None
    } else if accessed_file(s, access_prefix(trees[k].0)) is Some {
        Some(k)
    } else {
        first_tree_hit(trees, s, k + 1)
    }
}

/// The first flake (from position `k` on) that `s` names a tree of.
pub open spec fn first_flake_hit(flakes: DirTable, s: Seq<char>, k: int) -> Option<int>
    decreases flakes.len() - k,
{
    if k < 0 || k >= flakes.len() {
        None
    } else if got_tree(s, flakes[k].0) is Some {
        Some(k)
    } else {
        first_flake_hit(flakes, s, k + 1)
    }
}

/// Reading line `s`: a read of a known tree's file is a recursive read of the same file in
/// the source directory; a tree line of a known flake records the tree; a derivation line
/// of a local git flake records the flake. Every other line is text, and so are these
/// last two.
pub open spec fn dev_step(st: DevView, s: Seq<char>) -> (DevView, LogDatumView) {
    match first_tree_hit(st.trees, s, 0) {
        Some(k) => (
            st,
            LogDatumView::ReadRecursively(path_join(st.trees[k].1, accessed_file(s, access_prefix(st.trees[k].0)).unwrap())),
        ),
        None => match first_flake_hit(st.flakes, s, 0) {
            Some(k) => (
                DevView { flakes: st.flakes, trees: table_insert(st.trees, got_tree(s, st.flakes[k].0).unwrap(), st.flakes[k].1) },
                LogDatumView::Text(s),
            ),
            None => match drv_flake(s) {
                Some((f, d)) => (DevView { flakes: table_insert(st.flakes, f, d), trees: st.trees }, LogDatumView::Text(s)),
                None => (st, LogDatumView::Text(s)),
            },
        },
    }
}

/// A parser that has seen nothing reads no file: files are only traced once a flake and
/// its tree have been seen.
pub proof fn lemma_fresh_parser_reads_no_files(s: Seq<char>)
    ensures
        !(dev_step(DevView { flakes: Seq::empty(), trees: Seq::empty() }, s).1 is ReadRecursively),
        dev_step(DevView { flakes: Seq::empty(), trees: Seq::empty() }, s).0.trees.len() == 0,
{
}

/// The parser never forgets a flake or a tree: every name it knew, it still knows.
pub proof fn lemma_parser_remembers(st: DevView, s: Seq<char>)
    ensures
        forall|i: int| 0 <= i < st.flakes.len() ==> exists|j: int| 0 <= j < dev_step(st, s).0.flakes.len() && #[trigger] dev_step(st, s).0.flakes[j].0 == #[trigger] st.flakes[i].0,
        forall|i: int| 0 <= i < st.trees.len() ==> exists|j: int| 0 <= j < dev_step(st, s).0.trees.len() && #[trigger] dev_step(st, s).0.trees[j].0 == #[trigger] st.trees[i].0,
{
    let next = dev_step(st, s).0;
    assert(forall|i: int| 0 <= i < st.flakes.len() ==> i < next.flakes.len() && next.flakes[i].0 == st.flakes[i].0) by {
        match first_tree_hit(st.trees, s, 0) {
            Some(_) => {},
            None => match first_flake_hit(st.flakes, s, 0) {
                Some(_) => {},
                None => match drv_flake(s) {
                    Some((f, d)) => {
                        lemma_table_insert_keeps(st.flakes, f, d);
                    },
                    None => {},
                },
            },
        }
    }
    assert(forall|i: int| 0 <= i < st.trees.len() ==> i < next.trees.len() && next.trees[i].0 == st.trees[i].0) by {
        match first_tree_hit(st.trees, s, 0) {
            Some(_) => {},
            None => match first_flake_hit(st.flakes, s, 0) {
                Some(k) => {
                    lemma_table_insert_keeps(st.trees, got_tree(s, st.flakes[k].0).unwrap(), st.flakes[k].1);
                },
                None => {},
            },
        }
    }
    assert forall|i: int| 0 <= i < st.flakes.len() implies exists|j: int| 0 <= j < next.flakes.len() && #[trigger] next.flakes[j].0 == #[trigger] st.flakes[i].0 by {
        assert(next.flakes[i].0 == st.flakes[i].0);
    }
    assert forall|i: int| 0 <= i < st.trees.len() implies exists|j: int| 0 <= j < next.trees.len() && #[trigger] next.trees[j].0 == #[trigger] st.trees[i].0 by {
        assert(next.trees[i].0 == st.trees[i].0);
    }
}

/// Inserting into a table keeps the name of every entry at its place.
proof fn lemma_table_insert_keeps(m: DirTable, k: Seq<char>, v: Seq<char>)
    ensures
        table_insert(m, k, v).len() >= m.len(),
        forall|i: int| 0 <= i < m.len() ==> #[trigger] table_insert(m, k, v)[i].0 == m[i].0,
{
    lemma_key_index(m, k, 0);
}

/// The search for a name finds an entry with that name, or nothing.
proof fn lemma_key_index(m: DirTable, k: Seq<char>, i: int)
    requires
        0 <= i <= m.len(),
    ensures
        i <= key_index(m, k, i) <= m.len(),
        key_index(m, k, i) < m.len() ==> m[key_index(m, k, i)].0 == k,
    decreases m.len() - i,
{
    if i < m.len() && m[i].0 != k {
        lemma_key_index(m, k, i + 1);
    }
}

/// The lines the parser can read: the source directory of a newly seen flake must be
/// absolute.
pub open spec fn dev_step_ok(st: DevView, s: Seq<char>) -> bool {
    first_tree_hit(st.trees, s, 0) is None && first_flake_hit(st.flakes, s, 0) is None ==> (drv_flake(s) matches Some(
        fd,
    ) ==> is_absolute(fd.1))
}

/// A parser of the debug output of `nix develop` (see `dev_step`).
#[derive(Debug)]
pub struct NixDevParser {
    flake_rees: Vec<(String, AbsPathBuf)>,
    tree_rees: Vec<(String, AbsPathBuf)>,
}

/// The views of a table.
pub open spec fn table_view(v: Seq<(String, AbsPathBuf)>) -> DirTable {
    v.map_values(|e: (String, AbsPathBuf)| (e.0@, e.1@))
}

impl View for NixDevParser {
    type V = DevView;

    closed spec fn view(&self) -> DevView {
        DevView { flakes: table_view(self.flake_rees@), trees: table_view(self.tree_rees@) }
    }
}

/// Insert `k` standing for `v` into a table (see `table_insert`).
fn insert_entry(m: &mut Vec<(String, AbsPathBuf)>, k: String, v: AbsPathBuf)
    ensures
        table_view(final(m)@) == table_insert(table_view(old(m)@), k@, v@),
{
    let ghost t = table_view(m@);
    let mut i: usize = 0;
    while i < m.len()
        invariant
            t == table_view(m@),
            t == table_view(old(m)@),
            i <= m@.len(),
            key_index(t, k@, 0) == key_index(t, k@, i as int),
        decreases m@.len() - i,
    {
        if crate::path::str_eq(m[i].0.as_str(), k.as_str()) {
            proof {
                assert(t[i as int].0 == k@);
                assert(key_index(t, k@, i as int) == i);
            }
            m.set(i, (k, v));
            proof {
                assert(table_view(m@) =~= t.update(i as int, (k@, v@)));
            }
            return;
        }
        i = i + 1;
    }
    m.push((k, v));
    proof {
        assert(table_view(m@) =~= t.push((k@, v@)));
    }
}

impl NixDevParser {
    /// A parser that has seen nothing yet.
    pub fn new() -> (r: NixDevParser)
        ensures
            r@.flakes.len() == 0,
            r@.trees.len() == 0,
    {
        NixDevParser { flake_rees: Vec::new(), tree_rees: Vec::new() }
    }

    /// The first tree that the line reads a file of, with where the file name is in it.
    fn tree_hit(&self, chars: &Vec<char>) -> (r: Option<(usize, usize, usize)>)
        ensures
            match first_tree_hit(self@.trees, chars@, 0) {
                Some(k) => r matches Some(v) && v.0 == k && v.1 <= v.2 <= chars@.len() && chars@.subrange(v.1 as int, v.2 as int)
                    == accessed_file(chars@, access_prefix(self@.trees[k].0)).unwrap(),
                None => r is None,
            },
            r matches Some(v) ==> v.0 < self.tree_rees@.len(),
    {
        let mut k: usize = 0;
        proof {
            reveal_strlit("checking access to '");
            reveal_strlit("/");
        }
        while k < self.tree_rees.len()
            invariant
                k <= self@.trees.len(),
                self@.trees.len() == self.tree_rees@.len(),
                first_tree_hit(self@.trees, chars@, 0) == first_tree_hit(self@.trees, chars@, k as int),
            decreases self.tree_rees@.len() - k,
        {
            let mut pre = String::from_str("checking access to '");
            pre.append(self.tree_rees[k].0.as_str());
            pre.append("/");
            let pre_chars = chars_of(pre.as_str());
            proof {
                assert(pre_chars@ == access_prefix(self@.trees[k as int].0));
            }
            match find_access(chars, &pre_chars) {
                Some((f0, f1)) => {
                    return Some((k, f0, f1));
                },
                None => {},
            }
            k = k + 1;
        }
        None
    }

    /// The first flake that the line names a tree of, with where the tree is in it.
    fn flake_hit(&self, chars: &Vec<char>) -> (r: Option<(usize, usize, usize)>)
        ensures
            match first_flake_hit(self@.flakes, chars@, 0) {
                Some(k) => r matches Some(v) && v.0 == k && v.1 <= v.2 <= chars@.len() && chars@.subrange(v.1 as int, v.2 as int)
                    == got_tree(chars@, self@.flakes[k].0).unwrap(),
                None => r is None,
            },
            r matches Some(v) ==> v.0 < self.flake_rees@.len(),
    {
        proof {
            reveal_strlit("got tree '");
            reveal_strlit("' from '");
            reveal_strlit("'");
        }
        let prefix = chars_of("got tree '");
        let mut k: usize = 0;
        while k < self.flake_rees.len()
            invariant
                prefix@ == got_tree_prefix(),
                k <= self@.flakes.len(),
                self@.flakes.len() == self.flake_rees@.len(),
                first_flake_hit(self@.flakes, chars@, 0) == first_flake_hit(self@.flakes, chars@, k as int),
            decreases self.flake_rees@.len() - k,
        {
            let mut suf = String::from_str("' from '");
            suf.append(self.flake_rees[k].0.as_str());
            suf.append("'");
            let suf_chars = chars_of(suf.as_str());
            let ghost flake = self@.flakes[k as int].0;
            proof {
                assert(suf_chars@ == from_flake(flake));
            }
            match find_got_tree(chars, &prefix, &suf_chars, Ghost(flake)) {
                Some((t0, t1)) => {
                    return Some((k, t0, t1));
                },
                None => {},
            }
            k = k + 1;
        }
        None
    }

    /// The flake reference and source directory of a derivation line (see `drv_flake`).
    fn drv(chars: &Vec<char>) -> (r: Option<(usize, usize, usize, usize)>)
        ensures
            match drv_flake(chars@) {
                Some((f, d)) => r matches Some(v) && v.0 <= v.1 <= chars@.len() && v.2 <= v.3 <= chars@.len()
                    && chars@.subrange(v.0 as int, v.1 as int) == f && chars@.subrange(v.2 as int, v.3 as int) == d,
                None => r is None,
            },
    {
        proof {
            reveal_strlit("evaluating derivation 'git+file://");
            reveal_strlit("evaluating derivation '");
            reveal_strlit("git+file://");
            reveal_strlit("'...");
            assert("evaluating derivation 'git+file://"@ =~= drv_prefix() + git_file());
        }
        let opening = chars_of("evaluating derivation 'git+file://");
        let prefix_len = "evaluating derivation '".unicode_len();
        let dots_chars = chars_of("'...");
        find_drv_flake(chars, &opening, prefix_len, &dots_chars)
    }

    /// Whether the parser can read `line` (see `dev_step_ok`).
    pub fn accepts(&self, line: &str) -> (r: bool)
        ensures
            r == dev_step_ok(self@, line@),
    {
        let chars = chars_of(line);
        if self.tree_hit(&chars).is_some() || self.flake_hit(&chars).is_some() {
            return true;
        }
        match Self::drv(&chars) {
            Some((_f0, _f1, d0, d1)) => {
                let dir = line.substring_char(d0, d1);
                AbsPathBuf::new(dir.to_string()).is_ok()
            },
            None => true,
        }
    }

    /// Examine a line of output and extract interesting log items in to structured data
    /// (see `dev_step`).
    pub fn parse_str(&mut self, line: &str) -> (r: LogDatum)
        requires
            dev_step_ok(old(self)@, line@),
        ensures
            (final(self)@, r@) == dev_step(old(self)@, line@),
    {
        let chars = chars_of(line);
        if let Some((k, f0, f1)) = self.tree_hit(&chars) {
            let file = line.substring_char(f0, f1);
            let dir = &self.tree_rees[k].1;
            return LogDatum::ReadRecursively(dir.join(file).as_str().to_string());
        }
        if let Some((k, t0, t1)) = self.flake_hit(&chars) {
            let tree = line.substring_char(t0, t1).to_string();
            let dir = self.flake_rees[k].1.clone();
            let ghost st = self@;
            assert(tree@ == got_tree(line@, st.flakes[k as int].0).unwrap());
            assert(dir@ == st.flakes[k as int].1);
            insert_entry(&mut self.tree_rees, tree, dir);
            assert(self@.flakes == st.flakes);
            assert(self@.trees == table_insert(st.trees, got_tree(line@, st.flakes[k as int].0).unwrap(), st.flakes[k as int].1));
            return LogDatum::Text(line.to_string());
        }
        if let Some((f0, f1, d0, d1)) = Self::drv(&chars) {
            let flake = line.substring_char(f0, f1).to_string();
            let dir_text = line.substring_char(d0, d1).to_string();
            match AbsPathBuf::new(dir_text) {
                Ok(dir) => insert_entry(&mut self.flake_rees, flake, dir),
                Err(_) => {},
            }
        }
        LogDatum::Text(line.to_string())
    }

    /// Examine a line of output: a line that is not UTF-8 is passed through as bytes,
    /// the others are read as text (see `parse_str`).
    pub fn parse(&mut self, line: &[u8]) -> (r: LogDatum)
        requires
            valid_utf8(line@) ==> dev_step_ok(old(self)@, decode_utf8(line@)),
        ensures
            !valid_utf8(line@) ==> r@ == LogDatumView::NonUtf(line@) && final(self)@ == old(self)@,
            valid_utf8(line@) ==> (final(self)@, r@) == dev_step(old(self)@, decode_utf8(line@)),
    {
        match string_from_utf8(line) {
            None => LogDatum::NonUtf(vstd::slice::slice_to_vec(line)),
            Some(text) => self.parse_str(text.as_str()),
        }
    }
}

/// The views of a list of texts.
pub open spec fn texts(v: Seq<String>) -> Seq<Seq<char>> {
    v.map_values(|t: String| t@)
}

/// The files a flake's shell is built into, in the temporary directory `tmp`: the exported
/// environment, and the profile.
pub fn develop_files(tmp: &AbsPathBuf) -> (r: (AbsPathBuf, AbsPathBuf))
    ensures
        r.0@ == path_join(tmp@, "bash-export"@),
        r.1@ == path_join(tmp@, "profile"@),
{
    proof {
        reveal_strlit("bash-export");
        reveal_strlit("profile");
    }
    (tmp.join("bash-export"), tmp.join("profile"))
}

/// The arguments of `nix develop` that builds the shell of `installable` into
/// `profile_path` and prints its environment.
pub fn develop_args(profile_path: &str, installable: &str) -> (r: Vec<String>)
    ensures
        texts(r@) == seq!["develop"@, "--debug"@, "--profile"@, profile_path@, installable@, "-c"@, "bash"@, "-c"@, "export"@],
{
    proof {
        reveal_strlit("develop");
        reveal_strlit("--debug");
        reveal_strlit("--profile");
        reveal_strlit("-c");
        reveal_strlit("bash");
        reveal_strlit("export");
    }
    let r = vec![
        String::from_str("develop"),
        String::from_str("--debug"),
        String::from_str("--profile"),
        profile_path.to_string(),
        installable.to_string(),
        String::from_str("-c"),
        String::from_str("bash"),
        String::from_str("-c"),
        String::from_str("export"),
    ];
    proof {
        assert(texts(r@) =~= seq!["develop"@, "--debug"@, "--profile"@, profile_path@, installable@, "-c"@, "bash"@, "-c"@, "export"@]);
    }
    r
}

/// The arguments of `nix store add-file` that adds the exported environment to the store.
pub fn store_add_args(env_path: &str) -> (r: Vec<String>)
    ensures
        texts(r@) == seq!["store"@, "add-file"@, env_path@],
{
    proof {
        reveal_strlit("store");
        reveal_strlit("add-file");
    }
    let r = vec![String::from_str("store"), String::from_str("add-file"), env_path.to_string()];
    proof {
        assert(texts(r@) =~= seq!["store"@, "add-file"@, env_path@]);
    }
    r
}

/// The error when `nix store add-file` names no store path.
pub open spec fn no_store_path_msg() -> Seq<char> {
    "nix store add: no store path reported"@
}

/// The store path that `nix store add-file` reported: the first line of its output.
pub fn first_store_path(paths: Vec<String>) -> (r: Result<String, BuildError>)
    ensures
        paths@.len() > 0 ==> (r matches Ok(p) && p@ == paths@[0]@),
        paths@.len() == 0 ==> (r matches Err(e) && e@ == (BuildErrorView::Output { msg: no_store_path_msg() })),
{
    let mut paths = paths;
    if paths.len() > 0 {
        Ok(paths.remove(0))
    } else {
        proof {
            reveal_strlit("nix store add: no store path reported");
        }
        Err(BuildError::output(String::from_str("nix store add: no store path reported")))
    }
}

/// How many symlinks are followed at most to find where the profile really is.
pub const PROFILE_LINK_HOPS: usize = 9;

/// One step of following the profile's symlinks: the target of the link at `profile_root`,
/// taken relative to the directory the link is in.
pub fn follow_profile_link(profile_root: &AbsPathBuf, target: &str) -> (r: AbsPathBuf)
    requires
        parent_of(profile_root@) is Some,
    ensures
        r@ == path_join(parent_of(profile_root@).unwrap(), target@),
{
    match profile_root.parent() {
        Some(dir) => dir.join(target),
        None => profile_root.join(target),
    }
}

/// Following the symlinks of a flake's profile to the profile itself: at most
/// `PROFILE_LINK_HOPS` links are followed, and the walk stops at the first path that is no
/// symlink. Whether the current path is a link, and where it points, comes from outside.
pub struct ProfileLinks {
    current: AbsPathBuf,
    hops_left: usize,
}

impl ProfileLinks {
    /// The path reached so far.
    pub closed spec fn path(self) -> Seq<char> {
        self.current@
    }

    /// How many more links may be followed.
    pub closed spec fn hops_left(self) -> nat {
        self.hops_left as nat
    }

    /// Start at the profile path, with no link followed yet.
    pub fn new(profile: AbsPathBuf) -> (r: ProfileLinks)
        ensures
            r.path() == profile@,
            r.hops_left() == PROFILE_LINK_HOPS,
    {
        ProfileLinks { current: profile, hops_left: PROFILE_LINK_HOPS }
    }

    /// The path reached so far.
    pub fn current(&self) -> (r: &AbsPathBuf)
        ensures
            r@ == self.path(),
    {
        &self.current
    }

    /// Whether no more links may be followed.
    pub fn exhausted(&self) -> (r: bool)
        ensures
            r == (self.hops_left() == 0),
    {
        self.hops_left == 0
    }

    /// Hand over what the current path links to (`None` when it is no symlink). Returns
    /// whether the walk is over: the path was no link, or the last link that may be followed
    /// was followed. A link is taken relative to the directory the current path is in.
    pub fn follow(&mut self, link: Option<String>) -> (finished: bool)
        requires
            old(self).hops_left() > 0,
            link is Some ==> parent_of(old(self).path()) is Some,
        ensures
            match link {
                None => final(self).path() == old(self).path() && final(self).hops_left() == old(self).hops_left() && finished,
                Some(t) => {
                    &&& final(self).path() == path_join(parent_of(old(self).path()).unwrap(), t@)
                    &&& final(self).hops_left() == old(self).hops_left() - 1
                    &&& finished == (final(self).hops_left() == 0)
                },
            },
    {
        match link {
            None => true,
            Some(t) => {
                self.current = follow_profile_link(&self.current, t.as_str());
                self.hops_left = self.hops_left - 1;
                self.hops_left == 0
            },
        }
    }
}

/// The result of building a flake's shell: the files it read, and the store path of the
/// exported environment, with the profile as another path to root.
pub fn flake_run_result(referenced_paths: Vec<WatchPathBuf>, store_path: String, profile_root: String) -> (r: RunResult)
    ensures
        r.referenced_paths@ == referenced_paths@,
        r.result.path@ == store_path@,
        r.result.flake_profile_path is None,
        texts(r.result.extra_paths@) == seq![profile_root@],
{
    let ghost pr = profile_root@;
    let extra = vec![profile_root];
    proof {
        assert(texts(extra@) =~= seq![pr]);
    }
    RunResult {
        referenced_paths,
        result: RootedPath { path: store_path, flake_profile_path: None, extra_paths: extra },
    }
}

} // verus!
