//! Unix paths as strings: joining, components, parents and file names.
//!
//! A path is modelled by its text. Two paths are the same path when they have the same
//! components, which is how paths are compared, ordered and matched against each other.

use vstd::prelude::*;

verus! {

/// The path `rel` appended to `base`, as pushing onto a path buffer does it:
/// an absolute `rel` replaces `base`, otherwise a separator is put in between
/// unless `base` is empty or already ends in one.
pub open spec fn path_join(base: Seq<char>, rel: Seq<char>) -> Seq<char> {
    if rel.len() > 0 && rel[0] == '/' {
        rel
    } else if base.len() == 0 || base.last() == '/' {
        base + rel
    } else {
        base + seq!['/'] + rel
    }
}

/// A path is absolute when it starts at the root directory.
pub open spec fn is_absolute(p: Seq<char>) -> bool {
    p.len() > 0 && p[0] == '/'
}

/// Whether the text is non-empty and ends in the given character.
fn ends_with_char(s: &str, c: char) -> (r: bool)
    ensures
        r == (s@.len() > 0 && s@.last() == c),
{
    let n = s.unicode_len();
    if n == 0 {
        false
    } else {
        s.get_char(n - 1) == c
    }
}

/// Whether the text is non-empty and starts with the given character.
fn starts_with_char(s: &str, c: char) -> (r: bool)
    ensures
        r == (s@.len() > 0 && s@[0] == c),
{
    let n = s.unicode_len();
    if n == 0 {
        false
    } else {
        s.get_char(0) == c
    }
}

/// Join `rel` onto `base` (see `path_join`).
pub fn join(base: &str, rel: &str) -> (r: String)
    ensures
        r@ == path_join(base@, rel@),
{
    if starts_with_char(rel, '/') {
        rel.to_string()
    } else if base.unicode_len() == 0 || ends_with_char(base, '/') {
        let mut s = base.to_string();
        s.append(rel);
        s
    } else {
        let mut s = base.to_string();
        s.append("/");
        proof {
            reveal_strlit("/");
        }
        s.append(rel);
        s
    }
}

/// Index of the first separator at or after `i`, or the length of `s` when there is none.
pub open spec fn next_sep(s: Seq<char>, i: int) -> int
    decreases s.len() - i,
{
    if i >= s.len() {
        s.len() as int
    } else if s[i] == '/' {
        i
    } else {
        next_sep(s, i + 1)
    }
}

/// The separator search never goes backwards and never goes past the end.
pub proof fn lemma_next_sep_bounds(s: Seq<char>, i: int)
    requires
        0 <= i <= s.len(),
    ensures
        i <= next_sep(s, i) <= s.len(),
        next_sep(s, i) < s.len() ==> s[next_sep(s, i)] == '/',
        forall|k: int| i <= k < next_sep(s, i) ==> s[k] != '/',
    decreases s.len() - i,
{
    if i < s.len() && s[i] != '/' {
        lemma_next_sep_bounds(s, i + 1);
    }
}

/// Whether the segment `s[a..b]` (between separators) is a component of the path:
/// empty segments are dropped, and so is `.` unless it starts the path.
pub open spec fn kept_segment(s: Seq<char>, a: int, b: int) -> bool {
    b > a && !(b == a + 1 && s[a] == '.' && a != 0)
}

/// The spans of the components in the segments of `s` that start at `i`.
pub open spec fn comp_spans_from(s: Seq<char>, i: int) -> Seq<(int, int)>
    decreases s.len() - i,
{
    if i < 0 || i > s.len() {
        seq![]
    } else {
        let j = next_sep(s, i);
        let here = if kept_segment(s, i, j) {
            seq![(i, j)]
        } else {
            seq![]
        };
        if j >= s.len() {
            here
        } else {
            proof {
                lemma_next_sep_bounds(s, i);
            }
            here + comp_spans_from(s, j + 1)
        }
    }
}

/// The spans of the components of path `s`: the root directory first (when the path is
/// absolute), then every non-empty segment between separators, where `.` counts only as
/// the first segment.
pub open spec fn comp_spans(s: Seq<char>) -> Seq<(int, int)> {
    if is_absolute(s) {
        seq![(0int, 1int)] + comp_spans_from(s, 0)
    } else {
        comp_spans_from(s, 0)
    }
}

/// The components of path `s`, as text: `/` for the root directory, `.` for a leading
/// current directory, `..` for a parent directory and the name otherwise.
pub open spec fn components(s: Seq<char>) -> Seq<Seq<char>> {
    comp_spans(s).map_values(|sp: (int, int)| s.subrange(sp.0, sp.1))
}

/// A component that names a file or directory (not the root, `.` or `..`).
pub open spec fn is_normal(c: Seq<char>) -> bool {
    c != seq!['/'] && c != seq!['.'] && c != seq!['.', '.']
}

/// The last component, when it is a name.
pub open spec fn file_name_of(s: Seq<char>) -> Option<Seq<char>> {
    let c = components(s);
    if c.len() > 0 && is_normal(c.last()) {
        Some(c.last())
    } else {
        None
    }
}

/// The path without its last component: `None` for the root and the empty path,
/// otherwise the text up to the end of the component before the last one.
pub open spec fn parent_of(s: Seq<char>) -> Option<Seq<char>> {
    let sp = comp_spans(s);
    if sp.len() == 0 || components(s).last() == seq!['/'] {
        None
    } else if sp.len() == 1 {
        Some(s.subrange(0, 0))
    } else {
        Some(s.subrange(0, sp[sp.len() - 2].1))
    }
}

/// Every span lies inside the text, in order.
pub open spec fn spans_well_formed(s: Seq<char>, sp: Seq<(int, int)>) -> bool {
    forall|k: int| 0 <= k < sp.len() ==> 0 <= #[trigger] sp[k].0 < sp[k].1 <= s.len()
}

proof fn lemma_comp_spans_from_wf(s: Seq<char>, i: int)
    requires
        0 <= i <= s.len(),
    ensures
        spans_well_formed(s, comp_spans_from(s, i)),
        forall|k: int| 0 <= k < comp_spans_from(s, i).len() ==> i <= #[trigger] comp_spans_from(s, i)[k].0,
    decreases s.len() - i,
{
    lemma_next_sep_bounds(s, i);
    let j = next_sep(s, i);
    if j < s.len() {
        lemma_comp_spans_from_wf(s, j + 1);
    }
}

/// The spans of the components of `s` lie inside `s`.
pub proof fn lemma_comp_spans_wf(s: Seq<char>)
    ensures
        spans_well_formed(s, comp_spans(s)),
{
    lemma_comp_spans_from_wf(s, 0);
}

/// Find the end of the segment that starts at `i`.
pub(crate) fn find_sep(chars: &Vec<char>, i: usize) -> (j: usize)
    requires
        i <= chars@.len(),
    ensures
        j == next_sep(chars@, i as int),
{
    let mut j = i;
    while j < chars.len() && chars[j] != '/'
        invariant
            i <= j <= chars@.len(),
            next_sep(chars@, i as int) == next_sep(chars@, j as int),
        decreases chars@.len() - j,
    {
        j = j + 1;
    }
    j
}

/// The characters of a text, one by one.
pub fn chars_of(s: &str) -> (r: Vec<char>)
    ensures
        r@ == s@,
{
    let n = s.unicode_len();
    let mut r: Vec<char> = Vec::new();
    let mut i: usize = 0;
    while i < n
        invariant
            n == s@.len(),
            i <= n,
            r@ == s@.subrange(0, i as int),
        decreases n - i,
    {
        let c = s.get_char(i);
        r.push(c);
        i = i + 1;
        proof {
            assert(r@ =~= s@.subrange(0, i as int));
        }
    }
    proof {
        assert(r@ =~= s@);
    }
    r
}

/// The spans of the components of `s` (see `comp_spans`).
pub fn component_spans(s: &str) -> (r: Vec<(usize, usize)>)
    ensures
        r@.len() == comp_spans(s@).len(),
        forall|k: int|
            0 <= k < r@.len() ==> (#[trigger] r@[k]).0 as int == comp_spans(s@)[k].0 && r@[k].1 as int
                == comp_spans(s@)[k].1,
{
    let chars = chars_of(s);
    let n = chars.len();
    let mut out: Vec<(usize, usize)> = Vec::new();
    let ghost mut model: Seq<(int, int)> = seq![];
    if n > 0 && chars[0] == '/' {
        out.push((0, 1));
        proof {
            model = seq![(0int, 1int)];
        }
    }
    let mut i: usize = 0;
    loop
        invariant
            chars@ == s@,
            n == s@.len(),
            i <= n,
            comp_spans(s@) == model + comp_spans_from(s@, i as int),
            out@.len() == model.len(),
            forall|k: int|
                0 <= k < out@.len() ==> (#[trigger] out@[k]).0 as int == model[k].0 && out@[k].1 as int
                    == model[k].1,
        decreases n - i,
    {
        let j = find_sep(&chars, i);
        proof {
            lemma_next_sep_bounds(s@, i as int);
        }
        let keep = j > i && !(j == i + 1 && chars[i] == '.' && i != 0);
        let ghost here: Seq<(int, int)> = if keep {
            seq![(i as int, j as int)]
        } else {
            seq![]
        };
        proof {
            assert(keep == kept_segment(s@, i as int, j as int));
        }
        if keep {
            out.push((i, j));
        }
        if j >= n {
            proof {
                assert(comp_spans_from(s@, i as int) == here);
                model = model + here;
            }
            assert(comp_spans(s@) =~= model);
            return out;
        }
        proof {
            assert(comp_spans_from(s@, i as int) == here + comp_spans_from(s@, j + 1));
            assert(model + (here + comp_spans_from(s@, j + 1)) =~= (model + here) + comp_spans_from(
                s@,
                j + 1,
            ));
            model = model + here;
        }
        i = j + 1;
    }
}

/// The components of `s` (see `components`).
pub fn components_of(s: &str) -> (r: Vec<String>)
    ensures
        r@.len() == components(s@).len(),
        forall|k: int| 0 <= k < r@.len() ==> (#[trigger] r@[k])@ == components(s@)[k],
{
    let sp = component_spans(s);
    proof {
        lemma_comp_spans_wf(s@);
    }
    let mut r: Vec<String> = Vec::new();
    let mut k: usize = 0;
    while k < sp.len()
        invariant
            k <= sp@.len(),
            sp@.len() == comp_spans(s@).len(),
            spans_well_formed(s@, comp_spans(s@)),
            forall|m: int|
                0 <= m < sp@.len() ==> (#[trigger] sp@[m]).0 as int == comp_spans(s@)[m].0 && sp@[m].1 as int
                    == comp_spans(s@)[m].1,
            r@.len() == k,
            forall|m: int| 0 <= m < k ==> (#[trigger] r@[m])@ == components(s@)[m],
        decreases sp@.len() - k,
    {
        let (a, b) = sp[k];
        proof {
            assert(sp@[k as int].0 as int == comp_spans(s@)[k as int].0);
        }
        let piece = s.substring_char(a, b);
        r.push(piece.to_string());
        k = k + 1;
    }
    r
}

/// Whether the first `k` components of both paths agree.
fn components_agree(a: &Vec<String>, b: &Vec<String>, k: usize) -> (r: bool)
    requires
        k <= a@.len(),
        k <= b@.len(),
    ensures
        r == (forall|m: int| 0 <= m < k ==> a@[m]@ == b@[m]@),
{
    let mut m: usize = 0;
    while m < k
        invariant
            k <= a@.len(),
            k <= b@.len(),
            m <= k,
            forall|q: int| 0 <= q < m ==> a@[q]@ == b@[q]@,
        decreases k - m,
    {
        if a[m] != b[m] {
            return false;
        }
        m = m + 1;
    }
    true
}

/// Whether two paths are the same path (have the same components).
pub fn path_eq(a: &str, b: &str) -> (r: bool)
    ensures
        r == (components(a@) == components(b@)),
{
    let ca = components_of(a);
    let cb = components_of(b);
    if ca.len() != cb.len() {
        proof {
            assert(components(a@).len() != components(b@).len());
        }
        return false;
    }
    let r = components_agree(&ca, &cb, ca.len());
    proof {
        if r {
            assert forall|m: int| 0 <= m < ca@.len() implies components(a@)[m] == components(b@)[m] by {
                assert(ca@[m]@ == components(a@)[m]);
                assert(cb@[m]@ == components(b@)[m]);
            }
            assert(components(a@) =~= components(b@));
        } else {
            let m = choose|m: int| 0 <= m < ca@.len() && !(ca@[m]@ == cb@[m]@);
            assert(components(a@)[m] != components(b@)[m]);
        }
    }
    r
}

/// Whether `p` lies inside `base` (the components of `base` start those of `p`).
pub fn path_starts_with(p: &str, base: &str) -> (r: bool)
    ensures
        r == components(base@).is_prefix_of(components(p@)),
{
    let cp = components_of(p);
    let cb = components_of(base);
    if cb.len() > cp.len() {
        return false;
    }
    let r = components_agree(&cb, &cp, cb.len());
    proof {
        if r {
            assert forall|m: int| 0 <= m < cb@.len() implies components(base@)[m] == components(p@)[m] by {
                assert(cb@[m]@ == components(base@)[m]);
                assert(cp@[m]@ == components(p@)[m]);
            }
            assert(components(base@) =~= components(p@).subrange(0, components(base@).len() as int));
        } else {
            let m = choose|m: int| 0 <= m < cb@.len() && !(cb@[m]@ == cp@[m]@);
            assert(components(base@)[m] != components(p@).subrange(0, components(base@).len() as int)[m]);
        }
    }
    r
}

/// Whether two texts are equal.
pub fn str_eq(a: &str, b: &str) -> (r: bool)
    ensures
        r == (a@ == b@),
{
    let ca = chars_of(a);
    let cb = chars_of(b);
    if ca.len() != cb.len() {
        return false;
    }
    let mut i: usize = 0;
    while i < ca.len()
        invariant
            ca@ == a@,
            cb@ == b@,
            ca@.len() == cb@.len(),
            i <= ca@.len(),
            forall|k: int| 0 <= k < i ==> a@[k] == b@[k],
        decreases ca@.len() - i,
    {
        if ca[i] != cb[i] {
            return false;
        }
        i = i + 1;
    }
    assert(a@ =~= b@);
    true
}

/// Whether a component names a file or directory.
fn is_normal_component(c: &String) -> (r: bool)
    ensures
        r == is_normal(c@),
{
    proof {
        reveal_strlit("/");
        reveal_strlit(".");
        reveal_strlit("..");
    }
    let a = !str_eq(c.as_str(), "/");
    let b = !str_eq(c.as_str(), ".");
    let d = !str_eq(c.as_str(), "..");
    proof {
        assert("/"@ =~= seq!['/']);
        assert("."@ =~= seq!['.']);
        assert(".."@ =~= seq!['.', '.']);
    }
    a && b && d
}

/// The last component of `s`, when it is a name (see `file_name_of`).
pub fn file_name(s: &str) -> (r: Option<String>)
    ensures
        match r {
            Some(n) => file_name_of(s@) == Some(n@),
            None => file_name_of(s@) is None,
        },
{
    let c = components_of(s);
    let n = c.len();
    if n > 0 && is_normal_component(&c[n - 1]) {
        Some(c[n - 1].clone())
    } else {
        None
    }
}

/// The path without its last component (see `parent_of`).
pub fn parent(s: &str) -> (r: Option<String>)
    ensures
        match r {
            Some(p) => parent_of(s@) == Some(p@),
            None => parent_of(s@) is None,
        },
{
    let sp = component_spans(s);
    let n = sp.len();
    if n == 0 {
        return None;
    }
    let c = components_of(s);
    proof {
        lemma_comp_spans_wf(s@);
        reveal_strlit("/");
        assert("/"@ =~= seq!['/']);
    }
    if str_eq(c[n - 1].as_str(), "/") {
        return None;
    }
    let end = if n == 1 {
        0
    } else {
        sp[n - 2].1
    };
    proof {
        if n > 1 {
            assert(sp@[n - 2].1 as int == comp_spans(s@)[n - 2].1);
        }
    }
    Some(s.substring_char(0, end).to_string())
}

/// Whether text `a` comes before text `b`, comparing from position `i` on: character by
/// character by code point, a text that runs out first coming first.
pub open spec fn chars_lt_at(a: Seq<char>, b: Seq<char>, i: int) -> bool
    decreases a.len() - i,
{
    if i < 0 || i >= a.len() {
        0 <= i < b.len()
    } else if i >= b.len() {
        false
    } else if a[i] != b[i] {
        a[i] < b[i]
    } else {
        chars_lt_at(a, b, i + 1)
    }
}

/// Whether the component list `a` comes before `b`, comparing from position `i` on:
/// component by component, a list that runs out first coming first.
pub open spec fn comps_lt_at(a: Seq<Seq<char>>, b: Seq<Seq<char>>, i: int) -> bool
    decreases a.len() - i,
{
    if i < 0 || i >= a.len() {
        0 <= i < b.len()
    } else if i >= b.len() {
        false
    } else if a[i] != b[i] {
        chars_lt_at(a[i], b[i], 0)
    } else {
        comps_lt_at(a, b, i + 1)
    }
}

/// The order of paths: by their components.
pub open spec fn path_lt(a: Seq<char>, b: Seq<char>) -> bool {
    comps_lt_at(components(a), components(b), 0)
}

/// The order of texts is transitive and asymmetric.
pub proof fn lemma_chars_lt_order(a: Seq<char>, b: Seq<char>, c: Seq<char>, i: int)
    requires
        0 <= i,
    ensures
        chars_lt_at(a, b, i) && chars_lt_at(b, c, i) ==> chars_lt_at(a, c, i),
        chars_lt_at(a, b, i) ==> !chars_lt_at(b, a, i),
    decreases a.len() - i,
{
    if i < a.len() && i < b.len() && i < c.len() {
        lemma_chars_lt_order(a, b, c, i + 1);
    } else if i < a.len() && i < b.len() {
        lemma_chars_lt_order(a, b, c, i + 1);
    }
}

/// The order of component lists is transitive and asymmetric.
pub proof fn lemma_comps_lt_order(a: Seq<Seq<char>>, b: Seq<Seq<char>>, c: Seq<Seq<char>>, i: int)
    requires
        0 <= i,
    ensures
        comps_lt_at(a, b, i) && comps_lt_at(b, c, i) ==> comps_lt_at(a, c, i),
        comps_lt_at(a, b, i) ==> !comps_lt_at(b, a, i),
    decreases a.len() - i,
{
    if i < a.len() && i < b.len() {
        lemma_chars_lt_order(a[i], b[i], c[i], 0);
        lemma_chars_lt_order(b[i], a[i], c[i], 0);
        if i < c.len() {
            lemma_chars_lt_order(a[i], c[i], b[i], 0);
        }
        lemma_comps_lt_order(a, b, c, i + 1);
    }
}

/// Texts that neither come before the other are the same text (from position `i` on).
pub proof fn lemma_chars_lt_total(a: Seq<char>, b: Seq<char>, i: int)
    requires
        0 <= i <= a.len(),
        i <= b.len(),
        !chars_lt_at(a, b, i),
        !chars_lt_at(b, a, i),
    ensures
        a.len() == b.len(),
        forall|k: int| i <= k < a.len() ==> a[k] == b[k],
    decreases a.len() - i,
{
    if i < a.len() && i < b.len() {
        if a[i] == b[i] {
            lemma_chars_lt_total(a, b, i + 1);
        } else {
            assert(a[i] != b[i]);
        }
    }
}

/// Component lists that neither come before the other are the same (from position `i` on).
pub proof fn lemma_comps_lt_total(a: Seq<Seq<char>>, b: Seq<Seq<char>>, i: int)
    requires
        0 <= i <= a.len(),
        i <= b.len(),
        !comps_lt_at(a, b, i),
        !comps_lt_at(b, a, i),
    ensures
        a.len() == b.len(),
        forall|k: int| i <= k < a.len() ==> a[k] == b[k],
    decreases a.len() - i,
{
    if i < a.len() && i < b.len() {
        if a[i] == b[i] {
            lemma_comps_lt_total(a, b, i + 1);
        } else {
            lemma_chars_lt_total(a[i], b[i], 0);
            assert(a[i] =~= b[i]);
        }
    }
}

/// Whether text `a` comes before text `b` (see `chars_lt_at`).
pub fn text_lt(a: &str, b: &str) -> (r: bool)
    ensures
        r == chars_lt_at(a@, b@, 0),
{
    let ca = chars_of(a);
    let cb = chars_of(b);
    let mut i: usize = 0;
    while i < ca.len() && i < cb.len() && ca[i] == cb[i]
        invariant
            ca@ == a@,
            cb@ == b@,
            i <= ca@.len(),
            i <= cb@.len(),
            chars_lt_at(a@, b@, 0) == chars_lt_at(a@, b@, i as int),
        decreases ca@.len() - i,
    {
        i = i + 1;
    }
    if i >= ca.len() {
        i < cb.len()
    } else if i >= cb.len() {
        false
    } else {
        ca[i] < cb[i]
    }
}

/// Whether path `a` comes before path `b` (see `path_lt`).
pub fn path_less(a: &str, b: &str) -> (r: bool)
    ensures
        r == path_lt(a@, b@),
{
    let ca = components_of(a);
    let cb = components_of(b);
    let ghost sa = components(a@);
    let ghost sb = components(b@);
    let mut i: usize = 0;
    while i < ca.len() && i < cb.len() && str_eq(ca[i].as_str(), cb[i].as_str())
        invariant
            ca@.len() == sa.len(),
            cb@.len() == sb.len(),
            forall|k: int| 0 <= k < ca@.len() ==> (#[trigger] ca@[k])@ == sa[k],
            forall|k: int| 0 <= k < cb@.len() ==> (#[trigger] cb@[k])@ == sb[k],
            sa == components(a@),
            sb == components(b@),
            i <= ca@.len(),
            i <= cb@.len(),
            comps_lt_at(sa, sb, 0) == comps_lt_at(sa, sb, i as int),
        decreases ca@.len() - i,
    {
        proof {
            assert(ca@[i as int]@ == sa[i as int]);
            assert(cb@[i as int]@ == sb[i as int]);
        }
        i = i + 1;
    }
    if i >= ca.len() {
        i < cb.len()
    } else if i >= cb.len() {
        false
    } else {
        proof {
            assert(ca@[i as int]@ == sa[i as int]);
            assert(cb@[i as int]@ == sb[i as int]);
        }
        text_lt(ca[i].as_str(), cb[i].as_str())
    }
}

/// An absolute path.
#[derive(Debug)]
pub struct AbsPathBuf {
    path: String,
}

impl View for AbsPathBuf {
    type V = Seq<char>;

    closed spec fn view(&self) -> Seq<char> {
        self.path@
    }
}

impl AbsPathBuf {
    #[verifier::type_invariant]
    spec fn inv(self) -> bool {
        is_absolute(self.path@)
    }

    /// Convert from a path, returning it back when it is not absolute.
    pub fn new(path: String) -> (r: Result<AbsPathBuf, String>)
        ensures
            is_absolute(path@) ==> (r matches Ok(a) && a@ == path@),
            !is_absolute(path@) ==> (r matches Err(p) && p@ == path@),
    {
        if starts_with_char(path.as_str(), '/') {
            Ok(AbsPathBuf { path })
        } else {
            Err(path)
        }
    }

    /// The path as text.
    pub fn as_str(&self) -> (r: &str)
        ensures
            r@ == self@,
            is_absolute(r@),
    {
        proof {
            use_type_invariant(self);
        }
        self.path.as_str()
    }

    /// Append `rel` to this path. The result is absolute again.
    pub fn join(&self, rel: &str) -> (r: AbsPathBuf)
        ensures
            r@ == path_join(self@, rel@),
    {
        proof {
            use_type_invariant(self);
        }
        let p = join(self.path.as_str(), rel);
        proof {
            assert(is_absolute(p@));
        }
        AbsPathBuf { path: p }
    }

    /// The directory this path is in; `None` for the root directory.
    pub fn parent(&self) -> (r: Option<AbsPathBuf>)
        ensures
            match r {
                Some(p) => parent_of(self@) == Some(p@),
                None => parent_of(self@) is None,
            },
    {
        proof {
            use_type_invariant(self);
            lemma_parent_of_absolute(self@);
        }
        match parent(self.path.as_str()) {
            Some(p) => Some(AbsPathBuf { path: p }),
            None => None,
        }
    }
}

/// The parent of an absolute path is absolute, and an absolute path whose last component
/// is a name has a parent.
pub proof fn lemma_parent_of_absolute(s: Seq<char>)
    requires
        is_absolute(s),
    ensures
        parent_of(s) matches Some(p) ==> is_absolute(p),
        file_name_of(s) is Some ==> parent_of(s) is Some,
{
    lemma_comp_spans_wf(s);
    let sp = comp_spans(s);
    assert(sp[0] == (0int, 1int));
    if sp.len() == 1 {
        assert(components(s).last() == s.subrange(0, 1));
        assert(s.subrange(0, 1) =~= seq!['/']);
    }
    if sp.len() >= 2 {
        let e = sp[sp.len() - 2].1;
        assert(0 <= sp[sp.len() - 2].0 < e <= s.len());
        assert(s.subrange(0, e)[0] == '/');
    }
}

impl Clone for AbsPathBuf {
    fn clone(&self) -> (r: Self)
        ensures
            r == *self,
    {
        proof {
            use_type_invariant(self);
        }
        AbsPathBuf { path: self.path.clone() }
    }
}

/// A Nix file, by its absolute path.
#[derive(Debug)]
pub struct NixFile(pub AbsPathBuf);

impl View for NixFile {
    type V = Seq<char>;

    open spec fn view(&self) -> Seq<char> {
        self.0@
    }
}

impl NixFile {
    /// The path of the Nix file.
    pub fn as_absolute_path(&self) -> (r: &str)
        ensures
            r@ == self@,
    {
        self.0.as_str()
    }

    /// `display` the path.
    pub fn display(&self) -> (r: &str)
        ensures
            r@ == self@,
    {
        self.0.as_str()
    }
}

impl Clone for NixFile {
    fn clone(&self) -> (r: Self)
        ensures
            r == *self,
    {
        NixFile(self.0.clone())
    }
}

/// Appending text that starts with a separator leaves the separator search of the prefix
/// as it was.
proof fn lemma_next_sep_append(s: Seq<char>, u: Seq<char>, i: int)
    requires
        0 <= i <= s.len(),
        u.len() > 0,
        u[0] == '/',
    ensures
        next_sep(s + u, i) == next_sep(s, i),
    decreases s.len() - i,
{
    let t = s + u;
    if i < s.len() {
        assert(t[i] == s[i]);
        if s[i] != '/' {
            lemma_next_sep_append(s, u, i + 1);
        }
    } else {
        assert(t[i] == u[0]);
    }
}

/// The spans of a path followed by more path (starting at a separator) are the spans of
/// the path, then those of the rest.
proof fn lemma_spans_append(s: Seq<char>, u: Seq<char>, i: int)
    requires
        0 <= i <= s.len(),
        u.len() > 0,
        u[0] == '/',
    ensures
        comp_spans_from(s + u, i) == comp_spans_from(s, i) + comp_spans_from(s + u, s.len() + 1int),
    decreases s.len() - i,
{
    let t = s + u;
    lemma_next_sep_append(s, u, i);
    lemma_next_sep_bounds(s, i);
    let j = next_sep(s, i);
    if j > i {
        assert(t[i] == s[i]);
    }
    assert(kept_segment(t, i, j) == kept_segment(s, i, j));
    if j < s.len() {
        lemma_spans_append(s, u, j + 1);
        let here: Seq<(int, int)> = if kept_segment(s, i, j) {
            seq![(i, j)]
        } else {
            seq![]
        };
        assert(comp_spans_from(s, i) == here + comp_spans_from(s, j + 1));
        assert(comp_spans_from(t, i) == here + comp_spans_from(t, j + 1));
        assert(here + (comp_spans_from(s, j + 1) + comp_spans_from(t, s.len() + 1int)) =~= (here + comp_spans_from(s, j + 1))
            + comp_spans_from(t, s.len() + 1int));
    }
}

/// Every span ends at a separator or at the end of the path, and holds no separator.
proof fn lemma_span_ends(s: Seq<char>, i: int)
    requires
        0 <= i <= s.len(),
    ensures
        forall|k: int|
            0 <= k < comp_spans_from(s, i).len() ==> {
                let sp = #[trigger] comp_spans_from(s, i)[k];
                &&& (sp.1 == s.len() || (sp.1 < s.len() && s[sp.1] == '/'))
                &&& forall|c: int| sp.0 <= c < sp.1 ==> s[c] != '/'
            },
    decreases s.len() - i,
{
    lemma_next_sep_bounds(s, i);
    let j = next_sep(s, i);
    if j < s.len() {
        lemma_span_ends(s, j + 1);
        let here: Seq<(int, int)> = if kept_segment(s, i, j) {
            seq![(i, j)]
        } else {
            seq![]
        };
        let rest = comp_spans_from(s, j + 1);
        assert(comp_spans_from(s, i) == here + rest);
        assert forall|k: int| 0 <= k < comp_spans_from(s, i).len() implies {
            let sp = #[trigger] comp_spans_from(s, i)[k];
            &&& (sp.1 == s.len() || (sp.1 < s.len() && s[sp.1] == '/'))
            &&& forall|c: int| sp.0 <= c < sp.1 ==> s[c] != '/'
        } by {
            if k >= here.len() {
                assert(comp_spans_from(s, i)[k] == rest[k - here.len()]);
            }
        }
    }
}

/// Spans come in order: each ends before (or where) the later ones start.
proof fn lemma_spans_ordered(s: Seq<char>, i: int)
    requires
        0 <= i <= s.len(),
    ensures
        forall|a: int, b: int|
            0 <= a < b < comp_spans_from(s, i).len() ==> (#[trigger] comp_spans_from(s, i)[a]).1 <= (#[trigger] comp_spans_from(
                s,
                i,
            )[b]).0,
    decreases s.len() - i,
{
    lemma_next_sep_bounds(s, i);
    let j = next_sep(s, i);
    if j < s.len() {
        lemma_spans_ordered(s, j + 1);
        lemma_comp_spans_from_wf(s, j + 1);
        let here: Seq<(int, int)> = if kept_segment(s, i, j) {
            seq![(i, j)]
        } else {
            seq![]
        };
        let rest = comp_spans_from(s, j + 1);
        assert(comp_spans_from(s, i) == here + rest);
        assert forall|a: int, b: int| 0 <= a < b < comp_spans_from(s, i).len() implies (#[trigger] comp_spans_from(s, i)[a]).1
            <= (#[trigger] comp_spans_from(s, i)[b]).0 by {
            let h = here.len() as int;
            if a >= h {
                assert(comp_spans_from(s, i)[a] == rest[a - h]);
                assert(comp_spans_from(s, i)[b] == rest[b - h]);
            } else {
                assert(comp_spans_from(s, i)[a] == (i, j));
                assert(comp_spans_from(s, i)[b] == rest[b - h]);
                assert(j + 1 <= rest[b - h].0);
            }
        }
    }
}

/// With no separator from `i` on, the separator search runs to the end.
proof fn lemma_next_sep_none(s: Seq<char>, i: int)
    requires
        0 <= i <= s.len(),
        forall|k: int| i <= k < s.len() ==> s[k] != '/',
    ensures
        next_sep(s, i) == s.len(),
    decreases s.len() - i,
{
    if i < s.len() {
        lemma_next_sep_none(s, i + 1);
    }
}

/// A file name: a nonempty component that is not `.` and holds no separator.
pub open spec fn plain_name(n: Seq<char>) -> bool {
    n.len() > 0 && n != seq!['.'] && forall|k: int| 0 <= k < n.len() ==> n[k] != '/'
}

/// The parent of a directory joined with a file name is the directory again, when the
/// directory ends in a component (or is the root).
proof fn lemma_parent_of_join(d: Seq<char>, n: Seq<char>)
    requires
        is_absolute(d),
        plain_name(n),
        d == seq!['/'] || (d.last() != '/' && comp_spans(d).last().1 == d.len()),
    ensures
        parent_of(path_join(d, n)) == Some(d),
{
    lemma_comp_spans_wf(d);
    if d == seq!['/'] {
        let t = d + n;
        assert(path_join(d, n) == t);
        assert(t[0] == '/');
        assert forall|k: int| 1 <= k < t.len() implies t[k] != '/' by {
            assert(t[k] == n[k - 1]);
        }
        lemma_next_sep_none(t, 1);
        assert(next_sep(t, 0) == 0);
        if n.len() == 1 {
            assert(n =~= seq![n[0]]);
        }
        assert(t[1] == n[0]);
        assert(kept_segment(t, 1, t.len() as int));
        assert(comp_spans_from(t, 1) == seq![(1int, t.len() as int)]);
        assert(comp_spans_from(t, 0) == comp_spans_from(t, 1));
        let sp = comp_spans(t);
        assert(sp =~= seq![(0int, 1int), (1int, t.len() as int)]);
        assert(components(t).last() == t.subrange(1, t.len() as int));
        assert(t.subrange(1, t.len() as int) =~= n);
        assert(n[0] != '/');
        assert(t.subrange(0, 1) =~= d);
    } else {
        let u = seq!['/'] + n;
        let t = d + u;
        assert(path_join(d, n) =~= t);
        lemma_spans_append(d, u, 0);
        let k0: int = d.len() + 1int;
        assert forall|k: int| k0 <= k < t.len() implies t[k] != '/' by {
            assert(t[k] == n[k - k0]);
        }
        lemma_next_sep_none(t, k0);
        assert(t[k0] == n[0]);
        if n.len() == 1 {
            assert(n =~= seq![n[0]]);
        }
        assert(kept_segment(t, k0, t.len() as int));
        assert(comp_spans_from(t, k0) == seq![(k0, t.len() as int)]);
        let sd = comp_spans(d);
        let sp = comp_spans(t);
        assert(t[0] == '/');
        assert(sp =~= sd + seq![(k0, t.len() as int)]);
        assert(sd.len() >= 1);
        assert(sp[sp.len() - 2] == sd.last());
        assert(components(t).last() == t.subrange(k0, t.len() as int));
        assert(t.subrange(k0, t.len() as int) =~= n);
        assert(n[0] != '/');
        assert(n != seq!['/']);
        assert(t.subrange(0, d.len() as int) =~= d);
    }
}

/// The parent of an absolute path that ends in a name is the root, or ends in a
/// component of its own.
proof fn lemma_parent_shape(link: Seq<char>)
    requires
        is_absolute(link),
        file_name_of(link) is Some,
    ensures
        ({
            let d = parent_of(link).unwrap();
            &&& is_absolute(d)
            &&& (d == seq!['/'] || (d.last() != '/' && comp_spans(d).last().1 == d.len()))
        }),
{
    lemma_parent_of_absolute(link);
    lemma_comp_spans_wf(link);
    let sp = comp_spans(link);
    let l = sp.len() as int;
    let d = parent_of(link).unwrap();
    if l == 1 {
        assert(components(link).last() == link.subrange(0, 1));
        assert(link.subrange(0, 1) =~= seq!['/']);
    }
    assert(l >= 2);
    if l == 2 {
        assert(sp[0] == (0int, 1int));
        assert(d =~= link.subrange(0, 1));
        assert(d =~= seq!['/']);
    } else {
        let e = sp[l - 2].1;
        let inner = comp_spans_from(link, 0);
        assert(sp == seq![(0int, 1int)] + inner);
        lemma_span_ends(link, 0);
        lemma_spans_ordered(link, 0);
        assert(sp[l - 2] == inner[l - 3]);
        assert(sp[l - 1] == inner[l - 2]);
        assert(inner[l - 3].1 <= inner[l - 2].0);
        assert(0 <= sp[l - 1].0 < sp[l - 1].1 <= link.len());
        assert(e < link.len());
        assert(link[e] == '/');
        assert(0 <= sp[l - 2].0 < e);
        assert(d =~= link.subrange(0, e));
        let u = link.subrange(e, link.len() as int);
        assert(link =~= d + u);
        lemma_spans_append(d, u, 0);
        lemma_comp_spans_from_wf(link, e + 1);
        lemma_comp_spans_from_wf(d, 0);
        let p = comp_spans_from(d, 0);
        let rest = comp_spans_from(link, e + 1);
        assert(inner == p + rest);
        // the span that ends at `e` is the last one of the parent
        if l - 3 >= p.len() {
            assert(inner[l - 3] == rest[l - 3 - p.len()]);
            assert(false);
        }
        if l - 2 < p.len() {
            assert(inner[l - 2] == p[l - 2]);
            assert(p[l - 2].1 <= d.len());
            assert(false);
        }
        assert(p.len() == l - 2);
        assert(d[0] == '/');
        assert(comp_spans(d) == seq![(0int, 1int)] + p);
        assert(comp_spans(d).last() == p[l - 3]);
        assert(p[l - 3] == inner[l - 3]);
        assert(d.last() == link[e - 1]);
        assert(link[e - 1] != '/');
    }
}

/// A path that names a file in the directory of another such path, joined back to that
/// directory, has that directory as its parent: the parent of `dir/name` is `dir`, for the
/// directory of an absolute path that ends in a name.
pub proof fn lemma_parent_of_sibling(link: Seq<char>, n: Seq<char>)
    requires
        is_absolute(link),
        file_name_of(link) is Some,
        plain_name(n),
    ensures
        parent_of(path_join(parent_of(link).unwrap(), n)) == parent_of(link),
{
    lemma_parent_shape(link);
    lemma_parent_of_join(parent_of(link).unwrap(), n);
}

} // verus!
