//! Decide which paths to watch for changes, and which file system events are interesting.
//!
//! The file system watcher itself runs outside of this module.

use crate::builder::{has_at, has_prefix};
use crate::project::opt_view;
use crate::path::{chars_of, components, components_of, file_name, find_sep, is_absolute, next_sep, parent, parent_of, path_eq, path_join, path_starts_with, str_eq};
use vstd::prelude::*;

verus! {

/// Represents if a path to watch should be watched recursively by the watcher or not
#[derive(Debug, PartialEq, Eq)]
pub enum WatchPathBuf {
    /// This path should be watched recursively. Equivalent to Normal for non-directory.
    Recursive(String),
    /// This path should not be watched recursively. For directories, only the list of files is
    /// watched.
    Normal(String),
}

/// The content of a `WatchPathBuf`: whether it is recursive, and its path.
impl View for WatchPathBuf {
    type V = (bool, Seq<char>);

    open spec fn view(&self) -> (bool, Seq<char>) {
        match self {
            WatchPathBuf::Recursive(p) => (true, p@),
            WatchPathBuf::Normal(p) => (false, p@),
        }
    }
}

impl WatchPathBuf {
    /// The path to watch.
    pub fn path(&self) -> (r: &str)
        ensures
            r@ == self@.1,
    {
        match self {
            WatchPathBuf::Recursive(path) => path.as_str(),
            WatchPathBuf::Normal(path) => path.as_str(),
        }
    }

    /// Create a new WatchPathBuf of the same variant, but with this path instead.
    pub fn replace(&self, path: String) -> (r: WatchPathBuf)
        ensures
            r@ == (self@.0, path@),
    {
        match self {
            WatchPathBuf::Normal(_) => WatchPathBuf::Normal(path),
            WatchPathBuf::Recursive(_) => WatchPathBuf::Recursive(path),
        }
    }
}

impl Clone for WatchPathBuf {
    fn clone(&self) -> (r: Self)
        ensures
            r@ == self@,
    {
        self.replace(self.path().to_string())
    }
}

/// The components of the nix store directory, whose contents never change.
pub open spec fn nix_store_components() -> Seq<Seq<char>> {
    components("/nix/store"@)
}

/// Whether a path lies inside the nix store.
pub open spec fn in_nix_store(p: Seq<char>) -> bool {
    nix_store_components().is_prefix_of(components(p))
}

/// The directory of the per-user profiles, ending in a separator.
pub open spec fn per_user_prefix() -> Seq<char> {
    "/nix/var/nix/profiles/per-user/"@
}

/// For a path inside the channels of a user (`/nix/var/nix/profiles/per-user/<user>/channels`
/// or below), the user's profile directory `/nix/var/nix/profiles/per-user/<user>/`, whose
/// `channels` symlink changes when the channels are updated.
pub open spec fn channel_root(p: Seq<char>) -> Option<Seq<char>> {
    let pre = per_user_prefix();
    let c = "channels"@;
    if p.len() > pre.len() && p.subrange(0, pre.len() as int) == pre {
        let j = next_sep(p, pre.len() as int);
        if j > pre.len() && j + 1 + c.len() <= p.len() && p.subrange(j + 1, j + 1 + c.len()) == c && (j + 1
            + c.len() == p.len() || p[j + 1 + c.len()] == '/') {
            Some(p.subrange(0, j + 1))
        } else {
            None
        }
    } else {
        None
    }
}

/// What a referenced path reduces to, given where it links to when it is a symlink inside
/// the nix store:
/// paths inside the nix store are immutable and dropped, unless they link to outside the
/// store, when the link's destination is watched instead; a path inside a user's channels is
/// replaced by that user's profile directory; any other path stays.
pub open spec fn reduce_one(w: (bool, Seq<char>), store_link: Option<Seq<char>>) -> Option<(bool, Seq<char>)> {
    if in_nix_store(w.1) {
        match store_link {
            Some(t) => if in_nix_store(t) {
                None
            } else {
                Some((w.0, t))
            },
            None => None,
        }
    } else {
        match channel_root(w.1) {
            Some(r) => Some((false, r)),
            None => Some(w),
        }
    }
}

/// The reduced set of referenced paths, in the order first reached: each path reduced (see
/// `reduce_one`, with `links[i]` the link of `paths[i]`), dropped paths left out, and each
/// result listed once.
pub open spec fn reduced_paths(paths: Seq<(bool, Seq<char>)>, links: Seq<Option<Seq<char>>>) -> Seq<(bool, Seq<char>)>
    decreases paths.len(),
{
    if paths.len() == 0 || links.len() < paths.len() {
        Seq::empty()
    } else {
        let prev = reduced_paths(paths.drop_last(), links.subrange(0, paths.len() - 1));
        match reduce_one(paths.last(), links[paths.len() - 1]) {
            Some(w) => if prev.contains(w) {
                prev
            } else {
                prev.push(w)
            },
            None => prev,
        }
    }
}

/// Reducing keeps what the shorter list reduced to: each path of the reduction of a prefix
/// is in the reduction of the whole list.
proof fn lemma_reduced_grows(paths: Seq<(bool, Seq<char>)>, links: Seq<Option<Seq<char>>>, w: (bool, Seq<char>))
    requires
        links.len() == paths.len(),
        paths.len() > 0,
        reduced_paths(paths.drop_last(), links.subrange(0, paths.len() - 1)).contains(w),
    ensures
        reduced_paths(paths, links).contains(w),
{
    let prev = reduced_paths(paths.drop_last(), links.subrange(0, paths.len() - 1));
    let k = choose|k: int| 0 <= k < prev.len() && prev[k] == w;
    match reduce_one(paths.last(), links[paths.len() - 1]) {
        Some(x) => if !prev.contains(x) {
            assert(prev.push(x)[k] == w);
        },
        None => {},
    }
}

/// The paths a build referenced are all watched after reduction, each as what it stands for:
/// a path inside the nix store that links to outside the store by its link's target, watched
/// the same way (recursively or not) as the referenced path; a path outside the nix store
/// and outside the channels as it is, the same way.
pub proof fn lemma_reduction_keeps_what_to_watch(paths: Seq<(bool, Seq<char>)>, links: Seq<Option<Seq<char>>>, i: int)
    requires
        links.len() == paths.len(),
        0 <= i < paths.len(),
    ensures
        in_nix_store(paths[i].1) && links[i] is Some && !in_nix_store(links[i].unwrap()) ==> reduced_paths(paths, links).contains(
            (paths[i].0, links[i].unwrap()),
        ),
        !in_nix_store(paths[i].1) && channel_root(paths[i].1) is None ==> reduced_paths(paths, links).contains(paths[i]),
    decreases paths.len(),
{
    let n = paths.len() - 1;
    let prev = reduced_paths(paths.drop_last(), links.subrange(0, n));
    if i == n {
        match reduce_one(paths.last(), links[n]) {
            Some(x) => {
                if prev.contains(x) {
                    lemma_reduced_grows(paths, links, x);
                } else {
                    assert(prev.push(x)[prev.len() as int] == x);
                }
            },
            None => {},
        }
    } else {
        assert(paths.drop_last()[i] == paths[i]);
        assert(links.subrange(0, n)[i] == links[i]);
        lemma_reduction_keeps_what_to_watch(paths.drop_last(), links.subrange(0, n), i);
        if in_nix_store(paths[i].1) && links[i] is Some && !in_nix_store(links[i].unwrap()) {
            lemma_reduced_grows(paths, links, (paths[i].0, links[i].unwrap()));
        }
        if !in_nix_store(paths[i].1) && channel_root(paths[i].1) is None {
            lemma_reduced_grows(paths, links, paths[i]);
        }
    }
}

/// Reduction adds nothing of its own: each path it gives is what one of the referenced paths
/// reduces to.
pub proof fn lemma_reduction_comes_from_references(paths: Seq<(bool, Seq<char>)>, links: Seq<Option<Seq<char>>>)
    requires
        links.len() == paths.len(),
    ensures
        forall|w: (bool, Seq<char>)|
            #[trigger] reduced_paths(paths, links).contains(w) ==> exists|i: int|
                0 <= i < paths.len() && reduce_one(paths[i], links[i]) == Some(w),
    decreases paths.len(),
{
    if paths.len() > 0 {
        let n = paths.len() - 1;
        let prev = reduced_paths(paths.drop_last(), links.subrange(0, n));
        lemma_reduction_comes_from_references(paths.drop_last(), links.subrange(0, n));
        assert forall|w: (bool, Seq<char>)| #[trigger] reduced_paths(paths, links).contains(w) implies exists|i: int|
            0 <= i < paths.len() && reduce_one(paths[i], links[i]) == Some(w) by {
            if prev.contains(w) {
                let i = choose|i: int| 0 <= i < paths.drop_last().len() && reduce_one(paths.drop_last()[i], links.subrange(0, n)[i]) == Some(w);
                assert(paths.drop_last()[i] == paths[i]);
                assert(links.subrange(0, n)[i] == links[i]);
            } else {
                let r = reduced_paths(paths, links);
                let k = choose|k: int| 0 <= k < r.len() && r[k] == w;
                match reduce_one(paths.last(), links[n]) {
                    Some(x) => {
                        if prev.contains(x) {
                            assert(r == prev);
                        } else {
                            assert(r == prev.push(x));
                            if k < prev.len() {
                                assert(prev[k] == w);
                            }
                        }
                    },
                    None => {
                        assert(r == prev);
                    },
                }
            }
        }
    }
}

/// The views of a list of paths to watch.
pub open spec fn watch_paths_view(v: Seq<WatchPathBuf>) -> Seq<(bool, Seq<char>)> {
    v.map_values(|w: WatchPathBuf| w@)
}

/// The views of a list of optional texts.
pub open spec fn opt_texts_view(v: Seq<Option<String>>) -> Seq<Option<Seq<char>>> {
    v.map_values(|o: Option<String>| opt_view(o))
}

/// The user's profile directory for a path inside the user's channels (see `channel_root`).
fn find_channel_root(p: &str) -> (r: Option<String>)
    ensures
        match r {
            Some(t) => channel_root(p@) == Some(t@),
            None => channel_root(p@) is None,
        },
{
    proof {
        reveal_strlit("/nix/var/nix/profiles/per-user/");
        reveal_strlit("channels");
    }
    let chars = chars_of(p);
    let pre = chars_of("/nix/var/nix/profiles/per-user/");
    let c = chars_of("channels");
    let n = chars.len();
    if !(n > pre.len() && has_prefix(&chars, &pre)) {
        return None;
    }
    let j = find_sep(&chars, pre.len());
    if j > pre.len() && j < n && n - j - 1 >= c.len() && has_at(&chars, j + 1, &c) && (j + 1 + c.len() == n
        || chars[j + 1 + c.len()] == '/') {
        Some(p.substring_char(0, j + 1).to_string())
    } else {
        None
    }
}

/// Reduce one referenced path (see `reduce_one`).
fn reduce_path(w: &WatchPathBuf, store_link: &Option<String>) -> (r: Option<WatchPathBuf>)
    ensures
        match r {
            Some(x) => reduce_one(w@, opt_view(*store_link)) == Some(x@),
            None => reduce_one(w@, opt_view(*store_link)) is None,
        },
{
    proof {
        reveal_strlit("/nix/store");
    }
    let p = w.path();
    if path_starts_with(p, "/nix/store") {
        match store_link {
            Some(t) => if path_starts_with(t.as_str(), "/nix/store") {
                None
            } else {
                Some(w.replace(t.clone()))
            },
            None => None,
        }
    } else {
        match find_channel_root(p) {
            Some(r) => Some(WatchPathBuf::Normal(r)),
            None => Some(w.clone()),
        }
    }
}

/// Whether `w` is in the list.
fn contains_watch_path(v: &Vec<WatchPathBuf>, w: &WatchPathBuf) -> (r: bool)
    ensures
        r == watch_paths_view(v@).contains(w@),
{
    let mut i: usize = 0;
    while i < v.len()
        invariant
            i <= v@.len(),
            forall|k: int| 0 <= k < i ==> v@[k]@ != w@,
        decreases v@.len() - i,
    {
        let same = match (&v[i], w) {
            (WatchPathBuf::Recursive(a), WatchPathBuf::Recursive(b)) => str_eq(a.as_str(), b.as_str()),
            (WatchPathBuf::Normal(a), WatchPathBuf::Normal(b)) => str_eq(a.as_str(), b.as_str()),
            _ => false,
        };
        if same {
            proof {
                assert(watch_paths_view(v@)[i as int] == w@);
            }
            return true;
        }
        i = i + 1;
    }
    proof {
        if watch_paths_view(v@).contains(w@) {
            let k = choose|k: int| 0 <= k < watch_paths_view(v@).len() && watch_paths_view(v@)[k] == w@;
            assert(v@[k]@ == w@);
        }
    }
    false
}

/// Reduce the paths a build referenced to the few that need watching (see `reduced_paths`),
/// given for each where it links to when it is a symlink inside the nix store.
pub fn reduce_paths(paths: &Vec<WatchPathBuf>, store_links: &Vec<Option<String>>) -> (r: Vec<WatchPathBuf>)
    requires
        store_links@.len() == paths@.len(),
    ensures
        watch_paths_view(r@) == reduced_paths(watch_paths_view(paths@), opt_texts_view(store_links@)),
{
    let ghost all = watch_paths_view(paths@);
    let ghost links = opt_texts_view(store_links@);
    let mut r: Vec<WatchPathBuf> = Vec::new();
    let mut i: usize = 0;
    while i < paths.len()
        invariant
            i <= paths@.len(),
            store_links@.len() == paths@.len(),
            all == watch_paths_view(paths@),
            links == opt_texts_view(store_links@),
            watch_paths_view(r@) == reduced_paths(all.take(i as int), links.take(i as int)),
        decreases paths@.len() - i,
    {
        let red = reduce_path(&paths[i], &store_links[i]);
        proof {
            assert(all.take(i + 1).drop_last() =~= all.take(i as int));
            assert(all.take(i + 1).last() == paths@[i as int]@);
            assert(links.take(i + 1).subrange(0, i as int) =~= links.take(i as int));
        }
        match red {
            Some(w) => {
                if !contains_watch_path(&r, &w) {
                    let ghost before = r@;
                    r.push(w);
                    proof {
                        assert(watch_paths_view(r@) =~= watch_paths_view(before).push(r@[before.len() as int]@));
                    }
                }
            },
            None => {},
        }
        i = i + 1;
    }
    proof {
        assert(all.take(paths@.len() as int) =~= all);
        assert(links.take(paths@.len() as int) =~= links);
    }
    r
}

/// The set of paths currently watched, each one by its components (so that two spellings of
/// the same path count once).
#[derive(Debug)]
pub struct WatchSet {
    paths: Vec<String>,
}

/// What to do to watch a canonical path.
#[derive(Debug, PartialEq, Eq)]
pub struct WatchPlan {
    /// Watch the path itself (it is not watched yet).
    pub watch_path: bool,
    /// Watch this parent directory of the path (it is not in the watched set).
    pub watch_parent: Option<String>,
}

/// The plan for a path, given the watched set: nothing for paths inside the nix store;
/// otherwise the path when it is not watched yet, and its parent when it has one that is not
/// in the set.
pub open spec fn plan_for(watched: Set<Seq<Seq<char>>>, p: Seq<char>) -> (bool, Option<Seq<char>>) {
    if in_nix_store(p) {
        (false, None)
    } else {
        (
            !watched.contains(components(p)),
            match parent_of(p) {
                Some(par) => if watched.contains(components(par)) {
                    None
                } else {
                    Some(par)
                },
                None => None,
            },
        )
    }
}

/// Whether an event about `p` concerns the watched set: `p` itself, or its parent
/// directory, is watched.
pub open spec fn matches_watched(watched: Set<Seq<Seq<char>>>, p: Seq<char>) -> bool {
    watched.contains(components(p)) || (parent_of(p) matches Some(par) && watched.contains(
        components(par),
    ))
}

impl View for WatchSet {
    type V = Set<Seq<Seq<char>>>;

    closed spec fn view(&self) -> Set<Seq<Seq<char>>> {
        Set::new(|c: Seq<Seq<char>>| exists|i: int| 0 <= i < self.paths@.len() && #[trigger] components(self.paths@[i]@) == c)
    }
}

impl WatchSet {
    /// No two entries are the same path, and none lies in the nix store.
    pub closed spec fn wf(self) -> bool {
        &&& forall|i: int, j: int|
            0 <= i < j < self.paths@.len() ==> components(#[trigger] self.paths@[i]@) != components(
                #[trigger] self.paths@[j]@,
            )
        &&& forall|i: int| 0 <= i < self.paths@.len() ==> !in_nix_store(#[trigger] self.paths@[i]@)
    }

    /// The number of distinct paths watched.
    pub closed spec fn len(self) -> nat {
        self.paths@.len()
    }

    /// An empty set.
    pub fn new() -> (r: WatchSet)
        ensures
            r.wf(),
            r@ == Set::<Seq<Seq<char>>>::empty(),
            r.len() == 0,
    {
        let r = WatchSet { paths: Vec::new() };
        proof {
            assert(r@ =~= Set::<Seq<Seq<char>>>::empty());
        }
        r
    }

    /// Whether the path is watched.
    pub fn contains(&self, p: &str) -> (r: bool)
        ensures
            r == self@.contains(components(p@)),
    {
        let mut i: usize = 0;
        while i < self.paths.len()
            invariant
                i <= self.paths@.len(),
                forall|k: int| 0 <= k < i ==> components(self.paths@[k]@) != components(p@),
            decreases self.paths@.len() - i,
        {
            if path_eq(self.paths[i].as_str(), p) {
                proof {
                    assert(components(self.paths@[i as int]@) == components(p@));
                }
                return true;
            }
            i = i + 1;
        }
        false
    }

    /// What to do to watch the canonical path `p` (see `plan_for`).
    pub fn plan(&self, p: &str) -> (r: WatchPlan)
        ensures
            (r.watch_path, match r.watch_parent {
                Some(par) => Some(par@),
                None => None,
            }) == plan_for(self@, p@),
    {
        proof {
            reveal_strlit("/nix/store");
        }
        if path_starts_with(p, "/nix/store") {
            return WatchPlan { watch_path: false, watch_parent: None };
        }
        let watch_path = !self.contains(p);
        let watch_parent = match parent(p) {
            Some(par) => if self.contains(par.as_str()) {
                None
            } else {
                Some(par)
            },
            None => None,
        };
        WatchPlan { watch_path, watch_parent }
    }

    /// Record that the path `p` is now watched.
    pub fn insert(&mut self, p: &str)
        requires
            old(self).wf(),
            !in_nix_store(p@),
        ensures
            final(self).wf(),
            final(self)@ == old(self)@.insert(components(p@)),
            final(self).len() == if old(self)@.contains(components(p@)) {
                old(self).len()
            } else {
                old(self).len() + 1
            },
    {
        if self.contains(p) {
            proof {
                assert(self@ =~= old(self)@.insert(components(p@)));
            }
            return;
        }
        let ghost old_paths = self.paths@;
        self.paths.push(p.to_string());
        proof {
            assert forall|c: Seq<Seq<char>>| #[trigger] self@.contains(c) == old(self)@.insert(components(p@)).contains(c) by {
                if self@.contains(c) {
                    let i = choose|i: int| 0 <= i < self.paths@.len() && #[trigger] components(self.paths@[i]@) == c;
                    if i < old_paths.len() {
                        assert(old_paths[i] == self.paths@[i]);
                    }
                }
                if old(self)@.contains(c) {
                    let i = choose|i: int| 0 <= i < old_paths.len() && #[trigger] components(old_paths[i]@) == c;
                    assert(self.paths@[i] == old_paths[i]);
                }
                if c == components(p@) {
                    assert(components(self.paths@[old_paths.len() as int]@) == c);
                }
            }
            assert(self@ =~= old(self)@.insert(components(p@)));
            assert forall|i: int| 0 <= i < old_paths.len() implies components(old_paths[i]@) != components(p@) by {
                if components(old_paths[i]@) == components(p@) {
                    assert(old(self)@.contains(components(p@)));
                }
            }
        }
    }

    /// Determine if the event path is covered by our list of watched paths: either the
    /// path itself or its parent directory is watched.
    pub fn path_match(&self, event_path: &str) -> (r: bool)
        ensures
            r == matches_watched(self@, event_path@),
    {
        if self.contains(event_path) {
            return true;
        }
        match parent(event_path) {
            Some(par) => self.contains(par.as_str()),
            None => false,
        }
    }
}

/// A path is never watched twice: once recorded, the plan for it no longer watches it.
pub proof fn lemma_watch_no_duplicates(watched: Set<Seq<Seq<char>>>, p: Seq<char>)
    ensures
        !plan_for(watched.insert(components(p)), p).0,
{
}

/// Nothing inside the nix store is ever watched, neither the path nor its parent.
pub proof fn lemma_nix_store_never_watched(watched: Set<Seq<Seq<char>>>, p: Seq<char>)
    requires
        in_nix_store(p),
    ensures
        plan_for(watched, p) == (false, None::<Seq<char>>),
{
}

/// A watched path matches the events about itself.
pub proof fn lemma_watched_path_matches(watched: Set<Seq<Seq<char>>>, p: Seq<char>)
    requires
        watched.contains(components(p)),
    ensures
        matches_watched(watched, p),
{
}

/// The watched set after the canonical path `p` was watched: nothing changes for a path
/// inside the nix store; otherwise the path is added. (Its parent directory is handed to the
/// file watcher too, see `plan_for`, but is not recorded as watched.)
pub open spec fn watch_one(watched: Set<Seq<Seq<char>>>, p: Seq<char>) -> Set<Seq<Seq<char>>> {
    if in_nix_store(p) {
        watched
    } else {
        watched.insert(components(p))
    }
}

/// The watched set after each of `paths` was watched, in order.
pub open spec fn watch_all(watched: Set<Seq<Seq<char>>>, paths: Seq<Seq<char>>) -> Set<Seq<Seq<char>>>
    decreases paths.len(),
{
    if paths.len() == 0 {
        watched
    } else {
        watch_one(watch_all(watched, paths.drop_last()), paths.last())
    }
}

/// Extending the watch list keeps what was watched, and afterwards every new path outside
/// the nix store is watched and matches the events about it; nothing else is added.
pub proof fn lemma_extension_watches(watched: Set<Seq<Seq<char>>>, paths: Seq<Seq<char>>)
    ensures
        watched.subset_of(watch_all(watched, paths)),
        forall|i: int|
            0 <= i < paths.len() && !in_nix_store(#[trigger] paths[i]) ==> watch_all(watched, paths).contains(components(paths[i]))
                && matches_watched(watch_all(watched, paths), paths[i]),
        forall|c: Seq<Seq<char>>|
            #[trigger] watch_all(watched, paths).contains(c) ==> watched.contains(c) || exists|i: int|
                0 <= i < paths.len() && !in_nix_store(#[trigger] paths[i]) && components(paths[i]) == c,
    decreases paths.len(),
{
    if paths.len() > 0 {
        let prev = watch_all(watched, paths.drop_last());
        lemma_extension_watches(watched, paths.drop_last());
        let all = watch_all(watched, paths);
        assert(prev.subset_of(all));
        assert forall|i: int| 0 <= i < paths.len() && !in_nix_store(#[trigger] paths[i]) implies all.contains(components(paths[i]))
            && matches_watched(all, paths[i]) by {
            if i < paths.len() - 1 {
                assert(paths.drop_last()[i] == paths[i]);
                assert(prev.contains(components(paths[i])));
            }
        }
        assert forall|c: Seq<Seq<char>>| #[trigger] all.contains(c) implies watched.contains(c) || exists|i: int|
            0 <= i < paths.len() && !in_nix_store(#[trigger] paths[i]) && components(paths[i]) == c by {
            if prev.contains(c) {
                if !watched.contains(c) {
                    let i = choose|i: int| 0 <= i < paths.drop_last().len() && !in_nix_store(#[trigger] paths.drop_last()[i]) && components(paths.drop_last()[i]) == c;
                    assert(paths[i] == paths.drop_last()[i]);
                }
            } else {
                let n = paths.len() - 1;
                assert(!in_nix_store(paths[n]) && components(paths[n]) == c);
            }
        }
    }
}

/// Watching a path outside the nix store also hands its parent directory to the file
/// watcher, unless that directory is itself a watched path.
pub proof fn lemma_parent_watched(watched: Set<Seq<Seq<char>>>, p: Seq<char>)
    requires
        !in_nix_store(p),
        parent_of(p) is Some,
    ensures
        watched.contains(components(parent_of(p).unwrap())) || plan_for(watched, p).1 == parent_of(p),
{
}

/// The kinds of file system events, as far as the filtering of events tells them apart.
#[derive(Debug, Clone, Copy, PartialEq, Eq)]
pub enum WatchEventKind {
    /// A file was accessed (read, opened, closed without writing).
    Access,
    /// Metadata of a file changed (permissions, times, …).
    ModifyMetadata,
    /// A file was removed.
    Remove,
    /// Any other event (creation, data change, rename, …).
    Other,
}

/// A file system event: its kind and the paths it concerns.
#[derive(Debug)]
pub struct WatchEvent {
    /// What happened
    pub kind: WatchEventKind,
    /// To which paths
    pub paths: Vec<String>,
}

/// The directory tree of the per-user nix profiles, a symlink forest whose metadata nix
/// updates unconditionally.
pub open spec fn profiles_components() -> Seq<Seq<char>> {
    components("/nix/var/nix/profiles/per-user"@)
}

/// Whether the change of path `p` by an event of kind `kind` is interesting: accesses are
/// not, metadata changes inside the per-user profiles are not, and otherwise the path (or its
/// parent) must be watched.
pub open spec fn interesting(watched: Set<Seq<Seq<char>>>, kind: WatchEventKind, p: Seq<char>) -> bool {
    &&& kind != WatchEventKind::Access
    &&& !(kind == WatchEventKind::ModifyMetadata && profiles_components().is_prefix_of(components(p)))
    &&& matches_watched(watched, p)
}

/// The interesting paths of one event, in order.
pub open spec fn interesting_paths_of(watched: Set<Seq<Seq<char>>>, kind: WatchEventKind, paths: Seq<Seq<char>>) -> Seq<Seq<char>> {
    paths.filter(|p: Seq<char>| interesting(watched, kind, p))
}

/// The interesting paths of a list of events, in order.
pub open spec fn interesting_paths(watched: Set<Seq<Seq<char>>>, events: Seq<(WatchEventKind, Seq<Seq<char>>)>) -> Seq<Seq<char>>
    decreases events.len(),
{
    if events.len() == 0 {
        seq![]
    } else {
        interesting_paths(watched, events.drop_last()) + interesting_paths_of(
            watched,
            events.last().0,
            events.last().1,
        )
    }
}

/// The content of a list of events.
pub open spec fn events_view(events: Seq<WatchEvent>) -> Seq<(WatchEventKind, Seq<Seq<char>>)> {
    events.map_values(|e: WatchEvent| (e.kind, e.paths@.map_values(|p: String| p@)))
}

impl WatchSet {
    /// The „interesting“ paths among a batch of file system events, in order
    /// (see `interesting`).
    pub fn process_watch_events(&self, events: &Vec<WatchEvent>) -> (r: Vec<String>)
        ensures
            r@.map_values(|p: String| p@) == interesting_paths(self@, events_view(events@)),
    {
        let ghost ev = events_view(events@);
        let mut r: Vec<String> = Vec::new();
        let mut i: usize = 0;
        while i < events.len()
            invariant
                ev == events_view(events@),
                i <= events@.len(),
                r@.map_values(|p: String| p@) == interesting_paths(self@, ev.take(i as int)),
            decreases events@.len() - i,
        {
            let event = &events[i];
            let ghost before = r@.map_values(|p: String| p@);
            let ghost pv = event.paths@.map_values(|p: String| p@);
            let mut j: usize = 0;
            while j < event.paths.len()
                invariant
                    i < events@.len(),
                    event == &events@[i as int],
                    pv == event.paths@.map_values(|p: String| p@),
                    j <= event.paths@.len(),
                    r@.map_values(|p: String| p@) == before + interesting_paths_of(self@, event.kind, pv.take(j as int)),
                decreases event.paths@.len() - j,
            {
                let path = &event.paths[j];
                let keep = match event.kind {
                    // we only want to pick up changes to files, not access
                    WatchEventKind::Access => false,
                    // We ignore metadata modification events for the profiles directory
                    // tree as it is a symlink forest that is used to keep track of
                    // channels and nix will unconditionally update the metadata of each
                    // link in this forest. These metadata modification events are
                    // spurious and they can easily cause a rebuild-loop when a shell.nix
                    // file does not pin its version of nixpkgs or other channels.
                    WatchEventKind::ModifyMetadata => {
                        proof {
                            reveal_strlit("/nix/var/nix/profiles/per-user");
                        }
                        !path_starts_with(path.as_str(), "/nix/var/nix/profiles/per-user")
                            && self.path_match(path.as_str())
                    },
                    _ => self.path_match(path.as_str()),
                };
                let ghost old_r = r@.map_values(|p: String| p@);
                proof {
                    assert(keep == interesting(self@, event.kind, pv[j as int]));
                    assert(pv.take(j + 1).drop_last() =~= pv.take(j as int));
                    reveal(Seq::filter);
                }
                if keep {
                    r.push(path.clone());
                    proof {
                        assert(r@.map_values(|p: String| p@) =~= old_r.push(pv[j as int]));
                    }
                }
                j = j + 1;
            }
            proof {
                assert(pv.take(pv.len() as int) =~= pv);
                assert(ev.take(i + 1).drop_last() =~= ev.take(i as int));
                assert(ev.take(i + 1).last() == (event.kind, pv));
            }
            i = i + 1;
        }
        proof {
            assert(ev.take(events@.len() as int) =~= ev);
        }
        r
    }
}

/// A change to a watched path (or to an entry of a watched directory) is reported, whatever
/// kind of change it is: a removal, a change of contents or any other change; only accesses,
/// and metadata changes inside the per-user profiles, are left out.
pub proof fn lemma_changes_of_watched_paths_reported(
    watched: Set<Seq<Seq<char>>>,
    kind: WatchEventKind,
    paths: Seq<Seq<char>>,
    i: int,
)
    requires
        0 <= i < paths.len(),
        kind != WatchEventKind::Access,
        kind == WatchEventKind::ModifyMetadata ==> !profiles_components().is_prefix_of(components(paths[i])),
        watched.contains(components(paths[i])) || (parent_of(paths[i]) matches Some(par) && watched.contains(
            components(par),
        )),
    ensures
        interesting_paths_of(watched, kind, paths).contains(paths[i]),
{
    paths.lemma_filter_contains(|p: Seq<char>| interesting(watched, kind, p), i);
}

/// Nothing that is not watched (neither the path nor its directory) is reported, and
/// accesses never are.
pub proof fn lemma_reported_paths_are_watched(watched: Set<Seq<Seq<char>>>, kind: WatchEventKind, paths: Seq<Seq<char>>)
    ensures
        forall|p: Seq<char>| #[trigger] interesting_paths_of(watched, kind, paths).contains(p) ==> paths.contains(p) && kind
            != WatchEventKind::Access && matches_watched(watched, p),
{
    let pred = |p: Seq<char>| interesting(watched, kind, p);
    assert forall|p: Seq<char>| #[trigger] interesting_paths_of(watched, kind, paths).contains(p) implies paths.contains(p) && kind
        != WatchEventKind::Access && matches_watched(watched, p) by {
        paths.lemma_filter_contains_rev(pred, p);
    }
}

/// Over a batch of events, a change (of any kind but an access) to a watched path is among
/// the paths `process_watch_events` reports: in particular removing a watched file is.
pub proof fn lemma_batch_reports_watched_changes(watched: Set<Seq<Seq<char>>>, events: Seq<(WatchEventKind, Seq<Seq<char>>)>, j: int, i: int)
    requires
        0 <= j < events.len(),
        0 <= i < events[j].1.len(),
        events[j].0 != WatchEventKind::Access,
        events[j].0 == WatchEventKind::ModifyMetadata ==> !profiles_components().is_prefix_of(components(events[j].1[i])),
        watched.contains(components(events[j].1[i])),
    ensures
        interesting_paths(watched, events).contains(events[j].1[i]),
    decreases events.len(),
{
    let p = events[j].1[i];
    let prev = events.drop_last();
    if j == events.len() - 1 {
        lemma_changes_of_watched_paths_reported(watched, events[j].0, events[j].1, i);
        let a = interesting_paths(watched, prev);
        let b = interesting_paths_of(watched, events.last().0, events.last().1);
        let k = choose|k: int| 0 <= k < b.len() && b[k] == p;
        assert((a + b)[a.len() + k] == p);
    } else {
        assert(prev[j] == events[j]);
        lemma_batch_reports_watched_changes(watched, prev, j, i);
        let a = interesting_paths(watched, prev);
        let b = interesting_paths_of(watched, events.last().0, events.last().1);
        let k = choose|k: int| 0 <= k < a.len() && a[k] == p;
        assert((a + b)[k] == p);
    }
}

/// A name of a directory entry: non-empty and without separators.
pub open spec fn entry_name(n: Seq<char>) -> bool {
    n.len() > 0 && forall|i: int| 0 <= i < n.len() ==> n[i] != '/'
}

/// `c` is the entry `n` of directory `d`, for some entry name `n`.
pub open spec fn is_child(c: Seq<char>, d: Seq<char>) -> bool {
    exists|n: Seq<char>| entry_name(n) && #[trigger] path_join(d, n) == c
}

/// The path at index `i` is an entry of a path that comes before it.
pub open spec fn child_of_earlier(res: Seq<Seq<char>>, i: int) -> bool {
    exists|j: int| 0 <= j < i && #[trigger] is_child(res[i], res[j])
}

/// Every path after the first is an entry of a path that comes before it.
pub open spec fn topologically_sorted(res: Seq<Seq<char>>) -> bool {
    forall|i: int| 0 < i < res.len() ==> #[trigger] child_of_earlier(res, i)
}

/// Whether `n` is a valid entry name.
pub fn is_entry_name(n: &str) -> (r: bool)
    ensures
        r == entry_name(n@),
{
    let c = crate::path::chars_of(n);
    if c.len() == 0 {
        return false;
    }
    let mut i: usize = 0;
    while i < c.len()
        invariant
            c@ == n@,
            i <= c@.len(),
            forall|k: int| 0 <= k < i ==> n@[k] != '/',
        decreases c@.len() - i,
    {
        if c[i] == '/' {
            return false;
        }
        i = i + 1;
    }
    true
}

/// The listing of all children of a path, in topological order: the path first, then
/// the files of each directory, directories being listed in the order they were found
/// (breadth first). The directory listings come from outside: after each call, list the
/// directory that `next_dir` names and hand its entries to `add_listing`.
pub struct TopoWalk {
    res: Vec<String>,
    work: Vec<String>,
    head: usize,
    current: Option<String>,
    /// For each path in `res` after the first, and each path in `work`, the index in `res`
    /// of the directory it is an entry of.
    parent_idx: Ghost<Seq<int>>,
    work_parent: Ghost<Seq<int>>,
    current_idx: Ghost<int>,
}

impl TopoWalk {
    /// The internal consistency of the walk.
    pub closed spec fn wf(self) -> bool {
        let res = self.res@.map_values(|p: String| p@);
        &&& res.len() > 0
        &&& self.head <= self.work@.len()
        &&& self.parent_idx@.len() == res.len()
        &&& self.work_parent@.len() == self.work@.len()
        &&& forall|i: int| 0 < i < res.len() ==> 0 <= #[trigger] self.parent_idx@[i] < i && is_child(res[i], res[self.parent_idx@[i]])
        &&& forall|k: int| self.head <= k < self.work@.len() ==> 0 <= #[trigger] self.work_parent@[k] < res.len() && is_child(self.work@[k]@, res[self.work_parent@[k]])
        &&& (self.current matches Some(d) ==> 0 <= self.current_idx@ < res.len() && d@ == res[self.current_idx@])
    }

    /// The paths listed so far.
    pub closed spec fn listed(self) -> Seq<Seq<char>> {
        self.res@.map_values(|p: String| p@)
    }

    /// Each path after the first has a directory before it that it is an entry of.
    pub proof fn lemma_parent_before(self, i: int)
        requires
            self.wf(),
            0 < i < self.listed().len(),
        ensures
            child_of_earlier(self.listed(), i),
    {
        let j = self.parent_idx@[i];
        assert(is_child(self.listed()[i], self.listed()[j]));
    }

    /// The directories found but not listed yet, in the order they will be listed.
    pub closed spec fn queued(self) -> Seq<Seq<char>> {
        self.work@.subrange(self.head as int, self.work@.len() as int).map_values(|p: String| p@)
    }

    /// The directory whose listing is awaited, if any.
    pub closed spec fn pending(self) -> Option<Seq<char>> {
        match self.current {
            Some(d) => Some(d@),
            None => None,
        }
    }

    /// Start walking `path`: it comes first; when it is a directory, it is listed next.
    pub fn new(path: String, path_is_dir: bool) -> (r: TopoWalk)
        ensures
            r.wf(),
            r.listed() == seq![path@],
            r.queued() == Seq::<Seq<char>>::empty(),
            r.pending() == if path_is_dir {
                Some(path@)
            } else {
                None
            },
    {
        let current = if path_is_dir {
            Some(path.clone())
        } else {
            None
        };
        let mut res: Vec<String> = Vec::new();
        res.push(path);
        let ghost pi: Seq<int> = seq![0int];
        let ghost wp: Seq<int> = Seq::empty();
        let r = TopoWalk {
            res,
            work: Vec::new(),
            head: 0,
            current,
            parent_idx: Ghost(pi),
            work_parent: Ghost(wp),
            current_idx: Ghost(0int),
        };
        proof {
            assert(r.listed() =~= seq![path@]);
            assert(r.queued() =~= Seq::<Seq<char>>::empty());
        }
        r
    }

    /// The directory to list next, if any.
    pub fn next_dir(&self) -> (r: Option<&str>)
        ensures
            match r {
                Some(d) => self.pending() == Some(d@),
                None => self.pending() is None,
            },
    {
        match &self.current {
            Some(d) => Some(d.as_str()),
            None => None,
        }
    }

    /// Hand over the entries of the pending directory: the names of its subdirectories and
    /// of its other files. The files are listed right away, the subdirectories are queued, and
    /// the next queued directory (if any) is listed and becomes pending.
    pub fn add_listing(&mut self, dirs: Vec<String>, files: Vec<String>)
        requires
            old(self).wf(),
            old(self).pending() is Some,
            forall|k: int| 0 <= k < dirs@.len() ==> entry_name(#[trigger] dirs@[k]@),
            forall|k: int| 0 <= k < files@.len() ==> entry_name(#[trigger] files@[k]@),
        ensures
            final(self).wf(),
            ({
                let d = old(self).pending().unwrap();
                let listed = old(self).listed() + files@.map_values(|f: String| path_join(d, f@));
                let queue = old(self).queued() + dirs@.map_values(|n: String| path_join(d, n@));
                if queue.len() > 0 {
                    &&& final(self).listed() == listed.push(queue[0])
                    &&& final(self).pending() == Some(queue[0])
                    &&& final(self).queued() == queue.drop_first()
                } else {
                    &&& final(self).listed() == listed
                    &&& final(self).pending() is None
                    &&& final(self).queued() == queue
                }
            }),
            final(self).listed().subrange(0, old(self).listed().len() as int) == old(self).listed(),
            topologically_sorted(old(self).listed()) ==> topologically_sorted(final(self).listed()),
    {
        let dir = match &self.current {
            Some(d) => d.clone(),
            None => String::new(),
        };
        let ghost didx = self.current_idx@;
        let ghost old_listed = self.listed();
        proof {
            assert(old_listed + files@.subrange(0, 0).map_values(|f: String| path_join(dir@, f@)) =~= old_listed);
        }
        // plain files
        let mut i: usize = 0;
        while i < files.len()
            invariant
                self.wf(),
                self.current == old(self).current,
                self.current_idx == old(self).current_idx,
                0 <= didx < old_listed.len(),
                dir@ == old_listed[didx],
                i <= files@.len(),
                self.work == old(self).work,
                self.head == old(self).head,
                self.listed() == old_listed + files@.subrange(0, i as int).map_values(|f: String| path_join(dir@, f@)),
                forall|k: int| 0 <= k < files@.len() ==> entry_name(#[trigger] files@[k]@),
                self.listed().len() >= old_listed.len(),
                self.listed().subrange(0, old_listed.len() as int) == old_listed,
                topologically_sorted(old_listed) ==> topologically_sorted(self.listed()),
            decreases files@.len() - i,
        {
            let child = crate::path::join(dir.as_str(), files[i].as_str());
            let ghost before = self.listed();
            proof {
                assert(is_child(child@, before[didx])) by {
                    assert(entry_name(files@[i as int]@));
                }
            }
            self.res.push(child);
            proof {
                self.parent_idx@ = self.parent_idx@.push(didx);
                assert(self.listed() =~= before.push(child@));
                assert(files@.subrange(0, i + 1).map_values(|f: String| path_join(dir@, f@)) =~= files@.subrange(0, i as int).map_values(|f: String| path_join(dir@, f@)).push(child@));
                assert(self.listed().subrange(0, old_listed.len() as int) =~= before.subrange(0, old_listed.len() as int));
                if topologically_sorted(old_listed) {
                    assert forall|k: int| 0 < k < self.listed().len() implies #[trigger] child_of_earlier(self.listed(), k) by {
                        if k < before.len() {
                            assert(child_of_earlier(before, k));
                            let j = choose|j: int| 0 <= j < k && #[trigger] is_child(before[k], before[j]);
                            assert(is_child(self.listed()[k], self.listed()[j]));
                        } else {
                            assert(is_child(self.listed()[k], self.listed()[didx]));
                        }
                    }
                }
            }
            i = i + 1;
        }
        proof {
            assert(files@.subrange(0, files@.len() as int) =~= files@);
            assert(old(self).queued() + dirs@.subrange(0, 0).map_values(|n: String| path_join(dir@, n@)) =~= old(self).queued());
        }
        // queue the directories
        let mut i: usize = 0;
        while i < dirs.len()
            invariant
                self.wf(),
                self.current == old(self).current,
                self.current_idx == old(self).current_idx,
                0 <= didx < self.listed().len(),
                dir@ == self.listed()[didx],
                i <= dirs@.len(),
                self.head == old(self).head,
                self.head <= self.work@.len(),
                self.listed() == old_listed + files@.map_values(|f: String| path_join(dir@, f@)),
                self.queued() == old(self).queued() + dirs@.subrange(0, i as int).map_values(|n: String| path_join(dir@, n@)),
                forall|k: int| 0 <= k < dirs@.len() ==> entry_name(#[trigger] dirs@[k]@),
                self.listed().len() >= old_listed.len(),
                self.listed().subrange(0, old_listed.len() as int) == old_listed,
                topologically_sorted(old_listed) ==> topologically_sorted(self.listed()),
            decreases dirs@.len() - i,
        {
            let child = crate::path::join(dir.as_str(), dirs[i].as_str());
            proof {
                assert(is_child(child@, self.listed()[didx])) by {
                    assert(entry_name(dirs@[i as int]@));
                }
            }
            let ghost qbefore = self.queued();
            self.work.push(child);
            proof {
                self.work_parent@ = self.work_parent@.push(didx);
                assert(self.queued() =~= qbefore.push(child@));
                assert(dirs@.subrange(0, i + 1).map_values(|n: String| path_join(dir@, n@)) =~= dirs@.subrange(0, i as int).map_values(|n: String| path_join(dir@, n@)).push(child@));
            }
            i = i + 1;
        }
        proof {
            assert(dirs@.subrange(0, dirs@.len() as int) =~= dirs@);
        }
        let ghost queue = self.queued();
        // next directory
        if self.head < self.work.len() {
            let next = self.work[self.head].clone();
            let ghost before = self.listed();
            let ghost pidx = self.work_parent@[self.head as int];
            proof {
                assert(is_child(next@, before[pidx]));
            }
            self.res.push(next.clone());
            proof {
                self.parent_idx@ = self.parent_idx@.push(pidx);
                self.current_idx@ = before.len() as int;
                assert(self.listed() =~= before.push(next@));
                assert(self.listed().subrange(0, old_listed.len() as int) =~= before.subrange(0, old_listed.len() as int));
                if topologically_sorted(old_listed) {
                    assert forall|k: int| 0 < k < self.listed().len() implies #[trigger] child_of_earlier(self.listed(), k) by {
                        if k < before.len() {
                            assert(child_of_earlier(before, k));
                            let j = choose|j: int| 0 <= j < k && #[trigger] is_child(before[k], before[j]);
                            assert(is_child(self.listed()[k], self.listed()[j]));
                        } else {
                            assert(is_child(self.listed()[k], self.listed()[pidx]));
                        }
                    }
                }
            }
            self.head = self.head + 1;
            self.current = Some(next);
            proof {
                assert(queue[0] == next@);
                assert(self.queued() =~= queue.drop_first());
            }
        } else {
            self.current = None;
            proof {
                assert(queue.len() == 0);
            }
        }
    }

    /// The listing so far (the whole listing once nothing is pending).
    pub fn into_paths(self) -> (r: Vec<String>)
        ensures
            r@.map_values(|p: String| p@) == self.listed(),
    {
        self.res
    }
}

/// At every step of a walk, the listing is topologically sorted: every path after the first
/// is an entry of a directory listed before it.
pub proof fn lemma_walk_sorted(w: TopoWalk)
    requires
        w.wf(),
    ensures
        topologically_sorted(w.listed()),
        w.listed().len() > 0,
{
    assert forall|i: int| 0 < i < w.listed().len() implies #[trigger] child_of_earlier(w.listed(), i) by {
        w.lemma_parent_before(i);
    }
}

/// A debug message string that can only be displayed via `Debug`.
#[derive(Debug)]
pub struct DebugMessage(pub String);

} // verus!
