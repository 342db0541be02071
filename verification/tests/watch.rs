use lorri::watch::{TopoWalk, WatchEvent, WatchEventKind, WatchPathBuf, WatchSet};
use std::path::{Path, PathBuf};

/// A file tree in memory: the directories, and the files of each directory.
struct Tree {
    dirs: Vec<PathBuf>,
    files: Vec<PathBuf>,
}

impl Tree {
    /// The tree under `root` with these (directory, file) pairs, directories made as needed.
    fn new(root: &Path, files: &[(&str, &str)]) -> Tree {
        let mut tree = Tree { dirs: vec![root.to_path_buf()], files: vec![] };
        for (dir, file) in files {
            let mut d = root.to_path_buf();
            for part in dir.split('/') {
                d = d.join(part);
                if !tree.dirs.contains(&d) {
                    tree.dirs.push(d.clone());
                }
            }
            tree.files.push(d.join(file));
        }
        tree
    }

    fn is_dir(&self, p: &Path) -> bool {
        self.dirs.iter().any(|d| d == p)
    }

    /// The names of the subdirectories and of the files of a directory, sorted.
    fn list(&self, dir: &Path) -> (Vec<String>, Vec<String>) {
        let name = |p: &PathBuf| p.file_name().unwrap().to_str().unwrap().to_string();
        let mut dirs: Vec<String> = self.dirs.iter().filter(|d| d.parent() == Some(dir)).map(name).collect();
        let mut files: Vec<String> = self.files.iter().filter(|f| f.parent() == Some(dir)).map(name).collect();
        dirs.sort();
        files.sort();
        (dirs, files)
    }
}

/// Walk a tree with the library's walk, listing each directory the walk asks for.
fn walk_path_topo(tree: &Tree, path: &Path) -> Vec<PathBuf> {
    let mut walk = TopoWalk::new(path.to_str().unwrap().to_string(), tree.is_dir(path));
    while let Some(dir) = walk.next_dir().map(|d| d.to_string()) {
        let (dirs, files) = tree.list(Path::new(&dir));
        walk.add_listing(dirs, files);
    }
    walk.into_paths().into_iter().map(PathBuf::from).collect()
}

#[test]
fn walk_path_topo_filetree() {
    let t = Path::new("/tmp/walk_path_topo_filetree");
    let files = vec![("a", "b"), ("a", "c"), ("a/d", "e"), ("x/y", "z")];
    let tree = Tree::new(t, &files);

    let res = walk_path_topo(&tree, t);

    // check that the list is topolocially sorted
    // by making sure *no* later path is a prefix of a previous path.
    let mut inv = res.clone();
    inv.reverse();
    for i in 0..inv.len() {
        for predecessor in inv.iter().skip(i + 1) {
            assert!(
                !predecessor.starts_with(&inv[i]),
                "{:?} is a prefix of {:?}, even though it comes later in list, thus topological order is not given!\nFull list: {:#?}",
                inv[i],
                predecessor,
                res
            )
        }
    }

    // make sure the resulting list contains the same
    // paths as the expected list.
    let mut res2 = res.clone();
    res2.sort();
    let mut all_paths = [
        "", "a", // direct files come before nested directories
        "a/b", "a/c", "x", "a/d", "a/d/e", "x/y", "x/y/z",
    ]
    .iter()
    .map(|p| t.join(p))
    .collect::<Vec<_>>();
    all_paths.sort();
    assert_eq!(res2, all_paths);
}

#[test]
fn topo_walk_of_a_file_is_the_file() {
    let walk = TopoWalk::new(String::from("/a/file"), false);
    assert_eq!(walk.next_dir(), None);
    assert_eq!(walk.into_paths(), vec![String::from("/a/file")]);
}

#[test]
fn topo_walk_lists_files_before_subdirectories() {
    let mut walk = TopoWalk::new(String::from("/r"), true);
    assert_eq!(walk.next_dir(), Some("/r"));
    walk.add_listing(vec![String::from("d")], vec![String::from("f")]);
    assert_eq!(walk.next_dir(), Some("/r/d"));
    walk.add_listing(vec![], vec![String::from("g")]);
    assert_eq!(walk.next_dir(), None);
    assert_eq!(
        walk.into_paths(),
        vec![String::from("/r"), String::from("/r/f"), String::from("/r/d"), String::from("/r/d/g")]
    );
}

#[test]
fn watch_set_plans_and_matches() {
    let mut set = WatchSet::new();
    let plan = set.plan("/home/u/p/shell.nix");
    assert!(plan.watch_path);
    assert_eq!(plan.watch_parent, Some(String::from("/home/u/p")));
    set.insert("/home/u/p/shell.nix");
    set.insert("/home/u/p");
    set.insert("/home/u/p/");
    assert!(set.contains("/home/u/p"));
    assert!(set.contains("/home/u//p/./shell.nix"));
    let plan = set.plan("/home/u/p/shell.nix");
    assert!(!plan.watch_path);
    assert_eq!(plan.watch_parent, None);
    let store = set.plan("/nix/store/abc-source/default.nix");
    assert!(!store.watch_path);
    assert_eq!(store.watch_parent, None);
    assert!(set.path_match("/home/u/p/other.nix"));
    assert!(!set.path_match("/home/v/other.nix"));
}

#[test]
fn only_interesting_events_are_reported() {
    let mut set = WatchSet::new();
    set.insert("/home/u/p/shell.nix");
    set.insert("/nix/var/nix/profiles/per-user/u");
    let events = vec![
        WatchEvent { kind: WatchEventKind::Access, paths: vec![String::from("/home/u/p/shell.nix")] },
        WatchEvent { kind: WatchEventKind::Other, paths: vec![String::from("/home/u/p/shell.nix")] },
        WatchEvent { kind: WatchEventKind::Other, paths: vec![String::from("/elsewhere/x")] },
        WatchEvent {
            kind: WatchEventKind::ModifyMetadata,
            paths: vec![String::from("/nix/var/nix/profiles/per-user/u/profile")],
        },
    ];
    assert_eq!(set.process_watch_events(&events), vec![String::from("/home/u/p/shell.nix")]);
}

#[test]
fn watch_path_replace_keeps_kind() {
    let w = WatchPathBuf::Recursive(String::from("/a"));
    assert_eq!(w.replace(String::from("/b")), WatchPathBuf::Recursive(String::from("/b")));
    assert_eq!(WatchPathBuf::Normal(String::from("/c")).path(), "/c");
}
