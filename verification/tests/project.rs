use lorri::builder::RootedPath;
use lorri::path::{AbsPathBuf, NixFile};
use lorri::project::roots::{AddRootError, Roots};
use lorri::project::{
    backlink_update, gc_root_infos, migration_entries, GcDirEntry, list_roots_gc, project_file_from_backlink, projects_of_rows,
    sort_more_recent_last, GcRootInfo, GcRootRow, LinkState, ListRootsMigration, ListRootsSort,
    Project, ProjectFile,
};

fn abs(p: &str) -> AbsPathBuf {
    AbsPathBuf::new(p.to_string()).unwrap()
}

fn shell_project(nix: &str) -> Project {
    Project::new(ProjectFile::ShellNix(NixFile(abs(nix))), &abs("/cache/gc_roots"))
}

#[test]
fn project_directory_is_named_by_the_digest() {
    let p = shell_project("/home/user/project/shell.nix");
    assert_eq!(p.hash(), "7a573f66ddfc25d3d6f1ff06be56e1f4");
    assert_eq!(
        p.project_root_dir().as_str(),
        "/cache/gc_roots/7a573f66ddfc25d3d6f1ff06be56e1f4"
    );
    assert_eq!(
        p.shell_gc_root().as_str(),
        "/cache/gc_roots/7a573f66ddfc25d3d6f1ff06be56e1f4/gc_root/shell_gc_root"
    );
    assert_eq!(
        p.flake_profile_gc_root().as_str(),
        "/cache/gc_roots/7a573f66ddfc25d3d6f1ff06be56e1f4/gc_root/flake_profile"
    );
    assert_eq!(
        p.nix_file_backlink().as_str(),
        "/cache/gc_roots/7a573f66ddfc25d3d6f1ff06be56e1f4/gc_root/nix_file"
    );
    assert_eq!(
        p.root_path().shell_gc_root.display(),
        "/cache/gc_roots/7a573f66ddfc25d3d6f1ff06be56e1f4/gc_root/shell_gc_root"
    );
}

#[test]
fn flake_project_is_named_by_its_flake_nix() {
    let p = Project::new(
        ProjectFile::flake(abs("/home/user/flake"), String::from(".#dev")),
        &abs("/cache"),
    );
    assert_eq!(p.hash(), "d8e978ecd8f7874596af3095abb64b5e");
    assert_eq!(p.project_file.as_absolute_path(), "/home/user/flake/flake.nix");
}

#[test]
fn roots_of_a_build() {
    let p = shell_project("/home/user/project/shell.nix");
    let plain = RootedPath { path: String::from("/nix/store/a-shell"), flake_profile_path: None, extra_paths: vec![] };
    let (store, root) = p.root_target(&plain);
    assert_eq!(store, "/nix/store/a-shell");
    assert_eq!(root.as_str(), p.shell_gc_root().as_str());
    let flake = RootedPath {
        path: String::from("/nix/store/a-shell"),
        flake_profile_path: Some(String::from("/nix/store/b-profile")),
        extra_paths: vec![],
    };
    let (store, root) = p.root_target(&flake);
    assert_eq!(store, "/nix/store/b-profile");
    assert_eq!(root.as_str(), p.flake_profile_gc_root().as_str());
}

#[test]
fn backlink_is_only_touched_when_wrong() {
    assert_eq!(backlink_update(&LinkState::Points(String::from("/a//b/./c")), "/a/b/c"), (false, false));
    assert_eq!(backlink_update(&LinkState::Points(String::from("/a/b")), "/a/b/c"), (true, true));
    assert_eq!(backlink_update(&LinkState::Missing, "/a/b/c"), (false, true));
    assert_eq!(backlink_update(&LinkState::Unreadable, "/a/b/c"), (true, true));
}

#[test]
fn backlinks_name_their_project_files() {
    match project_file_from_backlink(abs("/home/u/f/flake.nix")) {
        ProjectFile::FlakeNix(f) => {
            assert_eq!(f.context.as_str(), "/home/u/f");
            assert_eq!(f.installable, "#.");
        }
        other => panic!("expected a flake, got {:?}", other),
    }
    match project_file_from_backlink(abs("/home/u/p/shell.nix")) {
        ProjectFile::ShellNix(n) => assert_eq!(n.as_absolute_path(), "/home/u/p/shell.nix"),
        other => panic!("expected a shell file, got {:?}", other),
    }
    let m = ListRootsMigration::from_backlink(abs("/home/u/f/flake.nix"), Some(7));
    assert!(m.is_flake);
    assert_eq!(m.nix_file.as_absolute_path(), "/home/u/f/flake.nix");
    assert_eq!(m.timestamp, Some(7));
}

#[test]
fn rows_give_projects_and_skip_unknown_installables() {
    let rows = vec![
        GcRootRow { nix_file: abs("/p/shell.nix"), last_updated: Some(3), is_flake: false, flake_installable: None },
        GcRootRow { nix_file: abs("/f/flake.nix"), last_updated: None, is_flake: true, flake_installable: Some(String::new()) },
        GcRootRow { nix_file: abs("/g/flake.nix"), last_updated: None, is_flake: true, flake_installable: Some(String::from(".#x")) },
    ];
    let projects = projects_of_rows(&rows, &abs("/cache"));
    assert_eq!(projects.len(), 2);
    assert_eq!(projects[0].0, Some(3_000_000_000));
    assert_eq!(projects[0].1.project_file.as_absolute_path(), "/p/shell.nix");
    assert_eq!(projects[1].0, None);
    match &projects[1].1.project_file {
        ProjectFile::FlakeNix(f) => {
            assert_eq!(f.context.as_str(), "/g");
            assert_eq!(f.installable, ".#x");
        }
        other => panic!("expected a flake, got {:?}", other),
    }
}

#[test]
fn roots_sort_with_the_more_recent_last() {
    let entries = vec![
        (Some(20), shell_project("/b/shell.nix"), true),
        (None, shell_project("/z/shell.nix"), false),
        (Some(10), shell_project("/c/shell.nix"), true),
        (Some(20), shell_project("/a/shell.nix"), true),
    ];
    let listed = list_roots_gc(entries, ListRootsSort::MoreRecentLast);
    let order: Vec<String> = listed.iter().map(|(i, _)| i.nix_file.as_str().to_string()).collect();
    assert_eq!(order, vec!["/z/shell.nix", "/c/shell.nix", "/a/shell.nix", "/b/shell.nix"]);
    assert!(!listed[0].0.project_file_exists);
    assert_eq!(listed[0].1.project_file.as_absolute_path(), "/z/shell.nix");

    let unsorted = list_roots_gc(
        vec![(Some(20), shell_project("/b/shell.nix"), true), (Some(10), shell_project("/a/shell.nix"), true)],
        ListRootsSort::NoSorting,
    );
    assert_eq!(unsorted[0].0.nix_file.as_str(), "/b/shell.nix");
    assert_eq!(unsorted[1].0.timestamp, Some(10));
}

#[test]
fn sort_compares_paths_by_components() {
    let infos = gc_root_infos(vec![
        (Some(1), shell_project("/a-b/shell.nix"), true),
        (Some(1), shell_project("/a/b/shell.nix"), true),
    ]);
    let sorted = sort_more_recent_last(infos);
    assert_eq!(sorted[0].0.nix_file.as_str(), "/a/b/shell.nix");
    assert_eq!(sorted[1].0.nix_file.as_str(), "/a-b/shell.nix");
}

#[test]
fn gc_root_info_line() {
    let info = GcRootInfo {
        gc_dir: abs("/cache/x"),
        nix_file: abs("/p/shell.nix"),
        timestamp: Some(0),
        project_file_exists: false,
    };
    assert_eq!(info.format_pretty_oneline(3 * 86_400_000_000_000 + 5), "/cache/x -> /p/shell.nix [gone] (3 days ago)");
    assert_eq!(info.format_pretty_oneline(0), "/cache/x -> /p/shell.nix [gone] (0 days ago)");
    let future = GcRootInfo { timestamp: Some(10), project_file_exists: true, ..info };
    assert_eq!(future.format_pretty_oneline(5), "/cache/x -> /p/shell.nix  (future)");
    let never = GcRootInfo { timestamp: None, ..future };
    assert_eq!(never.format_pretty_oneline(5), "/cache/x -> /p/shell.nix  (sometime in the past)");
}

#[test]
fn roots_paths_and_backlinks() {
    let p = shell_project("/home/user/project/shell.nix");
    let roots = Roots::from_project(&p);
    assert_eq!(
        roots.paths().shell_gc_root.display(),
        "/cache/gc_roots/7a573f66ddfc25d3d6f1ff06be56e1f4/gc_root/shell_gc_root"
    );
    let dir = Roots::user_gcroots(None, "alice");
    assert_eq!(dir, "/nix/var/nix/gcroots/per-user/alice");
    assert_eq!(Roots::user_gcroots(Some(String::from("/state")), "bob"), "/state/gcroots/per-user/bob");
    assert_eq!(
        roots.backlink(&dir),
        "/nix/var/nix/gcroots/per-user/alice/7a573f66ddfc25d3d6f1ff06be56e1f4-shell_gc_root"
    );
}

#[test]
fn add_root_errors() {
    assert!(AddRootError::remove(true, String::from("gone"), "/x").is_ok());
    let e = AddRootError::remove(false, String::from("permission denied"), "/x").unwrap_err();
    assert_eq!(e.message(), "Failed to delete /x: permission denied");
    let e = AddRootError::symlink(String::from("exists"), "/a", "/b");
    assert_eq!(e.message(), "Failed to symlink /a to /b: exists");
    let e = AddRootError::create_dir(String::from("denied"), "/d");
    assert_eq!(e.message(), "Failed to recursively create directory /d: denied");
}

#[test]
fn tied_roots_keep_their_order() {
    let infos = gc_root_infos(vec![
        (Some(5), shell_project("/a/shell.nix"), false),
        (Some(1), shell_project("/z/shell.nix"), true),
        (Some(5), shell_project("/a//shell.nix"), true),
    ]);
    let sorted = sort_more_recent_last(infos);
    assert_eq!(sorted[0].0.nix_file.as_str(), "/z/shell.nix");
    assert!(!sorted[1].0.project_file_exists);
    assert!(sorted[2].0.project_file_exists);
}

#[test]
fn migration_listing_keeps_project_directories() {
    let entries = vec![
        GcDirEntry { is_dir: true, nix_file_link: Some(abs("/home/u/a/shell.nix")), shell_gc_root_modified: Some(5) },
        GcDirEntry { is_dir: false, nix_file_link: Some(abs("/home/u/x/shell.nix")), shell_gc_root_modified: None },
        GcDirEntry { is_dir: true, nix_file_link: None, shell_gc_root_modified: Some(1) },
        GcDirEntry { is_dir: true, nix_file_link: Some(abs("/home/u/b/flake.nix")), shell_gc_root_modified: None },
    ];
    let r = migration_entries(Ok(entries)).unwrap();
    assert_eq!(r.len(), 2);
    assert_eq!(r[0].nix_file.display(), "/home/u/a/shell.nix");
    assert!(!r[0].is_flake);
    assert_eq!(r[0].timestamp, Some(5));
    assert_eq!(r[1].nix_file.display(), "/home/u/b/flake.nix");
    assert!(r[1].is_flake);
    assert_eq!(r[1].timestamp, None);
}

#[test]
fn unreadable_gc_root_directory_is_an_environment_problem() {
    let e = migration_entries(Err(String::from("permission denied"))).err().unwrap();
    assert_eq!(e.exitcode(), 126);
    assert_eq!(e.message(), "Cannot read lorri gc root directory: permission denied");
}

#[test]
fn direnv_script_of_a_project() {
    let p = shell_project("/home/user/project/shell.nix");
    let roots = Roots::from_project(&p);
    let socket = lorri::socket::path::SocketPath::from(abs("/run/user/1000/lorri/daemon.socket"));
    assert_eq!(
        lorri::ops::direnv_script_for(&roots, &socket, "load"),
        "\nEVALUATION_ROOT=\"/cache/gc_roots/7a573f66ddfc25d3d6f1ff06be56e1f4/gc_root/shell_gc_root\"\n\nwatch_file \"/run/user/1000/lorri/daemon.socket\"\nwatch_file \"$EVALUATION_ROOT\"\n\nload\n"
    );
}
