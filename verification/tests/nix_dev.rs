use lorri::builder::nix_dev::{
    develop_args, develop_files, first_store_path, flake_run_result, follow_profile_link,
    store_add_args, NixDevParser, ProfileLinks,
};
use lorri::builder::{instantiate_args, single_build_product, start_failure, BuildError, LogDatum};
use lorri::path::AbsPathBuf;
use lorri::watch::WatchPathBuf;

#[test]
fn flake_files_are_traced_to_the_source() {
    let mut p = NixDevParser::new();
    let drv = "evaluating derivation 'git+file:///home/judson/dev/picklist#devShells.x86_64-linux.default'...";
    assert!(p.accepts(drv));
    assert_eq!(p.parse_str(drv), LogDatum::Text(drv.to_string()));
    let tree = "got tree '/nix/store/47b9j9bnhi1n7larnn6wy40xcyfbz9mr-source' from 'git+file:///home/judson/dev/picklist'";
    assert_eq!(p.parse_str(tree), LogDatum::Text(tree.to_string()));
    let access = "checking access to '/nix/store/47b9j9bnhi1n7larnn6wy40xcyfbz9mr-source/flake.nix'";
    assert_eq!(
        p.parse_str(access),
        LogDatum::ReadRecursively(String::from("/home/judson/dev/picklist/flake.nix"))
    );
    let other = "checking access to '/nix/store/other-source/flake.nix'";
    assert_eq!(p.parse_str(other), LogDatum::Text(other.to_string()));
}

#[test]
fn flake_references_with_queries() {
    let mut p = NixDevParser::new();
    let drv = "evaluating derivation 'git+file:///src/proj?ref=main#devShells.x.default'...";
    p.parse_str(drv);
    let tree = "got tree '/nix/store/abc-source' from 'git+file:///src/proj?ref=main'";
    p.parse_str(tree);
    assert_eq!(
        p.parse_str("checking access to '/nix/store/abc-source/lib/a.nix'"),
        LogDatum::ReadRecursively(String::from("/src/proj/lib/a.nix"))
    );
    // a tree line of an unknown flake is just text
    let mut q = NixDevParser::new();
    assert_eq!(q.parse_str(tree), LogDatum::Text(tree.to_string()));
    assert_eq!(
        q.parse_str("checking access to '/nix/store/abc-source/lib/a.nix'"),
        LogDatum::Text(String::from("checking access to '/nix/store/abc-source/lib/a.nix'"))
    );
}

#[test]
fn relative_flake_directories_are_refused() {
    let p = NixDevParser::new();
    assert!(!p.accepts("evaluating derivation 'git+file://relative/dir#x'..."));
    assert!(p.accepts("evaluating derivation 'path:/abs#x'..."));
    let mut p = NixDevParser::new();
    assert_eq!(p.parse(&[0xff, 0xfe]), LogDatum::NonUtf(vec![0xff, 0xfe]));
}

#[test]
fn flake_build_steps() {
    let tmp = AbsPathBuf::new(String::from("/tmp/x")).unwrap();
    let (env, profile) = develop_files(&tmp);
    assert_eq!(env.as_str(), "/tmp/x/bash-export");
    assert_eq!(profile.as_str(), "/tmp/x/profile");
    assert_eq!(
        develop_args("/tmp/x/profile", ".#dev"),
        vec!["develop", "--debug", "--profile", "/tmp/x/profile", ".#dev", "-c", "bash", "-c", "export"]
    );
    assert_eq!(store_add_args("/tmp/x/bash-export"), vec!["store", "add-file", "/tmp/x/bash-export"]);
    assert_eq!(
        first_store_path(vec![String::from("/nix/store/a"), String::from("/nix/store/b")]).unwrap(),
        "/nix/store/a"
    );
    match first_store_path(vec![]) {
        Err(BuildError::Output { msg }) => assert_eq!(msg, "nix store add: no store path reported"),
        other => panic!("unexpected {:?}", other),
    }
    let link = AbsPathBuf::new(String::from("/tmp/x/profile")).unwrap();
    assert_eq!(follow_profile_link(&link, "profile-1-link").as_str(), "/tmp/x/profile-1-link");
    assert_eq!(follow_profile_link(&link, "/nix/store/p").as_str(), "/nix/store/p");
    let r = flake_run_result(vec![WatchPathBuf::Normal(String::from("/a"))], String::from("/nix/store/env"), String::from("/nix/store/p"));
    assert_eq!(r.result.path, "/nix/store/env");
    assert_eq!(r.result.extra_paths, vec![String::from("/nix/store/p")]);
}

#[test]
fn instantiation_steps() {
    assert_eq!(
        instantiate_args(&vec![String::from("--option"), String::from("builders"), String::from("")], "/tmp/r/result", "/nix/store/closure", "/p/shell.nix", "/cas/logged.nix"),
        vec![
            "-vv", "--option", "builders", "", "--add-root", "/tmp/r/result", "--indirect", "--argstr",
            "runTimeClosure", "/nix/store/closure", "--argstr", "src", "/p/shell.nix", "--", "/cas/logged.nix"
        ]
    );
    assert!(matches!(start_failure(true, String::from("nix"), String::from("nf")), BuildError::Spawn { .. }));
    assert!(matches!(start_failure(false, String::from("nix"), String::from("io")), BuildError::Io { .. }));
    assert_eq!(single_build_product(vec![String::from("/nix/store/x.drv")]), "/nix/store/x.drv");
}

#[test]
fn profile_links_are_followed_at_most_nine_times() {
    let start = lorri::path::AbsPathBuf::new(String::from("/p/.lorri/profile")).unwrap();
    let mut walk = ProfileLinks::new(start);
    assert!(!walk.follow(Some(String::from("profile-2-link"))));
    assert_eq!(walk.current().as_str(), "/p/.lorri/profile-2-link");
    assert!(walk.follow(None));
    assert_eq!(walk.current().as_str(), "/p/.lorri/profile-2-link");

    let mut walk = ProfileLinks::new(lorri::path::AbsPathBuf::new(String::from("/p/l0")).unwrap());
    let mut hops = 0;
    loop {
        hops += 1;
        if walk.follow(Some(format!("l{}", hops))) {
            break;
        }
    }
    assert_eq!(hops, 9);
    assert!(walk.exhausted());
    assert_eq!(walk.current().as_str(), "/p/l9");
}
