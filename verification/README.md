# lorri

lorri is a `nix-shell` replacement: a daemon watches the Nix files of your projects and
rebuilds their environments in the background, and `direnv` loads the latest one.

This crate is the verified core of lorri, written in Verus:

- `build_loop`, `daemon`: the decisions of the build loop of a project and of the daemon
  that runs one loop per project;
- `builder`, `builder::nix_dev`: reading the output of the Nix evaluator for the files a
  project depends on;
- `watch`: which paths are watched, and which file system events matter;
- `project`, `project::roots`, `sqlite`: where the state of a project lives, its gc roots and
  how they are listed, sorted and migrated;
- `proto`, `internal_proto`, `socket`: the messages exchanged with the daemon;
- `ops`, `cli`, `crash`, `error`, `json`: what the command line does, prints and exits with;
- `path`, `text`: paths as text, and numbers as text.

`app/` holds the program around it: argument parsing, the panic hook, reading the gc root
directory and the daemon's socket. It implements `gc`, `info`, `ping` and `stream-events`.
The commands that run Nix or `direnv`, or serve as the daemon (`daemon`, `watch`, `shell`,
`direnv`, `init`, `self-upgrade`, `internal start-user-shell`), are not shipped in this build:
they end with an environment problem that says so. Their decisions are in the library.

The maps and sets that lorri keys by path (the build loops and latest events of the daemon,
the watched paths, the directory tables of the `nix develop` parser) are vectors here, with
the absence of duplicates as their invariant: paths are compared by their components, a
relation the library proves things about, which a hash of the text would not respect.
