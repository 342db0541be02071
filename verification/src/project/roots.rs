//! Handling of nix GC roots.
//!
//! A lorri root is an *indirect gc root*: a symlink in lorri's cache directory points to
//! the store path, and a backlink in nix's per-user gc roots directory points to that
//! symlink. Nix keeps the store path as long as the symlink in the cache exists.

use crate::builder::OutputPath;
use crate::path::{AbsPathBuf, path_join};
use crate::project::{Project, RootPath, gc_root_path_in, project_hash};
use vstd::prelude::*;

verus! {

/// Roots manipulation
#[derive(Debug)]
pub struct Roots {
    /// The GC root directory in the lorri user cache dir
    gc_root_path: AbsPathBuf,
    id: String,
}

/// The directory nix keeps the gc roots of `user` in: under the nix state directory
/// (`/nix/var/nix/` unless another is set).
pub open spec fn user_gcroots_dir(state_dir: Option<Seq<char>>, user: Seq<char>) -> Seq<char> {
    let base = match state_dir {
        Some(d) => d,
        None => "/nix/var/nix/"@,
    };
    path_join(path_join(path_join(base, "gcroots"@), "per-user"@), user)
}

/// Whether a path exists on disk (`Path::exists`). Nothing is claimed of the answer, which
/// depends on the file system at the time of the call.
#[verifier::external_body]
fn path_exists(p: &str) -> bool {
    std::path::Path::new(p).exists()
}

impl OutputPath<RootPath> {
    /// Check whether all GC roots exist. What the file system answers is not stated.
    pub fn all_exist(&self) -> bool {
        path_exists(self.shell_gc_root.display())
    }
}

impl Roots {
    /// The gc root directory of this project.
    pub closed spec fn gc_root_path_view(&self) -> Seq<char> {
        self.gc_root_path@
    }

    /// The identifier of the project, which names its backlink.
    pub closed spec fn id_view(&self) -> Seq<char> {
        self.id@
    }

    /// Construct a Roots struct based on a project's GC root directory and ID.
    pub fn from_project(project: &Project) -> (r: Roots)
        ensures
            r.gc_root_path_view() == gc_root_path_in(project@.1),
            r.id_view() == project_hash(project@.0),
    {
        Roots { gc_root_path: project.gc_root_path(), id: project.hash() }
    }

    /// Return the filesystem path for this root.
    pub fn paths(&self) -> (r: OutputPath<RootPath>)
        ensures
            r.shell_gc_root@ == path_join(self.gc_root_path_view(), "shell_gc_root"@),
    {
        proof {
            reveal_strlit("shell_gc_root");
        }
        OutputPath { shell_gc_root: RootPath(self.gc_root_path.join("shell_gc_root")) }
    }

    /// The directory of nix's gc roots for `user`, given the nix state directory if one is
    /// set (see `user_gcroots_dir`).
    pub fn user_gcroots(state_dir: Option<String>, user: &str) -> (r: String)
        ensures
            r@ == user_gcroots_dir(
                match state_dir {
                    Some(d) => Some(d@),
                    None => None,
                },
                user@,
            ),
    {
        proof {
            reveal_strlit("/nix/var/nix/");
            reveal_strlit("gcroots");
            reveal_strlit("per-user");
        }
        let base = match state_dir {
            Some(d) => d,
            None => String::from_str("/nix/var/nix/"),
        };
        let a = crate::path::join(base.as_str(), "gcroots");
        let b = crate::path::join(a.as_str(), "per-user");
        crate::path::join(b.as_str(), user)
    }

    /// The backlink in the gc roots directory `gcroots` that points to this project's root:
    /// named by the project's identifier and the root's name.
    pub fn backlink(&self, gcroots: &str) -> (r: String)
        ensures
            r@ == path_join(gcroots@, self.id_view() + "-shell_gc_root"@),
    {
        proof {
            reveal_strlit("-shell_gc_root");
        }
        let mut name = self.id.clone();
        name.append("-shell_gc_root");
        crate::path::join(gcroots, name.as_str())
    }
}

/// Error conditions encountered when adding roots
#[derive(Debug)]
pub struct AddRootError {
    /// The underlying I/O error, rendered
    source: String,
    msg: String,
}

impl AddRootError {
    /// What was being done.
    pub closed spec fn msg_view(&self) -> Seq<char> {
        self.msg@
    }

    /// The underlying error.
    pub closed spec fn source_view(&self) -> Seq<char> {
        self.source@
    }

    /// Ignore NotFound errors (it is after all a remove), and otherwise
    /// return an error explaining a delete on path failed.
    pub fn remove(not_found: bool, source: String, path: &str) -> (r: Result<(), AddRootError>)
        ensures
            not_found ==> r is Ok,
            !not_found ==> (r matches Err(e) && e.msg_view() == "Failed to delete "@ + path@ && e.source_view() == source@),
    {
        if not_found {
            Ok(())
        } else {
            proof {
                reveal_strlit("Failed to delete ");
            }
            let mut msg = String::from_str("Failed to delete ");
            msg.append(path);
            Err(AddRootError { source, msg })
        }
    }

    /// Return an error explaining what symlink failed
    pub fn symlink(source: String, src: &str, dest: &str) -> (r: AddRootError)
        ensures
            r.msg_view() == "Failed to symlink "@ + src@ + " to "@ + dest@,
            r.source_view() == source@,
    {
        proof {
            reveal_strlit("Failed to symlink ");
            reveal_strlit(" to ");
        }
        let mut msg = String::from_str("Failed to symlink ");
        msg.append(src);
        msg.append(" to ");
        msg.append(dest);
        AddRootError { source, msg }
    }

    /// Return an error explaining that the directory of the backlinks could not be made.
    pub fn create_dir(source: String, dir: &str) -> (r: AddRootError)
        ensures
            r.msg_view() == "Failed to recursively create directory "@ + dir@,
            r.source_view() == source@,
    {
        proof {
            reveal_strlit("Failed to recursively create directory ");
        }
        let mut msg = String::from_str("Failed to recursively create directory ");
        msg.append(dir);
        AddRootError { source, msg }
    }

    /// The error as it is shown: what was being done, then the underlying error.
    pub fn message(&self) -> (r: String)
        ensures
            r@ == self.msg_view() + ": "@ + self.source_view(),
    {
        proof {
            reveal_strlit(": ");
        }
        let mut s = self.msg.clone();
        s.append(": ");
        s.append(self.source.as_str());
        s
    }
}

} // verus!
