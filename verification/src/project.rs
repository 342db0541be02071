//! Wrap a nix file and manage corresponding state.

pub mod roots;

use crate::error::ExitError;
use crate::builder::OutputPath;
use crate::path::{AbsPathBuf, NixFile, path_join, path_eq, components, file_name_of, parent_of, str_eq, lemma_parent_of_absolute, path_lt, path_less, lemma_comps_lt_order, lemma_comps_lt_total};
use crate::ops::{age_text, age_string};
use crate::text::{lower_hex, lower_hex_string};
use vstd::prelude::*;
use vstd::utf8::encode_utf8;

verus! {

/// A shell for a flake does not just call the `flake.nix`, but each flake can have multiple
/// outputs which are referred to by an “installable”.
#[derive(Debug)]
pub struct FlakeOutput {
    /// The directory used to resolve a flakeref in the the Nix installable, if present
    pub context: AbsPathBuf,
    /// A nix "installable"; a flakeref in the installable is resolved relative to the
    /// `context` directory
    pub installable: String,
}

/// ProjectFile describes the build source Nix file for a watched project
/// Could be a shell.nix (or similar) or a Flake description
#[derive(Debug)]
pub enum ProjectFile {
    /// A shell.nix (or default.nix etc)
    ShellNix(NixFile),
    /// A Flake installable - captures the flake target itself (e.g. .#)
    /// and the context directory to resolve it from
    FlakeNix(FlakeOutput),
}

/// The content of a `ProjectFile`.
pub enum ProjectFileView {
    /// The path of the shell file
    ShellNix(Seq<char>),
    /// The context directory and the installable
    FlakeNix(Seq<char>, Seq<char>),
}

impl View for ProjectFile {
    type V = ProjectFileView;

    open spec fn view(&self) -> ProjectFileView {
        match self {
            ProjectFile::ShellNix(n) => ProjectFileView::ShellNix(n@),
            ProjectFile::FlakeNix(f) => ProjectFileView::FlakeNix(f.context@, f.installable@),
        }
    }
}

/// The Nix file a project is built from: the shell file, or the `flake.nix` in the context
/// directory of a flake.
pub open spec fn project_nix_file(p: ProjectFileView) -> Seq<char> {
    match p {
        ProjectFileView::ShellNix(n) => n,
        ProjectFileView::FlakeNix(ctx, _) => path_join(ctx, "flake.nix"@),
    }
}

/// The installable assumed for a flake whose installable is not known.
pub open spec fn unknown_installable() -> Seq<char> {
    "#."@
}

impl ProjectFile {
    /// Creates a ProjectFile::FlakeNix from a context and installable
    pub fn flake(context: AbsPathBuf, installable: String) -> (r: ProjectFile)
        ensures
            r@ == ProjectFileView::FlakeNix(context@, installable@),
    {
        ProjectFile::FlakeNix(FlakeOutput { context, installable })
    }

    /// We have lost the info which installable was used to evaluate this flake,
    /// so `#.` is assumed.
    pub fn flake_unknown_installable(context: AbsPathBuf) -> (r: ProjectFile)
        ensures
            r@ == ProjectFileView::FlakeNix(context@, unknown_installable()),
    {
        ProjectFile::FlakeNix(FlakeOutput { context, installable: String::from_str("#.") })
    }

    /// The absolute path of the project's Nix file.
    pub fn as_absolute_path(&self) -> (r: String)
        ensures
            r@ == project_nix_file(self@),
    {
        self.as_nix_file().as_absolute_path().to_string()
    }

    /// The project's Nix file: the shell file, or the `flake.nix` of the flake.
    pub fn as_nix_file(&self) -> (r: NixFile)
        ensures
            r@ == project_nix_file(self@),
    {
        match self {
            ProjectFile::ShellNix(f) => f.clone(),
            ProjectFile::FlakeNix(i) => {
                proof {
                    reveal_strlit("flake.nix");
                }
                NixFile(i.context.join("flake.nix"))
            },
        }
    }
}

impl Clone for ProjectFile {
    fn clone(&self) -> (r: Self)
        ensures
            r@ == self@,
    {
        match self {
            ProjectFile::ShellNix(f) => ProjectFile::ShellNix(f.clone()),
            ProjectFile::FlakeNix(f) => ProjectFile::FlakeNix(
                FlakeOutput { context: f.context.clone(), installable: f.installable.clone() },
            ),
        }
    }
}

/// A path to a gc root.
#[derive(Debug)]
pub struct RootPath(pub AbsPathBuf);

impl View for RootPath {
    type V = Seq<char>;

    open spec fn view(&self) -> Seq<char> {
        self.0@
    }
}

impl RootPath {
    /// `display` the path.
    pub fn display(&self) -> (r: &str)
        ensures
            r@ == self.0@,
    {
        self.0.as_str()
    }
}

impl Clone for RootPath {
    fn clone(&self) -> (r: Self)
        ensures
            r == *self,
            r@ == self@,
    {
        RootPath(self.0.clone())
    }
}

/// The MD5 digest of `data`, as `md5::compute` returns it.
pub uninterp spec fn md5_digest(data: Seq<u8>) -> Seq<u8>;

/// Calls `md5::compute` on `data` and hands back the sixteen bytes of the digest.
/// Claimed: the bytes are the MD5 digest of `data` (the name `md5_digest`) and there
/// are sixteen of them, as the digest type of the crate is an array of sixteen bytes.
#[verifier::external_body]
fn md5_compute(data: &[u8]) -> (r: Vec<u8>)
    ensures
        r@ == md5_digest(data@),
        r@.len() == 16,
{
    md5::compute(data).0.to_vec()
}

/// The name of a project's directory: the digest of its Nix file's path, in lower-case
/// hexadecimal.
pub open spec fn project_hash(p: ProjectFileView) -> Seq<char> {
    lower_hex(md5_digest(encode_utf8(project_nix_file(p))))
}

/// A project's directory depends on its Nix file only: two project files for the same Nix
/// file (a flake with different installables, say) share their directory.
pub proof fn lemma_project_dir_by_nix_file(a: ProjectFileView, b: ProjectFileView, gc_root_dir: Seq<char>)
    requires
        project_nix_file(a) == project_nix_file(b),
    ensures
        path_join(gc_root_dir, project_hash(a)) == path_join(gc_root_dir, project_hash(b)),
{
}

/// A “project” knows where the lorri state for a given nix file is kept.
#[derive(Debug)]
pub struct Project {
    /// The project's Nix file.
    pub project_file: ProjectFile,
    /// Directory in which this project’s info is stored.
    project_root_dir: AbsPathBuf,
}

impl View for Project {
    type V = (ProjectFileView, Seq<char>);

    closed spec fn view(&self) -> (ProjectFileView, Seq<char>) {
        (self.project_file@, self.project_root_dir@)
    }
}

/// The directory of the project's gc roots, inside its directory.
pub open spec fn gc_root_path_in(project_root_dir: Seq<char>) -> Seq<char> {
    path_join(project_root_dir, "gc_root"@)
}

/// The gc root of the project's shell.
pub open spec fn shell_gc_root_in(project_root_dir: Seq<char>) -> Seq<char> {
    path_join(gc_root_path_in(project_root_dir), "shell_gc_root"@)
}

/// The gc root of the flake profile of the project.
pub open spec fn flake_profile_gc_root_in(project_root_dir: Seq<char>) -> Seq<char> {
    path_join(gc_root_path_in(project_root_dir), "flake_profile"@)
}

/// The symlink back to the project's nix file.
pub open spec fn nix_file_backlink_in(project_root_dir: Seq<char>) -> Seq<char> {
    path_join(gc_root_path_in(project_root_dir), "nix_file"@)
}

impl Project {
    /// The project for `project_file`, whose state is kept in the directory named by the
    /// digest of the Nix file's path under `gc_root_dir` (the directory itself is created by
    /// the caller).
    pub fn new(project_file: ProjectFile, gc_root_dir: &AbsPathBuf) -> (r: Project)
        ensures
            r@ == (project_file@, path_join(gc_root_dir@, project_hash(project_file@))),
    {
        let hash = Self::hash_of(&project_file);
        let project_root_dir = gc_root_dir.join(hash.as_str());
        Project { project_file, project_root_dir }
    }

    /// A project whose directory is already known.
    pub fn from_parts(project_file: ProjectFile, project_root_dir: AbsPathBuf) -> (r: Project)
        ensures
            r@ == (project_file@, project_root_dir@),
    {
        Project { project_file, project_root_dir }
    }

    fn hash_of(project_file: &ProjectFile) -> (r: String)
        ensures
            r@ == project_hash(project_file@),
    {
        let path = project_file.as_absolute_path();
        let digest = md5_compute(path.as_str().as_bytes());
        lower_hex_string(digest.as_slice())
    }

    /// The digest naming the project's directory.
    pub fn hash(&self) -> (r: String)
        ensures
            r@ == project_hash(self@.0),
    {
        Self::hash_of(&self.project_file)
    }

    /// Directory in which this project’s info is stored.
    pub fn project_root_dir(&self) -> (r: &AbsPathBuf)
        ensures
            r@ == self@.1,
    {
        &self.project_root_dir
    }

    /// Directory in which this project’s garbage collection roots are stored.
    pub fn gc_root_path(&self) -> (r: AbsPathBuf)
        ensures
            r@ == gc_root_path_in(self@.1),
    {
        proof {
            reveal_strlit("gc_root");
        }
        self.project_root_dir.join("gc_root")
    }

    /// The symlink in the gc root directory that points to the shell's derivation output.
    pub fn shell_gc_root(&self) -> (r: AbsPathBuf)
        ensures
            r@ == shell_gc_root_in(self@.1),
    {
        proof {
            reveal_strlit("shell_gc_root");
        }
        self.gc_root_path().join("shell_gc_root")
    }

    /// The symlink that points to the flake shell profile generated by `nix develop`.
    pub fn flake_profile_gc_root(&self) -> (r: AbsPathBuf)
        ensures
            r@ == flake_profile_gc_root_in(self@.1),
    {
        proof {
            reveal_strlit("flake_profile");
        }
        self.gc_root_path().join("flake_profile")
    }

    /// A symlink from the gc root directory back to the nix file which created this
    /// project. Used to implement garbage collection.
    pub fn nix_file_backlink(&self) -> (r: AbsPathBuf)
        ensures
            r@ == nix_file_backlink_in(self@.1),
    {
        proof {
            reveal_strlit("nix_file");
        }
        self.gc_root_path().join("nix_file")
    }

    /// Return the filesystem paths for these roots.
    pub fn root_path(&self) -> (r: OutputPath<RootPath>)
        ensures
            r.shell_gc_root@ == shell_gc_root_in(self@.1),
    {
        OutputPath { shell_gc_root: RootPath(self.shell_gc_root()) }
    }

    /// Where a build's result is rooted: the flake profile when the build made one,
    /// the shell otherwise. Gives the store path to root and the gc root to create.
    pub fn root_target(&self, rooted_path: &crate::builder::RootedPath) -> (r: (String, AbsPathBuf))
        ensures
            match rooted_path.flake_profile_path {
                Some(p) => r.0@ == p@ && r.1@ == flake_profile_gc_root_in(self@.1),
                None => r.0@ == rooted_path.path@ && r.1@ == shell_gc_root_in(self@.1),
            },
    {
        match &rooted_path.flake_profile_path {
            Some(p) => (p.clone(), self.flake_profile_gc_root()),
            None => (rooted_path.path.clone(), self.shell_gc_root()),
        }
    }
}

impl Clone for Project {
    fn clone(&self) -> (r: Self)
        ensures
            r@ == self@,
    {
        Project { project_file: self.project_file.clone(), project_root_dir: self.project_root_dir.clone() }
    }
}

/// What the backlink of a project currently is.
pub enum LinkState {
    /// A symlink to this path
    Points(String),
    /// Nothing there
    Missing,
    /// Something that cannot be read as a symlink
    Unreadable,
}

/// Whether the backlink has to be removed, and whether it has to be created, so that it
/// points to `target`: nothing is done when it already points there (as the same path).
pub fn backlink_update(current: &LinkState, target: &str) -> (r: (bool, bool))
    ensures
        match current {
            LinkState::Points(p) => r == (if components(p@) == components(target@) { (false, false) } else { (true, true) }),
            LinkState::Missing => r == (false, true),
            LinkState::Unreadable => r == (true, true),
        },
{
    match current {
        LinkState::Points(p) => {
            if path_eq(p.as_str(), target) {
                (false, false)
            } else {
                (true, true)
            }
        },
        LinkState::Missing => (false, true),
        LinkState::Unreadable => (true, true),
    }
}

/// The project file recorded by a backlink to `link`: a flake (with the installable
/// unknown) when the link names a `flake.nix`, the shell file otherwise.
pub open spec fn project_file_of_link(link: Seq<char>) -> ProjectFileView {
    if file_name_of(link) == Some("flake.nix"@) {
        ProjectFileView::FlakeNix(parent_of(link).unwrap(), unknown_installable())
    } else {
        ProjectFileView::ShellNix(link)
    }
}

/// The project file that a backlink points to (see `project_file_of_link`).
pub fn project_file_from_backlink(link: AbsPathBuf) -> (r: ProjectFile)
    requires
        file_name_of(link@) is Some,
    ensures
        r@ == project_file_of_link(link@),
{
    proof {
        reveal_strlit("flake.nix");
    }
    let path = link.as_str();
    proof {
        lemma_parent_of_absolute(link@);
    }
    let is_flake = match crate::path::file_name(path) {
        Some(n) => str_eq(n.as_str(), "flake.nix"),
        None => false,
    };
    if is_flake {
        match link.parent() {
            Some(dir) => ProjectFile::flake_unknown_installable(dir),
            None => {
                proof {
                    assert(false);
                }
                ProjectFile::ShellNix(NixFile(link))
            },
        }
    } else {
        ProjectFile::ShellNix(NixFile(link))
    }
}

/// A project found in the gc root directory, for the move to the database.
#[derive(Debug)]
pub struct ListRootsMigration {
    /// absolute path to the nix file
    pub nix_file: NixFile,
    /// Whether the nix file is a flake.nix
    /// (the flake installable is not known when migrating from the old directory structure)
    pub is_flake: bool,
    /// When the project was last built, in nanoseconds since the epoch
    pub timestamp: Option<u128>,
}

impl ListRootsMigration {
    /// The entry for a project directory whose backlink points to `link`, last built at
    /// `timestamp`.
    pub fn from_backlink(link: AbsPathBuf, timestamp: Option<u128>) -> (r: ListRootsMigration)
        requires
            file_name_of(link@) is Some,
        ensures
            r.nix_file@ == project_nix_file(project_file_of_link(link@)),
            r.is_flake == (project_file_of_link(link@) is FlakeNix),
            r.timestamp == timestamp,
    {
        let project_file = project_file_from_backlink(link);
        let is_flake = match &project_file {
            ProjectFile::ShellNix(_) => false,
            ProjectFile::FlakeNix(_) => true,
        };
        ListRootsMigration { nix_file: project_file.as_nix_file(), is_flake, timestamp }
    }
}

/// An entry of the gc root directory, as the file system shows it.
pub struct GcDirEntry {
    /// Whether the entry is a directory
    pub is_dir: bool,
    /// Where its `gc_root/nix_file` backlink points, if the link can be read
    pub nix_file_link: Option<AbsPathBuf>,
    /// When its `gc_root/shell_gc_root` link was last modified, in nanoseconds since the
    /// epoch, if it exists
    pub shell_gc_root_modified: Option<u128>,
}

/// Whether a directory entry names a project: a directory whose backlink can be read.
pub open spec fn migration_kept(e: GcDirEntry) -> bool {
    e.is_dir && e.nix_file_link is Some
}

/// The entry for a migration, as its nix file, whether it is a flake and when it was built.
pub open spec fn migration_view(m: ListRootsMigration) -> (Seq<char>, bool, Option<u128>) {
    (m.nix_file@, m.is_flake, m.timestamp)
}

/// The migration entry of a project directory, by its backlink and last build.
pub open spec fn migration_entry_of(e: GcDirEntry) -> (Seq<char>, bool, Option<u128>) {
    let pf = project_file_of_link(e.nix_file_link.unwrap()@);
    (project_nix_file(pf), pf is FlakeNix, e.shell_gc_root_modified)
}

/// The migration entries of a gc root directory listing: one per project directory, in
/// order; other entries are skipped.
pub open spec fn migration_rows(entries: Seq<GcDirEntry>) -> Seq<(Seq<char>, bool, Option<u128>)>
    decreases entries.len(),
{
    if entries.len() == 0 {
        Seq::empty()
    } else {
        let prev = migration_rows(entries.drop_last());
        if migration_kept(entries.last()) {
            prev.push(migration_entry_of(entries.last()))
        } else {
            prev
        }
    }
}

/// The message when the gc root directory cannot be read.
pub open spec fn unreadable_gc_root_dir_msg(cause: Seq<char>) -> Seq<char> {
    "Cannot read lorri gc root directory: "@ + cause
}

/// List the roots to migrate from a gc root directory listing (or the reason it could not be
/// read): an environment problem when the directory could not be read, else the entry of
/// each project directory, in order, skipping entries that are no directories or whose
/// backlink cannot be read.
pub fn migration_entries(listing: Result<Vec<GcDirEntry>, String>) -> (r: Result<Vec<ListRootsMigration>, ExitError>)
    requires
        listing matches Ok(v) ==> forall|i: int|
            0 <= i < v@.len() && migration_kept(#[trigger] v@[i]) ==> file_name_of(v@[i].nix_file_link.unwrap()@) is Some,
    ensures
        match listing {
            Err(cause) => r matches Err(e) && e.code() == 126 && e.msg() == unreadable_gc_root_dir_msg(cause@),
            Ok(v) => r matches Ok(out) && out@.map_values(|m: ListRootsMigration| migration_view(m)) == migration_rows(v@),
        },
{
    match listing {
        Err(cause) => {
            let mut m = String::from_str("Cannot read lorri gc root directory: ");
            m.append(cause.as_str());
            proof {
                reveal_strlit("Cannot read lorri gc root directory: ");
            }
            Err(ExitError::environment_problem(m))
        },
        Ok(v) => {
            let mut out: Vec<ListRootsMigration> = Vec::new();
            let mut i: usize = 0;
            while i < v.len()
                invariant
                    i <= v@.len(),
                    forall|k: int|
                        0 <= k < v@.len() && migration_kept(#[trigger] v@[k]) ==> file_name_of(v@[k].nix_file_link.unwrap()@) is Some,
                    out@.map_values(|m: ListRootsMigration| migration_view(m)) == migration_rows(v@.subrange(0, i as int)),
                decreases v@.len() - i,
            {
                let ghost before = out@;
                let e = &v[i];
                proof {
                    assert(v@.subrange(0, i + 1).drop_last() =~= v@.subrange(0, i as int));
                    assert(v@.subrange(0, i + 1).last() == v@[i as int]);
                }
                if e.is_dir {
                    match &e.nix_file_link {
                        Some(link) => {
                            proof {
                                assert(migration_kept(v@[i as int]));
                            }
                            let m = ListRootsMigration::from_backlink(link.clone(), e.shell_gc_root_modified);
                            out.push(m);
                            proof {
                                assert(out@.map_values(|m: ListRootsMigration| migration_view(m)) =~= before.map_values(
                                    |m: ListRootsMigration| migration_view(m),
                                ).push(migration_view(m)));
                            }
                        },
                        None => {},
                    }
                }
                i = i + 1;
            }
            proof {
                assert(v@.subrange(0, v@.len() as int) =~= v@);
            }
            Ok(out)
        },
    }
}

/// A row of the gc roots table.
pub struct GcRootRow {
    /// The project's nix file
    pub nix_file: AbsPathBuf,
    /// When the project was last built, in seconds since the epoch
    pub last_updated: Option<u64>,
    /// Whether the nix file is a `flake.nix`
    pub is_flake: bool,
    /// The flake installable (empty when not known)
    pub flake_installable: Option<String>,
}

/// The project file of a row: a flake in the directory of the nix file, or the shell
/// file; `None` for a flake whose installable is not known.
pub open spec fn row_project_file(nix_file: Seq<char>, is_flake: bool, installable: Option<Seq<char>>) -> Option<ProjectFileView> {
    if is_flake {
        if installable.unwrap() == Seq::<char>::empty() {
            None
        } else {
            Some(ProjectFileView::FlakeNix(parent_of(nix_file).unwrap(), installable.unwrap()))
        }
    } else {
        Some(ProjectFileView::ShellNix(nix_file))
    }
}

/// The view of an optional text.
pub open spec fn opt_view(o: Option<String>) -> Option<Seq<char>> {
    match o {
        Some(s) => Some(s@),
        None => None,
    }
}

/// When a row was last built, in nanoseconds since the epoch.
pub open spec fn row_timestamp(row: GcRootRow) -> Option<u128> {
    match row.last_updated {
        Some(s) => Some((s * 1_000_000_000) as u128),
        None => None,
    }
}

/// The views of a time and a project.
pub type EntryView = (Option<u128>, (ProjectFileView, Seq<char>));

/// What a row gives: when it was last built and its project; nothing for a flake whose
/// installable is not known.
pub open spec fn row_entry(row: GcRootRow, gc_root_dir: Seq<char>) -> Option<EntryView> {
    match row_project_file(row.nix_file@, row.is_flake, opt_view(row.flake_installable)) {
        Some(f) => Some((row_timestamp(row), (f, path_join(gc_root_dir, project_hash(f))))),
        None => None,
    }
}

/// What the rows give, in order, skipping those that give nothing.
pub open spec fn rows_entries(rows: Seq<GcRootRow>, gc_root_dir: Seq<char>) -> Seq<EntryView>
    decreases rows.len(),
{
    if rows.len() == 0 {
        Seq::empty()
    } else {
        let prev = rows_entries(rows.drop_last(), gc_root_dir);
        match row_entry(rows.last(), gc_root_dir) {
            Some(e) => prev.push(e),
            None => prev,
        }
    }
}

/// The rows the gc root listing can read: a flake's row names its installable, and its
/// nix file is in a directory.
pub open spec fn row_readable(row: GcRootRow) -> bool {
    row.is_flake ==> row.flake_installable is Some && parent_of(row.nix_file@) is Some
}

/// The projects of the rows of the gc roots table, each with the time it was last built,
/// in the order of the rows; flakes whose installable is not known are skipped.
pub fn projects_of_rows(rows: &Vec<GcRootRow>, gc_root_dir: &AbsPathBuf) -> (r: Vec<(Option<u128>, Project)>)
    requires
        forall|i: int| 0 <= i < rows@.len() ==> row_readable(#[trigger] rows@[i]),
    ensures
        r@.len() == rows_entries(rows@, gc_root_dir@).len(),
        forall|k: int| 0 <= k < r@.len() ==> ((#[trigger] r@[k]).0, r@[k].1@) == rows_entries(rows@, gc_root_dir@)[k],
{
    let mut r: Vec<(Option<u128>, Project)> = Vec::new();
    let mut i: usize = 0;
    while i < rows.len()
        invariant
            i <= rows@.len(),
            forall|j: int| 0 <= j < rows@.len() ==> row_readable(#[trigger] rows@[j]),
            r@.len() == rows_entries(rows@.subrange(0, i as int), gc_root_dir@).len(),
            forall|k: int| 0 <= k < r@.len() ==> ((#[trigger] r@[k]).0, r@[k].1@) == rows_entries(rows@.subrange(0, i as int), gc_root_dir@)[k],
        decreases rows@.len() - i,
    {
        let row = &rows[i];
        proof {
            assert(row_readable(rows@[i as int]));
            let t = rows@.subrange(0, i + 1);
            assert(t.drop_last() =~= rows@.subrange(0, i as int));
            assert(t.last() == rows@[i as int]);
        }
        match row.project(gc_root_dir) {
            Some(p) => {
                r.push((row.timestamp(), p));
            },
            None => {},
        }
        i = i + 1;
    }
    proof {
        assert(rows@.subrange(0, rows@.len() as int) =~= rows@);
    }
    r
}

impl GcRootRow {
    /// The project a row stands for, with its directory under `gc_root_dir`; `None` for a
    /// flake whose installable is not known (such rows are skipped).
    pub fn project(&self, gc_root_dir: &AbsPathBuf) -> (r: Option<Project>)
        requires
            self.is_flake ==> self.flake_installable is Some && parent_of(self.nix_file@) is Some,
        ensures
            match row_project_file(self.nix_file@, self.is_flake, opt_view(self.flake_installable)) {
                Some(f) => r matches Some(p) && p@ == (f, path_join(gc_root_dir@, project_hash(f))),
                None => r is None,
            },
    {
        if self.is_flake {
            let installable = match &self.flake_installable {
                Some(i) => i.clone(),
                None => String::new(),
            };
            let dir = match self.nix_file.parent() {
                Some(d) => d,
                None => self.nix_file.clone(),
            };
            if installable.unicode_len() == 0 {
                proof {
                    assert(installable@ =~= Seq::<char>::empty());
                }
                None
            } else {
                Some(Project::new(ProjectFile::flake(dir, installable), gc_root_dir))
            }
        } else {
            Some(Project::new(ProjectFile::ShellNix(NixFile(self.nix_file.clone())), gc_root_dir))
        }
    }

    /// When the row was last built, in nanoseconds since the epoch.
    pub fn timestamp(&self) -> (r: Option<u128>)
        ensures
            r == row_timestamp(*self),
    {
        match self.last_updated {
            Some(s) => Some((s as u128) * 1_000_000_000),
            None => None,
        }
    }
}

/// How the list of roots is sorted.
#[derive(Debug, Clone, Copy)]
pub enum ListRootsSort {
    /// Return in arbitrary order
    NoSorting,
    /// Return most recent items last, sort secondary by project_file path name
    MoreRecentLast,
}

/// Represents a gc root along with some metadata, used for json output of lorri gc info
#[derive(Debug)]
pub struct GcRootInfo {
    /// directory where root is stored
    pub gc_dir: AbsPathBuf,
    /// nix file from which the root originates.
    pub nix_file: AbsPathBuf,
    /// time of the last build, in nanoseconds since the epoch
    pub timestamp: Option<u128>,
    /// whether `nix_file` still exists
    pub project_file_exists: bool,
}

impl GcRootInfo {
    /// The information on `project`'s root, built at `timestamp`.
    pub fn of_project(project: &Project, timestamp: Option<u128>, project_file_exists: bool) -> (r: GcRootInfo)
        ensures
            r.gc_dir@ == project@.1,
            r.nix_file@ == project_nix_file(project@.0),
            r.timestamp == timestamp,
            r.project_file_exists == project_file_exists,
    {
        GcRootInfo {
            gc_dir: project.project_root_dir.clone(),
            nix_file: project.project_file.as_nix_file().0,
            timestamp,
            project_file_exists,
        }
    }
}

/// The age of a root last built at `timestamp` when it is `now`: `sometime in the past`
/// when the time is not known, otherwise as `age_text` gives it.
pub open spec fn info_age_text(timestamp: Option<u128>, now: u128) -> Seq<char> {
    match timestamp {
        None => "sometime in the past"@,
        Some(t) => age_text(t, now),
    }
}

/// The one-line description of a root: its directory, its nix file, `[gone]` when the nix
/// file no longer exists, and its age.
pub open spec fn info_line(info: GcRootInfo, now: u128) -> Seq<char> {
    let gone: Seq<char> = if info.project_file_exists {
        Seq::empty()
    } else {
        "[gone]"@
    };
    info.gc_dir@ + " -> "@ + info.nix_file@ + " "@ + gone + " ("@ + info_age_text(info.timestamp, now) + ")"@
}

impl GcRootInfo {
    /// Format for printing to stdout, when it is `now` (see `info_line`).
    pub fn format_pretty_oneline(&self, now: u128) -> (r: String)
        ensures
            r@ == info_line(*self, now),
    {
        proof {
            reveal_strlit("sometime in the past");
            reveal_strlit("[gone]");
            reveal_strlit(" -> ");
            reveal_strlit(" ");
            reveal_strlit(" (");
            reveal_strlit(")");
            reveal_strlit("");
        }
        let mut s = self.gc_dir.as_str().to_string();
        s.append(" -> ");
        s.append(self.nix_file.as_str());
        s.append(" ");
        if self.project_file_exists {
            s.append("");
        } else {
            s.append("[gone]");
        }
        s.append(" (");
        let age = match self.timestamp {
            None => String::from_str("sometime in the past"),
            Some(t) => age_string(t, now),
        };
        s.append(age.as_str());
        s.append(")");
        s
    }
}

/// Timestamps in order: a root never built comes before every built one.
pub open spec fn timestamp_lt(a: Option<u128>, b: Option<u128>) -> bool {
    match (a, b) {
        (None, Some(_)) => true,
        (Some(x), Some(y)) => x < y,
        _ => false,
    }
}

/// Whether root `a` is listed before root `b` when the more recent come last: by time of
/// the last build, then by the path of the nix file.
pub open spec fn info_before(a: GcRootInfo, b: GcRootInfo) -> bool {
    timestamp_lt(a.timestamp, b.timestamp) || (a.timestamp == b.timestamp && path_lt(a.nix_file@, b.nix_file@))
}

/// Sorted with the more recent last: no root comes after one it is listed before.
pub open spec fn sorted_more_recent_last(s: Seq<(GcRootInfo, Project)>) -> bool {
    forall|i: int, j: int| 0 <= i < j < s.len() ==> !info_before(#[trigger] s[j].0, #[trigger] s[i].0)
}

/// The listing order is transitive and asymmetric.
pub proof fn lemma_info_before_order(a: GcRootInfo, b: GcRootInfo, c: GcRootInfo)
    ensures
        info_before(a, b) && info_before(b, c) ==> info_before(a, c),
        info_before(a, b) ==> !info_before(b, a),
{
    lemma_comps_lt_order(components(a.nix_file@), components(b.nix_file@), components(c.nix_file@), 0);
    lemma_comps_lt_order(components(b.nix_file@), components(a.nix_file@), components(c.nix_file@), 0);
}

/// Roots that neither come before the other: built at the same time, from the same path.
pub open spec fn info_tied(a: GcRootInfo, b: GcRootInfo) -> bool {
    !info_before(a, b) && !info_before(b, a)
}

/// Tied roots have the same time and the same path (by components), so every other root
/// compares to both alike.
proof fn lemma_info_tied(a: GcRootInfo, b: GcRootInfo, c: GcRootInfo)
    requires
        info_tied(a, b),
    ensures
        a.timestamp == b.timestamp,
        components(a.nix_file@) == components(b.nix_file@),
        info_before(a, c) == info_before(b, c),
{
    let ca = components(a.nix_file@);
    let cb = components(b.nix_file@);
    lemma_comps_lt_total(ca, cb, 0);
    assert(ca =~= cb);
}

/// A sorted listing of `v`: each listed root is the root of `v` at the position `perm`
/// gives, every position once, and roots that tie keep the order they had in `v`.
pub open spec fn stable_permutation(v: Seq<(GcRootInfo, Project)>, r: Seq<(GcRootInfo, Project)>, perm: Seq<int>) -> bool {
    &&& perm.len() == r.len() == v.len()
    &&& forall|k: int| 0 <= k < r.len() ==> 0 <= #[trigger] perm[k] < v.len() && r[k] == v[perm[k]]
    &&& forall|a: int, b: int| 0 <= a < b < r.len() ==> #[trigger] perm[a] != #[trigger] perm[b]
    &&& forall|a: int, b: int|
        0 <= a < b < r.len() && info_tied(#[trigger] r[a].0, #[trigger] r[b].0) ==> perm[a] < perm[b]
}

/// Whether root `a` is listed before root `b` (see `info_before`).
fn info_before_exec(a: &GcRootInfo, b: &GcRootInfo) -> (r: bool)
    ensures
        r == info_before(*a, *b),
{
    match (a.timestamp, b.timestamp) {
        (None, Some(_)) => true,
        (Some(x), Some(y)) => {
            if x < y {
                true
            } else if x == y {
                path_less(a.nix_file.as_str(), b.nix_file.as_str())
            } else {
                false
            }
        },
        (None, None) => path_less(a.nix_file.as_str(), b.nix_file.as_str()),
        (Some(_), None) => false,
    }
}

proof fn lemma_insert_sorted(r: Seq<(GcRootInfo, Project)>, p: int, x: (GcRootInfo, Project))
    requires
        sorted_more_recent_last(r),
        0 <= p <= r.len(),
        forall|k: int| 0 <= k < p ==> !info_before(x.0, #[trigger] r[k].0),
        p < r.len() ==> info_before(x.0, r[p].0),
    ensures
        sorted_more_recent_last(r.insert(p, x)),
{
    let t = r.insert(p, x);
    assert forall|i: int, j: int| 0 <= i < j < t.len() implies !info_before(#[trigger] t[j].0, #[trigger] t[i].0) by {
        if i == p {
            let y = r[j - 1];
            lemma_info_before_order(y.0, x.0, r[p].0);
            if j - 1 > p {
                assert(!info_before(r[j - 1].0, r[p].0));
            }
        } else if j == p {
            assert(t[i] == r[i]);
        } else if i < p && j > p {
            assert(t[i] == r[i] && t[j] == r[j - 1]);
        } else if j < p {
            assert(t[i] == r[i] && t[j] == r[j]);
        } else {
            assert(t[i] == r[i - 1] && t[j] == r[j - 1]);
        }
    }
}

/// Sort roots with the more recent last (roots never built first), and roots built at the
/// same time by the path of their nix file; roots that tie keep their order.
pub fn sort_more_recent_last(v: Vec<(GcRootInfo, Project)>) -> (r: Vec<(GcRootInfo, Project)>)
    ensures
        r@.to_multiset() == v@.to_multiset(),
        sorted_more_recent_last(r@),
        exists|perm: Seq<int>| stable_permutation(v@, r@, perm),
{
    broadcast use vstd::seq_lib::group_to_multiset_ensures, vstd::seq_lib::to_multiset_insert, vstd::multiset::group_multiset_axioms;
    let ghost orig = v@;
    let n: usize = v.len();
    let mut rest = v;
    let mut r: Vec<(GcRootInfo, Project)> = Vec::new();
    let mut i: usize = 0;
    let ghost mut perm: Seq<int> = Seq::empty();
    proof {
        assert(r@.to_multiset() =~= vstd::multiset::Multiset::empty());
        assert(rest@ =~= orig.subrange(0, n as int));
    }
    while rest.len() > 0
        invariant
            r@.to_multiset().add(rest@.to_multiset()) =~= orig.to_multiset(),
            sorted_more_recent_last(r@),
            n == orig.len(),
            i <= n,
            rest@ == orig.subrange(i as int, n as int),
            stable_permutation(orig.subrange(0, i as int), r@, perm),
        decreases rest@.len(),
    {
        let ghost before_rest = rest@;
        let x = rest.remove(0);
        proof {
            assert(x == orig[i as int]);
        }
        let mut p: usize = 0;
        while p < r.len() && !info_before_exec(&x.0, &r[p].0)
            invariant
                p <= r@.len(),
                forall|k: int| 0 <= k < p ==> !info_before(x.0, #[trigger] r@[k].0),
            decreases r@.len() - p,
        {
            p = p + 1;
        }
        proof {
            lemma_insert_sorted(r@, p as int, x);
            lemma_insert_stable(orig, r@, perm, p as int, x, i as int);
            perm = perm.insert(p as int, i as int);
        }
        let ghost before_r = r@;
        r.insert(p, x);
        i = i + 1;
        proof {
            vstd::seq_lib::to_multiset_remove(before_rest, 0);
            vstd::seq_lib::to_multiset_insert(before_r, p as int, x);
            assert(rest@ == before_rest.remove(0));
            assert(x == before_rest[0]);
            assert(r@ == before_r.insert(p as int, x));
            assert(before_rest.contains(x));
            before_rest.to_multiset_ensures();
            assert(before_rest.to_multiset().count(x) > 0);
            assert(r@.to_multiset().add(rest@.to_multiset()) =~= before_r.to_multiset().add(before_rest.to_multiset()));
            assert(rest@ =~= orig.subrange(i as int, n as int));
        }
    }
    proof {
        assert(rest@.to_multiset() =~= vstd::multiset::Multiset::empty());
        assert(orig.subrange(0, i as int) =~= orig);
    }
    r
}

proof fn lemma_insert_stable(orig: Seq<(GcRootInfo, Project)>, r: Seq<(GcRootInfo, Project)>, perm: Seq<int>, p: int, x: (GcRootInfo, Project), i: int)
    requires
        0 <= i < orig.len(),
        x == orig[i],
        stable_permutation(orig.subrange(0, i), r, perm),
        sorted_more_recent_last(r),
        0 <= p <= r.len(),
        forall|k: int| 0 <= k < p ==> !info_before(x.0, #[trigger] r[k].0),
        p < r.len() ==> info_before(x.0, r[p].0),
    ensures
        stable_permutation(orig.subrange(0, i + 1), r.insert(p, x), perm.insert(p, i)),
{
    let v = orig.subrange(0, i);
    let v2 = orig.subrange(0, i + 1);
    let t = r.insert(p, x);
    let q = perm.insert(p, i);
    assert forall|k: int| 0 <= k < t.len() implies 0 <= #[trigger] q[k] < v2.len() && t[k] == v2[q[k]] by {
        if k < p {
            assert(q[k] == perm[k] && t[k] == r[k]);
            assert(v[perm[k]] == v2[perm[k]]);
        } else if k == p {
            assert(q[k] == i && t[k] == x);
        } else {
            assert(q[k] == perm[k - 1] && t[k] == r[k - 1]);
            assert(v[perm[k - 1]] == v2[perm[k - 1]]);
        }
    }
    assert forall|a: int, b: int| 0 <= a < b < t.len() implies #[trigger] q[a] != #[trigger] q[b] by {
        if a != p && b != p {
            let a0 = if a < p { a } else { a - 1 };
            let b0 = if b < p { b } else { b - 1 };
            assert(q[a] == perm[a0] && q[b] == perm[b0]);
            assert(perm[a0] != perm[b0]);
        } else if a == p {
            assert(q[b] == perm[b - 1]);
            assert(perm[b - 1] < i);
        } else {
            assert(q[a] == perm[a]);
            assert(perm[a] < i);
        }
    }
    assert forall|a: int, b: int| 0 <= a < b < t.len() && info_tied(#[trigger] t[a].0, #[trigger] t[b].0) implies q[a] < q[b] by {
        if a != p && b != p {
            let a0 = if a < p { a } else { a - 1 };
            let b0 = if b < p { b } else { b - 1 };
            assert(q[a] == perm[a0] && q[b] == perm[b0]);
            assert(t[a] == r[a0] && t[b] == r[b0]);
        } else if a == p {
            let m = b - 1;
            assert(t[b] == r[m]);
            lemma_info_tied(x.0, r[m].0, r[p].0);
            lemma_info_before_order(r[p].0, r[p].0, r[p].0);
            if m > p {
                assert(!info_before(r[m].0, r[p].0));
            }
            assert(false);
        } else {
            assert(q[a] == perm[a]);
            assert(perm[a] < i);
            assert(q[b] == i);
        }
    }
}

/// The information on each listed root, in the order given.
pub fn gc_root_infos(entries: Vec<(Option<u128>, Project, bool)>) -> (r: Vec<(GcRootInfo, Project)>)
    ensures
        r@.len() == entries@.len(),
        forall|k: int| 0 <= k < r@.len() ==> info_of_entry((#[trigger] r@[k]), entries@[k]),
{
    let ghost orig = entries@;
    let n: usize = entries.len();
    let mut r: Vec<(GcRootInfo, Project)> = Vec::new();
    let mut rest = entries;
    let mut i: usize = 0;
    while rest.len() > 0
        invariant
            i + rest@.len() == orig.len(),
            orig.len() == n,
            r@.len() == i,
            forall|k: int| 0 <= k < rest@.len() ==> (#[trigger] rest@[k]) == orig[i + k],
            forall|k: int| 0 <= k < i ==> info_of_entry((#[trigger] r@[k]), orig[k]),
        decreases rest@.len(),
    {
        let (timestamp, project, exists) = rest.remove(0);
        let info = GcRootInfo::of_project(&project, timestamp, exists);
        r.push((info, project));
        i = i + 1;
    }
    r
}

/// The listed root `e` stands for the project of `entry`, built at its time, with its
/// nix file present as the entry says.
pub open spec fn info_of_entry(e: (GcRootInfo, Project), entry: (Option<u128>, Project, bool)) -> bool {
    &&& e.1@ == entry.1@
    &&& e.0.gc_dir@ == entry.1@.1
    &&& e.0.nix_file@ == project_nix_file(entry.1@.0)
    &&& e.0.timestamp == entry.0
    &&& e.0.project_file_exists == entry.2
}

/// Where every row names its project (no flake row with an unknown installable), the rows
/// give one entry each, in order.
pub proof fn lemma_rows_entries_one_per_row(rows: Seq<GcRootRow>, gc_root_dir: Seq<char>)
    requires
        forall|k: int| 0 <= k < rows.len() ==> (#[trigger] row_entry(rows[k], gc_root_dir)) is Some,
    ensures
        rows_entries(rows, gc_root_dir).len() == rows.len(),
        forall|k: int| 0 <= k < rows.len() ==> Some(#[trigger] rows_entries(rows, gc_root_dir)[k]) == row_entry(rows[k], gc_root_dir),
    decreases rows.len(),
{
    if rows.len() > 0 {
        let prev = rows.drop_last();
        assert forall|k: int| 0 <= k < prev.len() implies (#[trigger] row_entry(prev[k], gc_root_dir)) is Some by {
            assert(prev[k] == rows[k]);
            assert(row_entry(rows[k], gc_root_dir) is Some);
        }
        lemma_rows_entries_one_per_row(prev, gc_root_dir);
        assert(row_entry(rows[rows.len() - 1], gc_root_dir) is Some);
        assert forall|k: int| 0 <= k < rows.len() implies Some(#[trigger] rows_entries(rows, gc_root_dir)[k]) == row_entry(rows[k], gc_root_dir) by {
            if k < prev.len() {
                assert(prev[k] == rows[k]);
                assert(Some(rows_entries(prev, gc_root_dir)[k]) == row_entry(prev[k], gc_root_dir));
            }
        }
    }
}

/// The listed root `e` stands for the row entry `re`: the project it names, its gc
/// directory, its nix file and the time of its last build.
pub open spec fn stands_for_row(e: (GcRootInfo, Project), re: EntryView) -> bool {
    &&& e.1@ == re.1
    &&& e.0.gc_dir@ == re.1.1
    &&& e.0.nix_file@ == project_nix_file(re.1.0)
    &&& e.0.timestamp == re.0
}

/// The gc root listing as a whole, from the rows of the gc roots table to the listed roots:
/// the projects that the rows give (see `projects_of_rows`: one per row, in order, flakes
/// with an unknown installable skipped), each with whether its nix file exists, are listed by
/// `list_roots_gc`. Without sorting, the listed roots stand for those rows one by one, in
/// order; sorted, they are sorted with the most recent last, and are a stable permutation of
/// such a listing.
pub proof fn lemma_listing_follows_rows(
    rows: Seq<GcRootRow>,
    gc_root_dir: Seq<char>,
    projects: Seq<(Option<u128>, Project)>,
    exists_flags: Seq<bool>,
    entries: Seq<(Option<u128>, Project, bool)>,
    sort: ListRootsSort,
    listed: Seq<(GcRootInfo, Project)>,
)
    requires
        projects.len() == rows_entries(rows, gc_root_dir).len(),
        forall|k: int| 0 <= k < projects.len() ==> ((#[trigger] projects[k]).0, projects[k].1@) == rows_entries(rows, gc_root_dir)[k],
        exists_flags.len() == projects.len(),
        entries.len() == projects.len(),
        forall|k: int| 0 <= k < entries.len() ==> #[trigger] entries[k] == (projects[k].0, projects[k].1, exists_flags[k]),
        listed.len() == entries.len(),
        sort is NoSorting ==> forall|k: int| 0 <= k < listed.len() ==> info_of_entry((#[trigger] listed[k]), entries[k]),
        sort is MoreRecentLast ==> sorted_more_recent_last(listed) && exists|u: Seq<(GcRootInfo, Project)>, perm: Seq<int>|
            #![trigger stable_permutation(u, listed, perm)]
            u.len() == entries.len() && (forall|k: int| 0 <= k < u.len() ==> info_of_entry((#[trigger] u[k]), entries[k]))
                && stable_permutation(u, listed, perm),
    ensures
        listed.len() == rows_entries(rows, gc_root_dir).len(),
        sort is NoSorting ==> forall|k: int|
            0 <= k < listed.len() ==> stands_for_row(#[trigger] listed[k], rows_entries(rows, gc_root_dir)[k])
                && listed[k].0.project_file_exists == exists_flags[k],
        sort is MoreRecentLast ==> sorted_more_recent_last(listed) && exists|u: Seq<(GcRootInfo, Project)>, perm: Seq<int>|
            #![trigger stable_permutation(u, listed, perm)]
            u.len() == rows_entries(rows, gc_root_dir).len() && (forall|k: int|
                0 <= k < u.len() ==> stands_for_row(#[trigger] u[k], rows_entries(rows, gc_root_dir)[k])
                    && u[k].0.project_file_exists == exists_flags[k]) && stable_permutation(u, listed, perm),
{
    if sort is NoSorting {
        assert forall|k: int| 0 <= k < listed.len() implies stands_for_row(#[trigger] listed[k], rows_entries(rows, gc_root_dir)[k])
            && listed[k].0.project_file_exists == exists_flags[k] by {
            assert(info_of_entry(listed[k], entries[k]));
            assert(entries[k] == (projects[k].0, projects[k].1, exists_flags[k]));
            assert((projects[k].0, projects[k].1@) == rows_entries(rows, gc_root_dir)[k]);
        }
    } else {
        let (u, perm) = choose|u: Seq<(GcRootInfo, Project)>, perm: Seq<int>|
            #![trigger stable_permutation(u, listed, perm)]
            u.len() == entries.len() && (forall|k: int| 0 <= k < u.len() ==> info_of_entry((#[trigger] u[k]), entries[k]))
                && stable_permutation(u, listed, perm);
        assert forall|k: int| 0 <= k < u.len() implies stands_for_row(#[trigger] u[k], rows_entries(rows, gc_root_dir)[k])
            && u[k].0.project_file_exists == exists_flags[k] by {
            assert(info_of_entry(u[k], entries[k]));
            assert(entries[k] == (projects[k].0, projects[k].1, exists_flags[k]));
            assert((projects[k].0, projects[k].1@) == rows_entries(rows, gc_root_dir)[k]);
        }
        assert(stable_permutation(u, listed, perm));
    }
}

/// The gc roots of the given projects with the time of their last build and whether their
/// nix file still exists, in the order asked for.
pub fn list_roots_gc(entries: Vec<(Option<u128>, Project, bool)>, list_roots_sort: ListRootsSort) -> (r: Vec<(GcRootInfo, Project)>)
    ensures
        r@.len() == entries@.len(),
        list_roots_sort is NoSorting ==> forall|k: int| 0 <= k < r@.len() ==> info_of_entry((#[trigger] r@[k]), entries@[k]),
        list_roots_sort is MoreRecentLast ==> sorted_more_recent_last(r@) && exists|u: Seq<(GcRootInfo, Project)>, perm: Seq<int>|
            #![trigger stable_permutation(u, r@, perm)]
            u.len() == entries@.len() && (forall|k: int| 0 <= k < u.len() ==> info_of_entry((#[trigger] u[k]), entries@[k]))
                && stable_permutation(u, r@, perm),
{
    let infos = gc_root_infos(entries);
    match list_roots_sort {
        ListRootsSort::NoSorting => infos,
        ListRootsSort::MoreRecentLast => {
            let ghost u = infos@;
            let r = sort_more_recent_last(infos);
            proof {
                let perm = choose|perm: Seq<int>| stable_permutation(u, r@, perm);
                assert(stable_permutation(u, r@, perm));
            }
            r
        },
    }
}

} // verus!
