//! The local mirror writer, verified over an explicit filesystem state.
//!
//! The writer recreates the folder tree and stores every downloaded file
//! under the folder that lists its id, applying the partial-failure policy:
//! under the strict policy any failure aborts the whole traversal, under
//! the permissive policy a failed directory abandons only its subtree and a
//! failed or conflicting file is skipped alone.
//!
//! The filesystem the writer acts on is a value of [`FsModel`]: the
//! directories and files that exist, plus the set of paths at which the
//! host would refuse to create or write. The caller that owns the real
//! directory tree performs on disk exactly the steps this model specifies.

use vstd::prelude::*;

use crate::hierarchy::FolderNode;
use crate::planner::{contains_id, seq_contains_id};
use crate::scheme::{BackupError, RmkFile};
use crate::utils::{join_path, join_under, joined, str_eq, under};

verus! {

/// The mathematical image of a filesystem: existing directories, file
/// contents by path, and the paths where creating or writing fails.
pub ghost struct FsState {
    pub dirs: Set<Seq<char>>,
    pub files: Map<Seq<char>, Seq<u8>>,
    pub fails: Set<Seq<char>>,
}

/// An explicit filesystem state. `fail_paths` holds the paths at which the
/// host refuses directory creation or file writes, so that the policy's
/// reaction to such failures is part of the verified behavior.
pub struct FsModel {
    pub dirs: Vec<String>,
    pub files: Vec<(String, Vec<u8>)>,
    pub fail_paths: Vec<String>,
}

/// The set of path views of a list of paths.
pub open spec fn path_set(paths: Seq<String>) -> Set<Seq<char>> {
    Set::new(|p: Seq<char>| exists|i: int| 0 <= i < paths.len() && paths[i]@ == p)
}

/// The contents map of an association list of files; the head entry wins.
pub open spec fn assoc_files(files: Seq<(String, Vec<u8>)>) -> Map<Seq<char>, Seq<u8>>
    decreases files.len(),
{
    if files.len() == 0 {
        Map::empty()
    } else {
        assoc_files(files.drop_first()).insert(files[0].0@, files[0].1@)
    }
}

impl View for FsModel {
    type V = FsState;

    open spec fn view(&self) -> FsState {
        FsState {
            dirs: path_set(self.dirs@),
            files: assoc_files(self.files@),
            fails: path_set(self.fail_paths@),
        }
    }
}

proof fn lemma_path_set_push(paths: Seq<String>, x: String)
    ensures
        path_set(paths.push(x)) == path_set(paths).insert(x@),
{
    assert forall|q: Seq<char>| path_set(paths.push(x)).contains(q) implies path_set(
        paths,
    ).insert(x@).contains(q) by {
        let i = choose|i: int| 0 <= i < paths.push(x).len() && paths.push(x)[i]@ == q;
        if i < paths.len() {
            assert(paths[i]@ == q);
        } else {
            assert(q == x@);
        }
    };
    assert forall|q: Seq<char>| path_set(paths).insert(x@).contains(q) implies path_set(
        paths.push(x),
    ).contains(q) by {
        if q == x@ {
            assert(paths.push(x)[paths.len() as int]@ == q);
        } else {
            let i = choose|i: int| 0 <= i < paths.len() && paths[i]@ == q;
            assert(paths.push(x)[i]@ == q);
        }
    };
    assert(path_set(paths.push(x)) =~= path_set(paths).insert(x@));
}

proof fn lemma_assoc_first_match(files: Seq<(String, Vec<u8>)>, p: Seq<char>, i: int)
    requires
        0 <= i < files.len(),
        files[i].0@ == p,
        forall|j: int| 0 <= j < i ==> files[j].0@ != p,
    ensures
        assoc_files(files).dom().contains(p),
        assoc_files(files)[p] == files[i].1@,
    decreases files.len(),
{
    if i == 0 {
    } else {
        assert forall|j: int| 0 <= j < i - 1 implies files.drop_first()[j].0@ != p by {
            assert(files.drop_first()[j] == files[j + 1]);
        };
        lemma_assoc_first_match(files.drop_first(), p, i - 1);
    }
}

proof fn lemma_assoc_dom(files: Seq<(String, Vec<u8>)>, p: Seq<char>)
    ensures
        assoc_files(files).dom().contains(p) <==> exists|i: int|
            0 <= i < files.len() && files[i].0@ == p,
    decreases files.len(),
{
    if files.len() > 0 {
        lemma_assoc_dom(files.drop_first(), p);
        if files[0].0@ == p {
        } else if assoc_files(files).dom().contains(p) {
            let i = choose|i: int|
                0 <= i < files.drop_first().len() && files.drop_first()[i].0@ == p;
            assert(files[i + 1].0@ == p);
        } else if exists|i: int| 0 <= i < files.len() && files[i].0@ == p {
            let i = choose|i: int| 0 <= i < files.len() && files[i].0@ == p;
            assert(files.drop_first()[i - 1].0@ == p);
        }
    }
}

/// Whether a path occurs in a list of paths.
fn path_in(paths: &Vec<String>, p: &str) -> (r: bool)
    ensures
        r == path_set(paths@).contains(p@),
{
    let mut i: usize = 0;
    while i < paths.len()
        invariant
            i <= paths@.len(),
            forall|j: int| 0 <= j < i ==> paths@[j]@ != p@,
        decreases paths@.len() - i,
    {
        if str_eq(paths[i].as_str(), p) {
            return true;
        }
        i = i + 1;
    }
    false
}

/// One file write against a filesystem state: refused at a failing path,
/// refused on a conflict unless overwriting is allowed, stored otherwise.
pub open spec fn write_one(st: FsState, fpath: Seq<char>, bytes: Seq<u8>, override_mode: bool) -> (
    FsState,
    bool,
) {
    if st.fails.contains(fpath) {
        (st, false)
    } else if !override_mode && st.files.dom().contains(fpath) {
        (st, false)
    } else {
        (FsState { files: st.files.insert(fpath, bytes), ..st }, true)
    }
}

/// Conflict safety: without override mode, a write to a path that already
/// holds a file fails and leaves the filesystem state unchanged, whatever
/// bytes were offered.
pub proof fn lemma_conflict_safety(st: FsState, fpath: Seq<char>, bytes: Seq<u8>)
    requires
        st.files.dom().contains(fpath),
    ensures
        write_one(st, fpath, bytes, false) == (st, false),
{
}

/// The writes of the documents directly inside one folder, in file-pool
/// order: every file whose id the folder lists goes under the folder's
/// directory. A failed write aborts under the strict policy and is skipped
/// under the permissive one.
pub open spec fn write_level(
    files: Seq<RmkFile>,
    files_id: Seq<String>,
    curr: Seq<char>,
    udp: bool,
    ovr: bool,
    st: FsState,
) -> (FsState, bool)
    decreases files.len(),
{
    if files.len() == 0 {
        (st, true)
    } else {
        let f = files[0];
        if seq_contains_id(files_id, f.0@) {
            let (st1, ok) = write_one(st, under(curr, f.1@), f.2@, ovr);
            if ok || udp {
                write_level(files.drop_first(), files_id, curr, udp, ovr, st1)
            } else {
                (st1, false)
            }
        } else {
            write_level(files.drop_first(), files_id, curr, udp, ovr, st)
        }
    }
}

/// The traversal of one folder: ensure its directory, write its files,
/// then its children. A directory that cannot be created abandons the
/// subtree: fatally under the strict policy, silently under the permissive
/// one.
pub open spec fn write_folder(
    node: FolderNode,
    files: Seq<RmkFile>,
    path: Seq<char>,
    udp: bool,
    ovr: bool,
    st: FsState,
) -> (FsState, bool)
    decreases node, 1int,
{
    let curr = joined(path, node.name@);
    if !st.dirs.contains(curr) && st.fails.contains(curr) {
        (st, udp)
    } else {
        let st0 = if st.dirs.contains(curr) {
            st
        } else {
            FsState { dirs: st.dirs.insert(curr), ..st }
        };
        let (st1, ok1) = write_level(files, node.files_id@, curr, udp, ovr, st0);
        if ok1 || udp {
            write_children(node.subfolders@, files, curr, udp, ovr, st1)
        } else {
            (st1, false)
        }
    }
}

/// The traversals of a row of sibling folders, each starting from the
/// state its predecessor left.
pub open spec fn write_children(
    nodes: Seq<FolderNode>,
    files: Seq<RmkFile>,
    path: Seq<char>,
    udp: bool,
    ovr: bool,
    st: FsState,
) -> (FsState, bool)
    decreases nodes, 0int,
{
    if nodes.len() == 0 {
        (st, true)
    } else {
        let (st1, ok) = write_folder(nodes[0], files, path, udp, ovr, st);
        if ok || udp {
            write_children(nodes.drop_first(), files, path, udp, ovr, st1)
        } else {
            (st1, false)
        }
    }
}

impl FsModel {
    /// An empty filesystem with no failing paths.
    pub fn new() -> (r: FsModel)
        ensures
            r@.dirs == Set::<Seq<char>>::empty(),
            r@.files == Map::<Seq<char>, Seq<u8>>::empty(),
            r@.fails == Set::<Seq<char>>::empty(),
    {
        let r = FsModel { dirs: Vec::new(), files: Vec::new(), fail_paths: Vec::new() };
        proof {
            assert(r@.dirs =~= Set::<Seq<char>>::empty());
            assert(r@.fails =~= Set::<Seq<char>>::empty());
        }
        r
    }

    /// Whether a directory exists at this path.
    pub fn has_dir(&self, p: &str) -> (r: bool)
        ensures
            r == self@.dirs.contains(p@),
    {
        path_in(&self.dirs, p)
    }

    /// The bytes of the file at this path, if one exists.
    pub fn read_file(&self, p: &str) -> (r: Option<&Vec<u8>>)
        ensures
            match r {
                Some(b) => self@.files.dom().contains(p@) && self@.files[p@] == b@,
                None => !self@.files.dom().contains(p@),
            },
    {
        let ghost fv = self.files@;
        let mut i: usize = 0;
        while i < self.files.len()
            invariant
                i <= fv.len(),
                fv == self.files@,
                forall|j: int| 0 <= j < i ==> fv[j].0@ != p@,
            decreases fv.len() - i,
        {
            if str_eq(self.files[i].0.as_str(), p) {
                proof {
                    lemma_assoc_first_match(fv, p@, i as int);
                }
                return Some(&self.files[i].1);
            }
            i = i + 1;
        }
        proof {
            lemma_assoc_dom(fv, p@);
        }
        None
    }

    /// Marks a directory as existing. Fails, changing nothing, at a path
    /// the host refuses.
    pub fn create_dir(&mut self, p: &str) -> (r: Result<(), BackupError>)
        ensures
            final(self)@.files == old(self)@.files,
            final(self)@.fails == old(self)@.fails,
            r is Err <==> old(self)@.fails.contains(p@),
            r is Err ==> r->Err_0 == BackupError::FilesystemError && final(self)@.dirs == old(
                self,
            )@.dirs,
            r is Ok ==> final(self)@.dirs == old(self)@.dirs.insert(p@),
    {
        if path_in(&self.fail_paths, p) {
            return Err(BackupError::FilesystemError);
        }
        let ghost before = self.dirs@;
        self.dirs.push(p.to_owned());
        proof {
            lemma_path_set_push(before, self.dirs@[before.len() as int]);
        }
        Ok(())
    }

    /// Stores bytes at a path as [`write_one`] specifies: a failing path or
    /// a conflict without override mode refuses the write and leaves every
    /// file, including the one already at the path, unchanged.
    #[verifier::loop_isolation(false)]
    pub fn write_file(&mut self, p: &str, bytes: &Vec<u8>, override_mode: bool) -> (r: Result<
        (),
        BackupError,
    >)
        ensures
            ({
                let (st, ok) = write_one(old(self)@, p@, bytes@, override_mode);
                &&& final(self)@ == st
                &&& r is Ok <==> ok
                &&& r is Err ==> r->Err_0 == BackupError::FilesystemError
            }),
    {
        if path_in(&self.fail_paths, p) {
            return Err(BackupError::FilesystemError);
        }
        if !override_mode {
            let mut i: usize = 0;
            while i < self.files.len()
                invariant
                    i <= self.files@.len(),
                    self.files@ == old(self).files@,
                    forall|j: int| 0 <= j < i ==> self.files@[j].0@ != p@,
                decreases self.files@.len() - i,
            {
                if str_eq(self.files[i].0.as_str(), p) {
                    proof {
                        lemma_assoc_first_match(self.files@, p@, i as int);
                    }
                    return Err(BackupError::FilesystemError);
                }
                i = i + 1;
            }
            proof {
                lemma_assoc_dom(self.files@, p@);
            }
        }
        let ghost before = self.files@;
        let copied = vstd::slice::slice_to_vec(bytes.as_slice());
        self.files.insert(0, (p.to_owned(), copied));
        proof {
            assert(self.files@.drop_first() =~= before);
            if override_mode {
                lemma_assoc_dom(before, p@);
            }
        }
        Ok(())
    }
}

/// Recreates the folder tree rooted at this node under the given path and
/// writes every downloaded file into the folder that lists its id, exactly
/// as [`write_folder`] specifies on the filesystem state.
pub fn copy_to_localfs(
    folder_hierarchy: &FolderNode,
    files: &Vec<RmkFile>,
    path: &str,
    udp_mode: bool,
    override_mode: bool,
    fs: &mut FsModel,
) -> (r: Result<(), BackupError>)
    ensures
        ({
            let (st, ok) = write_folder(
                *folder_hierarchy,
                files@,
                path@,
                udp_mode,
                override_mode,
                old(fs)@,
            );
            &&& final(fs)@ == st
            &&& r is Ok <==> ok
            &&& r is Err ==> r->Err_0 == BackupError::FilesystemError
        }),
    decreases *folder_hierarchy,
{
    let curr = join_path(path, folder_hierarchy.name.as_str());
    if !fs.has_dir(curr.as_str()) {
        match fs.create_dir(curr.as_str()) {
            Err(e) => {
                if udp_mode {
                    return Ok(());
                } else {
                    return Err(e);
                }
            },
            Ok(()) => {},
        }
    }
    let ghost st0 = fs@;
    let ghost whole = write_folder(
        *folder_hierarchy,
        files@,
        path@,
        udp_mode,
        override_mode,
        old(fs)@,
    );

    let mut k: usize = 0;
    proof {
        assert(files@.skip(0) =~= files@);
    }
    while k < files.len()
        invariant
            k <= files@.len(),
            curr@ == joined(path@, folder_hierarchy.name@),
            whole == write_folder(
                *folder_hierarchy,
                files@,
                path@,
                udp_mode,
                override_mode,
                old(fs)@,
            ),
            whole == ({
                let (st1, ok1) = write_level(
                    files@,
                    folder_hierarchy.files_id@,
                    curr@,
                    udp_mode,
                    override_mode,
                    st0,
                );
                if ok1 || udp_mode {
                    write_children(
                        folder_hierarchy.subfolders@,
                        files@,
                        curr@,
                        udp_mode,
                        override_mode,
                        st1,
                    )
                } else {
                    (st1, false)
                }
            }),
            write_level(files@, folder_hierarchy.files_id@, curr@, udp_mode, override_mode, st0)
                == write_level(
                files@.skip(k as int),
                folder_hierarchy.files_id@,
                curr@,
                udp_mode,
                override_mode,
                fs@,
            ),
        decreases files@.len() - k,
    {
        proof {
            assert(files@.skip(k as int).drop_first() =~= files@.skip(k + 1));
            assert(files@.skip(k as int)[0] == files@[k as int]);
        }
        if contains_id(&folder_hierarchy.files_id, files[k].0.as_str()) {
            let fpath = join_under(curr.as_str(), files[k].1.as_str());
            match fs.write_file(fpath.as_str(), &files[k].2, override_mode) {
                Ok(()) => {},
                Err(e) => {
                    if !udp_mode {
                        return Err(e);
                    }
                },
            }
        }
        k = k + 1;
    }
    proof {
        assert(files@.skip(files@.len() as int) =~= Seq::<RmkFile>::empty());
    }

    let ghost mid = fs@;
    let mut ci: usize = 0;
    proof {
        assert(folder_hierarchy.subfolders@.skip(0) =~= folder_hierarchy.subfolders@);
    }
    while ci < folder_hierarchy.subfolders.len()
        invariant
            ci <= folder_hierarchy.subfolders@.len(),
            curr@ == joined(path@, folder_hierarchy.name@),
            whole == write_folder(
                *folder_hierarchy,
                files@,
                path@,
                udp_mode,
                override_mode,
                old(fs)@,
            ),
            whole == write_children(
                folder_hierarchy.subfolders@,
                files@,
                curr@,
                udp_mode,
                override_mode,
                mid,
            ),
            write_children(
                folder_hierarchy.subfolders@,
                files@,
                curr@,
                udp_mode,
                override_mode,
                mid,
            ) == write_children(
                folder_hierarchy.subfolders@.skip(ci as int),
                files@,
                curr@,
                udp_mode,
                override_mode,
                fs@,
            ),
        decreases folder_hierarchy.subfolders@.len() - ci,
    {
        proof {
            assert(folder_hierarchy.subfolders@.skip(ci as int).drop_first()
                =~= folder_hierarchy.subfolders@.skip(ci + 1));
            assert(folder_hierarchy.subfolders@.skip(ci as int)[0]
                == folder_hierarchy.subfolders@[ci as int]);
            assert(decreases_to!(*folder_hierarchy => folder_hierarchy.subfolders@[ci as int]));
        }
        match copy_to_localfs(
            &folder_hierarchy.subfolders[ci],
            files,
            curr.as_str(),
            udp_mode,
            override_mode,
            fs,
        ) {
            Ok(()) => {},
            Err(e) => {
                if !udp_mode {
                    return Err(e);
                }
            },
        }
        ci = ci + 1;
    }
    proof {
        assert(folder_hierarchy.subfolders@.skip(folder_hierarchy.subfolders@.len() as int)
            =~= Seq::<FolderNode>::empty());
    }
    Ok(())
}

} // verus!
