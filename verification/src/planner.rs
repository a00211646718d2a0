//! The sync planner: which documents need downloading.
//!
//! Full mode takes every document of the flat list. Smart mode walks the
//! folder tree and compares, per document, the elapsed time since the
//! remote modification against the elapsed time since the local mirror
//! file's modification, erring toward re-downloading whenever a timestamp
//! is unparsable or a local file or directory is missing.
//!
//! The library never touches the local filesystem itself: the caller probes
//! the mirror directories and files and hands the findings in as a
//! [`MirrorSnapshot`], together with the current instant in milliseconds.

use vstd::prelude::*;
use vstd::string::*;

use crate::hierarchy::{FolderNode, RemarkableFSHierarchy};
use crate::scheme::{DocType, RmkDocument, RmkDocuments};
use crate::utils::{ensure_file_extension, join_path, join_under, joined, str_eq, under, with_pdf_ext};

verus! {

/// What the caller found on the local mirror: the directories that exist,
/// and for each readable mirror file its path and the elapsed time since
/// its modification, in milliseconds. A file that is missing or unreadable
/// is simply absent.
pub struct MirrorSnapshot {
    pub dirs: Vec<String>,
    pub files: Vec<(String, u64)>,
}

/// The instant a remote modification timestamp denotes, in non-leap
/// milliseconds since the Unix epoch, or nothing when the text is not a
/// well-formed timestamp. The instant is a function of the characters
/// alone.
pub uninterp spec fn parse_rfc3339_millis(s: Seq<char>) -> Option<i64>;

/// Relies on chrono's `DateTime::<Local>::from_str` together with
/// `DateTime::timestamp_millis`: `from_str` accepts a relaxed RFC 3339 form
/// carrying its own offset and converts to the local zone without moving
/// the instant, and `timestamp_millis` returns that instant in non-leap
/// milliseconds since the Unix epoch; so the outcome depends on the
/// characters of the input alone.
#[verifier::external_body]
pub(crate) fn parse_modified_millis(s: &str) -> (r: Option<i64>)
    ensures
        r == parse_rfc3339_millis(s@),
{
    match <chrono::DateTime<chrono::Local> as core::str::FromStr>::from_str(s) {
        Ok(d) => Some(d.timestamp_millis()),
        Err(_) => None,
    }
}

/// Whether the snapshot saw a directory at this path.
pub open spec fn snapshot_has_dir(snap: MirrorSnapshot, p: Seq<char>) -> bool {
    exists|i: int| 0 <= i < snap.dirs@.len() && snap.dirs@[i]@ == p
}

/// The recorded elapsed time of the mirror file at this path: the first
/// matching entry decides.
pub open spec fn snapshot_file_elapsed(files: Seq<(String, u64)>, p: Seq<char>) -> Option<u64>
    decreases files.len(),
{
    if files.len() == 0 {
        None
    } else if files[0].0@ == p {
        Some(files[0].1)
    } else {
        snapshot_file_elapsed(files.drop_first(), p)
    }
}

/// Whether a sequence of ids contains the given id.
pub open spec fn seq_contains_id(ids: Seq<String>, id: Seq<char>) -> bool {
    exists|i: int| 0 <= i < ids.len() && ids[i]@ == id
}

/// The decision for one document of a folder whose directory exists: the
/// document is due for download unless its remote timestamp parses, the
/// elapsed time since then is well-defined and non-negative, the mirror
/// file was seen, and the remote modification is strictly older than the
/// local one.
pub open spec fn stale_check(d: RmkDocument, dir: Seq<char>, snap: MirrorSnapshot, now: i64) -> bool {
    match parse_rfc3339_millis(d.modified_client@) {
        None => true,
        Some(rm) => if now - rm < 0 || now - rm > i64::MAX {
            true
        } else {
            match snapshot_file_elapsed(snap.files@, under(dir, with_pdf_ext(d.vissible_name@))) {
                None => true,
                Some(le) => now - rm <= le,
            }
        },
    }
}

/// The full-mode plan: every document of the flat list, with its name
/// normalized, in list order.
pub open spec fn full_plan(docs: Seq<RmkDocument>) -> Seq<(Seq<char>, Seq<char>)>
    decreases docs.len(),
{
    if docs.len() == 0 {
        Seq::empty()
    } else {
        let rest = full_plan(docs.drop_first());
        if docs[0].doc_type == DocType::DocumentType {
            seq![(docs[0].id@, with_pdf_ext(docs[0].vissible_name@))] + rest
        } else {
            rest
        }
    }
}

/// The entries contributed by the documents directly inside one folder:
/// the documents of the flat list whose id the folder holds, each included
/// unconditionally when the whole folder is forced, and by [`stale_check`]
/// otherwise.
pub open spec fn smart_level(
    docs: Seq<RmkDocument>,
    files_id: Seq<String>,
    dir: Seq<char>,
    snap: MirrorSnapshot,
    now: i64,
    add_all: bool,
) -> Seq<(Seq<char>, Seq<char>)>
    decreases docs.len(),
{
    if docs.len() == 0 {
        Seq::empty()
    } else {
        let rest = smart_level(docs.drop_first(), files_id, dir, snap, now, add_all);
        let d = docs[0];
        if d.doc_type == DocType::DocumentType && seq_contains_id(files_id, d.id@) && (add_all
            || stale_check(d, dir, snap, now)) {
            seq![(d.id@, with_pdf_ext(d.vissible_name@))] + rest
        } else {
            rest
        }
    }
}

/// The smart-mode plan of the subtree rooted at this folder. A folder whose
/// local directory is missing, or that a parent already forced, contributes
/// every document of its subtree.
pub open spec fn smart_plan_folder(
    node: FolderNode,
    docs: Seq<RmkDocument>,
    snap: MirrorSnapshot,
    path: Seq<char>,
    add_all: bool,
    now: i64,
) -> Seq<(Seq<char>, Seq<char>)>
    decreases node, 1int,
{
    let curr = joined(path, node.name@);
    let force = add_all || !snapshot_has_dir(snap, curr);
    smart_level(docs, node.files_id@, curr, snap, now, force) + smart_plan_children(
        node.subfolders@,
        docs,
        snap,
        curr,
        force,
        now,
    )
}

/// The concatenated smart-mode plans of a row of sibling folders.
pub open spec fn smart_plan_children(
    nodes: Seq<FolderNode>,
    docs: Seq<RmkDocument>,
    snap: MirrorSnapshot,
    path: Seq<char>,
    add_all: bool,
    now: i64,
) -> Seq<(Seq<char>, Seq<char>)>
    decreases nodes, 0int,
{
    if nodes.len() == 0 {
        Seq::empty()
    } else {
        smart_plan_folder(nodes[0], docs, snap, path, add_all, now) + smart_plan_children(
            nodes.drop_first(),
            docs,
            snap,
            path,
            add_all,
            now,
        )
    }
}

/// The whole plan: the full-mode list, or the smart-mode walk starting
/// unforced at the hierarchy root.
pub open spec fn plan_spec(
    h: RemarkableFSHierarchy,
    snap: MirrorSnapshot,
    out_path: Seq<char>,
    smart_mode: bool,
    now: i64,
) -> Seq<(Seq<char>, Seq<char>)> {
    if smart_mode {
        smart_plan_folder(h.folder_hierarchy, h.all_docs@, snap, out_path, false, now)
    } else {
        full_plan(h.all_docs@)
    }
}

/// Whether the id is listed by this folder or any folder below it.
pub open spec fn subtree_contains_id(node: FolderNode, id: Seq<char>) -> bool
    decreases node,
{
    seq_contains_id(node.files_id@, id) || exists|c: int|
        0 <= c < node.subfolders@.len() && subtree_contains_id(node.subfolders@[c], id)
}

proof fn lemma_contains_left<A>(x: Seq<A>, y: Seq<A>, e: A)
    requires
        x.contains(e),
    ensures
        (x + y).contains(e),
{
    let i = choose|i: int| 0 <= i < x.len() && x[i] == e;
    assert((x + y)[i] == e);
}

proof fn lemma_contains_right<A>(x: Seq<A>, y: Seq<A>, e: A)
    requires
        y.contains(e),
    ensures
        (x + y).contains(e),
{
    let i = choose|i: int| 0 <= i < y.len() && y[i] == e;
    assert((x + y)[x.len() + i] == e);
}

proof fn lemma_smart_level_includes(
    docs: Seq<RmkDocument>,
    files_id: Seq<String>,
    dir: Seq<char>,
    snap: MirrorSnapshot,
    now: i64,
    add_all: bool,
    i: int,
)
    requires
        0 <= i < docs.len(),
        docs[i].doc_type == DocType::DocumentType,
        seq_contains_id(files_id, docs[i].id@),
        add_all || stale_check(docs[i], dir, snap, now),
    ensures
        smart_level(docs, files_id, dir, snap, now, add_all).contains(
            (docs[i].id@, with_pdf_ext(docs[i].vissible_name@)),
        ),
    decreases docs.len(),
{
    let entry = (docs[i].id@, with_pdf_ext(docs[i].vissible_name@));
    let rest = smart_level(docs.drop_first(), files_id, dir, snap, now, add_all);
    if i == 0 {
        assert((seq![entry] + rest)[0] == entry);
    } else {
        lemma_smart_level_includes(docs.drop_first(), files_id, dir, snap, now, add_all, i - 1);
        let d = docs[0];
        if d.doc_type == DocType::DocumentType && seq_contains_id(files_id, d.id@) && (add_all
            || stale_check(d, dir, snap, now)) {
            let head = (d.id@, with_pdf_ext(d.vissible_name@));
            lemma_contains_right(seq![head], rest, entry);
        }
    }
}

proof fn lemma_children_include(
    nodes: Seq<FolderNode>,
    docs: Seq<RmkDocument>,
    snap: MirrorSnapshot,
    path: Seq<char>,
    add_all: bool,
    now: i64,
    c: int,
    entry: (Seq<char>, Seq<char>),
)
    requires
        0 <= c < nodes.len(),
        smart_plan_folder(nodes[c], docs, snap, path, add_all, now).contains(entry),
    ensures
        smart_plan_children(nodes, docs, snap, path, add_all, now).contains(entry),
    decreases nodes.len(),
{
    let head = smart_plan_folder(nodes[0], docs, snap, path, add_all, now);
    let rest = smart_plan_children(nodes.drop_first(), docs, snap, path, add_all, now);
    if c == 0 {
        lemma_contains_left(head, rest, entry);
    } else {
        lemma_children_include(nodes.drop_first(), docs, snap, path, add_all, now, c - 1, entry);
        lemma_contains_right(head, rest, entry);
    }
}

/// Conservatism: a document whose remote modification timestamp does not
/// parse is always part of the smart-mode plan of any subtree whose
/// folders list its id, whatever the mirror looks like.
pub proof fn lemma_conservatism(
    node: FolderNode,
    docs: Seq<RmkDocument>,
    snap: MirrorSnapshot,
    path: Seq<char>,
    add_all: bool,
    now: i64,
    i: int,
)
    requires
        0 <= i < docs.len(),
        docs[i].doc_type == DocType::DocumentType,
        parse_rfc3339_millis(docs[i].modified_client@) is None,
        subtree_contains_id(node, docs[i].id@),
    ensures
        smart_plan_folder(node, docs, snap, path, add_all, now).contains(
            (docs[i].id@, with_pdf_ext(docs[i].vissible_name@)),
        ),
    decreases node,
{
    let entry = (docs[i].id@, with_pdf_ext(docs[i].vissible_name@));
    let curr = joined(path, node.name@);
    let force = add_all || !snapshot_has_dir(snap, curr);
    let level = smart_level(docs, node.files_id@, curr, snap, now, force);
    let children = smart_plan_children(node.subfolders@, docs, snap, curr, force, now);
    if seq_contains_id(node.files_id@, docs[i].id@) {
        lemma_smart_level_includes(docs, node.files_id@, curr, snap, now, force, i);
        lemma_contains_left(level, children, entry);
    } else {
        let c = choose|c: int|
            0 <= c < node.subfolders@.len() && subtree_contains_id(
                node.subfolders@[c],
                docs[i].id@,
            );
        lemma_conservatism(node.subfolders@[c], docs, snap, curr, force, now, i);
        lemma_children_include(node.subfolders@, docs, snap, curr, force, now, c, entry);
        lemma_contains_right(level, children, entry);
    }
}

/// Force-all propagation: when a folder's local directory is missing, or a
/// parent already forced the subtree, every document listed anywhere in
/// the subtree is planned, irrespective of individual timestamps.
pub proof fn lemma_force_all(
    node: FolderNode,
    docs: Seq<RmkDocument>,
    snap: MirrorSnapshot,
    path: Seq<char>,
    add_all: bool,
    now: i64,
    i: int,
)
    requires
        0 <= i < docs.len(),
        docs[i].doc_type == DocType::DocumentType,
        subtree_contains_id(node, docs[i].id@),
        add_all || !snapshot_has_dir(snap, joined(path, node.name@)),
    ensures
        smart_plan_folder(node, docs, snap, path, add_all, now).contains(
            (docs[i].id@, with_pdf_ext(docs[i].vissible_name@)),
        ),
    decreases node,
{
    let entry = (docs[i].id@, with_pdf_ext(docs[i].vissible_name@));
    let curr = joined(path, node.name@);
    let force = add_all || !snapshot_has_dir(snap, curr);
    let level = smart_level(docs, node.files_id@, curr, snap, now, force);
    let children = smart_plan_children(node.subfolders@, docs, snap, curr, force, now);
    if seq_contains_id(node.files_id@, docs[i].id@) {
        lemma_smart_level_includes(docs, node.files_id@, curr, snap, now, force, i);
        lemma_contains_left(level, children, entry);
    } else {
        let c = choose|c: int|
            0 <= c < node.subfolders@.len() && subtree_contains_id(
                node.subfolders@[c],
                docs[i].id@,
            );
        lemma_force_all(node.subfolders@[c], docs, snap, curr, force, now, i);
        lemma_children_include(node.subfolders@, docs, snap, curr, force, now, c, entry);
        lemma_contains_right(level, children, entry);
    }
}

/// The mirror as it looks immediately after a successful backup of this
/// subtree: every folder's directory exists, and every listed document's
/// timestamp parses to an instant strictly before `now` with its mirror
/// file modified more recently than that.
pub open spec fn mirror_fresh(
    node: FolderNode,
    docs: Seq<RmkDocument>,
    snap: MirrorSnapshot,
    path: Seq<char>,
    now: i64,
) -> bool
    decreases node,
{
    let curr = joined(path, node.name@);
    &&& snapshot_has_dir(snap, curr)
    &&& forall|i: int|
        #![auto]
        0 <= i < docs.len() && docs[i].doc_type == DocType::DocumentType && seq_contains_id(
            node.files_id@,
            docs[i].id@,
        ) ==> !stale_check(docs[i], curr, snap, now)
    &&& forall|c: int|
        #![auto]
        0 <= c < node.subfolders@.len() ==> mirror_fresh(node.subfolders@[c], docs, snap, curr, now)
}

proof fn lemma_smart_level_empty(
    docs: Seq<RmkDocument>,
    files_id: Seq<String>,
    dir: Seq<char>,
    snap: MirrorSnapshot,
    now: i64,
)
    requires
        forall|i: int|
            #![auto]
            0 <= i < docs.len() && docs[i].doc_type == DocType::DocumentType && seq_contains_id(
                files_id,
                docs[i].id@,
            ) ==> !stale_check(docs[i], dir, snap, now),
    ensures
        smart_level(docs, files_id, dir, snap, now, false) == Seq::<(Seq<char>, Seq<char>)>::empty(),
    decreases docs.len(),
{
    if docs.len() > 0 {
        assert forall|i: int|
            0 <= i < docs.drop_first().len() && docs.drop_first()[i].doc_type
                == DocType::DocumentType && seq_contains_id(
                files_id,
                docs.drop_first()[i].id@,
            ) implies !stale_check(docs.drop_first()[i], dir, snap, now) by {
            assert(docs.drop_first()[i] == docs[i + 1]);
        };
        lemma_smart_level_empty(docs.drop_first(), files_id, dir, snap, now);
        assert(!(docs[0].doc_type == DocType::DocumentType && seq_contains_id(
            files_id,
            docs[0].id@,
        ) && (false || stale_check(docs[0], dir, snap, now))));
    }
}

proof fn lemma_children_fresh_empty(
    nodes: Seq<FolderNode>,
    docs: Seq<RmkDocument>,
    snap: MirrorSnapshot,
    path: Seq<char>,
    now: i64,
)
    requires
        forall|c: int| #![auto] 0 <= c < nodes.len() ==> mirror_fresh(nodes[c], docs, snap, path, now),
    ensures
        smart_plan_children(nodes, docs, snap, path, false, now) == Seq::<
            (Seq<char>, Seq<char>),
        >::empty(),
    decreases nodes, 0int,
{
    if nodes.len() > 0 {
        lemma_plan_idempotent(nodes[0], docs, snap, path, now);
        assert forall|c: int|
            0 <= c < nodes.drop_first().len() implies mirror_fresh(
            nodes.drop_first()[c],
            docs,
            snap,
            path,
            now,
        ) by {
            assert(nodes.drop_first()[c] == nodes[c + 1]);
        };
        lemma_children_fresh_empty(nodes.drop_first(), docs, snap, path, now);
        assert(Seq::<(Seq<char>, Seq<char>)>::empty() + Seq::<(Seq<char>, Seq<char>)>::empty()
            =~= Seq::<(Seq<char>, Seq<char>)>::empty());
    }
}

/// Idempotence: on a mirror that looks exactly as a just-finished
/// successful backup left it, the smart-mode plan is empty.
pub proof fn lemma_plan_idempotent(
    node: FolderNode,
    docs: Seq<RmkDocument>,
    snap: MirrorSnapshot,
    path: Seq<char>,
    now: i64,
)
    requires
        mirror_fresh(node, docs, snap, path, now),
    ensures
        smart_plan_folder(node, docs, snap, path, false, now) == Seq::<
            (Seq<char>, Seq<char>),
        >::empty(),
    decreases node, 1int,
{
    let curr = joined(path, node.name@);
    lemma_smart_level_empty(docs, node.files_id@, curr, snap, now);
    lemma_children_fresh_empty(node.subfolders@, docs, snap, curr, now);
    assert(Seq::<(Seq<char>, Seq<char>)>::empty() + Seq::<(Seq<char>, Seq<char>)>::empty()
        =~= Seq::<(Seq<char>, Seq<char>)>::empty());
}

/// Completeness: the full-mode plan carries exactly the ids whose document
/// type is Document, in flat-list order, regardless of nesting depth.
pub proof fn lemma_full_mode_completeness(docs: Seq<RmkDocument>)
    ensures
        full_plan(docs).map_values(|e: (Seq<char>, Seq<char>)| e.0) == crate::hierarchy::level_doc_ids(
            docs,
        ),
    decreases docs.len(),
{
    if docs.len() == 0 {
        assert(full_plan(docs).map_values(|e: (Seq<char>, Seq<char>)| e.0) =~= crate::hierarchy::level_doc_ids(
            docs,
        ));
    } else {
        lemma_full_mode_completeness(docs.drop_first());
        let rest = full_plan(docs.drop_first());
        let rest_ids = crate::hierarchy::level_doc_ids(docs.drop_first());
        if docs[0].doc_type == DocType::DocumentType {
            let entry = (docs[0].id@, with_pdf_ext(docs[0].vissible_name@));
            assert((seq![entry] + rest).map_values(|e: (Seq<char>, Seq<char>)| e.0)
                =~= seq![docs[0].id@] + rest_ids);
        } else {
            assert(full_plan(docs) == rest);
        }
    }
}

/// Looks a directory path up in the snapshot.
fn has_dir(snap: &MirrorSnapshot, p: &str) -> (r: bool)
    ensures
        r == snapshot_has_dir(*snap, p@),
{
    let mut i: usize = 0;
    while i < snap.dirs.len()
        invariant
            i <= snap.dirs@.len(),
            forall|j: int| 0 <= j < i ==> snap.dirs@[j]@ != p@,
        decreases snap.dirs@.len() - i,
    {
        if str_eq(snap.dirs[i].as_str(), p) {
            return true;
        }
        i = i + 1;
    }
    false
}

/// Looks a mirror file path up in the snapshot.
fn file_elapsed(snap: &MirrorSnapshot, p: &str) -> (r: Option<u64>)
    ensures
        r == snapshot_file_elapsed(snap.files@, p@),
{
    let mut i: usize = 0;
    proof {
        assert(snap.files@.skip(0) =~= snap.files@);
    }
    while i < snap.files.len()
        invariant
            i <= snap.files@.len(),
            snapshot_file_elapsed(snap.files@, p@) == snapshot_file_elapsed(
                snap.files@.skip(i as int),
                p@,
            ),
        decreases snap.files@.len() - i,
    {
        proof {
            assert(snap.files@.skip(i as int).drop_first() =~= snap.files@.skip(i + 1));
            assert(snap.files@.skip(i as int)[0] == snap.files@[i as int]);
        }
        if str_eq(snap.files[i].0.as_str(), p) {
            return Some(snap.files[i].1);
        }
        i = i + 1;
    }
    proof {
        assert(snap.files@.skip(snap.files@.len() as int) =~= Seq::<(String, u64)>::empty());
    }
    None
}

/// Whether a folder's id list holds the given id.
pub fn contains_id(ids: &Vec<String>, id: &str) -> (r: bool)
    ensures
        r == seq_contains_id(ids@, id@),
{
    let mut i: usize = 0;
    while i < ids.len()
        invariant
            i <= ids@.len(),
            forall|j: int| 0 <= j < i ==> ids@[j]@ != id@,
        decreases ids@.len() - i,
    {
        if str_eq(ids[i].as_str(), id) {
            return true;
        }
        i = i + 1;
    }
    false
}

/// Decides one document of a folder whose directory exists.
fn doc_included(d: &RmkDocument, dir: &str, mirror: &MirrorSnapshot, now_ms: i64) -> (r: bool)
    ensures
        r == stale_check(*d, dir@, *mirror, now_ms),
{
    match parse_modified_millis(d.modified_client.as_str()) {
        None => true,
        Some(rm) => match now_ms.checked_sub(rm) {
            None => true,
            Some(diff) => if diff < 0 {
                true
            } else {
                let name = ensure_file_extension(d.vissible_name.as_str());
                let fpath = join_under(dir, name.as_str());
                match file_elapsed(mirror, fpath.as_str()) {
                    None => true,
                    Some(le) => (diff as u64) <= le,
                }
            },
        },
    }
}

/// The smart-mode walk of one folder: collects this folder's due documents,
/// then appends each child folder's plan, forcing the whole subtree when
/// this folder's directory is missing.
pub fn compare_files_time(
    folder_hierarchy: &FolderNode,
    files: &RmkDocuments,
    path: &str,
    add_all: bool,
    mirror: &MirrorSnapshot,
    now_ms: i64,
) -> (r: Vec<(String, String)>)
    ensures
        r.deep_view() == smart_plan_folder(
            *folder_hierarchy,
            files@,
            *mirror,
            path@,
            add_all,
            now_ms,
        ),
    decreases *folder_hierarchy,
{
    let curr = join_path(path, folder_hierarchy.name.as_str());
    let force = add_all || !has_dir(mirror, curr.as_str());
    let ghost docs = files@;
    let ghost snap = *mirror;

    let mut result: Vec<(String, String)> = Vec::new();
    let mut j: usize = 0;
    proof {
        assert(docs.skip(0) =~= docs);
    }
    while j < files.len()
        invariant
            j <= docs.len(),
            docs == files@,
            snap == *mirror,
            curr@ == joined(path@, folder_hierarchy.name@),
            smart_level(docs, folder_hierarchy.files_id@, curr@, snap, now_ms, force)
                == result.deep_view() + smart_level(
                docs.skip(j as int),
                folder_hierarchy.files_id@,
                curr@,
                snap,
                now_ms,
                force,
            ),
        decreases docs.len() - j,
    {
        proof {
            assert(docs.skip(j as int).drop_first() =~= docs.skip(j + 1));
            assert(docs.skip(j as int)[0] == docs[j as int]);
        }
        let d = &files[j];
        let ghost prev = result.deep_view();
        let is_doc = matches!(d.doc_type, DocType::DocumentType);
        if is_doc && contains_id(&folder_hierarchy.files_id, d.id.as_str()) && (force
            || doc_included(d, curr.as_str(), mirror, now_ms)) {
            let name = ensure_file_extension(d.vissible_name.as_str());
            result.push((d.id.clone(), name));
            proof {
                let entry = (docs[j as int].id@, with_pdf_ext(docs[j as int].vissible_name@));
                assert(result.deep_view() =~= prev.push(entry));
                assert(prev + seq![entry] + smart_level(
                    docs.skip(j + 1),
                    folder_hierarchy.files_id@,
                    curr@,
                    snap,
                    now_ms,
                    force,
                ) =~= prev + (seq![entry] + smart_level(
                    docs.skip(j + 1),
                    folder_hierarchy.files_id@,
                    curr@,
                    snap,
                    now_ms,
                    force,
                )));
                assert(result.deep_view() =~= prev + seq![entry]);
            }
        }
        j = j + 1;
    }
    proof {
        assert(docs.skip(docs.len() as int) =~= Seq::<RmkDocument>::empty());
        assert(result.deep_view() + Seq::<(Seq<char>, Seq<char>)>::empty() =~= result.deep_view());
    }

    let ghost subs = folder_hierarchy.subfolders@;
    let ghost level_part = result.deep_view();
    let mut ci: usize = 0;
    proof {
        assert(subs.skip(0) =~= subs);
        assert(level_part + Seq::<(Seq<char>, Seq<char>)>::empty() =~= level_part);
    }
    while ci < folder_hierarchy.subfolders.len()
        invariant
            ci <= subs.len(),
            subs == folder_hierarchy.subfolders@,
            docs == files@,
            snap == *mirror,
            curr@ == joined(path@, folder_hierarchy.name@),
            level_part + smart_plan_children(subs, docs, snap, curr@, force, now_ms)
                == result.deep_view() + smart_plan_children(
                subs.skip(ci as int),
                docs,
                snap,
                curr@,
                force,
                now_ms,
            ),
        decreases subs.len() - ci,
    {
        proof {
            assert(subs.skip(ci as int).drop_first() =~= subs.skip(ci + 1));
            assert(subs.skip(ci as int)[0] == subs[ci as int]);
            assert(decreases_to!(*folder_hierarchy => folder_hierarchy.subfolders@[ci as int]));
        }
        let ghost prev = result.deep_view();
        let mut sub_plan = compare_files_time(
            &folder_hierarchy.subfolders[ci],
            files,
            curr.as_str(),
            force,
            mirror,
            now_ms,
        );
        let ghost sub_view = sub_plan.deep_view();
        result.append(&mut sub_plan);
        proof {
            assert(result.deep_view() =~= prev + sub_view);
            assert(prev + sub_view + smart_plan_children(
                subs.skip(ci + 1),
                docs,
                snap,
                curr@,
                force,
                now_ms,
            ) =~= prev + (sub_view + smart_plan_children(
                subs.skip(ci + 1),
                docs,
                snap,
                curr@,
                force,
                now_ms,
            )));
        }
        ci = ci + 1;
    }
    proof {
        assert(subs.skip(subs.len() as int) =~= Seq::<FolderNode>::empty());
        assert(smart_plan_children(subs, docs, snap, curr@, force, now_ms)
            + Seq::<(Seq<char>, Seq<char>)>::empty() =~= smart_plan_children(
            subs,
            docs,
            snap,
            curr@,
            force,
            now_ms,
        ));
    }
    result
}

/// Computes the download plan: the full flat list, or the smart-mode delta
/// against the mirror snapshot.
pub fn which_files_to_download(
    fs_hierarchy: &RemarkableFSHierarchy,
    mirror: &MirrorSnapshot,
    out_path: &str,
    smart_mode: bool,
    now_ms: i64,
) -> (r: Vec<(String, String)>)
    ensures
        r.deep_view() == plan_spec(*fs_hierarchy, *mirror, out_path@, smart_mode, now_ms),
{
    if smart_mode {
        return compare_files_time(
            &fs_hierarchy.folder_hierarchy,
            &fs_hierarchy.all_docs,
            out_path,
            false,
            mirror,
            now_ms,
        );
    }
    let ghost dv = fs_hierarchy.all_docs@;
    let mut r: Vec<(String, String)> = Vec::new();
    let mut i: usize = 0;
    proof {
        assert(dv.skip(0) =~= dv);
    }
    while i < fs_hierarchy.all_docs.len()
        invariant
            i <= dv.len(),
            dv == fs_hierarchy.all_docs@,
            full_plan(dv) == r.deep_view() + full_plan(dv.skip(i as int)),
        decreases dv.len() - i,
    {
        proof {
            assert(dv.skip(i as int).drop_first() =~= dv.skip(i + 1));
            assert(dv.skip(i as int)[0] == dv[i as int]);
        }
        let ghost prev = r.deep_view();
        if matches!(fs_hierarchy.all_docs[i].doc_type, DocType::DocumentType) {
            let name = ensure_file_extension(fs_hierarchy.all_docs[i].vissible_name.as_str());
            r.push((fs_hierarchy.all_docs[i].id.clone(), name));
            proof {
                let entry = (dv[i as int].id@, with_pdf_ext(dv[i as int].vissible_name@));
                assert(r.deep_view() =~= prev.push(entry));
                assert(prev + seq![entry] + full_plan(dv.skip(i + 1)) =~= prev + (seq![entry]
                    + full_plan(dv.skip(i + 1))));
                assert(r.deep_view() =~= prev + seq![entry]);
            }
        }
        i = i + 1;
    }
    proof {
        assert(dv.skip(dv.len() as int) =~= Seq::<RmkDocument>::empty());
        assert(r.deep_view() + Seq::<(Seq<char>, Seq<char>)>::empty() =~= r.deep_view());
    }
    r
}

} // verus!
