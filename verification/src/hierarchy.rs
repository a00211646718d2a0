//! The in-memory image of the remote document tree.
//!
//! The remote store is walked one collection at a time: each listing is
//! decoded outside the library and handed in as plain records, and
//! [`assemble_hierarchy`] merges the records of one level with the
//! sub-hierarchies already built for its child collections. Any failure to
//! obtain or decode a listing aborts the whole walk, so a value of
//! [`RemarkableFSHierarchy`] always describes a complete tree.

use vstd::prelude::*;

use crate::scheme::{DocType, RmkDocument, RmkDocuments};

verus! {

/// One folder of the mirror tree: the collection it stands for, the ids of
/// the documents directly inside it, and its child folders.
#[derive(Debug)]
pub struct FolderNode {
    pub name: String,
    pub id: String,
    pub files_id: Vec<String>,
    pub subfolders: Vec<FolderNode>,
}

/// The flat list of every record of the store together with the folder tree.
pub struct RemarkableFSHierarchy {
    pub all_docs: RmkDocuments,
    pub folder_hierarchy: FolderNode,
}

/// The ids of the documents of one listing, in listing order.
pub open spec fn level_doc_ids(docs: Seq<RmkDocument>) -> Seq<Seq<char>>
    decreases docs.len(),
{
    if docs.len() == 0 {
        Seq::empty()
    } else {
        let rest = level_doc_ids(docs.drop_first());
        if docs[0].doc_type == DocType::DocumentType {
            seq![docs[0].id@] + rest
        } else {
            rest
        }
    }
}

/// The (id, visible name) pairs of the collections of one listing, in
/// listing order.
pub open spec fn level_collection_entries(docs: Seq<RmkDocument>) -> Seq<(Seq<char>, Seq<char>)>
    decreases docs.len(),
{
    if docs.len() == 0 {
        Seq::empty()
    } else {
        let rest = level_collection_entries(docs.drop_first());
        if docs[0].doc_type == DocType::CollectionType {
            seq![(docs[0].id@, docs[0].vissible_name@)] + rest
        } else {
            rest
        }
    }
}

/// The flat document lists of a row of sub-hierarchies, in order.
pub open spec fn concat_all_docs(subs: Seq<RemarkableFSHierarchy>) -> Seq<RmkDocument>
    decreases subs.len(),
{
    if subs.len() == 0 {
        Seq::empty()
    } else {
        subs[0].all_docs@ + concat_all_docs(subs.drop_first())
    }
}

/// Whether some record of the flat list carries this id.
pub open spec fn doc_ids_contain(docs: Seq<RmkDocument>, id: Seq<char>) -> bool {
    exists|j: int| 0 <= j < docs.len() && docs[j].id@ == id
}

/// The aggregate invariant of a hierarchy: every id that any folder of the
/// tree lists appears in the flat document list.
pub open spec fn tree_ids_listed(node: FolderNode, docs: Seq<RmkDocument>) -> bool
    decreases node,
{
    &&& forall|i: int|
        #![auto]
        0 <= i < node.files_id@.len() ==> doc_ids_contain(docs, node.files_id@[i]@)
    &&& forall|c: int|
        #![auto]
        0 <= c < node.subfolders@.len() ==> tree_ids_listed(node.subfolders@[c], docs)
}

proof fn lemma_doc_ids_contain_prefix(x: Seq<RmkDocument>, docs: Seq<RmkDocument>, id: Seq<char>)
    requires
        doc_ids_contain(docs, id),
    ensures
        doc_ids_contain(x + docs, id),
{
    let j = choose|j: int| 0 <= j < docs.len() && docs[j].id@ == id;
    assert((x + docs)[x.len() + j].id@ == id);
}

proof fn lemma_doc_ids_contain_suffix(docs: Seq<RmkDocument>, y: Seq<RmkDocument>, id: Seq<char>)
    requires
        doc_ids_contain(docs, id),
    ensures
        doc_ids_contain(docs + y, id),
{
    let j = choose|j: int| 0 <= j < docs.len() && docs[j].id@ == id;
    assert((docs + y)[j].id@ == id);
}

proof fn lemma_tree_ids_listed_widen(
    node: FolderNode,
    x: Seq<RmkDocument>,
    docs: Seq<RmkDocument>,
    y: Seq<RmkDocument>,
)
    requires
        tree_ids_listed(node, docs),
    ensures
        tree_ids_listed(node, x + docs + y),
    decreases node,
{
    assert forall|i: int| 0 <= i < node.files_id@.len() implies doc_ids_contain(
        x + docs + y,
        node.files_id@[i]@,
    ) by {
        lemma_doc_ids_contain_prefix(x, docs, node.files_id@[i]@);
        lemma_doc_ids_contain_suffix(x + docs, y, node.files_id@[i]@);
    };
    assert forall|c: int| 0 <= c < node.subfolders@.len() implies tree_ids_listed(
        node.subfolders@[c],
        x + docs + y,
    ) by {
        lemma_tree_ids_listed_widen(node.subfolders@[c], x, docs, y);
    };
}

proof fn lemma_level_doc_ids_listed(docs: Seq<RmkDocument>, id: Seq<char>)
    requires
        level_doc_ids(docs).contains(id),
    ensures
        doc_ids_contain(docs, id),
    decreases docs.len(),
{
    let rest = level_doc_ids(docs.drop_first());
    if docs[0].doc_type == DocType::DocumentType && id == docs[0].id@ {
        assert(docs[0].id@ == id);
    } else {
        if docs[0].doc_type == DocType::DocumentType {
            let k = choose|k: int|
                0 <= k < (seq![docs[0].id@] + rest).len() && (seq![docs[0].id@] + rest)[k] == id;
            assert(rest[k - 1] == id);
        }
        lemma_level_doc_ids_listed(docs.drop_first(), id);
        let j = choose|j: int| 0 <= j < docs.drop_first().len() && docs.drop_first()[j].id@ == id;
        assert(docs[j + 1].id@ == id);
    }
}

proof fn lemma_concat_all_docs_split(subs: Seq<RemarkableFSHierarchy>, c: int)
    requires
        0 <= c < subs.len(),
    ensures
        concat_all_docs(subs) == concat_all_docs(subs.take(c)) + subs[c].all_docs@
            + concat_all_docs(subs.skip(c + 1)),
    decreases c,
{
    if c == 0 {
        assert(subs.take(0) =~= Seq::<RemarkableFSHierarchy>::empty());
        assert(subs.skip(1) =~= subs.drop_first());
        assert(concat_all_docs(Seq::<RemarkableFSHierarchy>::empty()) + subs[0].all_docs@
            + concat_all_docs(subs.drop_first()) =~= subs[0].all_docs@ + concat_all_docs(
            subs.drop_first(),
        ));
    } else {
        lemma_concat_all_docs_split(subs.drop_first(), c - 1);
        let d = subs.drop_first();
        assert(d.take(c - 1) =~= subs.take(c).drop_first());
        assert(d.skip(c) =~= subs.skip(c + 1));
        assert(subs.take(c)[0] == subs[0]);
        assert(subs[0].all_docs@ + (concat_all_docs(subs.take(c).drop_first()) + subs[c].all_docs@
            + concat_all_docs(subs.skip(c + 1))) =~= (subs[0].all_docs@ + concat_all_docs(
            subs.take(c).drop_first(),
        )) + subs[c].all_docs@ + concat_all_docs(subs.skip(c + 1)));
    }
}

/// The hierarchy invariant holds of an assembled level: when every
/// sub-hierarchy satisfies it on its own flat list, the merged folder node
/// satisfies it on the merged flat list.
pub proof fn lemma_assembled_ids_listed(
    node: FolderNode,
    subs: Seq<RemarkableFSHierarchy>,
    docs: Seq<RmkDocument>,
    all: Seq<RmkDocument>,
)
    requires
        node.files_id.deep_view() == level_doc_ids(docs),
        node.subfolders@.len() == subs.len(),
        forall|c: int| 0 <= c < subs.len() ==> node.subfolders@[c] == subs[c].folder_hierarchy,
        all == concat_all_docs(subs) + docs,
        forall|c: int|
            #![auto]
            0 <= c < subs.len() ==> tree_ids_listed(subs[c].folder_hierarchy, subs[c].all_docs@),
    ensures
        tree_ids_listed(node, all),
{
    assert forall|i: int| 0 <= i < node.files_id@.len() implies doc_ids_contain(
        all,
        node.files_id@[i]@,
    ) by {
        assert(node.files_id.deep_view()[i] == node.files_id@[i]@);
        assert(level_doc_ids(docs).contains(node.files_id@[i]@));
        lemma_level_doc_ids_listed(docs, node.files_id@[i]@);
        lemma_doc_ids_contain_prefix(concat_all_docs(subs), docs, node.files_id@[i]@);
    };
    assert forall|c: int| 0 <= c < node.subfolders@.len() implies tree_ids_listed(
        node.subfolders@[c],
        all,
    ) by {
        lemma_concat_all_docs_split(subs, c);
        lemma_tree_ids_listed_widen(
            subs[c].folder_hierarchy,
            concat_all_docs(subs.take(c)),
            subs[c].all_docs@,
            concat_all_docs(subs.skip(c + 1)) + docs,
        );
        assert(concat_all_docs(subs.take(c)) + subs[c].all_docs@ + (concat_all_docs(
            subs.skip(c + 1),
        ) + docs) =~= all);
    };
}

/// Collects the ids of the documents directly contained in one listing.
pub fn level_file_ids(docs: &RmkDocuments) -> (r: Vec<String>)
    ensures
        r.deep_view() == level_doc_ids(docs@),
{
    let mut r: Vec<String> = Vec::new();
    let mut i: usize = 0;
    proof {
        assert(docs@.skip(0) =~= docs@);
    }
    while i < docs.len()
        invariant
            i <= docs@.len(),
            level_doc_ids(docs@) == r.deep_view() + level_doc_ids(docs@.skip(i as int)),
        decreases docs@.len() - i,
    {
        proof {
            assert(docs@.skip(i as int).drop_first() =~= docs@.skip(i + 1));
            assert(docs@.skip(i as int)[0] == docs@[i as int]);
        }
        let ghost prev = r.deep_view();
        if matches!(docs[i].doc_type, DocType::DocumentType) {
            r.push(docs[i].id.clone());
            proof {
                assert(r.deep_view() =~= prev.push(docs@[i as int].id@));
                assert(prev + seq![docs@[i as int].id@] + level_doc_ids(docs@.skip(i + 1))
                    =~= prev + (seq![docs@[i as int].id@] + level_doc_ids(docs@.skip(i + 1))));
                assert(r.deep_view() =~= prev + seq![docs@[i as int].id@]);
            }
        }
        i = i + 1;
    }
    proof {
        assert(docs@.skip(docs@.len() as int) =~= Seq::<RmkDocument>::empty());
        assert(r.deep_view() + Seq::<Seq<char>>::empty() =~= r.deep_view());
    }
    r
}

/// Collects the (id, visible name) pairs of the collections of one listing:
/// the children the walk has to descend into.
pub fn level_collections(docs: &RmkDocuments) -> (r: Vec<(String, String)>)
    ensures
        r.deep_view() == level_collection_entries(docs@),
{
    let mut r: Vec<(String, String)> = Vec::new();
    let mut i: usize = 0;
    proof {
        assert(docs@.skip(0) =~= docs@);
    }
    while i < docs.len()
        invariant
            i <= docs@.len(),
            level_collection_entries(docs@) == r.deep_view() + level_collection_entries(
                docs@.skip(i as int),
            ),
        decreases docs@.len() - i,
    {
        proof {
            assert(docs@.skip(i as int).drop_first() =~= docs@.skip(i + 1));
            assert(docs@.skip(i as int)[0] == docs@[i as int]);
        }
        let ghost prev = r.deep_view();
        if matches!(docs[i].doc_type, DocType::CollectionType) {
            r.push((docs[i].id.clone(), docs[i].vissible_name.clone()));
            proof {
                let ghost entry = (docs@[i as int].id@, docs@[i as int].vissible_name@);
                assert(r.deep_view() =~= prev.push(entry));
                assert(prev + seq![entry] + level_collection_entries(docs@.skip(i + 1))
                    =~= prev + (seq![entry] + level_collection_entries(docs@.skip(i + 1))));
                assert(r.deep_view() =~= prev + seq![entry]);
            }
        }
        i = i + 1;
    }
    proof {
        assert(docs@.skip(docs@.len() as int) =~= Seq::<RmkDocument>::empty());
        assert(r.deep_view() + Seq::<(Seq<char>, Seq<char>)>::empty() =~= r.deep_view());
    }
    r
}

/// Merges one listing with the sub-hierarchies of its child collections
/// into the hierarchy rooted at this collection: the folder node directly
/// holds this level's document ids and the sub-roots as children, and the
/// flat list is the sub-lists in order followed by this level's records.
pub fn assemble_hierarchy(
    id: &str,
    name: &str,
    docs: RmkDocuments,
    subs: Vec<RemarkableFSHierarchy>,
) -> (r: RemarkableFSHierarchy)
    ensures
        r.folder_hierarchy.name@ == name@,
        r.folder_hierarchy.id@ == id@,
        r.folder_hierarchy.files_id.deep_view() == level_doc_ids(docs@),
        r.folder_hierarchy.subfolders@.len() == subs@.len(),
        forall|i: int|
            0 <= i < subs@.len() ==> r.folder_hierarchy.subfolders@[i]
                == subs@[i].folder_hierarchy,
        r.all_docs@ == concat_all_docs(subs@) + docs@,
{
    let ghost subs0 = subs@;
    let mut subs = subs;
    let mut docs = docs;
    let mut all_docs: RmkDocuments = Vec::new();
    let mut subfolders: Vec<FolderNode> = Vec::new();
    proof {
        assert(subs0.skip(0) =~= subs0);
    }
    while subs.len() > 0
        invariant
            subfolders@.len() <= subs0.len(),
            subs@ == subs0.skip(subfolders@.len() as int),
            forall|i: int|
                0 <= i < subfolders@.len() ==> subfolders@[i] == subs0[i].folder_hierarchy,
            concat_all_docs(subs0) == all_docs@ + concat_all_docs(subs@),
        decreases subs@.len(),
    {
        let ghost k = subfolders@.len() as int;
        proof {
            assert(subs0.skip(k).drop_first() =~= subs0.skip(k + 1));
            assert(subs0.skip(k)[0] == subs0[k]);
        }
        let mut sub = subs.remove(0);
        let ghost prev = all_docs@;
        all_docs.append(&mut sub.all_docs);
        subfolders.push(sub.folder_hierarchy);
        proof {
            assert(prev + subs0[k].all_docs@ + concat_all_docs(subs0.skip(k + 1))
                =~= prev + (subs0[k].all_docs@ + concat_all_docs(subs0.skip(k + 1))));
        }
    }
    let files_id = level_file_ids(&docs);
    let ghost level = docs@;
    all_docs.append(&mut docs);
    proof {
        assert(subs0.skip(subs0.len() as int) =~= Seq::<RemarkableFSHierarchy>::empty());
        assert(concat_all_docs(subs0) + Seq::<RmkDocument>::empty() =~= concat_all_docs(subs0));
    }
    RemarkableFSHierarchy {
        all_docs,
        folder_hierarchy: FolderNode {
            name: name.to_owned(),
            id: id.to_owned(),
            files_id,
            subfolders,
        },
    }
}

} // verus!
