use rmk_backup::download::DownloadTally;
use rmk_backup::full_backup::BackupOptions;
use rmk_backup::hierarchy::{assemble_hierarchy, level_collections, level_file_ids, FolderNode, RemarkableFSHierarchy};
use rmk_backup::planner::{which_files_to_download, MirrorSnapshot};
use rmk_backup::scheme::{BackupError, DocType, RmkDocument};
use rmk_backup::utils::{ensure_file_extension, join_path, join_under};
use rmk_backup::writer::{copy_to_localfs, FsModel};

fn doc(id: &str, name: &str, modified: &str, doc_type: DocType) -> RmkDocument {
    RmkDocument {
        id: id.to_string(),
        vissible_name: name.to_string(),
        modified_client: modified.to_string(),
        doc_type,
        ..Default::default()
    }
}

fn millis_of(ts: &str) -> i64 {
    ts.parse::<chrono::DateTime<chrono::Local>>()
        .expect("test timestamp must parse")
        .timestamp_millis()
}

fn node(name: &str, id: &str, files_id: Vec<&str>, subfolders: Vec<FolderNode>) -> FolderNode {
    FolderNode {
        name: name.to_string(),
        id: id.to_string(),
        files_id: files_id.into_iter().map(|s| s.to_string()).collect(),
        subfolders,
    }
}

fn empty_snapshot() -> MirrorSnapshot {
    MirrorSnapshot { dirs: vec![], files: vec![] }
}

// Filename normalization: a missing extension is appended, an existing one
// is kept.
#[test]
fn ensure_file_extension_appends() {
    assert_eq!(ensure_file_extension("Notes"), "Notes.pdf");
}

#[test]
fn ensure_file_extension_unchanged() {
    assert_eq!(ensure_file_extension("Report.pdf"), "Report.pdf");
}

#[test]
fn ensure_file_extension_empty_name() {
    assert_eq!(ensure_file_extension(""), ".pdf");
}

#[test]
fn join_path_inserts_slash_once() {
    assert_eq!(join_path("/backup", "root"), "/backup/root");
    assert_eq!(join_path("/backup/", "root"), "/backup/root");
    assert_eq!(join_under("/backup/root", "Essay.pdf"), "/backup/root/Essay.pdf");
}

// Full mode returns every Document of the flat list, at any depth, and
// nothing else.
#[test]
fn full_mode_completeness() {
    let docs = vec![
        doc("b1", "Deep", "2024-01-01T00:00:00Z", DocType::DocumentType),
        doc("c1", "Folder", "2024-01-01T00:00:00Z", DocType::CollectionType),
        doc("x1", "Odd", "2024-01-01T00:00:00Z", DocType::Unknown),
        doc("a1", "Essay.pdf", "2024-01-01T00:00:00Z", DocType::DocumentType),
    ];
    let h = RemarkableFSHierarchy {
        all_docs: docs,
        folder_hierarchy: node(
            "root",
            "",
            vec!["a1"],
            vec![node("Folder", "c1", vec!["b1"], vec![])],
        ),
    };
    let now = millis_of("2024-02-01T00:00:00Z");
    let plan = which_files_to_download(&h, &empty_snapshot(), "/backup", false, now);
    assert_eq!(
        plan,
        vec![
            ("b1".to_string(), "Deep.pdf".to_string()),
            ("a1".to_string(), "Essay.pdf".to_string()),
        ]
    );
}

// Conservatism: an unparsable remote timestamp always puts the document in
// the smart-mode plan, even when its mirror file looks fresh.
#[test]
fn unparsable_timestamp_always_included() {
    let docs = vec![doc("a1", "Essay", "not-a-timestamp", DocType::DocumentType)];
    let h = RemarkableFSHierarchy {
        all_docs: docs,
        folder_hierarchy: node("root", "", vec!["a1"], vec![]),
    };
    let snap = MirrorSnapshot {
        dirs: vec!["/backup/root".to_string()],
        files: vec![("/backup/root/Essay.pdf".to_string(), 0u64)],
    };
    let now = millis_of("2024-02-01T00:00:00Z");
    let plan = which_files_to_download(&h, &snap, "/backup", true, now);
    assert_eq!(plan, vec![("a1".to_string(), "Essay.pdf".to_string())]);
}

// Force-all propagation: a missing mirror directory pulls in every document
// of that folder and of all folders below it, fresh mirror files included.
#[test]
fn missing_directory_forces_whole_subtree() {
    let docs = vec![
        doc("a1", "Top", "2024-01-01T00:00:00Z", DocType::DocumentType),
        doc("b1", "Mid", "2024-01-01T00:00:00Z", DocType::DocumentType),
        doc("c1", "Leaf", "2024-01-01T00:00:00Z", DocType::DocumentType),
    ];
    let tree = node(
        "root",
        "",
        vec!["a1"],
        vec![node("Books", "f1", vec!["b1"], vec![node("Old", "f2", vec!["c1"], vec![])])],
    );
    let h = RemarkableFSHierarchy { all_docs: docs, folder_hierarchy: tree };
    // The root directory exists; "Books" does not, although every mirror
    // file inside it is fresh.
    let snap = MirrorSnapshot {
        dirs: vec!["/backup/root".to_string()],
        files: vec![
            ("/backup/root/Books/Mid.pdf".to_string(), 0u64),
            ("/backup/root/Books/Old/Leaf.pdf".to_string(), 0u64),
            ("/backup/root/Top.pdf".to_string(), 0u64),
        ],
    };
    let now = millis_of("2024-02-01T00:00:00Z");
    let plan = which_files_to_download(&h, &snap, "/backup", true, now);
    assert_eq!(
        plan,
        vec![
            ("b1".to_string(), "Mid.pdf".to_string()),
            ("c1".to_string(), "Leaf.pdf".to_string()),
        ]
    );
}

// A document the remote modified more recently than the local mirror copy
// is planned; one modified less recently is skipped.
#[test]
fn smart_mode_compares_elapsed_times() {
    let docs = vec![
        doc("new1", "Fresh", "2024-01-30T00:00:00Z", DocType::DocumentType),
        doc("old1", "Stale", "2024-01-01T00:00:00Z", DocType::DocumentType),
    ];
    let h = RemarkableFSHierarchy {
        all_docs: docs,
        folder_hierarchy: node("root", "", vec!["new1", "old1"], vec![]),
    };
    let now = millis_of("2024-02-01T00:00:00Z");
    // Fresh: remote elapsed 2 days, local copy written 10 days ago -> due.
    // Stale: remote elapsed 31 days, local copy written 10 days ago -> skip.
    let ten_days_ms: u64 = 10 * 86_400_000;
    let snap = MirrorSnapshot {
        dirs: vec!["/backup/root".to_string()],
        files: vec![
            ("/backup/root/Fresh.pdf".to_string(), ten_days_ms),
            ("/backup/root/Stale.pdf".to_string(), ten_days_ms),
        ],
    };
    let plan = which_files_to_download(&h, &snap, "/backup", true, now);
    assert_eq!(plan, vec![("new1".to_string(), "Fresh.pdf".to_string())]);
}

// A remote timestamp in the future of `now` is included conservatively.
#[test]
fn future_remote_timestamp_included() {
    let docs = vec![doc("a1", "Ahead", "2024-03-01T00:00:00Z", DocType::DocumentType)];
    let h = RemarkableFSHierarchy {
        all_docs: docs,
        folder_hierarchy: node("root", "", vec!["a1"], vec![]),
    };
    let snap = MirrorSnapshot {
        dirs: vec!["/backup/root".to_string()],
        files: vec![("/backup/root/Ahead.pdf".to_string(), 0u64)],
    };
    let now = millis_of("2024-02-01T00:00:00Z");
    let plan = which_files_to_download(&h, &snap, "/backup", true, now);
    assert_eq!(plan, vec![("a1".to_string(), "Ahead.pdf".to_string())]);
}

// A missing local mirror file forces a re-download even when the remote
// timestamp parses and is old.
#[test]
fn missing_local_file_included() {
    let docs = vec![doc("a1", "Gone", "2024-01-01T00:00:00Z", DocType::DocumentType)];
    let h = RemarkableFSHierarchy {
        all_docs: docs,
        folder_hierarchy: node("root", "", vec!["a1"], vec![]),
    };
    let snap = MirrorSnapshot { dirs: vec!["/backup/root".to_string()], files: vec![] };
    let now = millis_of("2024-02-01T00:00:00Z");
    let plan = which_files_to_download(&h, &snap, "/backup", true, now);
    assert_eq!(plan, vec![("a1".to_string(), "Gone.pdf".to_string())]);
}

// The end-to-end scenario: one document, no mirror yet; the full-mode plan
// names it; after writing it, an immediate smart-mode run plans nothing.
#[test]
fn scenario_backup_then_idempotent() {
    let docs = vec![doc("a1", "Essay", "2024-01-01T00:00:00Z", DocType::DocumentType)];
    let h = RemarkableFSHierarchy {
        all_docs: docs,
        folder_hierarchy: node("root", "", vec!["a1"], vec![]),
    };
    let now = millis_of("2024-02-01T00:00:00Z");

    let plan = which_files_to_download(&h, &empty_snapshot(), "/backup", false, now);
    assert_eq!(plan, vec![("a1".to_string(), "Essay.pdf".to_string())]);

    let files = vec![("a1".to_string(), "Essay.pdf".to_string(), b"essay".to_vec())];
    let mut fs = FsModel::new();
    let r = copy_to_localfs(&h.folder_hierarchy, &files, "/backup", false, false, &mut fs);
    assert!(r.is_ok());
    assert!(fs.has_dir("/backup/root"));
    assert_eq!(fs.read_file("/backup/root/Essay.pdf"), Some(&b"essay".to_vec()));

    // The mirror as the writer just left it: the directory exists and the
    // file was written a moment ago.
    let snap = MirrorSnapshot {
        dirs: vec!["/backup/root".to_string()],
        files: vec![("/backup/root/Essay.pdf".to_string(), 0u64)],
    };
    let again = which_files_to_download(&h, &snap, "/backup", true, now);
    assert_eq!(again, Vec::<(String, String)>::new());
}

// Conflict safety: without override mode a write to an occupied path fails
// and the bytes already there survive.
#[test]
fn conflict_leaves_existing_bytes() {
    let mut fs = FsModel::new();
    assert!(fs.create_dir("/backup/root").is_ok());
    assert!(fs.write_file("/backup/root/Essay.pdf", &b"old".to_vec(), false).is_ok());
    let r = fs.write_file("/backup/root/Essay.pdf", &b"new".to_vec(), false);
    assert_eq!(r, Err(BackupError::FilesystemError));
    assert_eq!(fs.read_file("/backup/root/Essay.pdf"), Some(&b"old".to_vec()));
}

#[test]
fn override_mode_replaces_bytes() {
    let mut fs = FsModel::new();
    assert!(fs.write_file("/backup/root/Essay.pdf", &b"old".to_vec(), true).is_ok());
    assert!(fs.write_file("/backup/root/Essay.pdf", &b"new".to_vec(), true).is_ok());
    assert_eq!(fs.read_file("/backup/root/Essay.pdf"), Some(&b"new".to_vec()));
}

// The strict policy aborts the traversal on a conflict; the permissive one
// skips the file and finishes.
#[test]
fn writer_policy_on_conflict() {
    let tree = node("root", "", vec!["a1", "b1"], vec![]);
    let files = vec![
        ("a1".to_string(), "First.pdf".to_string(), b"first".to_vec()),
        ("b1".to_string(), "Second.pdf".to_string(), b"second".to_vec()),
    ];

    let mut strict = FsModel::new();
    assert!(strict.create_dir("/backup/root").is_ok());
    assert!(strict.write_file("/backup/root/First.pdf", &b"kept".to_vec(), false).is_ok());
    let r = copy_to_localfs(&tree, &files, "/backup", false, false, &mut strict);
    assert_eq!(r, Err(BackupError::FilesystemError));
    assert_eq!(strict.read_file("/backup/root/First.pdf"), Some(&b"kept".to_vec()));
    // The strict run stopped before the second file.
    assert_eq!(strict.read_file("/backup/root/Second.pdf"), None);

    let mut permissive = FsModel::new();
    assert!(permissive.create_dir("/backup/root").is_ok());
    assert!(permissive.write_file("/backup/root/First.pdf", &b"kept".to_vec(), false).is_ok());
    let r = copy_to_localfs(&tree, &files, "/backup", true, false, &mut permissive);
    assert!(r.is_ok());
    assert_eq!(permissive.read_file("/backup/root/First.pdf"), Some(&b"kept".to_vec()));
    assert_eq!(permissive.read_file("/backup/root/Second.pdf"), Some(&b"second".to_vec()));
}

// A directory that cannot be created abandons only its subtree under the
// permissive policy; siblings are written.
#[test]
fn writer_policy_on_directory_failure() {
    let tree = node(
        "root",
        "",
        vec![],
        vec![
            node("Broken", "f1", vec!["a1"], vec![]),
            node("Fine", "f2", vec!["b1"], vec![]),
        ],
    );
    let files = vec![
        ("a1".to_string(), "In.pdf".to_string(), b"in".to_vec()),
        ("b1".to_string(), "Out.pdf".to_string(), b"out".to_vec()),
    ];

    let mut permissive = FsModel::new();
    permissive.fail_paths.push("/backup/root/Broken".to_string());
    let r = copy_to_localfs(&tree, &files, "/backup", true, true, &mut permissive);
    assert!(r.is_ok());
    assert_eq!(permissive.read_file("/backup/root/Broken/In.pdf"), None);
    assert_eq!(permissive.read_file("/backup/root/Fine/Out.pdf"), Some(&b"out".to_vec()));

    let mut strict = FsModel::new();
    strict.fail_paths.push("/backup/root/Broken".to_string());
    let r = copy_to_localfs(&tree, &files, "/backup", false, true, &mut strict);
    assert_eq!(r, Err(BackupError::FilesystemError));
    assert_eq!(strict.read_file("/backup/root/Fine/Out.pdf"), None);
}

// Permissive accounting: one failing download out of three leaves a tally
// of two successes and one failure, and the batch still counts as a
// completed operation.
#[test]
fn permissive_accounting() {
    let mut tally = DownloadTally::new();
    tally.record_success("a1".to_string(), "One.pdf".to_string(), b"one".to_vec());
    let abort = tally.record_failure(true);
    assert!(!abort);
    tally.record_success("c1".to_string(), "Three.pdf".to_string(), b"three".to_vec());
    assert_eq!(tally.success_count(), 2);
    assert_eq!(tally.failure_count(), 1);
    assert!(tally.outcome(true).is_ok());
    assert_eq!(tally.outcome(false), Err(BackupError::NetworkError));
    let files = tally.into_files();
    assert_eq!(files.len(), 2);
    assert_eq!(files[0].0, "a1");
    assert_eq!(files[1].2, b"three".to_vec());
}

// The strict policy asks for an abort at the first failed download.
#[test]
fn strict_download_failure_aborts() {
    let mut tally = DownloadTally::new();
    let abort = tally.record_failure(false);
    assert!(abort);
    assert_eq!(tally.outcome(false), Err(BackupError::NetworkError));
}

// One listing level is split into document ids, child collections, and a
// merged hierarchy.
#[test]
fn hierarchy_assembly() {
    let level = vec![
        doc("c1", "Books", "2024-01-01T00:00:00Z", DocType::CollectionType),
        doc("a1", "Essay", "2024-01-01T00:00:00Z", DocType::DocumentType),
        doc("x1", "Odd", "2024-01-01T00:00:00Z", DocType::Unknown),
    ];
    assert_eq!(level_file_ids(&level), vec!["a1".to_string()]);
    assert_eq!(
        level_collections(&level),
        vec![("c1".to_string(), "Books".to_string())]
    );

    let sub_docs = vec![doc("b1", "Deep", "2024-01-01T00:00:00Z", DocType::DocumentType)];
    let sub = RemarkableFSHierarchy {
        all_docs: sub_docs,
        folder_hierarchy: node("Books", "c1", vec!["b1"], vec![]),
    };
    let h = assemble_hierarchy("", "root", level, vec![sub]);
    assert_eq!(h.folder_hierarchy.name, "root");
    assert_eq!(h.folder_hierarchy.id, "");
    assert_eq!(h.folder_hierarchy.files_id, vec!["a1".to_string()]);
    assert_eq!(h.folder_hierarchy.subfolders.len(), 1);
    assert_eq!(h.folder_hierarchy.subfolders[0].name, "Books");
    let ids: Vec<&str> = h.all_docs.iter().map(|d| d.id.as_str()).collect();
    assert_eq!(ids, vec!["b1", "c1", "a1", "x1"]);
}

// Unknown entries stay in the flat list but claim no file slot and no
// folder.
#[test]
fn unknown_entries_stay_flat_only() {
    let level = vec![doc("x1", "Odd", "2024-01-01T00:00:00Z", DocType::Unknown)];
    let h = assemble_hierarchy("", "root", level, vec![]);
    assert_eq!(h.all_docs.len(), 1);
    assert!(h.folder_hierarchy.files_id.is_empty());
    assert!(h.folder_hierarchy.subfolders.is_empty());
}

// Two documents of one folder resolving to the same filename: the second
// write conflicts without override mode; the strict policy stops there,
// the permissive one keeps the first bytes and finishes.
#[test]
fn duplicate_names_in_one_folder() {
    let tree = node("root", "", vec!["a1", "b1"], vec![]);
    let files = vec![
        ("a1".to_string(), "Same.pdf".to_string(), b"first".to_vec()),
        ("b1".to_string(), "Same.pdf".to_string(), b"second".to_vec()),
    ];

    let mut strict = FsModel::new();
    let r = copy_to_localfs(&tree, &files, "/backup", false, false, &mut strict);
    assert_eq!(r, Err(BackupError::FilesystemError));
    assert_eq!(strict.read_file("/backup/root/Same.pdf"), Some(&b"first".to_vec()));

    let mut overriding = FsModel::new();
    let r = copy_to_localfs(&tree, &files, "/backup", false, true, &mut overriding);
    assert!(r.is_ok());
    assert_eq!(overriding.read_file("/backup/root/Same.pdf"), Some(&b"second".to_vec()));
}

// A snapshot that lists one path twice: the first entry decides.
#[test]
fn snapshot_first_entry_wins() {
    let docs = vec![doc("a1", "Essay", "2024-01-01T00:00:00Z", DocType::DocumentType)];
    let h = RemarkableFSHierarchy {
        all_docs: docs,
        folder_hierarchy: node("root", "", vec!["a1"], vec![]),
    };
    let now = millis_of("2024-02-01T00:00:00Z");
    // First entry says the mirror copy is fresh; a later stale entry for
    // the same path is ignored, so the document is skipped.
    let snap = MirrorSnapshot {
        dirs: vec!["/backup/root".to_string()],
        files: vec![
            ("/backup/root/Essay.pdf".to_string(), 0u64),
            ("/backup/root/Essay.pdf".to_string(), u64::MAX),
        ],
    };
    let plan = which_files_to_download(&h, &snap, "/backup", true, now);
    assert_eq!(plan, Vec::<(String, String)>::new());
}

// Smart mode forces override mode; every other knob is untouched.
#[test]
fn options_normalization() {
    let o = BackupOptions {
        out_path: "/backup".to_string(),
        udp_mode: false,
        override_mode: false,
        smart_mode: true,
    }
    .normalized();
    assert!(o.override_mode);
    assert!(o.smart_mode);
    assert!(!o.udp_mode);
    assert_eq!(o.out_path, "/backup");

    let unchanged = BackupOptions {
        out_path: "/backup".to_string(),
        udp_mode: true,
        override_mode: false,
        smart_mode: false,
    }
    .normalized();
    assert!(!unchanged.override_mode);
}
