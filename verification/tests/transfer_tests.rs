use ebpm::filetransfer::{FilesTransfer, SourceListing, TransferStrategy};

fn tree_listing() -> Vec<SourceListing> {
    vec![SourceListing::DirSource {
        path: "a".to_string(),
        subdirs: vec!["c".to_string()],
        leaves: vec!["b.txt".to_string(), "c/d.txt".to_string()],
    }]
}

#[test]
fn copy_of_a_tree_mirrors_it_and_touches_no_source() {
    let plan = FilesTransfer::new(TransferStrategy::Copy).execute_transfer(&tree_listing(), "out");
    assert!(matches!(plan.strategy, TransferStrategy::Copy));
    assert_eq!(plan.dirs, vec!["out/a".to_string(), "out/a/c".to_string()]);
    assert_eq!(plan.ops.len(), 2);
    assert_eq!(plan.ops[0].src, "a/b.txt");
    assert_eq!(plan.ops[0].dst, "out/a/b.txt");
    assert_eq!(plan.ops[1].src, "a/c/d.txt");
    assert_eq!(plan.ops[1].dst, "out/a/c/d.txt");
    assert!(plan.cleanup.is_empty());
}

#[test]
fn move_of_a_tree_also_deletes_the_emptied_sources() {
    let plan = FilesTransfer::new(TransferStrategy::Move).execute_transfer(&tree_listing(), "out");
    assert!(matches!(plan.strategy, TransferStrategy::Move));
    assert_eq!(plan.dirs, vec!["out/a".to_string(), "out/a/c".to_string()]);
    assert_eq!(plan.ops.len(), 2);
    assert_eq!(plan.ops[1].dst, "out/a/c/d.txt");
    assert_eq!(plan.cleanup, vec!["a/c".to_string(), "a".to_string()]);
}

#[test]
fn single_file_lands_under_its_base_name() {
    let files = vec![SourceListing::FileSource { path: "some/dir/tool.bin".to_string() }];
    let plan = FilesTransfer::new(TransferStrategy::Copy).execute_transfer(&files, "dest");
    assert!(plan.dirs.is_empty());
    assert_eq!(plan.ops.len(), 1);
    assert_eq!(plan.ops[0].src, "some/dir/tool.bin");
    assert_eq!(plan.ops[0].dst, "dest/tool.bin");
    assert!(plan.cleanup.is_empty());
}

#[test]
fn sources_are_processed_in_order() {
    let files = vec![
        SourceListing::FileSource { path: "one".to_string() },
        SourceListing::DirSource {
            path: "d".to_string(),
            subdirs: Vec::new(),
            leaves: vec!["f".to_string()],
        },
        SourceListing::FileSource { path: "two".to_string() },
    ];
    let plan = FilesTransfer::new(TransferStrategy::Move).execute_transfer(&files, "o");
    assert_eq!(plan.dirs, vec!["o/d".to_string()]);
    let srcs: Vec<&str> = plan.ops.iter().map(|op| op.src.as_str()).collect();
    assert_eq!(srcs, vec!["one", "d/f", "two"]);
    assert_eq!(plan.cleanup, vec!["d".to_string()]);
}

#[test]
fn empty_directory_tree_still_gets_its_root_mirrored() {
    let files = vec![SourceListing::DirSource {
        path: "empty".to_string(),
        subdirs: Vec::new(),
        leaves: Vec::new(),
    }];
    let plan = FilesTransfer::new(TransferStrategy::Copy).execute_transfer(&files, "out");
    assert_eq!(plan.dirs, vec!["out/empty".to_string()]);
    assert!(plan.ops.is_empty());
}
