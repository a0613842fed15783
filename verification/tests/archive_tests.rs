use std::io::{Cursor, Write};

use ebpm::archive::{ArchivedFile, Archiver, Extractor};

#[test]
fn pack_then_extract_reproduces_names_and_bytes() {
    let files = vec![
        ArchivedFile::File("bin/tool".to_string()),
        ArchivedFile::FileWithNewName("local/readme".to_string(), "docs/readme".to_string()),
    ];
    let contents = vec![vec![1u8, 2, 3, 255, 0], b"hello archive".to_vec()];
    let bytes = Archiver::new(files).compress(&contents).unwrap();

    let acts = Extractor::new(bytes).extract().unwrap();
    assert_eq!(acts.len(), 2);

    assert_eq!(acts[0].parts, vec!["bin".to_string(), "tool".to_string()]);
    assert!(!acts[0].is_dir);
    assert_eq!(acts[0].data, vec![1u8, 2, 3, 255, 0]);
    assert!(acts[0].executable);

    assert_eq!(acts[1].parts, vec!["docs".to_string(), "readme".to_string()]);
    assert!(!acts[1].is_dir);
    assert_eq!(acts[1].data, b"hello archive".to_vec());
}

#[test]
fn compress_refuses_duplicate_entry_names() {
    let files = vec![
        ArchivedFile::File("a".to_string()),
        ArchivedFile::FileWithNewName("b".to_string(), "a".to_string()),
    ];
    let contents = vec![vec![1u8], vec![2u8]];
    assert!(Archiver::new(files).compress(&contents).is_err());
}

#[test]
fn extract_rejects_corrupt_bytes() {
    assert!(Extractor::new(b"not an archive at all".to_vec()).extract().is_err());
}

fn archive_with_entry_named(name: &str, data: &[u8]) -> Vec<u8> {
    let mut w = zip::ZipWriter::new(Cursor::new(Vec::new()));
    let opts = zip::write::SimpleFileOptions::DEFAULT;
    w.start_file(name, opts).unwrap();
    w.write_all(data).unwrap();
    w.finish().unwrap().into_inner()
}

#[test]
fn escaping_entry_name_is_neutralized() {
    let bytes = archive_with_entry_named("../../evil", b"payload");
    let acts = Extractor::new(bytes).extract().unwrap();
    assert_eq!(acts.len(), 1);
    assert_eq!(acts[0].parts, vec!["evil".to_string()]);
    assert!(!acts[0].is_dir);
    assert_eq!(acts[0].data, b"payload".to_vec());
}

#[test]
fn absolute_and_dotted_entry_names_are_neutralized() {
    let bytes = archive_with_entry_named("/etc/./passwd", b"x");
    let acts = Extractor::new(bytes).extract().unwrap();
    assert_eq!(acts[0].parts, vec!["etc".to_string(), "passwd".to_string()]);

    let bytes = archive_with_entry_named("a//..//b", b"y");
    let acts = Extractor::new(bytes).extract().unwrap();
    assert_eq!(acts[0].parts, vec!["a".to_string(), "b".to_string()]);
}

#[test]
fn directory_entries_are_marked_and_carry_no_content() {
    let mut w = zip::ZipWriter::new(Cursor::new(Vec::new()));
    let opts = zip::write::SimpleFileOptions::DEFAULT;
    w.add_directory("sub/dir", opts).unwrap();
    let bytes = w.finish().unwrap().into_inner();

    let acts = Extractor::new(bytes).extract().unwrap();
    assert_eq!(acts.len(), 1);
    assert!(acts[0].is_dir);
    assert_eq!(acts[0].parts, vec!["sub".to_string(), "dir".to_string()]);
    assert!(acts[0].data.is_empty());
}

#[test]
fn archived_file_names_resolve() {
    let plain = ArchivedFile::File("a/b".to_string());
    assert_eq!(plain.source_path(), "a/b");
    assert_eq!(plain.archive_name(), "a/b");
    let renamed = ArchivedFile::FileWithNewName("src/x".to_string(), "y".to_string());
    assert_eq!(renamed.source_path(), "src/x");
    assert_eq!(renamed.archive_name(), "y");
}
