//! Tests of the files that are read into memory.
use spacebot::agent::ingestion::{
    chunk_text, content_hash, final_status, finish_file, has_text_extension, is_ingested,
    is_text_file, pending_chunks, plan_file, scan_ingest_dir, ChunkResult, FilePlan, ScannedFile,
};
use spacebot::message::Timestamp;

#[test]
fn test_chunk_text_small_input() {
    let text = "Hello, world!";
    let chunks = chunk_text(text, 4000);
    assert_eq!(chunks.len(), 1);
    assert_eq!(chunks[0], text);
}

#[test]
fn test_chunk_text_splits_at_lines() {
    let text = "line one\nline two\nline three\nline four";
    let chunks = chunk_text(text, 20);
    assert!(chunks.len() > 1);
    // Each chunk should be valid text (no partial lines)
    for chunk in &chunks {
        assert!(!chunk.starts_with('\n'));
    }
    assert_eq!(chunks, vec!["line one\nline two", "line three\nline four"]);
}

#[test]
fn test_chunk_text_handles_long_line() {
    let long_line = "a".repeat(5000);
    let chunks = chunk_text(&long_line, 4000);
    // A single line exceeding chunk_size gets its own chunk
    assert_eq!(chunks.len(), 1);
    assert_eq!(chunks[0].len(), 5000);
}

#[test]
fn test_chunk_text_empty() {
    let chunks = chunk_text("", 4000);
    // Empty string produces one empty chunk; an empty file is discarded before
    // it is cut.
    assert_eq!(chunks.len(), 1);
}

#[test]
fn test_is_text_file() {
    assert!(is_text_file("notes.txt"));
    assert!(is_text_file("data.json"));
    assert!(is_text_file("readme.md"));
    assert!(is_text_file("no_extension"));
    assert!(!is_text_file("image.png"));
    assert!(!is_text_file("binary.exe"));
}

#[test]
fn test_content_hash_deterministic() {
    let hash1 = content_hash("hello world");
    let hash2 = content_hash("hello world");
    assert_eq!(hash1, hash2);
}

#[test]
fn test_content_hash_differs_for_different_content() {
    let hash1 = content_hash("hello world");
    let hash2 = content_hash("hello world!");
    assert_ne!(hash1, hash2);
}

#[test]
fn content_hash_is_sha256_in_hexadecimal() {
    assert_eq!(
        content_hash("hello world"),
        "b94d27b9934d3e08a52e52d7da7dabfac484efe37a5380ee9088f7ace2efcde9"
    );
}

#[test]
fn text_extensions_in_any_case() {
    assert!(is_text_file("docs/NOTES.TXT"));
    assert!(is_text_file(".hidden"));
    assert!(has_text_extension("toml"));
    assert!(!has_text_extension("TXT"));
    assert!(!has_text_extension("pdf"));
}

#[test]
fn chunks_are_groups_of_whole_lines() {
    let text = "a\nbb\nccc\n";
    let chunks = chunk_text(text, 5);
    assert_eq!(chunks, vec!["a\nbb", "ccc"]);
    for chunk in &chunks {
        for line in chunk.lines() {
            assert!(text.lines().any(|l| l == line));
        }
    }
}

#[test]
fn oldest_files_are_ingested_first() {
    let file = |path: &str, secs: Option<i64>, is_file: bool| ScannedFile {
        path: path.to_string(),
        is_file,
        modified: secs.map(|secs| Timestamp { secs, nanos: 0 }),
    };
    let scanned = scan_ingest_dir(vec![
        file("in/new.txt", Some(30), true),
        file("in/dir", Some(1), false),
        file("in/picture.png", Some(2), true),
        file("in/old.md", Some(10), true),
        file("in/mid.json", Some(20), true),
    ]);
    let paths: Vec<&str> = scanned.iter().map(|f| f.path.as_str()).collect();
    assert_eq!(paths, vec!["in/old.md", "in/mid.json", "in/new.txt"]);
}

#[test]
fn empty_files_are_discarded() {
    assert!(matches!(plan_file("in/empty.txt", "  \n\t ", 100), FilePlan::Discard));
    match plan_file("in/notes.txt", "one\ntwo\n", 4) {
        FilePlan::Ingest { filename, hash, file_size, chunks } => {
            assert_eq!(filename, "notes.txt");
            assert_eq!(hash, content_hash("one\ntwo\n"));
            assert_eq!(file_size, 8);
            assert_eq!(chunks, vec!["one", "two"]);
        }
        FilePlan::Discard => panic!("a file with text is ingested"),
    }
}

#[test]
fn completed_chunks_are_not_repeated() {
    assert_eq!(pending_chunks(4, &vec![0, 2]), vec![1, 3]);
    assert_eq!(pending_chunks(2, &vec![]), vec![0, 1]);
    assert!(pending_chunks(2, &vec![1, 0, 7, -1]).is_empty());
}

#[test]
fn a_file_is_done_when_every_chunk_is() {
    assert!(is_ingested(ChunkResult::Done));
    assert!(is_ingested(ChunkResult::MaxTurns));
    assert!(!is_ingested(ChunkResult::Failed));
    let done = finish_file(&vec![ChunkResult::Done, ChunkResult::MaxTurns]);
    assert!(done.completed && done.delete_progress && done.delete_file);
    assert_eq!(final_status(done), "completed");
    let failed = finish_file(&vec![ChunkResult::Done, ChunkResult::Failed]);
    assert!(!failed.completed && !failed.delete_progress && !failed.delete_file);
    assert_eq!(final_status(failed), "failed");
}
