use augmcp::blob::{chunk_blob, chunk_path, split_lines};

#[test]
fn split_keeps_terminators_and_round_trips() {
    let lines = split_lines("line1\nline2\n");
    assert_eq!(lines, vec!["line1\n".to_string(), "line2\n".to_string()]);
    let joined: String = lines.concat();
    assert_eq!(joined, "line1\nline2\n");
}

#[test]
fn split_treats_cr_and_lf_separately() {
    let lines = split_lines("a\r\nb");
    assert_eq!(lines, vec!["a\r".to_string(), "\n".to_string(), "b".to_string()]);
}

#[test]
fn split_of_empty_text_has_no_lines() {
    let lines = split_lines("");
    assert!(lines.is_empty());
}

#[test]
fn chunk_path_is_one_indexed() {
    assert_eq!(chunk_path("src/main.rs", 1, 2), "src/main.rs#chunk1of2");
    assert_eq!(chunk_path("a/b.txt", 12, 30), "a/b.txt#chunk12of30");
}

#[test]
fn small_file_stays_one_blob_under_its_own_path() {
    let blobs = chunk_blob("src/notes.txt", "hello\n", 800);
    assert_eq!(blobs.len(), 1);
    assert_eq!(blobs[0].path, "src/notes.txt");
    assert_eq!(blobs[0].content, "hello\n");
}

#[test]
fn oversized_file_splits_into_ceil_chunks_that_reassemble() {
    // 5 lines with a limit of 2 gives ceil(5/2) = 3 chunks
    let text = "a\nb\nc\nd\ne\n";
    let blobs = chunk_blob("f.txt", text, 2);
    assert_eq!(blobs.len(), 3);
    assert_eq!(blobs[0].path, "f.txt#chunk1of3");
    assert_eq!(blobs[1].path, "f.txt#chunk2of3");
    assert_eq!(blobs[2].path, "f.txt#chunk3of3");
    assert_eq!(blobs[0].content, "a\nb\n");
    assert_eq!(blobs[1].content, "c\nd\n");
    assert_eq!(blobs[2].content, "e\n");
    let rejoined: String = blobs.iter().map(|b| b.content.clone()).collect();
    assert_eq!(rejoined, text);
}

#[test]
fn chunking_round_trips_without_trailing_newline() {
    let text = "one\ntwo\nthree";
    let blobs = chunk_blob("x.md", text, 1);
    assert_eq!(blobs.len(), 3);
    let rejoined: String = blobs.iter().map(|b| b.content.clone()).collect();
    assert_eq!(rejoined, text);
}

#[test]
fn empty_content_is_one_empty_blob() {
    let blobs = chunk_blob("empty.txt", "", 5);
    assert_eq!(blobs.len(), 1);
    assert_eq!(blobs[0].path, "empty.txt");
    assert_eq!(blobs[0].content, "");
}
