use augmcp::collect::{collect_blobs, decode_text, is_text_ext, CollectError, SourceFile};
use augmcp::indexer::{incremental_plan, ProjectsIndex};

fn file(rel: &str, content: &[u8]) -> SourceFile {
    SourceFile { rel_path: rel.to_string(), bytes: content.to_vec() }
}

fn strings(items: &[&str]) -> Vec<String> {
    items.iter().map(|s| s.to_string()).collect()
}

#[test]
fn collect_respects_ext_exclude_gitignore_and_splitting() {
    let files = vec![
        file("src/main.rs", b"line1\nline2\n"),
        file("src/notes.txt", b"hello\n"),
        file("dist/bundle.js", b"alert(1)\n"),
        file("ignored_dir/will_skip.txt", b"nope\n"),
    ];
    let ignore_lines = strings(&["ignored_dir"]);
    let exclude = strings(&["dist", "ignored_dir"]);
    let text_exts = strings(&[".rs", ".txt"]);

    // max_lines = 1 -> each line becomes a blob
    let blobs = collect_blobs(&files, &ignore_lines, &exclude, &text_exts, 1).unwrap();

    let names: Vec<String> = blobs.iter().map(|b| b.path.clone()).collect();
    assert!(names.contains(&"src/main.rs#chunk1of2".to_string()));
    assert!(names.contains(&"src/main.rs#chunk2of2".to_string()));
    assert!(names.contains(&"src/notes.txt".to_string()));
    assert!(!names.iter().any(|p| p.contains("bundle.js")));
    assert!(!names.iter().any(|p| p.contains("will_skip.txt")));

    // incremental_plan should mark all as new if projects index is empty
    let projects = ProjectsIndex::new();
    let (new_blobs, all) = incremental_plan(&"proj".to_string(), &blobs, &projects);
    assert_eq!(new_blobs.len(), blobs.len());
    assert_eq!(all.len(), blobs.len());
}

#[test]
fn ignore_rule_and_exclude_pattern_prune_whole_directories() {
    let files = vec![
        file("src/main.x", b"one\ntwo\n"),
        file("src/notes.y", b"note\n"),
        file("dist/bundle.z", b"minified\n"),
        file("ignored_dir/skip.y", b"hidden\n"),
    ];
    let ignore_lines = strings(&["ignored_dir"]);
    let exclude = strings(&["dist"]);
    let text_exts = strings(&[".x", ".y"]);

    let blobs = collect_blobs(&files, &ignore_lines, &exclude, &text_exts, 1).unwrap();
    let names: Vec<String> = blobs.iter().map(|b| b.path.clone()).collect();
    assert_eq!(
        names,
        vec![
            "src/main.x#chunk1of2".to_string(),
            "src/main.x#chunk2of2".to_string(),
            "src/notes.y".to_string(),
        ]
    );
}

#[test]
fn collection_keeps_input_order_and_contents() {
    let files = vec![file("b.txt", b"B\n"), file("a.txt", b"A\n")];
    let blobs =
        collect_blobs(&files, &strings(&[]), &strings(&[]), &strings(&[".txt"]), 800).unwrap();
    assert_eq!(blobs.len(), 2);
    assert_eq!(blobs[0].path, "b.txt");
    assert_eq!(blobs[0].content, "B\n");
    assert_eq!(blobs[1].path, "a.txt");
    assert_eq!(blobs[1].content, "A\n");
}

#[test]
fn exclude_globs_match_across_directories() {
    let files = vec![
        file("notes.txt", b"keep?\n"),
        file("deep/nested/other.txt", b"keep?\n"),
        file("main.rs", b"fn main() {}\n"),
    ];
    let exclude = strings(&["*.txt"]);
    let text_exts = strings(&[".txt", ".rs"]);
    let blobs = collect_blobs(&files, &strings(&[]), &exclude, &text_exts, 800).unwrap();
    let names: Vec<String> = blobs.iter().map(|b| b.path.clone()).collect();
    assert_eq!(names, vec!["main.rs".to_string()]);
}

#[test]
fn a_whitelist_ignore_rule_keeps_its_file() {
    let files = vec![file("a.log", b"drop\n"), file("keep.log", b"keep\n")];
    let ignore_lines = strings(&["*.log", "!keep.log"]);
    let text_exts = strings(&[".log"]);
    let blobs = collect_blobs(&files, &ignore_lines, &strings(&[]), &text_exts, 800).unwrap();
    let names: Vec<String> = blobs.iter().map(|b| b.path.clone()).collect();
    assert_eq!(names, vec!["keep.log".to_string()]);
}

#[test]
fn invalid_exclude_pattern_is_refused() {
    let files = vec![file("a.txt", b"A\n")];
    let r = collect_blobs(&files, &strings(&[]), &strings(&["a["]), &strings(&[".txt"]), 800);
    match r {
        Err(CollectError::InvalidPattern(p)) => assert_eq!(p, "a["),
        other => panic!("expected InvalidPattern, got {other:?}"),
    }
}

#[test]
fn extension_check_is_case_insensitive_with_leading_dot() {
    let exts = strings(&[".rs", ".txt"]);
    assert!(is_text_ext("src/MAIN.RS", &exts));
    assert!(is_text_ext("notes.Txt", &exts));
    assert!(!is_text_ext("image.png", &exts));
    assert!(!is_text_ext("Makefile", &exts));
    // a hidden file's leading dot is not an extension
    assert!(!is_text_ext(".txt", &exts));
    assert!(!is_text_ext("dir/.rs", &exts));
}

#[test]
fn extension_case_folding_is_not_limited_to_ascii() {
    let exts = strings(&[".mäk"]);
    assert!(is_text_ext("plan.MÄK", &exts));
    assert!(is_text_ext("plan.mäk", &exts));
    assert!(!is_text_ext("plan.mak", &exts));
}

#[test]
fn decoding_tries_utf8_then_falls_back() {
    assert_eq!(decode_text(&b"hello\n".to_vec()), "hello\n");
    assert_eq!(decode_text(&"héllo".as_bytes().to_vec()), "h\u{e9}llo");
    // 0xC4 0xE3 is not valid UTF-8; as GBK it decodes to a CJK character
    let decoded = decode_text(&vec![0xC4, 0xE3]);
    assert_eq!(decoded, "\u{4f60}");
}
