use devctx::chunk::ChunkConfig;
use devctx::semantic::{chunk_file, slice, Import, ParsedFile, Symbol};

fn sym(source: &str, code: &str, name: &str, kind: &str, parent: Option<&str>, doc: Option<&str>) -> Symbol {
    let start = source.find(code).expect("the code is in the source");
    let doc_start = doc.map(|d| source.find(d).unwrap()).unwrap_or(start);
    let line_of = |byte: usize| source[..byte].matches('\n').count() as u32 + 1;
    Symbol {
        name: name.into(),
        kind: kind.into(),
        parent: parent.map(|p| p.to_string()),
        start_byte: start,
        end_byte: start + code.len(),
        start_line: line_of(start),
        end_line: line_of(start + code.len()),
        doc_start_byte: doc_start,
        doc_start_line: line_of(doc_start),
    }
}

#[test]
fn slicing_respects_character_boundaries() {
    assert_eq!(slice("héllo", 0, 1), "h");
    assert_eq!(slice("héllo", 1, 3), "é");
    assert_eq!(slice("héllo", 1, 2), "", "the middle of a character is no boundary");
    assert_eq!(slice("abc", 2, 9), "");
    assert_eq!(slice("abc", 2, 1), "");
}

#[test]
fn a_file_is_chunked_file_class_doc_then_functions() {
    let source = "use std::fmt;\n\
                  struct Point;\n\
                  impl Point {\n\
                  fn x() {}\n\
                  }\n\
                  /// Waits for the process holding the lock to exit, so the next command does\n\
                  /// not open a database another process still owns.\n\
                  fn wait_for_exit(pid: u32) -> bool { true }\n\
                  fn y() {}\n";
    let parsed = ParsedFile {
        symbols: vec![
            sym(source, "struct Point;", "Point", "struct", None, None),
            sym(source, "fn x() {}", "x", "method", Some("Point"), None),
            sym(
                source,
                "fn wait_for_exit(pid: u32) -> bool { true }",
                "wait_for_exit",
                "function",
                None,
                Some("/// Waits"),
            ),
            sym(source, "fn y() {}", "y", "function", None, None),
        ],
        imports: vec![Import { statement: "use std::fmt;".into() }],
    };
    let chunks = chunk_file("src/remote.rs", source, &parsed, &ChunkConfig::default());
    let levels: Vec<&str> = chunks.iter().map(|c| c.level.as_str()).collect();
    assert_eq!(levels, vec!["file", "class", "doc", "function"]);
    assert_eq!(
        chunks[0].text,
        "# File: remote.rs\n# Imports:\nuse std::fmt;\n# Symbols:\n- Point (struct)\n- x (method)\n- wait_for_exit (function)\n- y (function)\n"
    );
    assert_eq!(chunks[1].text, "struct Point;\n# methods: x");
    let doc = &chunks[2];
    assert!(doc.text.contains("another process still owns"));
    assert!(doc.text.contains("fn wait_for_exit"), "the signature ties the prose to the code");
    assert_eq!(doc.symbol_name, "wait_for_exit");
    assert_eq!(chunks[3].symbol_type, "grouped");
    assert_eq!(chunks[3].symbol_name, "x, wait_for_exit, y");
    assert!(chunks[3].text.starts_with("# remote.rs > Point > x\nfn x() {}\n\n# remote.rs > wait_for_exit"));
}

#[test]
fn a_doc_that_restates_the_name_is_not_worth_a_chunk() {
    let src = "/// The name.\nfn name() {}\n";
    let parsed = ParsedFile { symbols: vec![sym(src, "fn name() {}", "name", "function", None, Some("/// The"))], imports: vec![] };
    let chunks = chunk_file("a.rs", src, &parsed, &ChunkConfig::default());
    assert!(!chunks.iter().any(|c| c.level == "doc"));
    assert!(chunks[0].text.contains("(none)"), "no imports are said to be none");
}

#[test]
fn a_large_function_becomes_blocks_that_repeat_its_signature() {
    let mut body = String::from("fn big() {\n");
    for i in 0..300 {
        body.push_str(&format!("    let value_number_{i} = compute_something_rather_long({i});\n"));
    }
    body.push('}');
    let source = format!("{body}\n");
    let parsed = ParsedFile { symbols: vec![sym(&source, &body, "big", "function", None, None)], imports: vec![] };
    let chunks = chunk_file("big.rs", &source, &parsed, &ChunkConfig::default());
    let blocks: Vec<_> = chunks.iter().filter(|c| c.level == "block").collect();
    assert!(blocks.len() >= 2, "a large function is split");
    assert!(blocks[0].text.starts_with("# big.rs > big\nfn big() {\n"));
    for b in &blocks[1..] {
        assert!(b.text.starts_with("# big.rs > big\nfn big() {\n"), "every block repeats the signature");
    }
    for pair in blocks.windows(2) {
        assert_eq!(pair[1].start_line, pair[0].end_line + 1, "blocks tile the function");
    }
    assert_eq!(blocks.last().unwrap().end_line, 302);
}

#[test]
fn a_middle_sized_function_is_one_chunk() {
    let mut body = String::from("fn mid() {\n");
    for i in 0..10 {
        body.push_str(&format!("    step_{i}(with_some_argument, and_another_one);\n"));
    }
    body.push('}');
    let parsed = ParsedFile { symbols: vec![sym(&body, &body, "mid", "function", None, None)], imports: vec![] };
    let chunks = chunk_file("m.rs", &body, &parsed, &ChunkConfig::default());
    assert_eq!(chunks.len(), 2);
    assert_eq!(chunks[1].level, "function");
    assert_eq!(chunks[1].symbol_name, "mid");
    assert_eq!(chunks[1].context_header, "# m.rs > mid");
}

#[test]
fn a_documented_symbol_gets_a_chunk_for_its_prose() {
    let src = "\
/// Waits for the process holding the lock to exit, so the next command does
/// not open a database another process still owns.
fn wait_for_exit(pid: u32) -> bool { true }
";
    let parsed = ParsedFile {
        symbols: vec![sym(
            src,
            "fn wait_for_exit(pid: u32) -> bool { true }",
            "wait_for_exit",
            "function",
            None,
            Some("/// Waits"),
        )],
        imports: vec![],
    };
    let chunks = chunk_file("remote.rs", src, &parsed, &ChunkConfig::default());
    let doc = chunks
        .iter()
        .find(|c| c.level == "doc")
        .expect("a documented symbol produces a doc chunk");
    assert!(doc.text.contains("another process still owns"));
    assert!(doc.text.contains("fn wait_for_exit"), "the signature ties the prose to the code");
    assert_eq!(doc.symbol_name, "wait_for_exit");
}
