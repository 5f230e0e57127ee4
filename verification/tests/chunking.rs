use devctx::chunk::{content_hash, estimate_tokens, Chunk, ChunkConfig};
use devctx::chunker::{chunk_raw_text, context_header, flush_small, PendingSmall};
use devctx::memory::{memory_chunks, MemoryChunkConfig};

#[test]
fn content_hash_is_16_hex_and_stable() {
    let h = content_hash("hello world");
    assert_eq!(h.len(), 16);
    assert!(h.chars().all(|c| c.is_ascii_hexdigit()));
    assert_eq!(h, content_hash("hello world"));
    assert_ne!(h, content_hash("hello world!"));
}

#[test]
fn content_hash_is_the_sha256_prefix() {
    // The first eight bytes of sha256("hello world").
    assert_eq!(content_hash("hello world"), "b94d27b9934d3e08");
}

#[test]
fn token_estimate() {
    assert_eq!(estimate_tokens("abcd"), 1);
    assert_eq!(estimate_tokens(&"x".repeat(400)), 100);
}

#[test]
fn token_estimate_counts_characters_not_bytes() {
    assert_eq!(estimate_tokens("ññññ"), 1);
    assert_eq!(estimate_tokens("abc"), 0);
}

#[test]
fn chunker_defaults() {
    let c = ChunkConfig::default();
    assert_eq!((c.max_chunk_tokens, c.min_chunk_tokens, c.large_function_threshold), (512, 64, 1024));
}

#[test]
fn a_new_chunk_hashes_its_text() {
    let c = Chunk::new("fn a() {}".to_string(), "function", "a", "function", 3, 5, "# x.rs > a".to_string());
    assert_eq!(c.content_hash, content_hash("fn a() {}"));
    assert_eq!((c.start_line, c.end_line), (3, 5));
    assert_eq!(c.context_header, "# x.rs > a");
}

fn pending(n: u32) -> Vec<PendingSmall> {
    (1..=n)
        .map(|i| PendingSmall {
            text: format!("fn f{i}() {{}}"),
            name: format!("f{i}"),
            start: i,
            end: i,
        })
        .collect()
}

#[test]
fn a_grouped_chunk_is_named_after_its_contents() {
    let (mut chunks, mut tokens) = (Vec::new(), 0);
    let mut small = pending(3);
    flush_small(&mut chunks, &mut small, &mut tokens);

    assert_eq!(chunks[0].symbol_name, "f1, f2, f3");
    assert_eq!(chunks[0].symbol_type, "grouped");
    assert_eq!((chunks[0].start_line, chunks[0].end_line), (1, 3));
    assert!(small.is_empty(), "the pending set is drained");
    assert_eq!(tokens, 0);
}

#[test]
fn a_long_group_summarises_the_tail() {
    let (mut chunks, mut tokens) = (Vec::new(), 0);
    let mut many = pending(7);
    flush_small(&mut chunks, &mut many, &mut tokens);
    assert_eq!(chunks[0].symbol_name, "f1, f2, f3, f4 +3");
}

#[test]
fn a_group_joins_its_texts_with_a_blank_line() {
    let (mut chunks, mut tokens) = (Vec::new(), 5);
    let mut small = pending(2);
    flush_small(&mut chunks, &mut small, &mut tokens);
    assert_eq!(chunks[0].text, "fn f1() {}\n\nfn f2() {}");
    assert_eq!(chunks[0].level, "function");
    assert_eq!(tokens, 0);
}

#[test]
fn unnamed_symbols_are_counted_not_named() {
    let (mut chunks, mut tokens) = (Vec::new(), 0);
    let mut small = pending(2);
    small[0].name = String::new();
    flush_small(&mut chunks, &mut small, &mut tokens);
    assert_eq!(chunks[0].symbol_name, "f2 +1");
}

#[test]
fn flushing_nothing_produces_nothing() {
    let (mut chunks, mut tokens) = (Vec::new(), 0);
    flush_small(&mut chunks, &mut Vec::new(), &mut tokens);
    assert!(chunks.is_empty());
}

#[test]
fn a_context_header_names_file_parent_and_symbol() {
    assert_eq!(context_header("src/lib.rs", Some("Foo"), "bar"), "# lib.rs > Foo > bar");
    assert_eq!(context_header("src/lib.rs", None, "bar"), "# lib.rs > bar");
}

#[test]
fn raw_text_blocks_overlap_their_neighbour() {
    let cfg = ChunkConfig::default();
    let content: String = (1..=400)
        .map(|i| format!("line {i} of a document that has to be split somewhere\n"))
        .collect();
    let chunks = chunk_raw_text("guide.md", &content, &cfg);
    assert!(chunks.len() > 1, "the fixture must actually split");

    for pair in chunks.windows(2) {
        let (a, b) = (&pair[0], &pair[1]);
        assert!(b.start_line <= a.end_line, "block {} starts after {} ends", b.start_line, a.end_line);
        assert!(b.start_line > a.start_line, "each block must advance");
    }
    let last = chunks.last().unwrap();
    assert_eq!(last.end_line as usize, content.lines().count(), "the tail is covered");
}

#[test]
fn small_raw_text_is_one_file_chunk() {
    let chunks = chunk_raw_text("docs/notes.md", "hello\nworld\n", &ChunkConfig::default());
    assert_eq!(chunks.len(), 1);
    assert_eq!(chunks[0].level, "file");
    assert_eq!(chunks[0].symbol_name, "notes.md");
    assert_eq!((chunks[0].start_line, chunks[0].end_line), (1, 2));
    assert!(chunk_raw_text("a.md", "  \n\t\n", &ChunkConfig::default()).is_empty());
}

fn cfg(window: usize, overlap: usize, max: usize) -> MemoryChunkConfig {
    MemoryChunkConfig { window_tokens: window, overlap, max_chunks: max }
}

#[test]
fn short_content_yields_only_intro() {
    let chunks = memory_chunks("Title", "a b c", &cfg(5, 2, 40));
    assert_eq!(chunks.len(), 1);
    assert_eq!(chunks[0].level, "memory");
    assert_eq!(chunks[0].text, "Title\na b c");
}

#[test]
fn windows_skip_first_and_prepend_title() {
    let content = "w0 w1 w2 w3 w4 w5 w6 w7 w8 w9 w10 w11";
    let chunks = memory_chunks("T", content, &cfg(5, 2, 40));
    assert_eq!(chunks.len(), 4);
    assert_eq!(chunks[0].level, "memory");
    assert!(chunks[1..].iter().all(|c| c.level == "memory_chunk"));
    assert!(chunks[1..].iter().all(|c| c.text.starts_with("T\n")));
    assert_eq!(chunks[1].text, "T\nw3 w4 w5 w6 w7");
    assert_eq!(chunks[3].text, "T\nw9 w10 w11");
}

#[test]
fn respects_max_chunks() {
    let content = (0..200).map(|i| format!("w{i}")).collect::<Vec<_>>().join(" ");
    let chunks = memory_chunks("T", &content, &cfg(5, 2, 3));
    assert!(chunks.len() <= 4, "got {}", chunks.len());
    assert_eq!(chunks[0].level, "memory");
}

#[test]
fn empty_title_omits_prefix() {
    let chunks = memory_chunks("", "a b c", &cfg(5, 2, 40));
    assert_eq!(chunks[0].text, "a b c");
}

#[test]
fn memory_windows_split_on_any_white_space() {
    let chunks = memory_chunks("", "a\tb\n\nc  d e", &cfg(2, 0, 40));
    let texts: Vec<&str> = chunks.iter().map(|c| c.text.as_str()).collect();
    assert_eq!(texts, vec!["a\tb\n\nc  d e", "c d", "e"]);
}

#[test]
fn memory_defaults() {
    let c = MemoryChunkConfig::default();
    assert_eq!((c.window_tokens, c.overlap, c.max_chunks), (100, 30, 40));
}
