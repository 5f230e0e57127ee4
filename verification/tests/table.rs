use devctx::cli::render_table;
use devctx::types::VectorMetadata;

fn hit(file: &str, symbol: &str, score: f32) -> (String, VectorMetadata) {
    (
        format!("{:.3}", score),
        VectorMetadata {
            file: file.into(),
            symbol: symbol.into(),
            symbol_type: "function".into(),
            chunk_level: "function".into(),
            start_line: 3,
            end_line: 7,
            ..Default::default()
        },
    )
}

#[test]
fn table_renders_rows() {
    let out = render_table(&[hit("src/a.rs", "foo", 0.9421)]);
    assert!(out.contains("0.942"));
    assert!(out.contains("src/a.rs:3-7"));
    assert!(out.contains("foo [function]"));
}

#[test]
fn empty_table_message() {
    assert_eq!(render_table(&[]), "No results.");
}

#[test]
fn rows_come_one_per_line_in_order_and_a_missing_symbol_shows_a_dash() {
    let out = render_table(&[hit("src/a.rs", "foo", 0.5), hit("b.md", "", 0.25)]);
    assert_eq!(out, "0.500  src/a.rs:3-7  foo [function]\n0.250  b.md:3-7  - [function]");
}
