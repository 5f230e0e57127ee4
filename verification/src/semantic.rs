//! The semantic chunker: file → class → function → block.
//!
//! Never splits mid-symbol. Small symbols are grouped; large functions are
//! split into block chunks that re-include the signature line; documented
//! symbols get a chunk of their own for the prose above them.

use vstd::prelude::*;
use vstd::utf8::{decode_utf8, encode_utf8, is_char_boundary};
use vstd::string::StringSliceAdditionalSpecFns;
use crate::chunk::{Chunk, ChunkConfig, estimate_tokens, spec_estimate_tokens};
use crate::chunker::{
    block_end, chunk_of, chunk_views, context_header, first_names, flush_small, group_chunk, header_spec,
    lemma_block_end_bounds, pending_names, pending_texts, snap_to_blank, ChunkView, PendingSmall, GROUPED_NAME_CAP,
};
use crate::text::decimal;
use crate::path::{base_name, basename};
use crate::text::{
    chars_of, join, lines, lines_of, owned, push_joined, push_range, push_str, same_text, trim, trim_bounds, trim_end,
    views,
};

verus! {

/// One import statement of a parsed file.
pub struct Import {
    /// The statement as written.
    pub statement: String,
}

/// One symbol of a parsed file, as the parser located it.
pub struct Symbol {
    /// Its name.
    pub name: String,
    /// Its kind: `function`, `method`, `class`, `struct`, …
    pub kind: String,
    /// The symbol it is declared inside, if any.
    pub parent: Option<String>,
    /// Byte offset where its code begins.
    pub start_byte: usize,
    /// Byte offset where its code ends.
    pub end_byte: usize,
    /// 1-based first line of its code.
    pub start_line: u32,
    /// 1-based last line of its code.
    pub end_line: u32,
    /// Byte offset where the doc comment above it begins (`start_byte` when
    /// there is none).
    pub doc_start_byte: usize,
    /// 1-based line where that doc comment begins.
    pub doc_start_line: u32,
}

/// What the parser found in a file.
pub struct ParsedFile {
    /// Its symbols, in source order.
    pub symbols: Vec<Symbol>,
    /// Its imports, in source order.
    pub imports: Vec<Import>,
}

/// `source[start..end]` when that is a range of whole characters inside it,
/// otherwise nothing.
pub open spec fn slice_spec(source: Seq<char>, start: int, end: int) -> Seq<char> {
    let b = encode_utf8(source);
    if start <= end <= b.len() && is_char_boundary(b, start) && is_char_boundary(b, end) {
        decode_utf8(b.subrange(start, end))
    } else {
        seq![]
    }
}

/// `source.get(start..end).unwrap_or("")`.
pub fn slice(source: &str, start: usize, end: usize) -> (r: &str)
    requires
        encode_utf8(source@).len() <= usize::MAX,
    ensures
        r@ == slice_spec(source@, start as int, end as int),
{
    broadcast use vstd::utf8::encode_utf8_decode_utf8, vstd::utf8::encode_utf8_valid_utf8;

    let n = source.len();
    let ghost b = encode_utf8(source@);
    assert(source.spec_bytes() == b);
    assert(n == b.len());
    if start <= end && end <= n && source.is_char_boundary(start) && source.is_char_boundary(end) {
        let (_, rest) = source.split_at(start);
        let ghost rb = rest.spec_bytes();
        assert(rb =~= b.subrange(start as int, b.len() as int));
        assert(rb == encode_utf8(rest@));
        assert(is_char_boundary(rb, (end - start) as int)) by {
            if end == n {
                vstd::utf8::is_char_boundary_start_end_of_seq(rb);
                assert(rb.len() == end - start);
            } else {
                vstd::utf8::is_char_boundary_iff_not_is_continuation_byte(b, end as int);
                vstd::utf8::is_char_boundary_iff_not_is_continuation_byte(rb, (end - start) as int);
                assert(rb[(end - start) as int] == b[end as int]);
            }
        }
        let (mid, _) = rest.split_at(end - start);
        assert(mid.spec_bytes() =~= b.subrange(start as int, end as int));
        assert(mid.spec_bytes() == encode_utf8(mid@));
        mid
    } else {
        proof {
            reveal_strlit("");
        }
        ""
    }
}


/// Symbol kinds that act as class-level containers.
pub open spec fn container_kind(k: Seq<char>) -> bool {
    k == "class"@ || k == "struct"@ || k == "enum"@ || k == "trait"@ || k == "interface"@
}

/// Symbol kinds that are functions.
pub open spec fn callable_kind(k: Seq<char>) -> bool {
    k == "function"@ || k == "method"@
}

/// Whether a symbol is a class-level container.
pub fn is_container(s: &Symbol) -> (b: bool)
    ensures
        b == container_kind(s.kind@),
{
    let k = s.kind.as_str();
    same_text(k, "class") || same_text(k, "struct") || same_text(k, "enum") || same_text(k, "trait") || same_text(
        k,
        "interface",
    )
}

/// Whether a symbol is a function or a method.
pub fn is_callable(s: &Symbol) -> (b: bool)
    ensures
        b == callable_kind(s.kind@),
{
    same_text(s.kind.as_str(), "function") || same_text(s.kind.as_str(), "method")
}

/// The first line of `s`, as `s.lines().next().unwrap_or("")` gives it.
pub open spec fn first_line(s: Seq<char>) -> Seq<char> {
    if lines(s).len() > 0 {
        lines(s)[0]
    } else {
        seq![]
    }
}

fn first_line_of(v: &[char]) -> (r: Vec<char>)
    ensures
        r@ == first_line(v@),
{
    let ls = lines_of(v);
    if ls.len() > 0 {
        let mut r: Vec<char> = Vec::new();
        let l = &ls[0];
        let mut i: usize = 0;
        while i < l.len()
            invariant
                i <= l@.len(),
                r@ == l@.take(i as int),
            decreases l@.len() - i,
        {
            r.push(l[i]);
            i = i + 1;
            assert(r@ =~= l@.take(i as int));
        }
        assert(l@.take(l@.len() as int) =~= l@);
        r
    } else {
        Vec::new()
    }
}

/// `s.lines().next().unwrap_or("").trim_end()`: a symbol's signature line.
pub open spec fn signature_of(s: Seq<char>) -> Seq<char> {
    trim_end(first_line(s))
}

fn signature(s: &str) -> (r: String)
    ensures
        r@ == signature_of(s@),
{
    let v = chars_of(s);
    let l = first_line_of(v.as_slice());
    let (_, e) = trim_bounds(l.as_slice());
    let mut r = String::new();
    push_range(&mut r, l.as_slice(), 0, e);
    assert(l@.subrange(0, e as int) =~= l@.take(e as int));
    r
}

/// The imports section of the file chunk: each statement on its own line,
/// or `(none)`.
pub open spec fn import_lines(imports: Seq<Import>) -> Seq<char>
    decreases imports.len(),
{
    if imports.len() == 0 {
        seq![]
    } else {
        import_lines(imports.drop_last()) + imports.last().statement@ + "\n"@
    }
}

/// The symbols section of the file chunk: `- name (kind)` per symbol.
pub open spec fn symbol_lines(symbols: Seq<Symbol>) -> Seq<char>
    decreases symbols.len(),
{
    if symbols.len() == 0 {
        seq![]
    } else {
        symbol_lines(symbols.drop_last()) + "- "@ + symbols.last().name@ + " ("@ + symbols.last().kind@ + ")\n"@
    }
}

/// The file chunk's text: the file's name, its imports and its symbols.
pub open spec fn file_text(path: Seq<char>, parsed: ParsedFile) -> Seq<char> {
    "# File: "@ + basename(path) + "\n# Imports:\n"@ + (if parsed.imports@.len() == 0 {
        "(none)\n"@
    } else {
        import_lines(parsed.imports@)
    }) + "# Symbols:\n"@ + symbol_lines(parsed.symbols@)
}

/// The chunk that describes a whole file.
pub fn file_chunk(path: &str, parsed: &ParsedFile, total_lines: u32) -> (c: Chunk)
    ensures
        c.view_of() == chunk_of(file_text(path@, *parsed), "file"@, basename(path@), "file"@, 1, total_lines as int, seq![]),
{
    let base = base_name(path);
    let mut text = owned("# File: ");
    push_str(&mut text, base.as_str());
    push_str(&mut text, "\n# Imports:\n");
    let ghost head = text@;
    if parsed.imports.len() == 0 {
        push_str(&mut text, "(none)\n");
    } else {
        let mut i: usize = 0;
        while i < parsed.imports.len()
            invariant
                i <= parsed.imports@.len(),
                text@ == head + import_lines(parsed.imports@.take(i as int)),
            decreases parsed.imports@.len() - i,
        {
            assert(parsed.imports@.take(i + 1).drop_last() =~= parsed.imports@.take(i as int));
            push_str(&mut text, parsed.imports[i].statement.as_str());
            push_str(&mut text, "\n");
            i = i + 1;
        }
        assert(parsed.imports@.take(parsed.imports@.len() as int) =~= parsed.imports@);
    }
    push_str(&mut text, "# Symbols:\n");
    let ghost mid = text@;
    let mut k: usize = 0;
    while k < parsed.symbols.len()
        invariant
            k <= parsed.symbols@.len(),
            text@ == mid + symbol_lines(parsed.symbols@.take(k as int)),
        decreases parsed.symbols@.len() - k,
    {
        assert(parsed.symbols@.take(k + 1).drop_last() =~= parsed.symbols@.take(k as int));
        let s = &parsed.symbols[k];
        push_str(&mut text, "- ");
        push_str(&mut text, s.name.as_str());
        push_str(&mut text, " (");
        push_str(&mut text, s.kind.as_str());
        push_str(&mut text, ")\n");
        k = k + 1;
    }
    assert(parsed.symbols@.take(parsed.symbols@.len() as int) =~= parsed.symbols@);
    assert(text@ =~= file_text(path@, *parsed));
    Chunk::new(text, "file", base.as_str(), "file", 1, total_lines, String::new())
}

/// Whether symbol `s` is a method of the symbol named `owner`.
pub open spec fn method_of(s: Symbol, owner: Seq<char>) -> bool {
    callable_kind(s.kind@) && (s.parent matches Some(p) && p@ == owner)
}

/// The names of the methods of `owner`, in order.
pub open spec fn method_names(symbols: Seq<Symbol>, owner: Seq<char>) -> Seq<Seq<char>>
    decreases symbols.len(),
{
    if symbols.len() == 0 {
        seq![]
    } else {
        let r = method_names(symbols.drop_last(), owner);
        if method_of(symbols.last(), owner) {
            r.push(symbols.last().name@)
        } else {
            r
        }
    }
}

/// The parent of a symbol, as plain values.
pub open spec fn parent_view(s: Symbol) -> Option<Seq<char>> {
    match s.parent {
        Some(p) => Some(p@),
        None => None,
    }
}

/// The chunk that describes a class-level container: its signature line and
/// the names of its methods.
pub open spec fn class_chunk_spec(path: Seq<char>, source: Seq<char>, sym: Symbol, symbols: Seq<Symbol>) -> ChunkView {
    let sig = signature_of(slice_spec(source, sym.start_byte as int, sym.end_byte as int));
    let methods = method_names(symbols, sym.name@);
    let text = if methods.len() == 0 { sig } else { sig + "\n# methods: "@ + join(methods, ", "@) };
    chunk_of(
        text,
        "class"@,
        sym.name@,
        sym.kind@,
        sym.start_line as int,
        sym.end_line as int,
        header_spec(path, parent_view(sym), sym.name@),
    )
}

fn opt_str(o: &Option<String>) -> (r: Option<&str>)
    ensures
        match o {
            Some(s) => r matches Some(x) && x@ == s@,
            None => r is None,
        },
{
    match o {
        Some(s) => Some(s.as_str()),
        None => None,
    }
}

/// The chunk for one class-level container.
pub fn class_chunk(path: &str, source: &str, sym: &Symbol, parsed: &ParsedFile) -> (c: Chunk)
    requires
        encode_utf8(source@).len() <= usize::MAX,
    ensures
        c.view_of() == class_chunk_spec(path@, source@, *sym, parsed.symbols@),
{
    let body = slice(source, sym.start_byte, sym.end_byte);
    let sig = signature(body);
    let mut methods: Vec<Vec<char>> = Vec::new();
    let mut i: usize = 0;
    while i < parsed.symbols.len()
        invariant
            i <= parsed.symbols@.len(),
            views(methods@) == method_names(parsed.symbols@.take(i as int), sym.name@),
        decreases parsed.symbols@.len() - i,
    {
        assert(parsed.symbols@.take(i + 1).drop_last() =~= parsed.symbols@.take(i as int));
        let s = &parsed.symbols[i];
        let is_method = is_callable(s) && match &s.parent {
            Some(p) => same_text(p.as_str(), sym.name.as_str()),
            None => false,
        };
        if is_method {
            let ghost before = views(methods@);
            methods.push(chars_of(s.name.as_str()));
            assert(views(methods@) =~= before.push(s.name@));
        }
        i = i + 1;
    }
    assert(parsed.symbols@.take(parsed.symbols@.len() as int) =~= parsed.symbols@);
    let mut text = sig;
    if methods.len() > 0 {
        push_str(&mut text, "\n# methods: ");
        push_joined(&mut text, methods.as_slice(), 0, methods.len(), ", ");
        assert(views(methods@).subrange(0, methods@.len() as int) =~= views(methods@));
    }
    let header = context_header(path, opt_str(&sym.parent), sym.name.as_str());
    Chunk::new(text, "class", sym.name.as_str(), sym.kind.as_str(), sym.start_line, sym.end_line, header)
}

/// Shortest doc comment worth its own chunk, in bytes: `/// The name.`
/// restates the signature; a sentence about what happens does not.
pub const MIN_DOC_CHARS: usize = 60;

/// The prose above a symbol, trimmed.
pub open spec fn doc_of(source: Seq<char>, sym: Symbol) -> Seq<char> {
    trim(slice_spec(source, sym.doc_start_byte as int, sym.start_byte as int))
}

/// Whether a symbol's doc comment is long enough to say something the code
/// does not.
pub open spec fn documented(source: Seq<char>, sym: Symbol) -> bool {
    encode_utf8(doc_of(source, sym)).len() as usize >= MIN_DOC_CHARS
}

/// The doc chunk of a documented symbol: its header, the prose, and the
/// signature that ties the prose to the code.
pub open spec fn doc_chunk_spec(path: Seq<char>, source: Seq<char>, sym: Symbol) -> ChunkView {
    let header = header_spec(path, parent_view(sym), sym.name@);
    let sig = signature_of(slice_spec(source, sym.start_byte as int, sym.end_byte as int));
    chunk_of(
        header + "\n"@ + doc_of(source, sym) + "\n"@ + sig,
        "doc"@,
        sym.name@,
        sym.kind@,
        sym.doc_start_line as int,
        sym.start_line as int,
        header,
    )
}

/// The doc chunks of the documented symbols among `symbols`, in order.
pub open spec fn doc_chunks_spec(path: Seq<char>, source: Seq<char>, symbols: Seq<Symbol>) -> Seq<ChunkView>
    decreases symbols.len(),
{
    if symbols.len() == 0 {
        seq![]
    } else {
        let r = doc_chunks_spec(path, source, symbols.drop_last());
        if documented(source, symbols.last()) {
            r.push(doc_chunk_spec(path, source, symbols.last()))
        } else {
            r
        }
    }
}

fn utf8_len_of(s: &str) -> (n: usize)
    ensures
        n == encode_utf8(s@).len() as usize,
{
    s.len()
}

/// One chunk per documented symbol, holding the prose above it.
///
/// Questions about behaviour share no words with the code that answers them;
/// the doc comment above it is the only place anyone wrote what it does. Kept
/// apart from the code, so a behaviour question can match prose and an
/// identifier question code.
pub fn doc_chunks(path: &str, source: &str, parsed: &ParsedFile) -> (out: Vec<Chunk>)
    requires
        encode_utf8(source@).len() <= usize::MAX,
    ensures
        chunk_views(out@) == doc_chunks_spec(path@, source@, parsed.symbols@),
{
    let mut out: Vec<Chunk> = Vec::new();
    let mut i: usize = 0;
    while i < parsed.symbols.len()
        invariant
            i <= parsed.symbols@.len(),
            encode_utf8(source@).len() <= usize::MAX,
            chunk_views(out@) == doc_chunks_spec(path@, source@, parsed.symbols@.take(i as int)),
        decreases parsed.symbols@.len() - i,
    {
        assert(parsed.symbols@.take(i + 1).drop_last() =~= parsed.symbols@.take(i as int));
        let sym = &parsed.symbols[i];
        let raw = slice(source, sym.doc_start_byte, sym.start_byte);
        let doc = crate::text::trimmed(raw);
        if utf8_len_of(doc.as_str()) >= MIN_DOC_CHARS {
            let header = context_header(path, opt_str(&sym.parent), sym.name.as_str());
            let sig = signature(slice(source, sym.start_byte, sym.end_byte));
            let mut text = owned(header.as_str());
            push_str(&mut text, "\n");
            push_str(&mut text, doc.as_str());
            push_str(&mut text, "\n");
            push_str(&mut text, sig.as_str());
            let c = Chunk::new(text, "doc", sym.name.as_str(), sym.kind.as_str(), sym.doc_start_line, sym.start_line, header);
            let ghost before = out@;
            out.push(c);
            assert(chunk_views(out@) =~= chunk_views(before).push(c.view_of()));
        }
        i = i + 1;
    }
    assert(parsed.symbols@.take(parsed.symbols@.len() as int) =~= parsed.symbols@);
    out
}

/// The lines of a large function's blocks: from line `i` on, each block runs
/// to the next cut, and the next block starts where it ended.
pub open spec fn block_cuts(ls: Seq<Seq<char>>, i: int, target: int) -> Seq<(int, int)>
    decreases ls.len() - i,
{
    if i < 0 || i >= ls.len() || target < 1 {
        seq![]
    } else {
        let e = block_end(ls, i, target);
        proof {
            lemma_block_end_bounds(ls, i, target);
        }
        seq![(i, e)] + block_cuts(ls, e, target)
    }
}

/// How many lines a large function's blocks hold: its lines split into as
/// many parts as its tokens fill chunks (at least two), at least one line.
pub open spec fn block_target(body: Seq<char>, max_tokens: nat) -> int {
    let ls = lines(body);
    let total = spec_estimate_tokens(body);
    let parts = if total / max_tokens > 2 { total / max_tokens } else { 2 };
    if ls.len() / parts > 1 { (ls.len() / parts) as int } else { 1 }
}

/// The block chunks of a large function: each block is its header and its
/// lines, and every block after the first repeats the signature line.
pub open spec fn block_chunks_spec(header: Seq<char>, body: Seq<char>, sym: Symbol, max_tokens: nat) -> Seq<ChunkView> {
    let ls = lines(body);
    let sig = first_line(body);
    let cuts = block_cuts(ls, 0, block_target(body, max_tokens));
    Seq::new(
        cuts.len(),
        |c: int|
            chunk_of(
                if cuts[c].0 == 0 {
                    header + "\n"@ + join(ls.subrange(cuts[c].0, cuts[c].1), "\n"@)
                } else {
                    header + "\n"@ + sig + "\n"@ + join(ls.subrange(cuts[c].0, cuts[c].1), "\n"@)
                },
                "block"@,
                sym.name@,
                sym.kind@,
                sym.start_line + cuts[c].0,
                sym.start_line + cuts[c].1 - 1,
                header,
            ),
    )
}

/// Block cuts start where asked, end at the last line, and each starts where
/// the one before ended.
proof fn lemma_block_cuts(ls: Seq<Seq<char>>, i: int, target: int)
    requires
        0 <= i < ls.len(),
        target >= 1,
    ensures
        block_cuts(ls, i, target).len() >= 1,
        block_cuts(ls, i, target)[0].0 == i,
        forall|c: int| 0 <= c < block_cuts(ls, i, target).len() ==> i <= (#[trigger] block_cuts(ls, i, target)[c]).0
            < block_cuts(ls, i, target)[c].1 <= ls.len(),
    decreases ls.len() - i,
{
    let e = block_end(ls, i, target);
    lemma_block_end_bounds(ls, i, target);
    if e < ls.len() {
        lemma_block_cuts(ls, e, target);
        let rest = block_cuts(ls, e, target);
        let all = block_cuts(ls, i, target);
        assert forall|c: int| 0 <= c < all.len() implies i <= (#[trigger] all[c]).0 < all[c].1 <= ls.len() by {
            if c > 0 {
                assert(all[c] == rest[c - 1]);
            }
        }
    } else {
        assert(block_cuts(ls, e, target) =~= Seq::<(int, int)>::empty());
    }
}

/// Split a large function into block chunks that re-include its signature
/// line, so every block still says which function it belongs to.
pub fn block_chunks(header: &str, body: &str, sym: &Symbol, cfg: &ChunkConfig) -> (out: Vec<Chunk>)
    requires
        cfg.max_chunk_tokens > 0,
        sym.start_line + lines(body@).len() <= u32::MAX,
    ensures
        chunk_views(out@) == block_chunks_spec(header@, body@, *sym, cfg.max_chunk_tokens as nat),
{
    let v = chars_of(body);
    let ls = lines_of(v.as_slice());
    let ghost lsv = views(ls@);
    let sig = first_line_of(v.as_slice());
    let total = estimate_tokens(body);
    let parts = if total / cfg.max_chunk_tokens > 2 { total / cfg.max_chunk_tokens } else { 2 };
    let target = if ls.len() / parts > 1 { ls.len() / parts } else { 1 };
    assert(target as int == block_target(body@, cfg.max_chunk_tokens as nat));
    let ghost all = block_cuts(lsv, 0, target as int);
    let mut out: Vec<Chunk> = Vec::new();
    if ls.len() == 0 {
        assert(all =~= Seq::<(int, int)>::empty());
        assert(chunk_views(out@) =~= block_chunks_spec(header@, body@, *sym, cfg.max_chunk_tokens as nat));
        return out;
    }
    proof {
        lemma_block_cuts(lsv, 0, target as int);
    }
    let mut i: usize = 0;
    let ghost mut done: int = 0;
    while i < ls.len()
        invariant
            lsv == views(ls@),
            lsv == lines(body@),
            sig@ == first_line(body@),
            target >= 1,
            target as int == block_target(body@, cfg.max_chunk_tokens as nat),
            all == block_cuts(lsv, 0, target as int),
            sym.start_line + lsv.len() <= u32::MAX,
            i <= ls@.len(),
            0 <= done <= all.len(),
            i < ls@.len() ==> done < all.len() && all[done].0 == i,
            i == ls@.len() ==> done == all.len(),
            all.skip(done) == block_cuts(lsv, i as int, target as int),
            out@.len() == done,
            forall|c: int| 0 <= c < done ==> #[trigger] out@[c].view_of() == block_chunks_spec(
                header@,
                body@,
                *sym,
                cfg.max_chunk_tokens as nat,
            )[c],
        decreases ls@.len() - i,
    {
        let n = ls.len();
        proof {
            lemma_block_end_bounds(lsv, i as int, target as int);
        }
        let e0 = if target < n - i { i + target } else { n };
        let mut end = e0;
        if end < n {
            end = snap_to_blank(&ls, end, 3);
        }
        if end <= i {
            end = if e0 > i + 1 { e0 } else { i + 1 };
        }
        assert(end == block_end(lsv, i as int, target as int));
        let mut text = owned(header);
        push_str(&mut text, "\n");
        if i > 0 {
            push_range(&mut text, sig.as_slice(), 0, sig.len());
            assert(sig@.subrange(0, sig@.len() as int) =~= sig@);
            push_str(&mut text, "\n");
        }
        push_joined(&mut text, ls.as_slice(), i, end, "\n");
        assert(views(ls@).subrange(i as int, end as int) =~= lsv.subrange(i as int, end as int));
        let ghost want_text = if i == 0 {
            header@ + "\n"@ + join(lsv.subrange(i as int, end as int), "\n"@)
        } else {
            header@ + "\n"@ + first_line(body@) + "\n"@ + join(lsv.subrange(i as int, end as int), "\n"@)
        };
        assert(text@ =~= want_text);
        let start_line = sym.start_line + (i as u32);
        let end_line = sym.start_line + ((end - 1) as u32);
        let c = Chunk::new(text, "block", sym.name.as_str(), sym.kind.as_str(), start_line, end_line, owned(header));
        let ghost rest = block_cuts(lsv, i as int, target as int);
        proof {
            assert(rest[0] == (i as int, end as int));
            assert(all[done] == rest[0]) by {
                assert(all.skip(done)[0] == all[done]);
            }
        }
        out.push(c);
        proof {
            let want = block_chunks_spec(header@, body@, *sym, cfg.max_chunk_tokens as nat);
            assert(want.len() == all.len());
            assert(all[done].0 == i as int && all[done].1 == end as int);
            assert(want[done] == chunk_of(
                want_text,
                "block"@,
                sym.name@,
                sym.kind@,
                sym.start_line + i,
                sym.start_line + end - 1,
                header@,
            ));
            assert(out@[done].view_of() == want[done]);
            if end < n {
                lemma_block_cuts(lsv, end as int, target as int);
                assert(rest =~= seq![(i as int, end as int)] + block_cuts(lsv, end as int, target as int));
                assert(all.skip(done + 1) =~= rest.skip(1));
                assert(rest.skip(1) =~= block_cuts(lsv, end as int, target as int));
            } else {
                assert(block_cuts(lsv, end as int, target as int) =~= Seq::<(int, int)>::empty());
                assert(rest =~= seq![(i as int, end as int)]);
                assert(all.skip(done).len() == 1);
            }
            done = done + 1;
        }
        i = end;
    }
    assert(chunk_views(out@) =~= block_chunks_spec(header@, body@, *sym, cfg.max_chunk_tokens as nat));
    out
}

/// A small symbol waiting to be grouped, as plain values.
pub struct PendingView {
    pub text: Seq<char>,
    pub name: Seq<char>,
    pub start: int,
    pub end: int,
}

/// The pending symbols as plain values.
pub open spec fn pending_view(ps: Seq<PendingSmall>) -> Seq<PendingView> {
    Seq::new(
        ps.len(),
        |i: int| PendingView { text: ps[i].text@, name: ps[i].name@, start: ps[i].start as int, end: ps[i].end as int },
    )
}

/// The chunk a non-empty group of small symbols becomes (see
/// [`group_chunk`]), over plain values.
pub open spec fn group_view(pv: Seq<PendingView>) -> ChunkView {
    let texts = Seq::new(pv.len(), |i: int| pv[i].text);
    let names = first_names(Seq::new(pv.len(), |i: int| pv[i].name), GROUPED_NAME_CAP as nat);
    let label = if names.len() < pv.len() {
        join(names, ", "@) + " +"@ + decimal((pv.len() - names.len()) as nat)
    } else {
        join(names, ", "@)
    };
    chunk_of(join(texts, "\n\n"@), "function"@, label, "grouped"@, pv[0].start, pv.last().end, seq![])
}

proof fn lemma_group_view(ps: Seq<PendingSmall>)
    requires
        ps.len() > 0,
    ensures
        group_chunk(ps) == group_view(pending_view(ps)),
{
    let pv = pending_view(ps);
    assert(pending_texts(ps) =~= Seq::new(pv.len(), |i: int| pv[i].text));
    assert(pending_names(ps) =~= Seq::new(pv.len(), |i: int| pv[i].name));
}

/// The group chunk of what is pending, if anything is.
pub open spec fn flushed(p: Seq<PendingView>) -> Seq<ChunkView> {
    if p.len() > 0 {
        seq![group_view(p)]
    } else {
        seq![]
    }
}

/// Where the chunking of a file's functions stands: the chunks so far, the
/// small symbols waiting to be grouped, and their tokens.
pub struct FoldState {
    pub chunks: Seq<ChunkView>,
    pub pending: Seq<PendingView>,
    pub tokens: int,
}

/// `a + b`, or `usize::MAX` when that does not fit.
pub open spec fn sat_add(a: int, b: int) -> int {
    if a + b > usize::MAX { usize::MAX as int } else { a + b }
}

/// The next state after symbol `sym`: functions of at least
/// `large_function_threshold` tokens flush the group and become blocks;
/// those under `min_chunk_tokens` join the group (which is flushed once it
/// reaches `max_chunk_tokens`); the rest flush the group and become one
/// chunk each. Anything but a function or method leaves the state alone.
pub open spec fn step(path: Seq<char>, source: Seq<char>, cfg: ChunkConfig, st: FoldState, sym: Symbol) -> FoldState {
    if !callable_kind(sym.kind@) {
        st
    } else {
        let body = slice_spec(source, sym.start_byte as int, sym.end_byte as int);
        let header = header_spec(path, parent_view(sym), sym.name@);
        let toks = spec_estimate_tokens(body);
        let after = if st.pending.len() > 0 { 0 } else { st.tokens };
        if toks >= cfg.large_function_threshold {
            FoldState {
                chunks: st.chunks + flushed(st.pending) + block_chunks_spec(header, body, sym, cfg.max_chunk_tokens as nat),
                pending: seq![],
                tokens: after,
            }
        } else if toks < cfg.min_chunk_tokens {
            let text = header + "\n"@ + body;
            let t = sat_add(st.tokens, spec_estimate_tokens(text) as int);
            let p = st.pending.push(
                PendingView { text, name: sym.name@, start: sym.start_line as int, end: sym.end_line as int },
            );
            if t >= cfg.max_chunk_tokens {
                FoldState { chunks: st.chunks + flushed(p), pending: seq![], tokens: 0 }
            } else {
                FoldState { chunks: st.chunks, pending: p, tokens: t }
            }
        } else {
            FoldState {
                chunks: st.chunks + flushed(st.pending) + seq![
                    chunk_of(
                        header + "\n"@ + body,
                        "function"@,
                        sym.name@,
                        sym.kind@,
                        sym.start_line as int,
                        sym.end_line as int,
                        header,
                    ),
                ],
                pending: seq![],
                tokens: after,
            }
        }
    }
}

/// The state after the symbols `syms`, in order.
pub open spec fn fold(path: Seq<char>, source: Seq<char>, cfg: ChunkConfig, syms: Seq<Symbol>) -> FoldState
    decreases syms.len(),
{
    if syms.len() == 0 {
        FoldState { chunks: seq![], pending: seq![], tokens: 0 }
    } else {
        step(path, source, cfg, fold(path, source, cfg, syms.drop_last()), syms.last())
    }
}

/// The class chunks of the containers among `syms`, in order.
pub open spec fn class_chunks_spec(path: Seq<char>, source: Seq<char>, syms: Seq<Symbol>, all: Seq<Symbol>) -> Seq<ChunkView>
    decreases syms.len(),
{
    if syms.len() == 0 {
        seq![]
    } else {
        let r = class_chunks_spec(path, source, syms.drop_last(), all);
        if container_kind(syms.last().kind@) {
            r.push(class_chunk_spec(path, source, syms.last(), all))
        } else {
            r
        }
    }
}

/// The lines a file counts: at least one.
pub open spec fn total_lines_spec(source: Seq<char>) -> u32 {
    (if lines(source).len() > 1 { lines(source).len() } else { 1 }) as u32
}

/// What `chunk_file` returns: the file chunk, one class chunk per container,
/// one doc chunk per documented symbol, then the function-level chunks.
pub open spec fn chunk_file_spec(path: Seq<char>, source: Seq<char>, parsed: ParsedFile, cfg: ChunkConfig) -> Seq<ChunkView> {
    let syms = parsed.symbols@;
    let st = fold(path, source, cfg, syms);
    seq![chunk_of(file_text(path, parsed), "file"@, basename(path), "file"@, 1, total_lines_spec(source) as int, seq![])]
        + class_chunks_spec(path, source, syms, syms) + doc_chunks_spec(path, source, syms) + st.chunks + flushed(
        st.pending,
    )
}

/// What a function needs for chunking to go through: when it is large enough
/// to be split into blocks, there is a chunk size to split by, and its lines
/// can be numbered.
pub open spec fn chunkable(source: Seq<char>, cfg: ChunkConfig, sym: Symbol) -> bool {
    let body = slice_spec(source, sym.start_byte as int, sym.end_byte as int);
    callable_kind(sym.kind@) && spec_estimate_tokens(body) >= cfg.large_function_threshold ==> cfg.max_chunk_tokens > 0
        && sym.start_line + lines(body).len() <= u32::MAX
}

/// Chunk one parsed file into embeddable chunks.
pub fn chunk_file(path: &str, source: &str, parsed: &ParsedFile, cfg: &ChunkConfig) -> (out: Vec<Chunk>)
    requires
        encode_utf8(source@).len() <= usize::MAX,
        forall|i: int| 0 <= i < parsed.symbols@.len() ==> chunkable(source@, *cfg, #[trigger] parsed.symbols@[i]),
    ensures
        chunk_views(out@) == chunk_file_spec(path@, source@, *parsed, *cfg),
{
    let sv = chars_of(source);
    let sl = lines_of(sv.as_slice());
    let total_lines: u32 = (if sl.len() > 1 { sl.len() } else { 1 }) as u32;
    let mut chunks: Vec<Chunk> = Vec::new();
    chunks.push(file_chunk(path, parsed, total_lines));
    let ghost syms = parsed.symbols@;
    let mut i: usize = 0;
    while i < parsed.symbols.len()
        invariant
            i <= syms.len(),
            syms == parsed.symbols@,
            encode_utf8(source@).len() <= usize::MAX,
            chunk_views(chunks@) == seq![
                chunk_of(file_text(path@, *parsed), "file"@, basename(path@), "file"@, 1, total_lines_spec(source@) as int, seq![]),
            ] + class_chunks_spec(path@, source@, syms.take(i as int), syms),
        decreases syms.len() - i,
    {
        assert(syms.take(i + 1).drop_last() =~= syms.take(i as int));
        let sym = &parsed.symbols[i];
        if is_container(sym) {
            let c = class_chunk(path, source, sym, parsed);
            let ghost before = chunks@;
            chunks.push(c);
            assert(chunk_views(chunks@) =~= chunk_views(before).push(c.view_of()));
        }
        i = i + 1;
    }
    assert(syms.take(syms.len() as int) =~= syms);
    let mut docs = doc_chunks(path, source, parsed);
    let ghost before_docs = chunks@;
    let ghost doc_views = chunk_views(docs@);
    chunks.append(&mut docs);
    assert(chunk_views(chunks@) =~= chunk_views(before_docs) + doc_views);
    let ghost prefix = chunk_views(chunks@);
    let mut small: Vec<PendingSmall> = Vec::new();
    let mut small_tokens: usize = 0;
    let mut j: usize = 0;
    assert(syms.take(0) =~= Seq::<Symbol>::empty());
    assert(pending_view(small@) =~= Seq::<PendingView>::empty());
    assert(prefix + Seq::<ChunkView>::empty() =~= prefix);
    while j < parsed.symbols.len()
        invariant
            j <= syms.len(),
            syms == parsed.symbols@,
            encode_utf8(source@).len() <= usize::MAX,
            forall|q: int| 0 <= q < syms.len() ==> chunkable(source@, *cfg, #[trigger] syms[q]),
            chunk_views(chunks@) == prefix + fold(path@, source@, *cfg, syms.take(j as int)).chunks,
            pending_view(small@) == fold(path@, source@, *cfg, syms.take(j as int)).pending,
            small_tokens as int == fold(path@, source@, *cfg, syms.take(j as int)).tokens,
        decreases syms.len() - j,
    {
        let ghost st = fold(path@, source@, *cfg, syms.take(j as int));
        assert(syms.take(j + 1).drop_last() =~= syms.take(j as int));
        assert(syms.take(j + 1).last() == syms[j as int]);
        let sym = &parsed.symbols[j];
        if is_callable(sym) {
            let body = slice(source, sym.start_byte, sym.end_byte);
            let header = context_header(path, opt_str(&sym.parent), sym.name.as_str());
            let toks = estimate_tokens(body);
            let ghost before = chunks@;
            if toks >= cfg.large_function_threshold {
                proof {
                    if small@.len() > 0 {
                        lemma_group_view(small@);
                    }
                    assert(chunkable(source@, *cfg, syms[j as int]));
                }
                flush_small(&mut chunks, &mut small, &mut small_tokens);
                let mut blocks = block_chunks(header.as_str(), body, sym, cfg);
                let ghost block_views = chunk_views(blocks@);
                let ghost mid = chunks@;
                chunks.append(&mut blocks);
                assert(chunk_views(chunks@) =~= chunk_views(mid) + block_views);
                assert(pending_view(small@) =~= Seq::<PendingView>::empty());
                assert(chunk_views(chunks@) =~= prefix + fold(path@, source@, *cfg, syms.take(j + 1)).chunks);
            } else if toks < cfg.min_chunk_tokens {
                let mut text = owned(header.as_str());
                push_str(&mut text, "\n");
                push_str(&mut text, body);
                let tt = estimate_tokens(text.as_str());
                small_tokens = if tt > usize::MAX - small_tokens { usize::MAX } else { small_tokens + tt };
                let ghost pbefore = small@;
                small.push(PendingSmall { text, name: owned(sym.name.as_str()), start: sym.start_line, end: sym.end_line });
                assert(pending_view(small@) =~= pending_view(pbefore).push(pending_view(small@).last()));
                if small_tokens >= cfg.max_chunk_tokens {
                    proof {
                        lemma_group_view(small@);
                    }
                    flush_small(&mut chunks, &mut small, &mut small_tokens);
                    assert(pending_view(small@) =~= Seq::<PendingView>::empty());
                    assert(chunk_views(chunks@) =~= prefix + fold(path@, source@, *cfg, syms.take(j + 1)).chunks);
                }
            } else {
                proof {
                    if small@.len() > 0 {
                        lemma_group_view(small@);
                    }
                }
                flush_small(&mut chunks, &mut small, &mut small_tokens);
                let mut text = owned(header.as_str());
                push_str(&mut text, "\n");
                push_str(&mut text, body);
                let c = Chunk::new(
                    text,
                    "function",
                    sym.name.as_str(),
                    sym.kind.as_str(),
                    sym.start_line,
                    sym.end_line,
                    header,
                );
                let ghost mid = chunks@;
                chunks.push(c);
                assert(chunk_views(chunks@) =~= chunk_views(mid).push(c.view_of()));
                assert(pending_view(small@) =~= Seq::<PendingView>::empty());
                assert(chunk_views(chunks@) =~= prefix + fold(path@, source@, *cfg, syms.take(j + 1)).chunks);
            }
        }
        j = j + 1;
    }
    assert(syms.take(syms.len() as int) =~= syms);
    proof {
        if small@.len() > 0 {
            lemma_group_view(small@);
        }
    }
    flush_small(&mut chunks, &mut small, &mut small_tokens);
    assert(chunk_views(chunks@) =~= chunk_file_spec(path@, source@, *parsed, *cfg));
    chunks
}

/// A step only adds chunks after the ones already made.
proof fn lemma_step_extends(path: Seq<char>, source: Seq<char>, cfg: ChunkConfig, st: FoldState, sym: Symbol)
    ensures
        step(path, source, cfg, st, sym).chunks.len() >= st.chunks.len(),
        step(path, source, cfg, st, sym).chunks.subrange(0, st.chunks.len() as int) == st.chunks,
{
    let r = step(path, source, cfg, st, sym);
    assert(r.chunks.subrange(0, st.chunks.len() as int) =~= st.chunks);
}

/// The chunks made for the first `m` symbols stand, unchanged, at the start
/// of those made for them all.
proof fn lemma_fold_prefix(path: Seq<char>, source: Seq<char>, cfg: ChunkConfig, syms: Seq<Symbol>, m: int)
    requires
        0 <= m <= syms.len(),
    ensures
        fold(path, source, cfg, syms).chunks.len() >= fold(path, source, cfg, syms.take(m)).chunks.len(),
        fold(path, source, cfg, syms).chunks.subrange(0, fold(path, source, cfg, syms.take(m)).chunks.len() as int)
            == fold(path, source, cfg, syms.take(m)).chunks,
    decreases syms.len(),
{
    if m == syms.len() {
        assert(syms.take(m) =~= syms);
        let c = fold(path, source, cfg, syms).chunks;
        assert(c.subrange(0, c.len() as int) =~= c);
    } else {
        let rest = syms.drop_last();
        assert(rest.take(m) =~= syms.take(m));
        lemma_fold_prefix(path, source, cfg, rest, m);
        let before = fold(path, source, cfg, rest);
        lemma_step_extends(path, source, cfg, before, syms.last());
        let after = fold(path, source, cfg, syms).chunks;
        let small = fold(path, source, cfg, syms.take(m)).chunks;
        assert(after.subrange(0, small.len() as int) =~= before.chunks.subrange(0, small.len() as int));
    }
}

/// A function or method of middling size — at least `min_chunk_tokens`,
/// under `large_function_threshold` — becomes one `function` chunk holding
/// its context header, a newline and its whole source, from its first byte
/// to its last: no line of it is left out of what is embedded.
pub proof fn law_mid_size_function_kept_whole(path: Seq<char>, source: Seq<char>, parsed: ParsedFile, cfg: ChunkConfig, k: int)
    requires
        0 <= k < parsed.symbols@.len(),
        callable_kind(parsed.symbols@[k].kind@),
        spec_estimate_tokens(slice_spec(source, parsed.symbols@[k].start_byte as int, parsed.symbols@[k].end_byte as int))
            >= cfg.min_chunk_tokens,
        spec_estimate_tokens(slice_spec(source, parsed.symbols@[k].start_byte as int, parsed.symbols@[k].end_byte as int))
            < cfg.large_function_threshold,
    ensures
        ({
            let sym = parsed.symbols@[k];
            let header = header_spec(path, parent_view(sym), sym.name@);
            let whole = slice_spec(source, sym.start_byte as int, sym.end_byte as int);
            let out = chunk_file_spec(path, source, parsed, cfg);
            exists|i: int| 0 <= i < out.len() && #[trigger] out[i] == chunk_of(
                header + "\n"@ + whole,
                "function"@,
                sym.name@,
                sym.kind@,
                sym.start_line as int,
                sym.end_line as int,
                header,
            )
        }),
{
    let syms = parsed.symbols@;
    let sym = syms[k];
    let header = header_spec(path, parent_view(sym), sym.name@);
    let whole = slice_spec(source, sym.start_byte as int, sym.end_byte as int);
    let want = chunk_of(header + "\n"@ + whole, "function"@, sym.name@, sym.kind@, sym.start_line as int, sym.end_line as int, header);
    let upto = syms.take(k + 1);
    assert(upto.drop_last() =~= syms.take(k));
    assert(upto.last() == sym);
    let st = fold(path, source, cfg, syms.take(k));
    let made = fold(path, source, cfg, upto).chunks;
    assert(made == st.chunks + flushed(st.pending) + seq![want]);
    let j = made.len() - 1;
    assert(made[j] == want);
    lemma_fold_prefix(path, source, cfg, syms, k + 1);
    let all = fold(path, source, cfg, syms);
    assert(all.chunks.subrange(0, made.len() as int)[j] == all.chunks[j]);
    assert(all.chunks[j] == want);
    let out = chunk_file_spec(path, source, parsed, cfg);
    let lead = seq![chunk_of(file_text(path, parsed), "file"@, basename(path), "file"@, 1, total_lines_spec(source) as int, seq![])]
        + class_chunks_spec(path, source, syms, syms) + doc_chunks_spec(path, source, syms);
    assert(out == lead + all.chunks + flushed(all.pending));
    let i = lead.len() + j;
    assert(out[i] == all.chunks[j]);
}

} // verus!
