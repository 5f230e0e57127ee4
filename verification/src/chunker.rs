//! Chunking of raw text (files no parser understands) and the grouping of
//! small symbols, as the semantic chunker does them.

use vstd::prelude::*;
use crate::chunk::{Chunk, ChunkConfig, spec_content_hash, spec_estimate_tokens};
use crate::path::{base_name, basename};
use crate::text::{chars_of, is_blank, all_ws, lines, lines_of, views, join, push_joined, string_of, join_vecs, push_str, push_decimal, decimal};

verus! {

/// What a chunk says, as plain values.
pub struct ChunkView {
    pub text: Seq<char>,
    pub level: Seq<char>,
    pub symbol_name: Seq<char>,
    pub symbol_type: Seq<char>,
    pub start_line: int,
    pub end_line: int,
    pub context_header: Seq<char>,
    pub content_hash: Seq<char>,
}

impl Chunk {
    /// The chunk as plain values.
    pub open spec fn view_of(&self) -> ChunkView {
        ChunkView {
            text: self.text@,
            level: self.level@,
            symbol_name: self.symbol_name@,
            symbol_type: self.symbol_type@,
            start_line: self.start_line as int,
            end_line: self.end_line as int,
            context_header: self.context_header@,
            content_hash: self.content_hash@,
        }
    }
}

/// The chunk `Chunk::new` builds from these values.
pub open spec fn chunk_of(
    text: Seq<char>,
    level: Seq<char>,
    name: Seq<char>,
    kind: Seq<char>,
    start: int,
    end: int,
    header: Seq<char>,
) -> ChunkView {
    ChunkView {
        text,
        level,
        symbol_name: name,
        symbol_type: kind,
        start_line: start,
        end_line: end,
        context_header: header,
        content_hash: spec_content_hash(text),
    }
}

/// The views of a list of chunks.
pub open spec fn chunk_views(cs: Seq<Chunk>) -> Seq<ChunkView> {
    Seq::new(cs.len(), |i: int| cs[i].view_of())
}

/// How far each raw-text block reaches back into the one before it: an
/// eighth of the block, at least one line and at most six.
pub open spec fn overlap_spec(target: int) -> int {
    if target / 8 < 1 {
        1
    } else if target / 8 > 6 {
        6
    } else {
        target / 8
    }
}

/// How far each raw-text block reaches back into the one before it.
///
/// Prose is cut at whatever blank line falls near the target size, so a
/// sentence can begin in one block and finish in the next; repeating a few
/// lines on each side keeps it whole on one of them, at the cost of indexing
/// those lines twice.
pub fn overlap_lines(target: usize) -> (n: usize)
    ensures
        n == overlap_spec(target as int),
{
    let e = target / 8;
    if e < 1 {
        1
    } else if e > 6 {
        6
    } else {
        e
    }
}

/// The blank line nearest `idx`, trying distance `k` and then larger ones up
/// to `window`, looking back before forward at each distance; `idx` itself
/// when there is none.
pub open spec fn snap_from(ls: Seq<Seq<char>>, idx: int, window: int, k: int) -> int
    decreases window + 1 - k,
{
    if k > window {
        idx
    } else if idx >= k && all_ws(ls[idx - k]) {
        idx - k
    } else if idx + k < ls.len() && all_ws(ls[idx + k]) {
        idx + k
    } else {
        snap_from(ls, idx, window, k + 1)
    }
}

/// Find the nearest blank line to `idx` within `window` lines.
pub fn snap_to_blank(lines: &Vec<Vec<char>>, idx: usize, window: usize) -> (r: usize)
    requires
        idx < lines@.len(),
        window < usize::MAX,
    ensures
        r == snap_from(views(lines@), idx as int, window as int, 0),
{
    let ghost ls = views(lines@);
    let mut k: usize = 0;
    while k <= window
        invariant
            ls == views(lines@),
            idx < lines@.len(),
            window < usize::MAX,
            k <= window + 1,
            snap_from(ls, idx as int, window as int, 0) == snap_from(ls, idx as int, window as int, k as int),
        decreases window + 1 - k,
    {
        if idx >= k && is_blank(lines[idx - k].as_slice()) {
            return idx - k;
        }
        if k < lines.len() - idx && is_blank(lines[idx + k].as_slice()) {
            return idx + k;
        }
        k = k + 1;
    }
    idx
}

/// Where a raw-text block that starts at line `i` ends (exclusive).
pub open spec fn block_end(ls: Seq<Seq<char>>, i: int, target: int) -> int {
    let n = ls.len() as int;
    let e0 = if i + target < n { i + target } else { n };
    let e1 = if e0 < n { snap_from(ls, e0, 3, 0) } else { e0 };
    if e1 <= i {
        if e0 > i + 1 { e0 } else { i + 1 }
    } else {
        e1
    }
}

proof fn lemma_snap_bounds(ls: Seq<Seq<char>>, idx: int, window: int, k: int)
    requires
        0 <= idx < ls.len(),
        0 <= k,
    ensures
        0 <= snap_from(ls, idx, window, k) < ls.len(),
    decreases window + 1 - k,
{
    if k <= window && !(idx >= k && all_ws(ls[idx - k])) && !(idx + k < ls.len() && all_ws(ls[idx + k])) {
        lemma_snap_bounds(ls, idx, window, k + 1);
    }
}

/// A block ends after it starts, and within the text.
pub proof fn lemma_block_end_bounds(ls: Seq<Seq<char>>, i: int, target: int)
    requires
        0 <= i < ls.len(),
        target >= 1,
    ensures
        i < block_end(ls, i, target) <= ls.len(),
{
    let n = ls.len() as int;
    let e0 = if i + target < n { i + target } else { n };
    if e0 < n {
        lemma_snap_bounds(ls, e0, 3, 0);
    }
}

/// The `(start, end)` line ranges of the raw-text blocks from line `i` on.
pub open spec fn raw_cuts(ls: Seq<Seq<char>>, i: int, target: int) -> Seq<(int, int)>
    decreases ls.len() - i,
{
    if i < 0 || i >= ls.len() || target < 1 {
        seq![]
    } else {
        let e = block_end(ls, i, target);
        proof {
            lemma_block_end_bounds(ls, i, target);
        }
        if e >= ls.len() {
            seq![(i, e)]
        } else {
            let next = if e - overlap_spec(target) > i + 1 { e - overlap_spec(target) } else { i + 1 };
            seq![(i, e)] + raw_cuts(ls, next, target)
        }
    }
}

/// What `chunk_raw_text` returns.
pub open spec fn raw_text_chunks(path: Seq<char>, content: Seq<char>, max_tokens: nat) -> Seq<ChunkView> {
    if all_ws(content) {
        seq![]
    } else {
        let base = basename(path);
        let ls = lines(content);
        let total = if ls.len() > 1 { ls.len() as int } else { 1 };
        let est = spec_estimate_tokens(content);
        if est <= max_tokens {
            seq![chunk_of(content, "file"@, base, "file"@, 1, total, seq![])]
        } else {
            let parts = if est / max_tokens > 2 { est / max_tokens } else { 2 };
            let target = if ls.len() / parts > 1 { (ls.len() / parts) as int } else { 1 };
            let cuts = raw_cuts(ls, 0, target);
            Seq::new(cuts.len(), |c: int| chunk_of(
                join(ls.subrange(cuts[c].0, cuts[c].1), "\n"@),
                "block"@,
                base,
                "file"@,
                cuts[c].0 + 1,
                cuts[c].1,
                seq![],
            ))
        }
    }
}

/// Chunk a raw-text (non-parseable) file: one `file` chunk when small, else
/// line-interval `block` chunks that overlap their neighbours. No symbols, no
/// headers.
pub fn chunk_raw_text(path: &str, content: &str, cfg: &ChunkConfig) -> (out: Vec<Chunk>)
    requires
        cfg.max_chunk_tokens > 0 || spec_estimate_tokens(content@) == 0 || all_ws(content@),
        lines(content@).len() < u32::MAX,
    ensures
        chunk_views(out@) == raw_text_chunks(path@, content@, cfg.max_chunk_tokens as nat),
{
    let v = chars_of(content);
    if is_blank(v.as_slice()) {
        let out: Vec<Chunk> = Vec::new();
        assert(chunk_views(out@) =~= Seq::<ChunkView>::empty());
        return out;
    }
    let base = base_name(path);
    let ls = lines_of(v.as_slice());
    let total_lines: u32 = if ls.len() > 1 { ls.len() as u32 } else { 1 };
    let est = v.len() / 4;
    if est <= cfg.max_chunk_tokens {
        let mut out: Vec<Chunk> = Vec::new();
        out.push(Chunk::new(string_of(v.as_slice()), "file", base.as_str(), "file", 1, total_lines, String::new()));
        assert(chunk_views(out@) =~= raw_text_chunks(path@, content@, cfg.max_chunk_tokens as nat));
        return out;
    }
    assert(lines(content@).len() > 0) by {
        assert(content@.len() > 0);
    }
    let parts = if est / cfg.max_chunk_tokens > 2 { est / cfg.max_chunk_tokens } else { 2 };
    let target = if ls.len() / parts > 1 { ls.len() / parts } else { 1 };
    let ghost lsv = views(ls@);
    let ghost all_cuts = raw_cuts(lsv, 0, target as int);
    let mut out: Vec<Chunk> = Vec::new();
    let mut i: usize = 0;
    let ghost mut done: int = 0;
    loop
        invariant_except_break
            all_cuts == all_cuts.take(done) + raw_cuts(lsv, i as int, target as int),
        invariant
            lsv == views(ls@),
            lsv == lines(content@),
            ls@.len() < u32::MAX,
            all_cuts == raw_cuts(lsv, 0, target as int),
            target >= 1,
            i < ls@.len(),
            0 <= done <= all_cuts.len(),
            out@.len() == done,
            forall|c: int| 0 <= c < done ==> #[trigger] out@[c].view_of() == chunk_of(
                join(lsv.subrange(all_cuts[c].0, all_cuts[c].1), "\n"@),
                "block"@,
                basename(path@),
                "file"@,
                all_cuts[c].0 + 1,
                all_cuts[c].1,
                seq![],
            ),
            base@ == basename(path@),
        ensures
            out@.len() == all_cuts.len(),
            forall|c: int| 0 <= c < all_cuts.len() ==> #[trigger] out@[c].view_of() == chunk_of(
                join(lsv.subrange(all_cuts[c].0, all_cuts[c].1), "\n"@),
                "block"@,
                basename(path@),
                "file"@,
                all_cuts[c].0 + 1,
                all_cuts[c].1,
                seq![],
            ),
        decreases ls@.len() - i,
    {
        let n = ls.len();
        proof {
            lemma_block_end_bounds(lsv, i as int, target as int);
        }
        let e0 = if target < n - i { i + target } else { n };
        let mut end = e0;
        if end < n {
            end = snap_to_blank(&ls, end, 3);
        }
        if end <= i {
            end = if e0 > i + 1 { e0 } else { i + 1 };
        }
        assert(end == block_end(lsv, i as int, target as int));
        let mut text = String::new();
        push_joined(&mut text, ls.as_slice(), i, end, "\n");
        assert(views(ls@).subrange(i as int, end as int) =~= lsv.subrange(i as int, end as int));
        out.push(Chunk::new(text, "block", base.as_str(), "file", (i as u32) + 1, end as u32, String::new()));
        let ghost rest = raw_cuts(lsv, i as int, target as int);
        assert(rest[0] == (i as int, end as int));
        proof {
            assert(all_cuts[done] == (i as int, end as int)) by {
                assert(all_cuts.take(done).len() == done);
            }
            done = done + 1;
        }
        if end >= n {
            assert(rest =~= seq![(i as int, end as int)]);
            assert(all_cuts =~= all_cuts.take(done));
            break;
        }
        let ov = overlap_lines(target);
        let next = if end - i > ov + 1 { end - ov } else { i + 1 };
        proof {
            assert(rest =~= seq![(i as int, end as int)] + raw_cuts(lsv, next as int, target as int));
            assert(all_cuts.take(done) =~= all_cuts.take(done - 1).push((i as int, end as int)));
            assert(all_cuts =~= all_cuts.take(done) + raw_cuts(lsv, next as int, target as int));
        }
        i = next;
    }
    proof {
        let want = raw_text_chunks(path@, content@, cfg.max_chunk_tokens as nat);
        assert(chunk_views(out@) =~= want);
    }
    out
}


/// The cuts from line `i` on start at `i`, end at the last line, never leave a
/// gap, always advance, and overlap wherever a block spans two lines or more.
pub proof fn lemma_raw_cuts(ls: Seq<Seq<char>>, i: int, target: int)
    requires
        0 <= i < ls.len(),
        target >= 1,
    ensures
        raw_cuts(ls, i, target).len() >= 1,
        raw_cuts(ls, i, target)[0].0 == i,
        raw_cuts(ls, i, target).last().1 == ls.len(),
        forall|c: int| 0 <= c < raw_cuts(ls, i, target).len() ==> {
            let cut = #[trigger] raw_cuts(ls, i, target)[c];
            i <= cut.0 < cut.1 <= ls.len()
        },
        forall|c: int| 0 <= c < raw_cuts(ls, i, target).len() - 1 ==> {
            let a = #[trigger] raw_cuts(ls, i, target)[c];
            let b = raw_cuts(ls, i, target)[c + 1];
            &&& a.0 < b.0 <= a.1
            &&& a.1 - a.0 >= 2 ==> b.0 < a.1
        },
    decreases ls.len() - i,
{
    lemma_block_end_bounds(ls, i, target);
    let e = block_end(ls, i, target);
    let cuts = raw_cuts(ls, i, target);
    if e < ls.len() {
        let ov = overlap_spec(target);
        let next = if e - ov > i + 1 { e - ov } else { i + 1 };
        let rest = raw_cuts(ls, next, target);
        lemma_raw_cuts(ls, next, target);
        assert(cuts =~= seq![(i, e)] + rest);
        assert forall|c: int| 0 <= c < cuts.len() - 1 implies {
            let a = #[trigger] cuts[c];
            let b = cuts[c + 1];
            &&& a.0 < b.0 <= a.1
            &&& a.1 - a.0 >= 2 ==> b.0 < a.1
        } by {
            if c > 0 {
                assert(cuts[c] == rest[c - 1]);
                assert(cuts[c + 1] == rest[c]);
            }
        }
        assert forall|c: int| 0 <= c < cuts.len() implies {
            let cut = #[trigger] cuts[c];
            i <= cut.0 < cut.1 <= ls.len()
        } by {
            if c > 0 {
                assert(cuts[c] == rest[c - 1]);
            }
        }
    }
}

/// Law: raw-text blocks cover the text from its first line to its last with
/// no gap, each block starting after the one before it, and a block that
/// spans two lines or more shares at least one line with the next.
pub proof fn law_raw_blocks_overlap_and_cover(path: Seq<char>, content: Seq<char>, max_tokens: nat)
    requires
        max_tokens > 0,
        !all_ws(content),
        spec_estimate_tokens(content) > max_tokens,
    ensures
        ({
            let cs = raw_text_chunks(path, content, max_tokens);
            &&& cs.len() >= 1
            &&& cs[0].start_line == 1
            &&& cs.last().end_line == lines(content).len()
            &&& forall|c: int| 0 <= c < cs.len() ==> (#[trigger] cs[c]).start_line <= cs[c].end_line
            &&& forall|c: int| 0 <= c < cs.len() - 1 ==> {
                let a = #[trigger] cs[c];
                let b = cs[c + 1];
                &&& a.start_line < b.start_line <= a.end_line + 1
                &&& a.end_line > a.start_line ==> b.start_line <= a.end_line
            }
        }),
{
    let ls = lines(content);
    assert(content.len() > 0);
    let est = spec_estimate_tokens(content);
    let parts = if est / max_tokens > 2 { est / max_tokens } else { 2 };
    let target = if ls.len() / parts > 1 { (ls.len() / parts) as int } else { 1 };
    lemma_raw_cuts(ls, 0, target);
    let cuts = raw_cuts(ls, 0, target);
    let cs = raw_text_chunks(path, content, max_tokens);
    assert(cs.len() == cuts.len());
    assert forall|c: int| 0 <= c < cs.len() - 1 implies {
        let a = #[trigger] cs[c];
        let b = cs[c + 1];
        &&& a.start_line < b.start_line <= a.end_line + 1
        &&& a.end_line > a.start_line ==> b.start_line <= a.end_line
    } by {
        let x = cuts[c];
        let y = cuts[c + 1];
        assert(cs[c].start_line == x.0 + 1 && cs[c].end_line == x.1);
        assert(cs[c + 1].start_line == y.0 + 1);
    }
    assert forall|c: int| 0 <= c < cs.len() implies (#[trigger] cs[c]).start_line <= cs[c].end_line by {
        let x = cuts[c];
        assert(cs[c].start_line == x.0 + 1 && cs[c].end_line == x.1);
    }
}

} // verus!

verus! {

/// A small symbol waiting to be grouped with its neighbours.
pub struct PendingSmall {
    /// Header and body of the symbol.
    pub text: String,
    /// The symbol's name.
    pub name: String,
    /// First line of the symbol.
    pub start: u32,
    /// Last line of the symbol.
    pub end: u32,
}

/// How many names a grouped chunk lists before summarising the rest as `+n`.
pub const GROUPED_NAME_CAP: usize = 4;

/// The texts of the pending symbols, in order.
pub open spec fn pending_texts(ps: Seq<PendingSmall>) -> Seq<Seq<char>> {
    Seq::new(ps.len(), |i: int| ps[i].text@)
}

/// The names of the pending symbols, in order.
pub open spec fn pending_names(ps: Seq<PendingSmall>) -> Seq<Seq<char>> {
    Seq::new(ps.len(), |i: int| ps[i].name@)
}

/// The first `cap` names of `ns` that are not empty, in order.
pub open spec fn first_names(ns: Seq<Seq<char>>, cap: nat) -> Seq<Seq<char>>
    decreases ns.len(),
{
    if ns.len() == 0 {
        seq![]
    } else {
        let r = first_names(ns.drop_last(), cap);
        if ns.last().len() > 0 && r.len() < cap {
            r.push(ns.last())
        } else {
            r
        }
    }
}

/// The label of a group: its first names joined by `, `, followed by ` +n`
/// when `n` symbols are not named.
pub open spec fn group_label(ps: Seq<PendingSmall>) -> Seq<char> {
    let names = first_names(pending_names(ps), GROUPED_NAME_CAP as nat);
    if names.len() < ps.len() {
        join(names, ", "@) + " +"@ + decimal((ps.len() - names.len()) as nat)
    } else {
        join(names, ", "@)
    }
}

/// The chunk a non-empty group of small symbols becomes: their texts joined
/// by a blank line, spanning from the first one's start to the last one's end.
pub open spec fn group_chunk(ps: Seq<PendingSmall>) -> ChunkView {
    chunk_of(
        join(pending_texts(ps), "\n\n"@),
        "function"@,
        group_label(ps),
        "grouped"@,
        ps[0].start as int,
        ps.last().end as int,
        seq![],
    )
}

proof fn lemma_first_names_len(ns: Seq<Seq<char>>, cap: nat)
    ensures
        first_names(ns, cap).len() <= ns.len(),
        first_names(ns, cap).len() <= cap,
    decreases ns.len(),
{
    if ns.len() > 0 {
        lemma_first_names_len(ns.drop_last(), cap);
    }
}

/// Turn the pending small symbols into one grouped chunk, and start afresh.
///
/// Nothing happens when nothing is pending. Otherwise one `grouped` chunk is
/// appended, named after what is in it, the pending list is emptied and the
/// token count reset.
pub fn flush_small(chunks: &mut Vec<Chunk>, small: &mut Vec<PendingSmall>, tokens: &mut usize)
    ensures
        final(small)@.len() == 0,
        old(small)@.len() == 0 ==> chunk_views(final(chunks)@) == chunk_views(old(chunks)@)
            && *final(tokens) == *old(tokens),
        old(small)@.len() > 0 ==> chunk_views(final(chunks)@) == chunk_views(old(chunks)@).push(
            group_chunk(old(small)@),
        ) && *final(tokens) == 0,
{
    if small.len() == 0 {
        return;
    }
    let ghost ps = small@;
    let start = small[0].start;
    let end = small[small.len() - 1].end;
    let mut text = String::new();
    let mut names: Vec<Vec<char>> = Vec::new();
    let mut i: usize = 0;
    while i < small.len()
        invariant
            small@ == ps,
            0 <= i <= ps.len(),
            text@ == join(pending_texts(ps.take(i as int)), "\n\n"@),
            views(names@) == first_names(pending_names(ps.take(i as int)), GROUPED_NAME_CAP as nat),
            names@.len() <= GROUPED_NAME_CAP,
        decreases ps.len() - i,
    {
        let ghost prev = ps.take(i as int);
        let ghost next = ps.take(i + 1);
        assert(next.drop_last() =~= prev);
        assert(pending_texts(next).drop_last() =~= pending_texts(prev));
        assert(pending_names(next).drop_last() =~= pending_names(prev));
        if i > 0 {
            push_str(&mut text, "\n\n");
        }
        push_str(&mut text, small[i].text.as_str());
        let nm = small[i].name.as_str();
        if names.len() < GROUPED_NAME_CAP && !nm.is_empty() {
            names.push(chars_of(nm));
        }
        proof {
            assert(views(names@) =~= first_names(pending_names(next), GROUPED_NAME_CAP as nat));
            if i == 0 {
                assert(pending_texts(next) =~= seq![ps[0].text@]);
            }
        }
        i = i + 1;
    }
    assert(ps.take(ps.len() as int) =~= ps);
    proof {
        lemma_first_names_len(pending_names(ps), GROUPED_NAME_CAP as nat);
    }
    let mut symbol = join_vecs(names.as_slice(), ", ");
    if names.len() < small.len() {
        push_str(&mut symbol, " +");
        push_decimal(&mut symbol, (small.len() - names.len()) as u64);
    }
    let c = Chunk::new(text, "function", symbol.as_str(), "grouped", start, end, String::new());
    let ghost before = chunks@;
    chunks.push(c);
    assert(chunk_views(chunks@) =~= chunk_views(before).push(group_chunk(ps)));
    small.clear();
    *tokens = 0;
}

/// `# {file} > {name}`, or `# {file} > {parent} > {name}` for a symbol inside
/// another: the line that tells a reader where a chunk comes from.
pub open spec fn header_spec(path: Seq<char>, parent: Option<Seq<char>>, name: Seq<char>) -> Seq<char> {
    match parent {
        Some(p) => "# "@ + basename(path) + " > "@ + p + " > "@ + name,
        None => "# "@ + basename(path) + " > "@ + name,
    }
}

/// The context header of a symbol in the file at `path`.
pub fn context_header(path: &str, parent: Option<&str>, name: &str) -> (h: String)
    ensures
        h@ == header_spec(path@, match parent { Some(p) => Some(p@), None => None }, name@),
{
    let base = base_name(path);
    let mut h = String::new();
    push_str(&mut h, "# ");
    push_str(&mut h, base.as_str());
    push_str(&mut h, " > ");
    match parent {
        Some(p) => {
            push_str(&mut h, p);
            push_str(&mut h, " > ");
        },
        None => {},
    }
    push_str(&mut h, name);
    h
}

/// Each raw-text block holds exactly the lines it claims: its text is lines
/// `start_line..=end_line` (counted from 1) of the content, joined by
/// newlines, so no block drops a line it reports and the last line of the
/// document is in the last block.
pub proof fn law_raw_block_text_is_its_lines(path: Seq<char>, content: Seq<char>, max_tokens: nat)
    requires
        max_tokens > 0,
        !all_ws(content),
        spec_estimate_tokens(content) > max_tokens,
    ensures
        ({
            let cs = raw_text_chunks(path, content, max_tokens);
            forall|c: int| 0 <= c < cs.len() ==> (#[trigger] cs[c]).text
                == join(lines(content).subrange(cs[c].start_line - 1, cs[c].end_line), "\n"@)
        }),
{
    let cs = raw_text_chunks(path, content, max_tokens);
    assert forall|c: int| 0 <= c < cs.len() implies (#[trigger] cs[c]).text
        == join(lines(content).subrange(cs[c].start_line - 1, cs[c].end_line), "\n"@) by {
    }
}

} // verus!
