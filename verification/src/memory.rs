//! Token-window chunking of long memories.
//!
//! A memory is embedded as an intro (`memory`: title and whole content) plus
//! sliding windows over its words (`memory_chunk`, title prepended). The first
//! window is skipped, because the intro already covers the start.

use vstd::prelude::*;
use crate::text::{chars_of, join, owned, push_joined, push_str, views, words, words_of};

verus! {

/// A single memory chunk to embed.
#[derive(Debug, Clone, PartialEq, Eq)]
pub struct MemoryChunk {
    /// Text to embed.
    pub text: String,
    /// `memory` (intro) or `memory_chunk` (body window).
    pub level: String,
}

/// Windowing configuration (word-approximated tokens).
#[derive(Debug, Clone, Copy)]
pub struct MemoryChunkConfig {
    /// Window size in words.
    pub window_tokens: usize,
    /// Overlap between consecutive windows, in words.
    pub overlap: usize,
    /// Maximum number of body-window chunks.
    pub max_chunks: usize,
}

impl Default for MemoryChunkConfig {
    fn default() -> (c: Self)
        ensures
            c.window_tokens == 100,
            c.overlap == 30,
            c.max_chunks == 40,
    {
        MemoryChunkConfig { window_tokens: 100, overlap: 30, max_chunks: 40 }
    }
}

/// `{title}\n{body}`, or the body alone when the title is empty.
pub open spec fn titled(title: Seq<char>, body: Seq<char>) -> Seq<char> {
    if title.len() == 0 {
        body
    } else {
        title + "\n"@ + body
    }
}

/// The window size actually used: at least one word.
pub open spec fn window_of(window_tokens: int) -> int {
    if window_tokens < 1 { 1 } else { window_tokens }
}

/// How far each window moves on: the window less the overlap, at least one.
pub open spec fn step_of(window_tokens: int, overlap: int) -> int {
    let w = window_of(window_tokens);
    if w - overlap < 1 { 1 } else { w - overlap }
}

/// The bodies of at most `left` windows of `window` words, starting at word
/// `i` and every `step` words after it.
pub open spec fn windows_from(ws: Seq<Seq<char>>, i: int, step: int, window: int, left: int) -> Seq<Seq<char>>
    decreases left,
{
    if i < 0 || i >= ws.len() || left <= 0 || step < 1 {
        seq![]
    } else {
        let end = if i + window < ws.len() { i + window } else { ws.len() as int };
        seq![join(ws.subrange(i, end), " "@)] + windows_from(ws, i + step, step, window, left - 1)
    }
}

/// What `memory_chunks` returns, as `(text, level)` pairs.
pub open spec fn memory_chunks_spec(
    title: Seq<char>,
    content: Seq<char>,
    window_tokens: int,
    overlap: int,
    max_chunks: int,
) -> Seq<(Seq<char>, Seq<char>)> {
    let ws = words(content);
    let step = step_of(window_tokens, overlap);
    let bodies = windows_from(ws, step, step, window_of(window_tokens), max_chunks);
    seq![(titled(title, content), "memory"@)] + Seq::new(
        bodies.len(),
        |k: int| (titled(title, bodies[k]), "memory_chunk"@),
    )
}

/// The chunks as `(text, level)` pairs.
pub open spec fn memory_views(cs: Seq<MemoryChunk>) -> Seq<(Seq<char>, Seq<char>)> {
    Seq::new(cs.len(), |i: int| (cs[i].text@, cs[i].level@))
}

fn with_title(title: &str, body: &str) -> (r: String)
    ensures
        r@ == titled(title@, body@),
{
    if title.is_empty() {
        owned(body)
    } else {
        let mut r = owned(title);
        push_str(&mut r, "\n");
        push_str(&mut r, body);
        r
    }
}

/// A window never holds more than `left` bodies.
pub proof fn lemma_windows_len(ws: Seq<Seq<char>>, i: int, step: int, window: int, left: int)
    ensures
        windows_from(ws, i, step, window, left).len() <= if left < 0 { 0 } else { left },
    decreases left,
{
    if !(i < 0 || i >= ws.len() || left <= 0 || step < 1) {
        lemma_windows_len(ws, i + step, step, window, left - 1);
    }
}

/// Chunk a memory into an intro chunk plus body-window chunks.
pub fn memory_chunks(title: &str, content: &str, cfg: &MemoryChunkConfig) -> (out: Vec<MemoryChunk>)
    ensures
        memory_views(out@) == memory_chunks_spec(
            title@,
            content@,
            cfg.window_tokens as int,
            cfg.overlap as int,
            cfg.max_chunks as int,
        ),
{
    let mut out: Vec<MemoryChunk> = Vec::new();
    out.push(MemoryChunk { text: with_title(title, content), level: owned("memory") });

    let v = chars_of(content);
    let ws = words_of(v.as_slice());
    let window: usize = if cfg.window_tokens < 1 { 1 } else { cfg.window_tokens };
    let step: usize = if window <= cfg.overlap || window - cfg.overlap < 1 { 1 } else { window - cfg.overlap };
    let ghost wsv = views(ws@);
    let ghost want = memory_chunks_spec(
        title@,
        content@,
        cfg.window_tokens as int,
        cfg.overlap as int,
        cfg.max_chunks as int,
    );
    let ghost all = windows_from(wsv, step as int, step as int, window as int, cfg.max_chunks as int);
    let mut i: usize = step;
    proof {
        assert(window as int == window_of(cfg.window_tokens as int));
        assert(step as int == step_of(cfg.window_tokens as int, cfg.overlap as int));
        assert(memory_views(out@) =~= want.take(1));
    }
    while i < ws.len() && out.len() <= cfg.max_chunks
        invariant
            wsv == views(ws@),
            wsv == words(content@),
            step >= 1,
            window as int == window_of(cfg.window_tokens as int),
            step as int == step_of(cfg.window_tokens as int, cfg.overlap as int),
            all == windows_from(wsv, step as int, step as int, window as int, cfg.max_chunks as int),
            want == memory_chunks_spec(
                title@,
                content@,
                cfg.window_tokens as int,
                cfg.overlap as int,
                cfg.max_chunks as int,
            ),
            1 <= out@.len() <= cfg.max_chunks + 1,
            out@.len() - 1 <= all.len(),
            all == all.take(out@.len() - 1) + windows_from(
                wsv,
                i as int,
                step as int,
                window as int,
                cfg.max_chunks - (out@.len() - 1),
            ),
            memory_views(out@) == want.take(out@.len() as int),
        decreases ws@.len() - i,
    {
        let n = ws.len();
        let end = if window < n - i { i + window } else { n };
        let mut body = String::new();
        push_joined(&mut body, ws.as_slice(), i, end, " ");
        assert(views(ws@).subrange(i as int, end as int) =~= wsv.subrange(i as int, end as int));
        let ghost k = out@.len() - 1;
        let ghost rest = windows_from(wsv, i as int, step as int, window as int, cfg.max_chunks - k);
        assert(rest[0] == body@);
        assert(all[k] == body@) by {
            assert(all.take(k).len() == k);
        }
        proof {
            lemma_windows_len(wsv, step as int, step as int, window as int, cfg.max_chunks as int);
        }
        let ghost before = out@;
        out.push(MemoryChunk { text: with_title(title, body.as_str()), level: owned("memory_chunk") });
        assert(memory_views(out@) =~= want.take(out@.len() as int)) by {
            assert(memory_views(out@) =~= memory_views(before).push((titled(title@, body@), "memory_chunk"@)));
            assert(want.take(out@.len() as int) =~= want.take(before.len() as int).push(want[k + 1]));
        }
        let next = if step < n - i { i + step } else { n };
        proof {
            assert(rest =~= seq![body@] + windows_from(wsv, i + step, step as int, window as int, cfg.max_chunks - k - 1));
            if step >= n - i {
                assert(windows_from(wsv, i + step, step as int, window as int, cfg.max_chunks - k - 1) =~= Seq::<Seq<char>>::empty());
                assert(windows_from(wsv, next as int, step as int, window as int, cfg.max_chunks - k - 1) =~= Seq::<Seq<char>>::empty());
            }
            assert(all.take(k + 1) =~= all.take(k).push(body@));
            assert(all =~= all.take(k + 1) + windows_from(wsv, next as int, step as int, window as int, cfg.max_chunks - (k + 1)));
        }
        i = next;
    }
    proof {
        let k = out@.len() - 1;
        let rest = windows_from(wsv, i as int, step as int, window as int, cfg.max_chunks - k);
        assert(rest =~= Seq::<Seq<char>>::empty());
        assert(all =~= all.take(k));
        lemma_windows_len(wsv, step as int, step as int, window as int, cfg.max_chunks as int);
        assert(want.len() == all.len() + 1);
        assert(memory_views(out@) =~= want);
    }
    out
}

/// A memory yields its intro and at most `max_chunks` windows; the intro comes
/// first and holds the whole content, and every window carries the title.
pub proof fn law_memory_chunks_shape(
    title: Seq<char>,
    content: Seq<char>,
    window_tokens: int,
    overlap: int,
    max_chunks: int,
)
    requires
        max_chunks >= 0,
    ensures
        ({
            let cs = memory_chunks_spec(title, content, window_tokens, overlap, max_chunks);
            &&& 1 <= cs.len() <= max_chunks + 1
            &&& cs[0] == (titled(title, content), "memory"@)
            &&& forall|k: int| 1 <= k < cs.len() ==> (#[trigger] cs[k]).1 == "memory_chunk"@
            &&& title.len() > 0 ==> forall|k: int| 1 <= k < cs.len()
                ==> (#[trigger] cs[k]).0.take(title.len() + 1int) == title + "\n"@
        }),
{
    let ws = words(content);
    let step = step_of(window_tokens, overlap);
    lemma_windows_len(ws, step, step, window_of(window_tokens), max_chunks);
    let cs = memory_chunks_spec(title, content, window_tokens, overlap, max_chunks);
    let bodies = windows_from(ws, step, step, window_of(window_tokens), max_chunks);
    reveal_strlit("\n");
    if title.len() > 0 {
        assert forall|k: int| 1 <= k < cs.len() implies (#[trigger] cs[k]).0.take(title.len() + 1int) == title + "\n"@ by {
            assert(cs[k].0 == title + "\n"@ + bodies[k - 1]);
            assert((title + "\n"@ + bodies[k - 1]).take(title.len() + 1int) =~= title + "\n"@);
        }
    }
}

} // verus!
