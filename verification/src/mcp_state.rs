//! The MCP server's own bookkeeping and text handling: the progress of an
//! indexing run, the models it keeps warm, the search mode a tool asked for,
//! how a project is named, and the slices and labels its tools answer with.

use vstd::prelude::*;
use crate::text::{
    chars_of, contains, join, lines, lines_of, owned, push_joined, push_range, push_str, same_text,
    starts_with, views,
};

verus! {

/// A snapshot of the indexing run happening inside the server.
#[derive(Clone, Default)]
pub struct IndexProgress {
    /// Whether a run is in flight right now.
    pub running: bool,
    /// Changes the run expects to process, known once it has diffed.
    pub total: usize,
    /// Changes it has started on (started, not finished).
    pub done: usize,
    /// The file it reached last.
    pub file: String,
}

impl IndexProgress {
    /// A run begins: in flight, with `total` changes ahead and none started.
    pub fn start(&mut self, total: usize)
        ensures
            final(self).running,
            final(self).total == total,
            final(self).done == 0,
            final(self).file@.len() == 0,
    {
        self.running = true;
        self.total = total;
        self.done = 0;
        self.file = String::new();
    }

    /// The run starts on another file.
    pub fn file(&mut self, path: &str)
        requires
            old(self).done < usize::MAX,
        ensures
            final(self).running == old(self).running,
            final(self).total == old(self).total,
            final(self).done == old(self).done + 1,
            final(self).file@ == path@,
    {
        self.done = self.done + 1;
        self.file = owned(path);
    }

    /// The run is over; the final counts stay for whoever polls last.
    pub fn finish(&mut self)
        ensures
            !final(self).running,
            final(self).total == old(self).total,
            final(self).done == old(self).done,
            final(self).file@ == old(self).file@,
    {
        self.running = false;
    }
}

/// `Instant` from std.
#[verifier::external_type_specification]
#[verifier::external_body]
pub struct ExInstant(std::time::Instant);

/// `Instant::now` from std: the current reading of the monotonic clock.
#[verifier::external_body]
fn instant_now() -> std::time::Instant {
    std::time::Instant::now()
}

/// A model held in memory, with the last time it was handed to a caller, so
/// an idle one can be told from one still in the working set.
pub struct Cached<T> {
    pub value: T,
    pub last_used: std::time::Instant,
}

impl<T: Clone> Cached<T> {
    /// Hand out the value and record that it was wanted: the clock is reset
    /// to the moment of the call, and the value kept is untouched.
    pub fn touch(&mut self) -> (r: T)
        ensures
            final(self).value == old(self).value,
            cloned(old(self).value, r),
    {
        self.last_used = instant_now();
        self.value.clone()
    }
}

/// How a search ranks its hits.
#[derive(Debug, Clone, Copy, PartialEq, Eq, Structural)]
pub enum SearchMode {
    /// Embedding similarity.
    Vector,
    /// BM25 over the chunk text.
    Keyword,
    /// Both, fused.
    Hybrid,
}

/// ASCII lower case of a string.
pub open spec fn ascii_lower(s: Seq<char>) -> Seq<char> {
    Seq::new(s.len(), |i: int| crate::prompt_ui::lower(s[i]))
}

/// The search mode a tool asked for (ignoring ASCII case): `keyword`,
/// `hybrid`, or vector search for anything else, including nothing.
pub fn parse_mode(mode: Option<&str>) -> (m: SearchMode)
    ensures
        m == match mode {
            Some(x) => if ascii_lower(x@) == "keyword"@ {
                SearchMode::Keyword
            } else if ascii_lower(x@) == "hybrid"@ {
                SearchMode::Hybrid
            } else {
                SearchMode::Vector
            },
            None => SearchMode::Vector,
        },
{
    match mode {
        Some(x) => {
            let v = chars_of(x);
            let mut low = String::new();
            let mut i: usize = 0;
            while i < v.len()
                invariant
                    v@ == x@,
                    i <= v@.len(),
                    low@ == ascii_lower(x@).take(i as int),
                decreases v@.len() - i,
            {
                let c = v[i];
                let l = if 'A' <= c && c <= 'Z' { ((c as u8) + 32) as char } else { c };
                crate::text::push_char(&mut low, l);
                assert(low@ =~= ascii_lower(x@).take(i + 1));
                i = i + 1;
            }
            assert(ascii_lower(x@).take(v@.len() as int) =~= ascii_lower(x@));
            if same_text(low.as_str(), "keyword") {
                SearchMode::Keyword
            } else if same_text(low.as_str(), "hybrid") {
                SearchMode::Hybrid
            } else {
                SearchMode::Vector
            }
        },
        None => SearchMode::Vector,
    }
}

/// `i` is where `p` last occurs in `s`.
pub open spec fn last_occ(s: Seq<char>, p: Seq<char>, i: int) -> bool {
    crate::text::occurs_at(s, p, i) && forall|j: int| i < j ==> !crate::text::occurs_at(s, p, j)
}

/// The trailing segment of a symbol id: after the last `::`, else after the
/// last `/`, else the whole id.
pub open spec fn short_label_spec(id: Seq<char>) -> Seq<char> {
    if exists|i: int| last_occ(id, "::"@, i) {
        id.skip((choose|i: int| last_occ(id, "::"@, i)) + 2)
    } else if exists|i: int| last_occ(id, "/"@, i) {
        id.skip((choose|i: int| last_occ(id, "/"@, i)) + 1)
    } else {
        id
    }
}

fn last_double_colon(v: &[char]) -> (r: Option<usize>)
    ensures
        match r {
            Some(i) => last_occ(v@, "::"@, i as int),
            None => forall|i: int| !last_occ(v@, "::"@, i),
        },
{
    proof {
        reveal_strlit("::");
    }
    let mut k: usize = v.len();
    while k >= 2
        invariant
            k <= v@.len(),
            forall|j: int| k - 1 <= j ==> !crate::text::occurs_at(v@, "::"@, j),
        decreases k,
    {
        proof {
            reveal_strlit("::");
        }
        if v[k - 2] == ':' && v[k - 1] == ':' {
            assert(v@.subrange(k - 2, k as int) =~= "::"@);
            return Some(k - 2);
        }
        assert(!crate::text::occurs_at(v@, "::"@, k - 2)) by {
            if crate::text::occurs_at(v@, "::"@, k - 2) {
                assert(v@.subrange(k - 2, k as int)[0] == v@[k - 2]);
                assert(v@.subrange(k - 2, k as int)[1] == v@[k - 1]);
            }
        }
        k = k - 1;
    }
    assert forall|i: int| !last_occ(v@, "::"@, i) by {
        if crate::text::occurs_at(v@, "::"@, i) {
            let vl = v.len();
            assert(i + 2 <= vl);
        }
    }
    None
}

fn last_slash(v: &[char]) -> (r: Option<usize>)
    ensures
        match r {
            Some(i) => last_occ(v@, "/"@, i as int),
            None => forall|i: int| !last_occ(v@, "/"@, i),
        },
{
    proof {
        reveal_strlit("/");
    }
    let mut k: usize = v.len();
    while k >= 1
        invariant
            k <= v@.len(),
            forall|j: int| k <= j ==> !crate::text::occurs_at(v@, "/"@, j),
        decreases k,
    {
        proof {
            reveal_strlit("/");
        }
        if v[k - 1] == '/' {
            assert(v@.subrange(k - 1, k as int) =~= "/"@);
            return Some(k - 1);
        }
        assert(!crate::text::occurs_at(v@, "/"@, k - 1)) by {
            if crate::text::occurs_at(v@, "/"@, k - 1) {
                assert(v@.subrange(k - 1, k as int)[0] == v@[k - 1]);
            }
        }
        k = k - 1;
    }
    None
}

proof fn lemma_last_occ_unique(s: Seq<char>, p: Seq<char>, i: int, j: int)
    requires
        last_occ(s, p, i),
        last_occ(s, p, j),
    ensures
        i == j,
{
}

/// The trailing segment of a symbol id (after the last `::` or `/`).
pub fn short_label(id: &str) -> (r: String)
    ensures
        r@ == short_label_spec(id@),
{
    let v = chars_of(id);
    match last_double_colon(v.as_slice()) {
        Some(i) => {
            proof {
                reveal_strlit("::");
                let k = choose|k: int| last_occ(id@, "::"@, k);
                lemma_last_occ_unique(id@, "::"@, k, i as int);
            }
            let vl = v.len();
            assert(i + 2 <= vl);
            let mut r = String::new();
            push_range(&mut r, v.as_slice(), i + 2, v.len());
            assert(v@.subrange(i + 2, v@.len() as int) =~= v@.skip(i + 2));
            return r;
        },
        None => {},
    }
    match last_slash(v.as_slice()) {
        Some(i) => {
            proof {
                reveal_strlit("/");
                let k = choose|k: int| last_occ(id@, "/"@, k);
                lemma_last_occ_unique(id@, "/"@, k, i as int);
            }
            let vl = v.len();
            assert(i + 1 <= vl);
            let mut r = String::new();
            push_range(&mut r, v.as_slice(), i + 1, v.len());
            assert(v@.subrange(i + 1, v@.len() as int) =~= v@.skip(i + 1));
            r
        },
        None => owned(id),
    }
}

/// Placeholder nodes the parsers emit for receivers they cannot resolve.
pub fn is_synthetic(id: &str) -> (b: bool)
    ensures
        b == (short_label_spec(id@) == "<unknown>"@ || short_label_spec(id@) == "<module>"@
            || short_label_spec(id@) == "<anonymous>"@),
{
    let l = short_label(id);
    same_text(l.as_str(), "<unknown>") || same_text(l.as_str(), "<module>") || same_text(l.as_str(), "<anonymous>")
}

/// A 1-based inclusive line range of `content` (both bounds optional): all of
/// it with no bounds, otherwise the lines from `start` (at least 1) to `end`
/// (at most the last) joined by newlines, or nothing when that range is empty.
pub open spec fn slice_lines_spec(content: Seq<char>, start: Option<usize>, end: Option<usize>) -> Seq<char> {
    if start is None && end is None {
        content
    } else {
        let ls = lines(content);
        let from = match start { Some(s) => if s < 1 { 1 } else { s as int }, None => 1 };
        let to = match end { Some(e) => if e > ls.len() { ls.len() as int } else { e as int }, None => ls.len() as int };
        if from > to {
            seq![]
        } else {
            join(ls.subrange(from - 1, to), "\n"@)
        }
    }
}

/// Extract a 1-based inclusive line range (both bounds optional).
pub fn slice_lines(content: &str, start: Option<usize>, end: Option<usize>) -> (r: String)
    ensures
        r@ == slice_lines_spec(content@, start, end),
{
    if start.is_none() && end.is_none() {
        return owned(content);
    }
    let v = chars_of(content);
    let ls = lines_of(v.as_slice());
    let from: usize = match start {
        Some(s) => if s < 1 { 1 } else { s },
        None => 1,
    };
    let to: usize = match end {
        Some(e) => if e > ls.len() { ls.len() } else { e },
        None => ls.len(),
    };
    if from > to {
        return String::new();
    }
    let mut r = String::new();
    push_joined(&mut r, ls.as_slice(), from - 1, to, "\n");
    r
}

/// Expand a leading `~/` against the home directory (`$HOME`, as read by the
/// caller), when there is one.
pub open spec fn expand_home_spec(path: Seq<char>, home: Option<Seq<char>>) -> Seq<char> {
    if starts_with(path, "~/"@) && home is Some {
        home.unwrap() + "/"@ + path.skip(2)
    } else {
        path
    }
}

/// Expand a leading `~` — paths reach us as text an agent copied from a table.
pub fn shellexpand(path: &str, home: Option<&str>) -> (r: String)
    ensures
        r@ == expand_home_spec(path@, match home { Some(h) => Some(h@), None => None }),
{
    let v = chars_of(path);
    proof {
        reveal_strlit("~/");
        reveal_strlit("/");
    }
    let prefixed = v.len() >= 2 && v[0] == '~' && v[1] == '/';
    assert(prefixed == starts_with(path@, "~/"@)) by {
        if v@.len() >= 2 {
            if prefixed {
                assert(v@.take(2) =~= "~/"@);
            } else if v@.take(2) == "~/"@ {
                assert(v@.take(2)[0] == v@[0]);
                assert(v@.take(2)[1] == v@[1]);
            }
        }
    }
    match home {
        Some(h) => {
            if prefixed {
                let mut r = owned(h);
                push_str(&mut r, "/");
                push_range(&mut r, v.as_slice(), 2, v.len());
                assert(v@.subrange(2, v@.len() as int) =~= v@.skip(2));
                return r;
            }
            owned(path)
        },
        None => owned(path),
    }
}

/// Whether a project argument is a path rather than a registered name: it
/// is absolute, holds a separator, or is `.`. A bare name is never taken for
/// a directory, which would resolve it against this process's working
/// directory.
pub fn looks_like_path(expanded: &str) -> (b: bool)
    ensures
        b == ((expanded@.len() > 0 && expanded@[0] == '/') || contains(expanded@, "/"@) || expanded@ == "."@),
{
    let v = chars_of(expanded);
    let slash = chars_of("/");
    let abs = v.len() > 0 && v[0] == '/';
    abs || crate::text::contains_chars(v.as_slice(), slash.as_slice()) || same_text(expanded, ".")
}

/// One registry row, as the help lists it: a name (rows without one are
/// skipped) and a path (`?` when none is recorded).
pub open spec fn row_line(name: Seq<char>, path: Option<Seq<char>>) -> Seq<char> {
    "  · "@ + name + " — "@ + match path { Some(p) => p, None => "?"@ }
}

/// The rows that have a name, rendered one per line.
pub open spec fn rows_listing(rows: Seq<(Option<String>, Option<String>)>) -> Seq<Seq<char>>
    decreases rows.len(),
{
    if rows.len() == 0 {
        seq![]
    } else {
        let r = rows_listing(rows.drop_last());
        match rows.last().0 {
            Some(n) => r.push(row_line(n@, match rows.last().1 { Some(p) => Some(p@), None => None })),
            None => r,
        }
    }
}

/// What the help says about the registry: its projects, a note that there
/// are none, or why it could not be read.
pub open spec fn listed_spec(rows: Result<Seq<(Option<String>, Option<String>)>, Seq<char>>) -> Seq<char> {
    match rows {
        Ok(rs) => if rs.len() > 0 {
            join(rows_listing(rs), "\n"@)
        } else {
            "  (none registered yet — run `devctx init` in a repository)"@
        },
        Err(e) => "  (the registry could not be read: "@ + e + ")"@,
    }
}

/// What to tell an agent whose server was started outside any project: where
/// it was started, the registered projects (name and path, as the registry
/// listed them, or why it could not), and how to bind the session.
pub fn unbound_help(cwd: &str, rows: &Result<Vec<(Option<String>, Option<String>)>, String>) -> (h: String)
    ensures
        h@ == "This MCP server is not bound to a project: it was started in "@ + cwd@
            + ", which is not inside a DevCtxEngine repository.\n\nRegistered projects:\n"@ + listed_spec(
            match rows { Ok(v) => Ok(v@), Err(e) => Err(e@) },
        )
            + "\n\nCall `use_project` with one of those names to bind this session, or restart the server as `devctx mcp --project <path>`."@,
{
    let mut h = owned("This MCP server is not bound to a project: it was started in ");
    push_str(&mut h, cwd);
    push_str(&mut h, ", which is not inside a DevCtxEngine repository.\n\nRegistered projects:\n");
    let ghost before = h@;
    match rows {
        Ok(rs) => {
            if rs.len() > 0 {
                let mut lines: Vec<Vec<char>> = Vec::new();
                let mut i: usize = 0;
                while i < rs.len()
                    invariant
                        i <= rs@.len(),
                        views(lines@) == rows_listing(rs@.take(i as int)),
                    decreases rs@.len() - i,
                {
                    let ghost prev = views(lines@);
                    assert(rs@.take(i + 1).drop_last() =~= rs@.take(i as int));
                    match &rs[i].0 {
                        Some(n) => {
                            let mut l = owned("  · ");
                            push_str(&mut l, n.as_str());
                            push_str(&mut l, " — ");
                            match &rs[i].1 {
                                Some(p) => push_str(&mut l, p.as_str()),
                                None => push_str(&mut l, "?"),
                            }
                            lines.push(chars_of(l.as_str()));
                            assert(views(lines@) =~= prev.push(l@));
                        },
                        None => {},
                    }
                    i = i + 1;
                }
                assert(rs@.take(rs@.len() as int) =~= rs@);
                push_joined(&mut h, lines.as_slice(), 0, lines.len(), "\n");
                assert(views(lines@).subrange(0, lines@.len() as int) =~= views(lines@));
            } else {
                push_str(&mut h, "  (none registered yet — run `devctx init` in a repository)");
            }
        },
        Err(e) => {
            push_str(&mut h, "  (the registry could not be read: ");
            push_str(&mut h, e.as_str());
            push_str(&mut h, ")");
        },
    }
    push_str(
        &mut h,
        "\n\nCall `use_project` with one of those names to bind this session, or restart the server as `devctx mcp --project <path>`.",
    );
    h
}

/// The refusal for a registry that could not be asked about `name`.
pub open spec fn lookup_failed_message(name: Seq<char>, e: Seq<char>) -> Seq<char> {
    name + ": "@ + e
}

/// The refusal for a registered name with no path recorded.
pub open spec fn no_path_message(name: Seq<char>) -> Seq<char> {
    "no path recorded for `"@ + name + "`"@
}

/// The directory a project argument names, before the caller makes it
/// absolute and checks it holds a config: the argument itself (with `~`
/// expanded) when it looks like a path, else the path the registry recorded
/// for it as a name — `recorded` being what the registry answered (asked
/// only for a name).
pub fn resolve_project_root(name_or_path: &str, home: Option<&str>, recorded: &Result<Option<String>, String>) -> (r: Result<String, String>)
    ensures
        ({
            let expanded = expand_home_spec(name_or_path@, match home { Some(h) => Some(h@), None => None });
            let path_like = (expanded.len() > 0 && expanded[0] == '/') || contains(expanded, "/"@) || expanded == "."@;
            if path_like {
                r matches Ok(d) && d@ == expanded
            } else {
                match recorded {
                    Err(e) => r matches Err(m) && m@ == lookup_failed_message(name_or_path@, e@),
                    Ok(None) => r matches Err(m) && m@ == no_path_message(name_or_path@),
                    Ok(Some(p)) => r matches Ok(d) && d@ == p@,
                }
            }
        }),
{
    let expanded = shellexpand(name_or_path, home);
    if looks_like_path(expanded.as_str()) {
        return Ok(expanded);
    }
    match recorded {
        Err(e) => {
            let mut m = owned(name_or_path);
            push_str(&mut m, ": ");
            push_str(&mut m, e.as_str());
            Err(m)
        },
        Ok(None) => {
            let mut m = owned("no path recorded for `");
            push_str(&mut m, name_or_path);
            push_str(&mut m, "`");
            Err(m)
        },
        Ok(Some(p)) => Ok(owned(p.as_str())),
    }
}

/// `Instant::elapsed` from std, in nanoseconds (`Duration::as_nanos`): how
/// long ago `since` was. Nothing is claimed of the answer, which depends on
/// the clock.
#[verifier::external_body]
fn elapsed_nanos(since: &std::time::Instant) -> u128 {
    since.elapsed().as_nanos()
}

/// The slot a model was released from, or kept in.
pub open spec fn released_or_kept<T>(before: Option<Cached<T>>, after: Option<Cached<T>>) -> bool {
    after is None || after == before
}

/// Whether a slot is emptied: it holds a model unused for `idle` of the
/// `max_idle` or more.
pub open spec fn goes_stale<T>(slot: Option<Cached<T>>, idle: u128, max_idle: u128) -> bool {
    slot is Some && idle >= max_idle
}

/// Drop each model that has sat unused for `max_idle` or longer, given how
/// long each has been idle (nanoseconds; the figure for an empty slot is not
/// read), and name what was dropped: the embedding model, then the reranker.
pub fn release_stale<E, R>(
    embedder: &mut Option<Cached<E>>,
    reranker: &mut Option<Cached<R>>,
    embedder_idle: u128,
    reranker_idle: u128,
    max_idle: u128,
) -> (released: Vec<&'static str>)
    ensures
        *final(embedder) == (if goes_stale(*old(embedder), embedder_idle, max_idle) { None } else { *old(embedder) }),
        *final(reranker) == (if goes_stale(*old(reranker), reranker_idle, max_idle) { None } else { *old(reranker) }),
        released@.len() == (if goes_stale(*old(embedder), embedder_idle, max_idle) { 1int } else { 0int })
            + (if goes_stale(*old(reranker), reranker_idle, max_idle) { 1int } else { 0int }),
        goes_stale(*old(embedder), embedder_idle, max_idle) ==> released@[0]@ == "embedding model"@,
        goes_stale(*old(reranker), reranker_idle, max_idle) ==> released@[released@.len() - 1]@ == "reranker"@,
{
    let mut released: Vec<&'static str> = Vec::new();
    if embedder.is_some() && embedder_idle >= max_idle {
        *embedder = None;
        released.push("embedding model");
    }
    if reranker.is_some() && reranker_idle >= max_idle {
        *reranker = None;
        released.push("reranker");
    }
    released
}

/// Drop the models that have sat unused for `max_idle` nanoseconds or
/// longer, so an idle server gives their memory back (the next request
/// reloads what it needs), and name what was dropped: the embedding model,
/// then the reranker. A model in use is kept as it is; an empty slot stays
/// empty; a limit of zero releases every loaded model. How long each model
/// has been idle is read from the clock; [`release_stale`] decides.
pub fn release_idle_models<E, R>(
    embedder: &mut Option<Cached<E>>,
    reranker: &mut Option<Cached<R>>,
    max_idle: u128,
) -> (released: Vec<&'static str>)
    ensures
        released_or_kept(*old(embedder), *final(embedder)),
        released_or_kept(*old(reranker), *final(reranker)),
        released@.len() == (if (*old(embedder)) is Some && (*final(embedder)) is None { 1int } else { 0int })
            + (if (*old(reranker)) is Some && (*final(reranker)) is None { 1int } else { 0int }),
        (*old(embedder)) is Some && (*final(embedder)) is None ==> released@[0]@ == "embedding model"@,
        (*old(reranker)) is Some && (*final(reranker)) is None ==> released@[released@.len() - 1]@ == "reranker"@,
        max_idle == 0 ==> (*final(embedder)) is None && (*final(reranker)) is None,
{
    let embedder_idle: u128 = match embedder {
        Some(c) => elapsed_nanos(&c.last_used),
        None => 0,
    };
    let reranker_idle: u128 = match reranker {
        Some(c) => elapsed_nanos(&c.last_used),
        None => 0,
    };
    release_stale(embedder, reranker, embedder_idle, reranker_idle, max_idle)
}

} // verus!
