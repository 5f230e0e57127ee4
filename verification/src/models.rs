//! What `devctx models` knows about each embedding model, where downloaded
//! models live, and which release asset fits this machine.

use vstd::prelude::*;
use crate::dirs::{DirEnv, model_cache_dir, model_cache_dir_spec};
use crate::path::{join_path, path_join};
use crate::text::{owned, push_str, same_text};
use crate::update_check::strip_v;

verus! {

/// What a model is good for: its languages and a one-line note, by registry
/// key (`—` and nothing for a key it does not know).
pub open spec fn notes_spec(key: Seq<char>) -> (Seq<char>, Seq<char>) {
    if key == "minilm-l6"@ {
        ("English"@, "smallest and fastest; the built-in default"@)
    } else if key == "minilm-l12"@ {
        ("English"@, "slightly better than L6, still light"@)
    } else if key == "bge-small"@ {
        ("English"@, "better English retrieval than MiniLM"@)
    } else if key == "bge-base"@ {
        ("English"@, "best English precision; 768-wide, so a larger store"@)
    } else if key == "ml-minilm"@ {
        ("50+ languages"@, "fast multilingual, no files to fetch"@)
    } else if key == "ml-mpnet"@ {
        ("50+ languages"@, "768-wide; 128-token input cap"@)
    } else if key == "ml-granite"@ {
        ("multilingual"@, "best multilingual on CPU: top recall, fastest indexing"@)
    } else if key == "ml-granite-lg"@ {
        ("multilingual"@, "768-wide sibling; ml-granite matches it on CPU"@)
    } else {
        ("—"@, ""@)
    }
}

/// What a model is good for, in the terms the choice is actually made in.
pub fn notes(key: &str) -> (r: (&'static str, &'static str))
    ensures
        (r.0@, r.1@) == notes_spec(key@),
{
    if same_text(key, "minilm-l6") {
        ("English", "smallest and fastest; the built-in default")
    } else if same_text(key, "minilm-l12") {
        ("English", "slightly better than L6, still light")
    } else if same_text(key, "bge-small") {
        ("English", "better English retrieval than MiniLM")
    } else if same_text(key, "bge-base") {
        ("English", "best English precision; 768-wide, so a larger store")
    } else if same_text(key, "ml-minilm") {
        ("50+ languages", "fast multilingual, no files to fetch")
    } else if same_text(key, "ml-mpnet") {
        ("50+ languages", "768-wide; 128-token input cap")
    } else if same_text(key, "ml-granite") {
        ("multilingual", "best multilingual on CPU: top recall, fastest indexing")
    } else if same_text(key, "ml-granite-lg") {
        ("multilingual", "768-wide sibling; ml-granite matches it on CPU")
    } else {
        ("—", "")
    }
}

/// The ONNX files a user-defined model may provide, in the order they are
/// tried: the quantized build first, because it is a fifth of the size.
pub fn onnx_candidates() -> (r: Vec<&'static str>)
    ensures
        r@.len() == 2,
        r@[0]@ == "onnx/model_quint8_avx2.onnx"@,
        r@[1]@ == "onnx/model.onnx"@,
{
    let mut r: Vec<&'static str> = Vec::new();
    r.push("onnx/model_quint8_avx2.onnx");
    r.push("onnx/model.onnx");
    r
}

/// The tokenizer files a user-defined model needs beside it, each with
/// whether the loader requires it.
pub fn tokenizer_files() -> (r: Vec<(&'static str, bool)>)
    ensures
        r@.len() == 4,
        r@[0].0@ == "tokenizer.json"@ && r@[0].1,
        r@[1].0@ == "config.json"@ && r@[1].1,
        r@[2].0@ == "special_tokens_map.json"@ && !r@[2].1,
        r@[3].0@ == "tokenizer_config.json"@ && !r@[3].1,
{
    let mut r: Vec<(&'static str, bool)> = Vec::new();
    r.push(("tokenizer.json", true));
    r.push(("config.json", true));
    r.push(("special_tokens_map.json", false));
    r.push(("tokenizer_config.json", false));
    r
}

/// Where a downloaded model lives: the shared model cache, one directory per
/// key; an error when there is no home to cache models in. Nothing is
/// created.
pub fn target_dir(env: &DirEnv, key: &str) -> (r: Result<String, String>)
    ensures
        match model_cache_dir_spec(*env) {
            Some(base) => r matches Ok(d) && d@ == join_path(base, key@),
            None => r matches Err(e) && e@ == "no home directory to cache models in"@,
        },
{
    match model_cache_dir(env) {
        Some(base) => Ok(path_join(base.as_str(), key)),
        None => Err(owned("no home directory to cache models in")),
    }
}

/// The download URL of `file` in a Hugging Face repository.
pub fn hf_url(repo: &str, file: &str) -> (u: String)
    ensures
        u@ == "https://huggingface.co/"@ + repo@ + "/resolve/main/"@ + file@,
{
    let mut u = owned("https://huggingface.co/");
    push_str(&mut u, repo);
    push_str(&mut u, "/resolve/main/");
    push_str(&mut u, file);
    u
}

/// How a model's files are obtained: built-in models fetch themselves, a
/// user-defined one is `ready` once downloaded and `download` before.
pub fn files_status(builtin: bool, ready: bool) -> (s: &'static str)
    ensures
        s@ == if builtin { "automatic"@ } else if ready { "ready"@ } else { "download"@ },
{
    if builtin {
        "automatic"
    } else if ready {
        "ready"
    } else {
        "download"
    }
}

/// The release asset for a platform, named by the compile-time target facts
/// (`std::env::consts::OS` and `ARCH`); `None` where no build is published.
pub open spec fn target_triple_spec(os: Seq<char>, arch: Seq<char>) -> Option<Seq<char>> {
    if os == "linux"@ && arch == "x86_64"@ {
        Some("x86_64-unknown-linux-gnu"@)
    } else if os == "macos"@ && arch == "aarch64"@ {
        Some("aarch64-apple-darwin"@)
    } else {
        None
    }
}

/// The release asset name for a platform.
pub fn target_triple(os: &str, arch: &str) -> (r: Option<&'static str>)
    ensures
        match target_triple_spec(os@, arch@) {
            Some(t) => r matches Some(x) && x@ == t,
            None => r is None,
        },
{
    if same_text(os, "linux") && same_text(arch, "x86_64") {
        Some("x86_64-unknown-linux-gnu")
    } else if same_text(os, "macos") && same_text(arch, "aarch64") {
        Some("aarch64-apple-darwin")
    } else {
        None
    }
}

/// Whether the running version is already the latest release (the tag with
/// its leading `v`s dropped).
pub fn is_current_release(latest: &str, current: &str) -> (b: bool)
    ensures
        b == (strip_v(latest@) == current@),
{
    let v = crate::text::chars_of(latest);
    let mut s: usize = 0;
    assert(v@.skip(0) =~= v@);
    while s < v.len() && v[s] == 'v'
        invariant
            s <= v@.len(),
            strip_v(v@.skip(s as int)) == strip_v(v@),
        decreases v@.len() - s,
    {
        assert(v@.skip(s as int).drop_first() =~= v@.skip(s + 1));
        s = s + 1;
    }
    let mut rest = String::new();
    crate::text::push_range(&mut rest, v.as_slice(), s, v.len());
    assert(v@.subrange(s as int, v@.len() as int) =~= v@.skip(s as int));
    assert(strip_v(v@.skip(s as int)) == v@.skip(s as int));
    same_text(rest.as_str(), current)
}

/// Some file in `present` is `f`.
pub open spec fn lists(present: Seq<String>, f: Seq<char>) -> bool {
    exists|i: int| 0 <= i < present.len() && (#[trigger] present[i])@ == f
}

fn listed(present: &Vec<String>, f: &str) -> (b: bool)
    ensures
        b == lists(present@, f@),
{
    let mut i: usize = 0;
    while i < present.len()
        invariant
            i <= present@.len(),
            forall|j: int| 0 <= j < i ==> (#[trigger] present@[j])@ != f@,
        decreases present@.len() - i,
    {
        if same_text(present[i].as_str(), f) {
            return true;
        }
        i = i + 1;
    }
    false
}

/// The directory of an already-downloaded model, if it is usable: the
/// model's target directory, provided it holds one of the ONNX candidates and
/// `tokenizer.json`. `present` lists the files found there, relative to it.
pub fn local_dir(env: &DirEnv, key: &str, present: &Vec<String>) -> (r: Option<String>)
    ensures
        match model_cache_dir_spec(*env) {
            Some(base) => if (lists(present@, "onnx/model_quint8_avx2.onnx"@) || lists(present@, "onnx/model.onnx"@))
                && lists(present@, "tokenizer.json"@) {
                r matches Some(d) && d@ == join_path(base, key@)
            } else {
                r is None
            },
            None => r is None,
        },
{
    let dir = target_dir(env, key);
    match dir {
        Ok(d) => {
            let has_onnx = listed(present, "onnx/model_quint8_avx2.onnx") || listed(present, "onnx/model.onnx");
            if has_onnx && listed(present, "tokenizer.json") {
                Some(d)
            } else {
                None
            }
        },
        Err(_) => None,
    }
}

} // verus!
