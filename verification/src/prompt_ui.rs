//! The decisions behind the setup wizard's questions: which answer a list
//! starts on, how the keys move through it, what a typed answer picks, and
//! what a question answers with however it was asked. Drawing the list and
//! reading keys is the terminal's business.

use vstd::prelude::*;
use crate::text::{owned, parse_usize, parse_usize_spec, same_text, trim, trimmed};

verus! {

/// One option in a list.
pub struct Choice {
    /// What is written to the config.
    pub value: String,
    /// What the reader sees.
    pub label: String,
    /// One line under the label when highlighted, or empty.
    pub note: String,
}

impl Choice {
    /// An option with its value, label and note.
    pub fn new(value: &str, label: &str, note: &str) -> (c: Self)
        ensures
            c.value@ == value@,
            c.label@ == label@,
            c.note@ == note@,
    {
        Choice { value: owned(value), label: owned(label), note: owned(note) }
    }
}

/// The value of the default choice, or nothing when there is no such choice.
pub open spec fn default_value_spec(choices: Seq<Choice>, default_index: int) -> Seq<char> {
    if 0 <= default_index < choices.len() {
        choices[default_index].value@
    } else {
        seq![]
    }
}

/// The answer a question gets when nobody can be asked: the default choice's
/// value, or empty when there is no such choice (an empty list must answer
/// with nothing rather than fail).
pub fn default_value(choices: &[Choice], default_index: usize) -> (v: String)
    ensures
        v@ == default_value_spec(choices@, default_index as int),
{
    if default_index < choices.len() {
        owned(choices[default_index].value.as_str())
    } else {
        String::new()
    }
}

/// Where the cursor starts in a non-empty list: on the default, or on the
/// last choice when the default is past the end.
pub fn start_cursor(default_index: usize, len: usize) -> (c: usize)
    requires
        len > 0,
    ensures
        c == if default_index < len { default_index } else { (len - 1) as usize },
{
    if default_index < len - 1 { default_index } else { len - 1 }
}

/// The cursor after an up-arrow: one choice up, wrapping to the last.
pub fn cursor_up(cursor: usize, len: usize) -> (c: usize)
    requires
        cursor < len,
    ensures
        c == if cursor == 0 { (len - 1) as usize } else { (cursor - 1) as usize },
        c < len,
{
    if cursor == 0 { len - 1 } else { cursor - 1 }
}

/// The cursor after a down-arrow: one choice down, wrapping to the first.
pub fn cursor_down(cursor: usize, len: usize) -> (c: usize)
    requires
        cursor < len,
    ensures
        c == (cursor + 1) % (len as int),
        c < len,
{
    (cursor + 1) % len
}

/// ASCII lower case of one character.
pub open spec fn lower(c: char) -> char {
    if 'A' <= c && c <= 'Z' { ((c as u8) + 32) as char } else { c }
}

/// Whether two strings are equal ignoring ASCII case.
pub open spec fn eq_ignore_ascii_case(a: Seq<char>, b: Seq<char>) -> bool {
    a.len() == b.len() && forall|i: int| 0 <= i < a.len() ==> lower(#[trigger] a[i]) == lower(b[i])
}

fn lower_char(c: char) -> (r: char)
    ensures
        r == lower(c),
{
    if 'A' <= c && c <= 'Z' {
        ((c as u8) + 32) as char
    } else {
        c
    }
}

fn same_ignoring_case(a: &str, b: &str) -> (r: bool)
    ensures
        r == eq_ignore_ascii_case(a@, b@),
{
    let va = crate::text::chars_of(a);
    let vb = crate::text::chars_of(b);
    if va.len() != vb.len() {
        return false;
    }
    let mut i: usize = 0;
    while i < va.len()
        invariant
            va@ == a@,
            vb@ == b@,
            va@.len() == vb@.len(),
            i <= va@.len(),
            forall|j: int| 0 <= j < i ==> lower(#[trigger] va@[j]) == lower(vb@[j]),
        decreases va@.len() - i,
    {
        if lower_char(va[i]) != lower_char(vb[i]) {
            return false;
        }
        i = i + 1;
    }
    true
}

/// The first choice whose value equals `t` ignoring ASCII case, or whose
/// label is exactly `answer`.
pub open spec fn matches_choice(c: Choice, t: Seq<char>, answer: Seq<char>) -> bool {
    eq_ignore_ascii_case(c.value@, t) || c.label@ == answer
}

/// What a typed answer picks: a number from 1 to the list's length picks that
/// choice; otherwise the first choice whose value matches the trimmed answer
/// (ignoring ASCII case) or whose label is the answer; otherwise the default,
/// if there is one.
pub open spec fn typed_choice_spec(choices: Seq<Choice>, default_index: int, answer: Seq<char>) -> Option<Seq<char>> {
    let t = trim(answer);
    let n = parse_usize_spec(t);
    if n is Some && 1 <= n.unwrap() <= choices.len() {
        Some(choices[n.unwrap() - 1].value@)
    } else if exists|i: int| 0 <= i < choices.len() && matches_choice(#[trigger] choices[i], t, answer) {
        let i = choose|i: int|
            0 <= i < choices.len() && matches_choice(#[trigger] choices[i], t, answer) && forall|j: int|
                0 <= j < i ==> !matches_choice(#[trigger] choices[j], t, answer);
        Some(choices[i].value@)
    } else if 0 <= default_index < choices.len() {
        Some(choices[default_index].value@)
    } else {
        None
    }
}

/// The value a typed answer picks from `choices` (see [`typed_choice_spec`]).
pub fn typed_choice(choices: &[Choice], default_index: usize, answer: &str) -> (r: Option<String>)
    ensures
        match typed_choice_spec(choices@, default_index as int, answer@) {
            Some(v) => r matches Some(x) && x@ == v,
            None => r is None,
        },
{
    let t = trimmed(answer);
    match parse_usize(t.as_str()) {
        Some(n) => {
            if n >= 1 && n <= choices.len() {
                return Some(owned(choices[n - 1].value.as_str()));
            }
        },
        None => {},
    }
    let mut i: usize = 0;
    while i < choices.len()
        invariant
            i <= choices@.len(),
            t@ == trim(answer@),
            !(parse_usize_spec(t@) is Some && 1 <= parse_usize_spec(t@).unwrap() <= choices@.len()),
            forall|j: int| 0 <= j < i ==> !matches_choice(#[trigger] choices@[j], t@, answer@),
        decreases choices@.len() - i,
    {
        if same_ignoring_case(choices[i].value.as_str(), t.as_str()) || same_text(choices[i].label.as_str(), answer) {
            proof {
                assert(matches_choice(choices@[i as int], t@, answer@));
                let k = choose|k: int|
                    0 <= k < choices@.len() && matches_choice(#[trigger] choices@[k], t@, answer@) && forall|j: int|
                        0 <= j < k ==> !matches_choice(#[trigger] choices@[j], t@, answer@);
                if k < i {
                    assert(!matches_choice(choices@[k], t@, answer@));
                }
                if k > i {
                    assert(!matches_choice(choices@[i as int], t@, answer@));
                }
            }
            return Some(owned(choices[i].value.as_str()));
        }
        i = i + 1;
    }
    if default_index < choices.len() {
        Some(owned(choices[default_index].value.as_str()))
    } else {
        None
    }
}

/// The index a yes/no question starts on: `yes` first, `no` second.
pub fn confirm_default_index(default: bool) -> (i: usize)
    ensures
        i == if default { 0usize } else { 1usize },
{
    if default { 0 } else { 1 }
}

/// A key pressed while a list is shown.
#[derive(Debug, Clone, Copy, PartialEq, Eq, Structural)]
pub enum Key {
    /// Up arrow, or `k`.
    Up,
    /// Down arrow, or `j`.
    Down,
    /// Enter.
    Enter,
    /// Escape.
    Esc,
    /// Ctrl-C.
    Interrupt,
    /// Anything else.
    Other,
}

/// What a key does to a list whose cursor is somewhere in it.
#[derive(Debug, Clone, Copy, PartialEq, Eq, Structural)]
pub enum KeyOutcome {
    /// Redraw with the cursor here.
    Move(usize),
    /// The choice under the cursor is the answer.
    Choose(usize),
    /// Give up on the list; the answer is to be typed instead.
    Cancel,
    /// Stop the whole setup: nothing is written that nobody confirmed.
    Quit,
}

/// The step a key takes: the arrows move (wrapping), Enter answers with the
/// choice under the cursor, Escape gives up on the list, Ctrl-C stops, and
/// any other key leaves the cursor where it is.
pub fn on_key(cursor: usize, len: usize, key: Key) -> (o: KeyOutcome)
    requires
        cursor < len,
    ensures
        o == match key {
            Key::Up => KeyOutcome::Move(if cursor == 0 { (len - 1) as usize } else { (cursor - 1) as usize }),
            Key::Down => KeyOutcome::Move(((cursor + 1) % (len as int)) as usize),
            Key::Enter => KeyOutcome::Choose(cursor),
            Key::Esc => KeyOutcome::Cancel,
            Key::Interrupt => KeyOutcome::Quit,
            Key::Other => KeyOutcome::Move(cursor),
        },
        o matches KeyOutcome::Move(c) ==> c < len,
        o matches KeyOutcome::Choose(c) ==> c < len,
{
    match key {
        Key::Up => KeyOutcome::Move(cursor_up(cursor, len)),
        Key::Down => KeyOutcome::Move(cursor_down(cursor, len)),
        Key::Enter => KeyOutcome::Choose(cursor),
        Key::Esc => KeyOutcome::Cancel,
        Key::Interrupt => KeyOutcome::Quit,
        Key::Other => KeyOutcome::Move(cursor),
    }
}

/// How a question was put to the person at the terminal, and what came back.
pub enum Answer {
    /// There is no terminal to ask on (a script, an agent, a pipe).
    NoTerminal,
    /// The list was driven with the keys and Enter pressed on this choice.
    Picked(usize),
    /// The list could not be driven, so the answer was typed.
    Typed(String),
    /// The list could not be driven and nothing could be typed either.
    Unanswered,
}

/// What [`select`] answers with.
pub open spec fn select_spec(choices: Seq<Choice>, default_index: int, answer: Answer) -> Seq<char> {
    if choices.len() == 0 {
        seq![]
    } else {
        match answer {
            Answer::Picked(i) => if i < choices.len() {
                choices[i as int].value@
            } else {
                default_value_spec(choices, default_index)
            },
            Answer::Typed(t) => match typed_choice_spec(choices, default_index, t@) {
                Some(v) => v,
                None => default_value_spec(choices, default_index),
            },
            _ => default_value_spec(choices, default_index),
        }
    }
}

/// The value a question over `choices` answers with: the choice picked with
/// the keys, or the one a typed answer names, and otherwise — no terminal, no
/// answer, or an answer naming nothing — the default; an empty list answers
/// with nothing.
pub fn select(choices: &[Choice], default_index: usize, answer: &Answer) -> (v: String)
    ensures
        v@ == select_spec(choices@, default_index as int, *answer),
{
    if choices.len() == 0 {
        return String::new();
    }
    match answer {
        Answer::Picked(i) => {
            if *i < choices.len() {
                owned(choices[*i].value.as_str())
            } else {
                default_value(choices, default_index)
            }
        },
        Answer::Typed(t) => match typed_choice(choices, default_index, t.as_str()) {
            Some(v) => v,
            None => default_value(choices, default_index),
        },
        _ => default_value(choices, default_index),
    }
}

/// The two choices of a yes/no question: `y` labelled `yes`, then `n`
/// labelled `no`.
pub fn yes_no(yes: &str, no: &str) -> (c: Vec<Choice>)
    ensures
        c@.len() == 2,
        c@[0].value@ == "y"@ && c@[0].label@ == yes@ && c@[0].note@.len() == 0,
        c@[1].value@ == "n"@ && c@[1].label@ == no@ && c@[1].note@.len() == 0,
{
    let mut c: Vec<Choice> = Vec::new();
    proof {
        reveal_strlit("");
    }
    c.push(Choice::new("y", yes, ""));
    c.push(Choice::new("n", no, ""));
    c
}

/// What a yes/no question answers: the key-picked row (`y` first), or a
/// typed answer read as the two-item list reads it — `1`/`2`, then `y`/`n`
/// in either case or the exact label — and otherwise the default.
pub open spec fn confirm_spec(default: bool, yes: Seq<char>, no: Seq<char>, answer: Answer) -> bool {
    match answer {
        Answer::Picked(i) => if i == 0 { true } else if i == 1 { false } else { default },
        Answer::Typed(t) => {
            let tt = trim(t@);
            let n = parse_usize_spec(tt);
            if n == Some(1usize) {
                true
            } else if n == Some(2usize) {
                false
            } else if eq_ignore_ascii_case("y"@, tt) || yes == t@ {
                true
            } else if eq_ignore_ascii_case("n"@, tt) || no == t@ {
                false
            } else {
                default
            }
        },
        _ => default,
    }
}

/// A yes/no question as a two-item list that starts on the default: true
/// when it answers `y`.
pub fn confirm(default: bool, yes: &str, no: &str, answer: &Answer) -> (b: bool)
    ensures
        b == confirm_spec(default, yes@, no@, *answer),
{
    let choices = yes_no(yes, no);
    let idx = confirm_default_index(default);
    let v = select(choices.as_slice(), idx, answer);
    proof {
        reveal_strlit("y");
        reveal_strlit("n");
        let c = choices@;
        assert("y"@[0] != "n"@[0]);
        assert("y"@ != "n"@);
        if let Answer::Typed(t) = answer {
            {
                let tt = trim(t@);
                let n = parse_usize_spec(tt);
                if !(n is Some && 1 <= n.unwrap() <= 2) {
                    if matches_choice(c[0], tt, t@) {
                        let i = choose|i: int|
                            0 <= i < c.len() && matches_choice(#[trigger] c[i], tt, t@) && forall|j: int|
                                0 <= j < i ==> !matches_choice(#[trigger] c[j], tt, t@);
                        assert(i == 0) by {
                            if i == 1 {
                                assert(!matches_choice(c[0], tt, t@));
                            }
                        }
                    } else if matches_choice(c[1], tt, t@) {
                        let i = choose|i: int|
                            0 <= i < c.len() && matches_choice(#[trigger] c[i], tt, t@) && forall|j: int|
                                0 <= j < i ==> !matches_choice(#[trigger] c[j], tt, t@);
                        assert(i == 1);
                    } else {
                        assert(!(exists|i: int| 0 <= i < c.len() && matches_choice(#[trigger] c[i], tt, t@))) by {
                            assert forall|i: int| 0 <= i < c.len() implies !matches_choice(#[trigger] c[i], tt, t@) by {
                                if i == 0 {} else {}
                            }
                        }
                    }
                }
            }
        }
    }
    same_text(v.as_str(), "y")
}

/// What a free-text question answers: the line typed, trimmed, or the
/// default when it was blank or nothing could be read.
pub fn input_answer(line: Option<&str>, default: &str) -> (r: String)
    ensures
        r@ == match line {
            Some(l) => if trim(l@).len() > 0 { trim(l@) } else { default@ },
            None => default@,
        },
{
    match line {
        Some(l) => {
            let t = trimmed(l);
            if t.as_str().is_empty() { owned(default) } else { t }
        },
        None => owned(default),
    }
}

} // verus!
