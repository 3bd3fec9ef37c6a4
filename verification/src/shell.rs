//! The decisions of the interactive shells: what one typed line asks for.
//!
//! The compiled-language shell runs each line as the body of `मुख्य` unless
//! the line is a whole function; the scripting shell can switch phonetic
//! typing on and off with `:ime`, and ends a line with a danda where it has
//! none. Reading lines, running programs and printing stay with the caller.
use vstd::prelude::*;
use crate::chars::{is_white_space, white_space_spec, nfkc_spec};
use crate::text::{chars_of, push_char, push_str, str_is};
use crate::ime::{Transliterator, ime_raw};

verus! {

/// What the shell does with one line.
#[derive(Debug, PartialEq)]
pub enum ShellAction {
    /// Leave the shell.
    Quit,
    /// Nothing to run (an empty line).
    Skip,
    /// Phonetic typing was switched; the new setting.
    ImeToggled(bool),
    /// Run this source text.
    Run(String),
}

pub enum ShellActionView {
    Quit,
    Skip,
    ImeToggled(bool),
    Run(Seq<char>),
}

impl View for ShellAction {
    type V = ShellActionView;

    open spec fn view(&self) -> ShellActionView {
        match self {
            ShellAction::Quit => ShellActionView::Quit,
            ShellAction::Skip => ShellActionView::Skip,
            ShellAction::ImeToggled(b) => ShellActionView::ImeToggled(*b),
            ShellAction::Run(s) => ShellActionView::Run(s@),
        }
    }
}

/// The first index at or after `i` whose character is not whitespace.
pub open spec fn lead_end(s: Seq<char>, i: int) -> int
    decreases s.len() - i,
{
    if 0 <= i < s.len() && white_space_spec(s[i]) {
        lead_end(s, i + 1)
    } else {
        i
    }
}

/// Going down from `j`, the end of the text before trailing whitespace,
/// never below `lo`.
pub open spec fn trail_end(s: Seq<char>, j: int, lo: int) -> int
    decreases j - lo,
{
    if lo < j <= s.len() && white_space_spec(s[j - 1]) {
        trail_end(s, j - 1, lo)
    } else {
        j
    }
}

/// `s` without its leading and trailing whitespace.
pub open spec fn trim_spec(s: Seq<char>) -> Seq<char> {
    let a = lead_end(s, 0);
    s.subrange(a, trail_end(s, s.len() as int, a))
}

pub open spec fn starts_with_spec(s: Seq<char>, p: Seq<char>) -> bool {
    p.len() <= s.len() && s.subrange(0, p.len() as int) == p
}

pub open spec fn ends_with_spec(s: Seq<char>, p: Seq<char>) -> bool {
    p.len() <= s.len() && s.subrange(s.len() - p.len(), s.len() as int) == p
}

/// The words that leave a shell.
pub open spec fn is_quit(t: Seq<char>) -> bool {
    t == "विराम"@ || t == "exit"@ || t == "quit"@
}

/// What a line typed into the compiled-language shell asks for.
pub open spec fn repl_spec(line: Seq<char>) -> ShellActionView {
    let t = trim_spec(line);
    if is_quit(t) {
        ShellActionView::Quit
    } else if t.len() == 0 {
        ShellActionView::Skip
    } else if starts_with_spec(t, "क्रिया"@) {
        ShellActionView::Run(t)
    } else {
        ShellActionView::Run("क्रिया मुख्य() -> रिक्त\n"@ + t + "\nइति"@)
    }
}

/// A line of script with a danda added where it ends with none (nor with
/// `इति`).
pub open spec fn with_danda(s: Seq<char>) -> Seq<char> {
    if s.len() > 0 && !ends_with_spec(s, "।"@) && !ends_with_spec(s, "॥"@) && !ends_with_spec(s, "इति"@) {
        s.push('।')
    } else {
        s
    }
}

/// What a line typed into the scripting shell asks for, with phonetic typing
/// on or off: the setting after the line, and the action.
pub open spec fn script_spec(ime: bool, line: Seq<char>) -> (bool, ShellActionView) {
    let t = trim_spec(line);
    if is_quit(t) {
        (ime, ShellActionView::Quit)
    } else if t == ":ime"@ {
        (!ime, ShellActionView::ImeToggled(!ime))
    } else if t.len() == 0 {
        (ime, ShellActionView::Skip)
    } else {
        let actual = if ime { nfkc_spec(ime_raw(t)) } else { t };
        (ime, ShellActionView::Run(with_danda(actual)))
    }
}

/// `s` without its leading and trailing whitespace.
pub fn trim_text(s: &str) -> (r: String)
    ensures
        r@ == trim_spec(s@),
{
    let cs = chars_of(s);
    let mut a: usize = 0;
    while a < cs.len() && is_white_space(cs[a])
        invariant
            a <= cs@.len(),
            lead_end(cs@, 0) == lead_end(cs@, a as int),
        decreases cs@.len() - a,
    {
        a = a + 1;
    }
    let mut b: usize = cs.len();
    while b > a && is_white_space(cs[b - 1])
        invariant
            a <= b <= cs@.len(),
            lead_end(cs@, 0) == a,
            trail_end(cs@, cs@.len() as int, a as int) == trail_end(cs@, b as int, a as int),
        decreases b,
    {
        b = b - 1;
    }
    let mut out = String::new();
    let mut k: usize = a;
    while k < b
        invariant
            a <= k <= b,
            b <= cs@.len(),
            out@ == cs@.subrange(a as int, k as int),
        decreases b - k,
    {
        push_char(&mut out, cs[k]);
        proof {
            assert(cs@.subrange(a as int, k + 1) =~= cs@.subrange(a as int, k as int).push(cs@[k as int]));
        }
        k = k + 1;
    }
    proof {
        assert(cs@ == s@);
    }
    out
}

/// Whether the characters `cs` begin with `lit`.
fn starts_with_lit(cs: &Vec<char>, lit: &str) -> (r: bool)
    ensures
        r == starts_with_spec(cs@, lit@),
{
    let p = chars_of(lit);
    if p.len() > cs.len() {
        return false;
    }
    let mut i: usize = 0;
    while i < p.len()
        invariant
            i <= p@.len(),
            p@.len() <= cs@.len(),
            p@ == lit@,
            cs@.subrange(0, i as int) == p@.subrange(0, i as int),
        decreases p@.len() - i,
    {
        if cs[i] != p[i] {
            proof {
                assert(cs@.subrange(0, p@.len() as int)[i as int] != p@[i as int]);
            }
            return false;
        }
        proof {
            assert(cs@.subrange(0, i + 1) =~= cs@.subrange(0, i as int).push(cs@[i as int]));
            assert(p@.subrange(0, i + 1) =~= p@.subrange(0, i as int).push(p@[i as int]));
        }
        i = i + 1;
    }
    proof {
        assert(p@.subrange(0, p@.len() as int) =~= p@);
    }
    true
}

/// Whether the characters `cs` end with `lit`.
fn ends_with_lit(cs: &Vec<char>, lit: &str) -> (r: bool)
    ensures
        r == ends_with_spec(cs@, lit@),
{
    let p = chars_of(lit);
    if p.len() > cs.len() {
        return false;
    }
    let off = cs.len() - p.len();
    let mut i: usize = 0;
    while i < p.len()
        invariant
            i <= p@.len(),
            off + p@.len() == cs@.len(),
            cs@.len() == cs.len(),
            p@ == lit@,
            cs@.subrange(off as int, off + i) == p@.subrange(0, i as int),
        decreases p@.len() - i,
    {
        if cs[off + i] != p[i] {
            proof {
                assert(cs@.subrange(off as int, cs@.len() as int)[i as int] != p@[i as int]);
            }
            return false;
        }
        proof {
            assert(cs@.subrange(off as int, off + i + 1) =~= cs@.subrange(off as int, off + i).push(cs@[off + i]));
            assert(p@.subrange(0, i + 1) =~= p@.subrange(0, i as int).push(p@[i as int]));
        }
        i = i + 1;
    }
    proof {
        assert(p@.subrange(0, p@.len() as int) =~= p@);
    }
    true
}

/// What a line typed into the compiled-language shell asks for: `विराम`,
/// `exit` or `quit` leave; an empty line is skipped; a line that starts with
/// `क्रिया` is run as it is, any other as the body of `मुख्य`.
pub fn repl_line(line: &str) -> (r: ShellAction)
    ensures
        r@ == repl_spec(line@),
{
    let t = trim_text(line);
    if str_is(t.as_str(), "विराम") || str_is(t.as_str(), "exit") || str_is(t.as_str(), "quit") {
        return ShellAction::Quit;
    }
    let cs = chars_of(t.as_str());
    if cs.len() == 0 {
        return ShellAction::Skip;
    }
    if starts_with_lit(&cs, "क्रिया") {
        ShellAction::Run(t)
    } else {
        let mut w = String::from_str("क्रिया मुख्य() -> रिक्त\n");
        push_str(&mut w, t.as_str());
        push_str(&mut w, "\nइति");
        ShellAction::Run(w)
    }
}

/// What a line typed into the scripting shell asks for, with phonetic typing
/// on (`ime`) or off: `विराम`, `exit` or `quit` leave; `:ime` switches phonetic
/// typing; an empty line is skipped; any other line is run, transliterated
/// first where phonetic typing is on, with a danda added where it ends with
/// none. Gives the setting after the line, and the action.
pub fn script_line(ime: bool, line: &str) -> (r: (bool, ShellAction))
    ensures
        (r.0, r.1@) == script_spec(ime, line@),
{
    let t = trim_text(line);
    if str_is(t.as_str(), "विराम") || str_is(t.as_str(), "exit") || str_is(t.as_str(), "quit") {
        return (ime, ShellAction::Quit);
    }
    if str_is(t.as_str(), ":ime") {
        return (!ime, ShellAction::ImeToggled(!ime));
    }
    let cs = chars_of(t.as_str());
    if cs.len() == 0 {
        return (ime, ShellAction::Skip);
    }
    let mut actual = if ime { Transliterator::to_devanagari(t.as_str()) } else { t };
    let ac = chars_of(actual.as_str());
    if ac.len() > 0 && !ends_with_lit(&ac, "।") && !ends_with_lit(&ac, "॥") && !ends_with_lit(&ac, "इति") {
        push_char(&mut actual, '।');
    }
    (ime, ShellAction::Run(actual))
}

proof fn lemma_lead_end(s: Seq<char>, i: int)
    requires
        0 <= i <= s.len(),
    ensures
        i <= lead_end(s, i) <= s.len(),
        lead_end(s, i) < s.len() ==> !white_space_spec(s[lead_end(s, i)]),
    decreases s.len() - i,
{
    if i < s.len() && white_space_spec(s[i]) {
        lemma_lead_end(s, i + 1);
    }
}

proof fn lemma_trail_end(s: Seq<char>, j: int, lo: int)
    requires
        0 <= lo <= j <= s.len(),
    ensures
        lo <= trail_end(s, j, lo) <= j,
        trail_end(s, j, lo) > lo ==> !white_space_spec(s[trail_end(s, j, lo) - 1]),
    decreases j - lo,
{
    if lo < j && white_space_spec(s[j - 1]) {
        lemma_trail_end(s, j - 1, lo);
    }
}

/// Trimming twice is trimming once: a trimmed line has no whitespace left at
/// either end.
pub proof fn law_trim_idempotent(s: Seq<char>)
    ensures
        trim_spec(trim_spec(s)) == trim_spec(s),
{
    let a = lead_end(s, 0);
    lemma_lead_end(s, 0);
    let b = trail_end(s, s.len() as int, a);
    lemma_trail_end(s, s.len() as int, a);
    let t = trim_spec(s);
    if t.len() > 0 {
        assert(t[0] == s[a]);
        assert(t[t.len() - 1] == s[b - 1]);
        assert(lead_end(t, 0) == 0);
        assert(trail_end(t, t.len() as int, 0) == t.len());
    } else {
        assert(lead_end(t, 0) == 0);
        assert(trail_end(t, t.len() as int, 0) == 0);
    }
    assert(t.subrange(0, t.len() as int) =~= t);
}

/// Whitespace around a typed line changes nothing of what either shell does
/// with it.
pub proof fn law_shells_ignore_surrounding_whitespace(ime: bool, line: Seq<char>)
    ensures
        repl_spec(trim_spec(line)) == repl_spec(line),
        script_spec(ime, trim_spec(line)) == script_spec(ime, line),
{
    law_trim_idempotent(line);
}

/// Typing `:ime` twice leaves phonetic typing as it was.
pub proof fn law_ime_toggle_twice(ime: bool)
    ensures
        script_spec(script_spec(ime, ":ime"@).0, ":ime"@).0 == ime,
        script_spec(ime, ":ime"@).1 == ShellActionView::ImeToggled(!ime),
{
    reveal_strlit(":ime");
    let t = ":ime"@;
    assert(!white_space_spec(t[0]));
    assert(!white_space_spec(t[3]));
    assert(lead_end(t, 0) == 0);
    assert(trail_end(t, 4, 0) == 4);
    assert(trim_spec(t) =~= t);
    reveal_strlit("विराम");
    reveal_strlit("exit");
    reveal_strlit("quit");
    assert(t != "विराम"@);
    assert(t != "exit"@);
    assert(t != "quit"@);
}

} // verus!
