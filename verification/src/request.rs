//! The studio's requests: where the head of an HTTP request ends, the body
//! length it announces, its method and path, which part of the studio
//! answers it, and when enough of it has arrived. Reading from and writing to
//! the connection stay with the caller.
use vstd::prelude::*;
use crate::chars::white_space_spec;
use crate::shell::{starts_with_spec, trim_spec, trim_text};
use crate::text::{chars_of, push_char, str_is};

verus! {

/// The largest request, head and body together, that the studio reads.
pub const MAX_PAYLOAD_SIZE: usize = 1048576;

/// What a request asks of the studio.
#[derive(Debug, PartialEq, Eq, Structural)]
pub enum Route {
    /// The editor page.
    Page,
    /// Run a program.
    Run,
    /// Check a program.
    Check,
    /// Transliterate phonetic text.
    Transliterate,
    /// Nothing here answers.
    NotFound,
}

/// What to do after a chunk of a request has arrived.
#[derive(Debug, PartialEq, Eq, Structural)]
pub enum Intake {
    /// The request is over the size limit.
    TooLarge,
    /// The head or the body is not complete yet.
    NeedMore,
    /// The head and the body it announces have arrived.
    Complete,
}

// --- Where the head ends ----------------------------------------------------

/// Whether the four bytes at `k` are `\r\n\r\n`.
pub open spec fn blank_line_at(b: Seq<u8>, k: int) -> bool {
    0 <= k && k + 4 <= b.len() && b[k] == 13u8 && b[k + 1] == 10u8 && b[k + 2] == 13u8 && b[k + 3] == 10u8
}

/// The first `k` at or after `i` where `\r\n\r\n` starts.
pub open spec fn blank_line_from(b: Seq<u8>, i: int) -> Option<int>
    decreases b.len() - i,
{
    if i < 0 || i + 4 > b.len() {
        None
    } else if blank_line_at(b, i) {
        Some(i)
    } else {
        blank_line_from(b, i + 1)
    }
}

/// The length of the head, its blank line included, where it is complete.
pub open spec fn header_end_spec(b: Seq<u8>) -> Option<int> {
    match blank_line_from(b, 0) {
        Some(k) => Some(k + 4),
        None => None,
    }
}

/// The length of the head of a request, up to and including the first
/// `\r\n\r\n`, or `None` where the bytes hold no such line yet.
pub fn header_end(buf: &[u8]) -> (r: Option<usize>)
    ensures
        match r {
            Some(n) => header_end_spec(buf@) == Some(n as int),
            None => header_end_spec(buf@) is None,
        },
{
    let n = buf.len();
    let mut i: usize = 0;
    while n >= 4 && i <= n - 4
        invariant
            n == buf@.len(),
            blank_line_from(buf@, 0) == blank_line_from(buf@, i as int),
        decreases n - i,
    {
        if buf[i] == 13u8 && buf[i + 1] == 10u8 && buf[i + 2] == 13u8 && buf[i + 3] == 10u8 {
            return Some(i + 4);
        }
        i = i + 1;
    }
    None
}

// --- Lines and words ----------------------------------------------------------

/// `l` without one carriage return at its end.
pub open spec fn strip_cr(l: Seq<char>) -> Seq<char> {
    if l.len() > 0 && l.last() == '\r' {
        l.drop_last()
    } else {
        l
    }
}

/// The lines of `s` from `i` on, `cur` being the line begun before `i` and
/// `acc` those finished: lines end at `\n`, a `\r` before it is dropped, and
/// the text after the last `\n` is a line where it is not empty.
pub open spec fn lines_acc(s: Seq<char>, i: int, cur: Seq<char>, acc: Seq<Seq<char>>) -> Seq<Seq<char>>
    decreases s.len() - i,
{
    if i < 0 || i >= s.len() {
        if cur.len() > 0 {
            acc.push(cur)
        } else {
            acc
        }
    } else if s[i] == '\n' {
        lines_acc(s, i + 1, Seq::empty(), acc.push(strip_cr(cur)))
    } else {
        lines_acc(s, i + 1, cur.push(s[i]), acc)
    }
}

/// The lines of `s`.
pub open spec fn lines_spec(s: Seq<char>) -> Seq<Seq<char>> {
    lines_acc(s, 0, Seq::empty(), Seq::empty())
}

/// The words of `s` from `i` on: the runs of characters that are not
/// whitespace.
pub open spec fn words_acc(s: Seq<char>, i: int, cur: Seq<char>, acc: Seq<Seq<char>>) -> Seq<Seq<char>>
    decreases s.len() - i,
{
    if i < 0 || i >= s.len() {
        if cur.len() > 0 {
            acc.push(cur)
        } else {
            acc
        }
    } else if white_space_spec(s[i]) {
        words_acc(s, i + 1, Seq::empty(), if cur.len() > 0 { acc.push(cur) } else { acc })
    } else {
        words_acc(s, i + 1, cur.push(s[i]), acc)
    }
}

/// The words of `s`.
pub open spec fn words_spec(s: Seq<char>) -> Seq<Seq<char>> {
    words_acc(s, 0, Seq::empty(), Seq::empty())
}

pub open spec fn strings_view(v: Seq<String>) -> Seq<Seq<char>> {
    v.map_values(|x: String| x@)
}

/// The lines of `s`.
fn lines_of(s: &str) -> (r: Vec<String>)
    ensures
        strings_view(r@) == lines_spec(s@),
{
    let cs = chars_of(s);
    let mut acc: Vec<String> = Vec::new();
    let mut cur = String::new();
    let mut i: usize = 0;
    proof {
        assert(strings_view(acc@) =~= Seq::<Seq<char>>::empty());
    }
    while i < cs.len()
        invariant
            i <= cs@.len(),
            cs@ == s@,
            lines_spec(s@) == lines_acc(cs@, i as int, cur@, strings_view(acc@)),
        decreases cs@.len() - i,
    {
        if cs[i] == '\n' {
            let ghost before = acc@;
            let ghost line = cur@;
            let finished = strip_cr_string(cur);
            acc.push(finished);
            cur = String::new();
            proof {
                assert(strings_view(acc@) =~= strings_view(before).push(strip_cr(line)));
            }
        } else {
            push_char(&mut cur, cs[i]);
        }
        i = i + 1;
    }
    let ghost before = acc@;
    let ghost last = cur@;
    let cur_chars = chars_of(cur.as_str());
    if cur_chars.len() > 0 {
        acc.push(cur);
        proof {
            assert(strings_view(acc@) =~= strings_view(before).push(last));
        }
    }
    acc
}

/// `l` without one carriage return at its end.
fn strip_cr_string(l: String) -> (r: String)
    ensures
        r@ == strip_cr(l@),
{
    let cs = chars_of(l.as_str());
    let n = cs.len();
    if n > 0 && cs[n - 1] == '\r' {
        let mut out = String::new();
        let mut k: usize = 0;
        while k < n - 1
            invariant
                k <= n - 1,
                n == cs@.len(),
                n > 0,
                out@ == cs@.subrange(0, k as int),
            decreases n - 1 - k,
        {
            push_char(&mut out, cs[k]);
            proof {
                assert(cs@.subrange(0, k + 1) =~= cs@.subrange(0, k as int).push(cs@[k as int]));
            }
            k = k + 1;
        }
        proof {
            assert(cs@.subrange(0, n - 1) =~= cs@.drop_last());
        }
        out
    } else {
        l
    }
}

/// The first two words of `s`, where it has two.
fn first_two_words(s: &str) -> (r: Option<(String, String)>)
    ensures
        match r {
            Some((a, b)) => words_spec(s@).len() >= 2 && a@ == words_spec(s@)[0] && b@ == words_spec(s@)[1],
            None => words_spec(s@).len() < 2,
        },
{
    let cs = chars_of(s);
    let mut acc: Vec<String> = Vec::new();
    let mut cur = String::new();
    let mut cur_len: usize = 0;
    let mut i: usize = 0;
    proof {
        assert(strings_view(acc@) =~= Seq::<Seq<char>>::empty());
    }
    while i < cs.len()
        invariant
            i <= cs@.len(),
            cs@ == s@,
            cur_len == cur@.len(),
            cur_len <= i,
            words_spec(s@) == words_acc(cs@, i as int, cur@, strings_view(acc@)),
            acc@.len() <= i,
        decreases cs@.len() - i,
    {
        if is_ws(cs[i]) {
            if cur_len > 0 {
                let ghost before = acc@;
                let ghost w = cur@;
                acc.push(cur);
                proof {
                    assert(strings_view(acc@) =~= strings_view(before).push(w));
                }
            }
            cur = String::new();
            cur_len = 0;
        } else {
            push_char(&mut cur, cs[i]);
            cur_len = cur_len + 1;
        }
        i = i + 1;
    }
    if cur_len > 0 {
        let ghost before = acc@;
        let ghost w = cur@;
        acc.push(cur);
        proof {
            assert(strings_view(acc@) =~= strings_view(before).push(w));
        }
    }
    if acc.len() < 2 {
        return None;
    }
    let mut acc = acc;
    let ghost all = acc@;
    let mut rest = acc.split_off(1);
    let b = rest.swap_remove(0);
    let a = acc.swap_remove(0);
    proof {
        assert(strings_view(all)[0] == all[0]@);
        assert(strings_view(all)[1] == all[1]@);
    }
    Some((a, b))
}

fn is_ws(c: char) -> (r: bool)
    ensures
        r == white_space_spec(c),
{
    crate::chars::is_white_space(c)
}

// --- The announced body length ------------------------------------------------

/// The decimal value of the ASCII digits `d`.
pub open spec fn digits_value(d: Seq<char>) -> nat
    decreases d.len(),
{
    if d.len() == 0 {
        0
    } else {
        digits_value(d.drop_last()) * 10 + (d.last() as nat - '0' as nat) as nat
    }
}

pub open spec fn all_digits(d: Seq<char>) -> bool {
    forall|i: int| 0 <= i < d.len() ==> '0' <= #[trigger] d[i] <= '9'
}

/// The digits of an unsigned number: `s` without one leading `+`.
pub open spec fn unsigned_digits(s: Seq<char>) -> Seq<char> {
    if s.len() > 0 && s[0] == '+' {
        s.subrange(1, s.len() as int)
    } else {
        s
    }
}

/// `s` read as a `usize` the way `str::parse` reads one: an optional `+`,
/// then one or more ASCII digits, of a value that fits.
pub open spec fn parse_usize_spec(s: Seq<char>) -> Option<usize> {
    let d = unsigned_digits(s);
    if d.len() > 0 && all_digits(d) && digits_value(d) <= usize::MAX {
        Some(digits_value(d) as usize)
    } else {
        None
    }
}

proof fn lemma_digits_prefix_monotone(d: Seq<char>, j: int, k: int)
    requires
        0 <= j <= k <= d.len(),
        all_digits(d),
    ensures
        digits_value(d.subrange(0, j)) <= digits_value(d.subrange(0, k)),
    decreases k - j,
{
    if j < k {
        lemma_digits_prefix_monotone(d, j, k - 1);
        assert(d.subrange(0, k).drop_last() =~= d.subrange(0, k - 1));
        assert('0' <= d[k - 1] <= '9');
    }
}

/// `s` read as a `usize`, or `None` where it is not one.
pub fn parse_usize(s: &str) -> (r: Option<usize>)
    ensures
        r == parse_usize_spec(s@),
{
    let cs = chars_of(s);
    let start: usize = if cs.len() > 0 && cs[0] == '+' { 1 } else { 0 };
    let ghost d = unsigned_digits(s@);
    proof {
        assert(d =~= cs@.subrange(start as int, cs@.len() as int));
    }
    if start >= cs.len() {
        assert(d.len() == 0);
        return None;
    }
    let mut k: usize = start;
    while k < cs.len()
        invariant
            start <= k <= cs@.len(),
            cs@ == s@,
            d == cs@.subrange(start as int, cs@.len() as int),
            d == unsigned_digits(s@),
            forall|i: int| 0 <= i < k - start ==> '0' <= #[trigger] d[i] <= '9',
        decreases cs@.len() - k,
    {
        if !('0' <= cs[k] && cs[k] <= '9') {
            proof {
                assert(!('0' <= d[k - start] <= '9'));
                assert(!all_digits(d));
            }
            return None;
        }
        k = k + 1;
    }
    assert(all_digits(d));
    let mut value: usize = 0;
    let mut k: usize = start;
    while k < cs.len()
        invariant
            start <= k <= cs@.len(),
            cs@ == s@,
            d == cs@.subrange(start as int, cs@.len() as int),
            d == unsigned_digits(s@),
            all_digits(d),
            value == digits_value(d.subrange(0, k - start)),
        decreases cs@.len() - k,
    {
        proof {
            assert(d.subrange(0, k + 1 - start).drop_last() =~= d.subrange(0, k - start));
            assert(d[k - start] == cs@[k as int]);
            assert('0' <= d[k - start] <= '9');
        }
        let digit: usize = (cs[k] as u32 - 48u32) as usize;
        match value.checked_mul(10) {
            None => {
                proof {
                    lemma_digits_prefix_monotone(d, k + 1 - start, d.len() as int);
                    assert(d.subrange(0, d.len() as int) =~= d);
                }
                return None;
            },
            Some(m) => match m.checked_add(digit) {
                None => {
                    proof {
                        lemma_digits_prefix_monotone(d, k + 1 - start, d.len() as int);
                        assert(d.subrange(0, d.len() as int) =~= d);
                    }
                    return None;
                },
                Some(v) => {
                    value = v;
                },
            },
        }
        k = k + 1;
    }
    proof {
        assert(d.subrange(0, d.len() as int) =~= d);
    }
    Some(value)
}

/// The text between the first `:` of `l` and the next one (or the end), where
/// `l` has a `:`.
pub open spec fn second_field(l: Seq<char>) -> Option<Seq<char>> {
    if exists|i: int| 0 <= i < l.len() && l[i] == ':' {
        let a = choose|i: int| 0 <= i < l.len() && l[i] == ':' && forall|j: int| 0 <= j < i ==> l[j] != ':';
        let rest = l.subrange(a + 1, l.len() as int);
        if exists|i: int| 0 <= i < rest.len() && rest[i] == ':' {
            let b = choose|i: int| 0 <= i < rest.len() && rest[i] == ':' && forall|j: int| 0 <= j < i ==> rest[j] != ':';
            Some(rest.subrange(0, b))
        } else {
            Some(rest)
        }
    } else {
        None
    }
}

/// The result of `str::to_lowercase` (Unicode lower case).
pub uninterp spec fn lowercase_spec(s: Seq<char>) -> Seq<char>;

/// Trusted: calls `str::to_lowercase`. The contract says only that the result
/// is a function of `s` (its Unicode lower case); the case tables are not
/// written out.
#[verifier::external_body]
fn lowercase(s: &str) -> (r: String)
    ensures
        r@ == lowercase_spec(s@),
{
    s.to_lowercase()
}

/// The length that one header line announces, given the one announced before
/// it: a `Content-Length` line (in any case) gives the number after its `:`
/// (0 where it is not a number); any other line leaves it.
pub open spec fn announce(line: Seq<char>, before: usize) -> usize {
    if starts_with_spec(lowercase_spec(line), "content-length:"@) {
        match second_field(line) {
            Some(v) => match parse_usize_spec(trim_spec(v)) {
                Some(n) => n,
                None => 0,
            },
            None => before,
        }
    } else {
        before
    }
}

/// The length announced by the lines from `i` on, the last announcement
/// winning.
pub open spec fn announced_from(lines: Seq<Seq<char>>, i: int, before: usize) -> usize
    decreases lines.len() - i,
{
    if i < 0 || i >= lines.len() {
        before
    } else {
        announced_from(lines, i + 1, announce(lines[i], before))
    }
}

/// The body length that a request head announces.
pub open spec fn content_length_spec(head: Seq<char>) -> usize {
    announced_from(lines_spec(head), 0, 0)
}

/// The text after the first `:` of `l` up to the next one, where `l` has a `:`.
fn second_field_of(l: &str) -> (r: Option<String>)
    ensures
        match r {
            Some(v) => second_field(l@) == Some(v@),
            None => second_field(l@) is None,
        },
{
    let cs = chars_of(l);
    let n = cs.len();
    let mut a: usize = 0;
    while a < n && cs[a] != ':'
        invariant
            a <= n,
            n == cs@.len(),
            cs@ == l@,
            forall|j: int| 0 <= j < a ==> cs@[j] != ':',
        decreases n - a,
    {
        a = a + 1;
    }
    if a == n {
        return None;
    }
    proof {
        let a0 = choose|i: int| 0 <= i < l@.len() && l@[i] == ':' && forall|j: int| 0 <= j < i ==> l@[j] != ':';
        assert(0 <= a0 < l@.len() && l@[a0] == ':' && forall|j: int| 0 <= j < a0 ==> l@[j] != ':') by {
            assert(0 <= a < l@.len() && l@[a as int] == ':' && forall|j: int| 0 <= j < a ==> l@[j] != ':');
        }
        if a0 < a {
        } else if a0 > a {
            assert(l@[a as int] != ':');
        }
        assert(a0 == a);
    }
    let mut out = String::new();
    let mut b: usize = a + 1;
    while b < n && cs[b] != ':'
        invariant
            a < b <= n,
            n == cs@.len(),
            cs@ == l@,
            forall|j: int| a < j < b ==> cs@[j] != ':',
            out@ == cs@.subrange(a + 1, b as int),
        decreases n - b,
    {
        push_char(&mut out, cs[b]);
        proof {
            assert(cs@.subrange(a + 1, b + 1) =~= cs@.subrange(a + 1, b as int).push(cs@[b as int]));
        }
        b = b + 1;
    }
    proof {
        let rest = l@.subrange(a + 1, l@.len() as int);
        if b < n {
            let b0 = choose|i: int| 0 <= i < rest.len() && rest[i] == ':' && forall|j: int| 0 <= j < i ==> rest[j] != ':';
            let bb = b - a - 1;
            assert(0 <= bb < rest.len() && rest[bb] == ':' && forall|j: int| 0 <= j < bb ==> rest[j] != ':') by {
                assert forall|j: int| 0 <= j < bb implies rest[j] != ':' by {
                    assert(rest[j] == cs@[a + 1 + j]);
                }
            }
            assert(0 <= b0 < rest.len() && rest[b0] == ':' && forall|j: int| 0 <= j < b0 ==> rest[j] != ':');
            if b0 < bb {
                assert(rest[b0] == cs@[a + 1 + b0]);
            } else if b0 > bb {
                assert(rest[bb] != ':');
            }
            assert(rest.subrange(0, bb) =~= cs@.subrange(a + 1, b as int));
        } else {
            assert forall|i: int| 0 <= i < rest.len() implies rest[i] != ':' by {
                assert(rest[i] == cs@[a + 1 + i]);
            }
            assert(rest =~= cs@.subrange(a + 1, b as int));
        }
    }
    Some(out)
}

/// The length announced by one header line, given the one announced before.
fn announce_line(line: &str, before: usize) -> (r: usize)
    ensures
        r == announce(line@, before),
{
    let lower = lowercase(line);
    let lc = chars_of(lower.as_str());
    if !starts_with_prefix(&lc, "content-length:") {
        return before;
    }
    match second_field_of(line) {
        Some(v) => {
            let t = trim_text(v.as_str());
            match parse_usize(t.as_str()) {
                Some(n) => n,
                None => 0,
            }
        },
        None => before,
    }
}

fn starts_with_prefix(cs: &Vec<char>, lit: &str) -> (r: bool)
    ensures
        r == starts_with_spec(cs@, lit@),
{
    let p = chars_of(lit);
    if p.len() > cs.len() {
        return false;
    }
    let mut i: usize = 0;
    while i < p.len()
        invariant
            i <= p@.len(),
            p@.len() <= cs@.len(),
            p@ == lit@,
            cs@.subrange(0, i as int) == p@.subrange(0, i as int),
        decreases p@.len() - i,
    {
        if cs[i] != p[i] {
            proof {
                assert(cs@.subrange(0, p@.len() as int)[i as int] != p@[i as int]);
            }
            return false;
        }
        proof {
            assert(cs@.subrange(0, i + 1) =~= cs@.subrange(0, i as int).push(cs@[i as int]));
            assert(p@.subrange(0, i + 1) =~= p@.subrange(0, i as int).push(p@[i as int]));
        }
        i = i + 1;
    }
    proof {
        assert(p@.subrange(0, p@.len() as int) =~= p@);
    }
    true
}

/// The body length that a request head announces: the number in its last
/// `Content-Length` line (whatever its case), 0 where that is not a number or
/// where there is no such line.
pub fn content_length_of(head: &str) -> (r: usize)
    ensures
        r == content_length_spec(head@),
{
    let lines = lines_of(head);
    let mut len: usize = 0;
    let mut i: usize = 0;
    while i < lines.len()
        invariant
            i <= lines@.len(),
            strings_view(lines@) == lines_spec(head@),
            content_length_spec(head@) == announced_from(lines_spec(head@), i as int, len),
        decreases lines@.len() - i,
    {
        proof {
            assert(strings_view(lines@)[i as int] == lines@[i as int]@);
        }
        len = announce_line(lines[i].as_str(), len);
        i = i + 1;
    }
    len
}

// --- Method, path and route ---------------------------------------------------

/// The method and path of a request: the first two words of its first line.
pub open spec fn request_target_spec(head: Seq<char>) -> Option<(Seq<char>, Seq<char>)> {
    let ls = lines_spec(head);
    if ls.len() == 0 {
        None
    } else {
        let ws = words_spec(ls[0]);
        if ws.len() < 2 {
            None
        } else {
            Some((ws[0], ws[1]))
        }
    }
}

/// The method and path of a request, the first two words of the first line
/// of its head, or `None` where it has fewer.
pub fn request_target(head: &str) -> (r: Option<(String, String)>)
    ensures
        match r {
            Some((m, p)) => request_target_spec(head@) == Some((m@, p@)),
            None => request_target_spec(head@) is None,
        },
{
    let lines = lines_of(head);
    if lines.len() == 0 {
        return None;
    }
    proof {
        assert(strings_view(lines@)[0] == lines@[0]@);
    }
    first_two_words(lines[0].as_str())
}

pub open spec fn route_spec(method: Seq<char>, path: Seq<char>) -> Route {
    if method == "GET"@ && (path == "/"@ || path == "/index.html"@) {
        Route::Page
    } else if method == "POST"@ && path == "/api/run"@ {
        Route::Run
    } else if method == "POST"@ && path == "/api/check"@ {
        Route::Check
    } else if method == "POST"@ && path == "/api/transliterate"@ {
        Route::Transliterate
    } else {
        Route::NotFound
    }
}

/// Which part of the studio answers `method` on `path`.
pub fn route(method: &str, path: &str) -> (r: Route)
    ensures
        r == route_spec(method@, path@),
{
    if str_is(method, "GET") && (str_is(path, "/") || str_is(path, "/index.html")) {
        Route::Page
    } else if str_is(method, "POST") && str_is(path, "/api/run") {
        Route::Run
    } else if str_is(method, "POST") && str_is(path, "/api/check") {
        Route::Check
    } else if str_is(method, "POST") && str_is(path, "/api/transliterate") {
        Route::Transliterate
    } else {
        Route::NotFound
    }
}

pub open spec fn intake_spec(received: usize, head_len: Option<usize>, content_length: usize) -> Intake {
    if received > MAX_PAYLOAD_SIZE || content_length > MAX_PAYLOAD_SIZE {
        Intake::TooLarge
    } else {
        match head_len {
            Some(h) => if received >= h + content_length {
                Intake::Complete
            } else {
                Intake::NeedMore
            },
            None => Intake::NeedMore,
        }
    }
}

/// What to do once `received` bytes of a request have arrived, its head being
/// `head_len` bytes long where it is complete and announcing a body of
/// `content_length` bytes: refuse it when it is over the limit, read on while
/// the head or body is short, else handle it.
pub fn intake(received: usize, head_len: Option<usize>, content_length: usize) -> (r: Intake)
    ensures
        r == intake_spec(received, head_len, content_length),
{
    if received > MAX_PAYLOAD_SIZE || content_length > MAX_PAYLOAD_SIZE {
        return Intake::TooLarge;
    }
    match head_len {
        Some(h) => {
            if h <= received && received - h >= content_length {
                Intake::Complete
            } else {
                Intake::NeedMore
            }
        },
        None => Intake::NeedMore,
    }
}

} // verus!
