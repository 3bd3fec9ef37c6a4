//! Phonetic input: Roman letters (ITRANS / Harvard-Kyoto style) to Devanagari.
//!
//! The model reads the input from a position and gives what it writes from
//! there on: dandas for `|` and `||`, Devanagari digits, string literals copied
//! as they stand, known words by a table, and otherwise syllables (a consonant
//! cluster with its vowel sign, or an independent vowel).
use vstd::prelude::*;
use crate::chars::{is_alphabetic, unicode_alphabetic, nfkc, nfkc_spec};
use crate::text::{chars_of, eq_lit, push_char, push_str};
use crate::token::{TokenKindView, keyword_spec};
use crate::types::{TypeView, named_type};
use crate::typecheck::builtin_at;

verus! {

/// The transliterator (it holds no state).
pub struct Transliterator;

pub open spec fn ascii_digit(c: char) -> bool {
    '0' <= c && c <= '9'
}

/// A Western digit as its Devanagari digit; any other character as it is.
pub open spec fn digit_char_of(c: char) -> char {
    match c {
        '0' => '०',
        '1' => '१',
        '2' => '२',
        '3' => '३',
        '4' => '४',
        '5' => '५',
        '6' => '६',
        '7' => '७',
        '8' => '८',
        '9' => '९',
        _ => c,
    }
}

/// The words that are written by a table rather than syllable by syllable.
pub open spec fn keyword_of(w: Seq<char>) -> Option<Seq<char>> {
    if w == "kriya"@ || w == "kriyaa"@ || w == "kriyA"@ {
        Some("क्रिया"@)
    } else if w == "mana"@ || w == "mAna"@ || w == "man"@ {
        Some("मान"@)
    } else if w == "vikarya"@ || w == "vikArya"@ {
        Some("विकार्य"@)
    } else if w == "sthira"@ {
        Some("स्थिर"@)
    } else if w == "samracana"@ || w == "samracanA"@ || w == "samrachana"@ {
        Some("संरचना"@)
    } else if w == "vikalpa"@ {
        Some("विकल्प"@)
    } else if w == "guna"@ {
        Some("गुण"@)
    } else if w == "vidhana"@ || w == "vidhAna"@ {
        Some("विधान"@)
    } else if w == "yadi"@ {
        Some("यदि"@)
    } else if w == "anyathayadi"@ {
        Some("अन्यथायदि"@)
    } else if w == "anyatha"@ || w == "anyathA"@ {
        Some("अन्यथा"@)
    } else if w == "yavat"@ || w == "yAvat"@ {
        Some("यावत्"@)
    } else if w == "pratyeka"@ {
        Some("प्रत्येक"@)
    } else if w == "iti"@ {
        Some("इति"@)
    } else if w == "prati"@ {
        Some("प्रति"@)
    } else if w == "bhanga"@ {
        Some("भङ्ग"@)
    } else if w == "anuvrtta"@ {
        Some("अनुवृत्त"@)
    } else if w == "rina"@ {
        Some("ऋण"@)
    } else if w == "chalarina"@ {
        Some("चलऋण"@)
    } else if w == "satyam"@ {
        Some("सत्यम्"@)
    } else if w == "mithya"@ || w == "mithyA"@ {
        Some("मिथ्या"@)
    } else if w == "mudraya"@ {
        Some("मुद्रय"@)
    } else if w == "mukhya"@ {
        Some("मुख्य"@)
    } else if w == "rikta"@ {
        Some("रिक्त"@)
    } else if w == "purna"@ || w == "pUrNa"@ {
        Some("पूर्ण"@)
    } else if w == "sutra"@ || w == "sUtra"@ {
        Some("सूत्र"@)
    } else if w == "varna"@ || w == "varNa"@ {
        Some("वर्ण"@)
    } else if w == "dvaidha"@ {
        Some("द्वैध"@)
    } else {
        None
    }
}

/// Consonants spelled with three letters.
pub open spec fn consonant3(a: char, b: char, c: char) -> Option<Seq<char>> {
    if a == 'k' && (b == 'S' || b == 's') && c == 'h' {
        Some("क्ष"@)
    } else if a == 'j' && b == 'n' && c == 'y' {
        Some("ज्ञ"@)
    } else {
        None
    }
}

/// Consonants spelled with two letters.
pub open spec fn consonant2(a: char, b: char) -> Option<Seq<char>> {
    match (a, b) {
        ('k', 'h') | ('K', 'h') => Some("ख"@),
        ('g', 'h') | ('G', 'h') => Some("घ"@),
        ('n', 'g') => Some("ङ"@),
        ('c', 'h') => Some("च"@),
        ('C', 'h') => Some("छ"@),
        ('j', 'h') | ('J', 'h') => Some("झ"@),
        ('n', 'y') => Some("ञ"@),
        ('T', 'h') => Some("ठ"@),
        ('D', 'h') => Some("ढ"@),
        ('t', 'h') => Some("थ"@),
        ('d', 'h') => Some("ध"@),
        ('p', 'h') => Some("फ"@),
        ('b', 'h') => Some("भ"@),
        ('s', 'h') => Some("श"@),
        ('S', 'h') => Some("ष"@),
        ('g', 'y') => Some("ज्ञ"@),
        ('t', 'r') => Some("त्र"@),
        _ => None,
    }
}

/// Consonants spelled with one letter.
pub open spec fn consonant1(a: char) -> Option<Seq<char>> {
    match a {
        'k' | 'K' => Some("क"@),
        'g' | 'G' => Some("ग"@),
        'c' => Some("च"@),
        'j' | 'J' => Some("ज"@),
        'T' => Some("ट"@),
        'D' => Some("ड"@),
        'N' => Some("ण"@),
        't' => Some("त"@),
        'd' => Some("द"@),
        'n' => Some("न"@),
        'p' | 'P' => Some("प"@),
        'f' => Some("फ"@),
        'b' | 'B' => Some("ब"@),
        'm' | 'M' => Some("म"@),
        'y' | 'Y' => Some("य"@),
        'r' | 'R' => Some("र"@),
        'l' | 'L' => Some("ल"@),
        'v' | 'w' | 'V' | 'W' => Some("व"@),
        'S' | 'z' => Some("ष"@),
        's' => Some("स"@),
        'h' | 'H' => Some("ह"@),
        'x' => Some("क्ष"@),
        _ => None,
    }
}

/// The consonant spelled at `i`: how many letters it takes and what it writes.
/// The longest spelling wins.
pub open spec fn consonant_at(cs: Seq<char>, i: int) -> Option<(int, Seq<char>)> {
    if 0 <= i && i + 3 <= cs.len() && consonant3(cs[i], cs[i + 1], cs[i + 2]) is Some {
        Some((3, consonant3(cs[i], cs[i + 1], cs[i + 2]).unwrap()))
    } else if 0 <= i && i + 2 <= cs.len() && consonant2(cs[i], cs[i + 1]) is Some {
        Some((2, consonant2(cs[i], cs[i + 1]).unwrap()))
    } else if 0 <= i < cs.len() && consonant1(cs[i]) is Some {
        Some((1, consonant1(cs[i]).unwrap()))
    } else {
        None
    }
}

/// Two-letter vowels: as independent vowels (`sign == false`) or as vowel signs.
pub open spec fn vowel2(a: char, b: char, sign: bool) -> Option<Seq<char>> {
    match (a, b) {
        ('a', 'a') => Some(if sign { "ा"@ } else { "आ"@ }),
        ('i', 'i') | ('e', 'e') => Some(if sign { "ी"@ } else { "ई"@ }),
        ('u', 'u') | ('o', 'o') => Some(if sign { "ू"@ } else { "ऊ"@ }),
        ('a', 'i') => Some(if sign { "ै"@ } else { "ऐ"@ }),
        ('a', 'u') => Some(if sign { "ौ"@ } else { "औ"@ }),
        ('r', 'i') => Some(if sign { "ृ"@ } else { "ऋ"@ }),
        _ => None,
    }
}

/// One-letter vowels: as independent vowels (`sign == false`) or as vowel signs
/// (the inherent `a` writes nothing).
pub open spec fn vowel1(a: char, sign: bool) -> Option<Seq<char>> {
    match a {
        'a' => Some(if sign { ""@ } else { "अ"@ }),
        'A' => Some(if sign { "ा"@ } else { "आ"@ }),
        'i' => Some(if sign { "ि"@ } else { "इ"@ }),
        'I' => Some(if sign { "ी"@ } else { "ई"@ }),
        'u' => Some(if sign { "ु"@ } else { "उ"@ }),
        'U' => Some(if sign { "ू"@ } else { "ऊ"@ }),
        'e' => Some(if sign { "े"@ } else { "ए"@ }),
        'o' => Some(if sign { "ो"@ } else { "ओ"@ }),
        _ => None,
    }
}

/// The vowel spelled at `i` (an independent vowel, or a vowel sign when `sign`).
pub open spec fn vowel_at(cs: Seq<char>, i: int, sign: bool) -> Option<(int, Seq<char>)> {
    if 0 <= i && i + 2 <= cs.len() && vowel2(cs[i], cs[i + 1], sign) is Some {
        Some((2, vowel2(cs[i], cs[i + 1], sign).unwrap()))
    } else if 0 <= i < cs.len() && vowel1(cs[i], sign) is Some {
        Some((1, vowel1(cs[i], sign).unwrap()))
    } else {
        None
    }
}

/// The consonants from `i` on, joined by viramas after `acc`: where they end,
/// what they write, and whether there was one.
pub open spec fn cluster(cs: Seq<char>, i: int, acc: Seq<char>, had: bool) -> (int, Seq<char>, bool)
    decreases cs.len() - i,
{
    match consonant_at(cs, i) {
        Some((n, c)) => if 0 < n && i + n <= cs.len() {
            cluster(cs, i + n, (if had { acc.push('्') } else { acc }) + c, true)
        } else {
            (i, acc, had)
        },
        None => (i, acc, had),
    }
}

/// The syllable at `i`: how many letters it takes (0 where none is spelled
/// there) and what it writes.
pub open spec fn syllable_at(cs: Seq<char>, i: int) -> (int, Seq<char>) {
    match vowel_at(cs, i, false) {
        Some((n, v)) => (n, v),
        None => {
            let (j, res, had) = cluster(cs, i, Seq::empty(), false);
            if had {
                match vowel_at(cs, j, true) {
                    Some((n, m)) => (j + n - i, res + m),
                    None => if j == cs.len() || (j < cs.len() && !unicode_alphabetic(cs[j])) {
                        (j - i, res.push('्'))
                    } else {
                        (j - i, res)
                    },
                }
            } else {
                (0, Seq::empty())
            }
        },
    }
}

/// The end of the run of alphabetic characters from `i`.
pub open spec fn word_end(cs: Seq<char>, i: int) -> int
    decreases cs.len() - i,
{
    if 0 <= i < cs.len() && unicode_alphabetic(cs[i]) {
        word_end(cs, i + 1)
    } else {
        i
    }
}

/// The body of a string literal from `i` (after its opening quote) after
/// `acc`, with its closing quote if there is one: where it ends and what it
/// writes. Escapes are copied with their backslash.
pub open spec fn quoted(cs: Seq<char>, i: int, acc: Seq<char>) -> (int, Seq<char>)
    decreases cs.len() - i,
{
    if 0 <= i < cs.len() && cs[i] != '"' {
        if cs[i] == '\\' && i + 1 < cs.len() {
            quoted(cs, i + 2, acc.push('\\').push(cs[i + 1]))
        } else {
            quoted(cs, i + 1, acc.push(cs[i]))
        }
    } else if 0 <= i < cs.len() {
        (i + 1, acc.push('"'))
    } else {
        (i, acc)
    }
}

pub proof fn lemma_cluster_bounds(cs: Seq<char>, i: int, acc: Seq<char>, had: bool)
    requires
        0 <= i <= cs.len(),
    ensures
        i <= cluster(cs, i, acc, had).0 <= cs.len(),
        cluster(cs, i, acc, had).2 == (had || cluster(cs, i, acc, had).0 > i),
    decreases cs.len() - i,
{
    match consonant_at(cs, i) {
        Some((n, c)) => if 0 < n && i + n <= cs.len() {
            lemma_cluster_bounds(cs, i + n, (if had { acc.push('्') } else { acc }) + c, true);
        },
        None => {},
    }
}

/// A syllable never reaches past the end of the input.
pub proof fn lemma_syllable_bounds(cs: Seq<char>, i: int)
    requires
        0 <= i < cs.len(),
    ensures
        0 <= syllable_at(cs, i).0 <= cs.len() - i,
{
    lemma_cluster_bounds(cs, i, Seq::empty(), false);
}

pub proof fn lemma_word_end_bounds(cs: Seq<char>, i: int)
    requires
        0 <= i <= cs.len(),
    ensures
        i <= word_end(cs, i) <= cs.len(),
    decreases cs.len() - i,
{
    if 0 <= i < cs.len() && unicode_alphabetic(cs[i]) {
        lemma_word_end_bounds(cs, i + 1);
    }
}

pub proof fn lemma_quoted_bounds(cs: Seq<char>, i: int, acc: Seq<char>)
    requires
        0 <= i <= cs.len(),
    ensures
        i <= quoted(cs, i, acc).0 <= cs.len(),
    decreases cs.len() - i,
{
    if 0 <= i < cs.len() && cs[i] != '"' {
        if cs[i] == '\\' && i + 1 < cs.len() {
            lemma_quoted_bounds(cs, i + 2, acc.push('\\').push(cs[i + 1]));
        } else {
            lemma_quoted_bounds(cs, i + 1, acc.push(cs[i]));
        }
    }
}

/// A vowel takes one or two letters, all within the input.
pub proof fn lemma_vowel_bounds(cs: Seq<char>, i: int, sign: bool)
    ensures
        vowel_at(cs, i, sign) matches Some((n, _)) ==> 1 <= n && 0 <= i && i + n <= cs.len(),
{
}

/// What the transliterator writes for the input from `i` on (before NFKC).
pub open spec fn ime_from(cs: Seq<char>, i: int) -> Seq<char>
    decreases cs.len() - i,
{
    if i < 0 || i >= cs.len() {
        Seq::empty()
    } else if i + 1 < cs.len() && cs[i] == '|' && cs[i + 1] == '|' {
        seq!['॥'] + ime_from(cs, i + 2)
    } else if cs[i] == '|' {
        seq!['।'] + ime_from(cs, i + 1)
    } else if ascii_digit(cs[i]) {
        seq![digit_char_of(cs[i])] + ime_from(cs, i + 1)
    } else if cs[i] == '"' {
        let (j, s) = quoted(cs, i + 1, seq!['"']);
        proof {
            lemma_quoted_bounds(cs, i + 1, seq!['"']);
        }
        s + ime_from(cs, j)
    } else if !unicode_alphabetic(cs[i]) {
        seq![cs[i]] + ime_from(cs, i + 1)
    } else {
        let w = word_end(cs, i);
        proof {
            lemma_word_end_bounds(cs, i + 1);
        }
        match keyword_of(cs.subrange(i, w)) {
            Some(k) => k + ime_from(cs, w),
            None => {
                let (n, syl) = syllable_at(cs, i);
                proof {
                    lemma_syllable_bounds(cs, i);
                }
                if n > 0 {
                    syl + ime_from(cs, i + n)
                } else {
                    seq![cs[i]] + ime_from(cs, i + 1)
                }
            },
        }
    }
}

/// What the transliterator writes for `cs`, before NFKC.
pub open spec fn ime_raw(cs: Seq<char>) -> Seq<char> {
    ime_from(cs, 0)
}

/// Transliterating digits twice is transliterating them once: Devanagari
/// digits, like every other character that is not a Western digit, stay.
pub proof fn law_transliterate_digits_idempotent(s: Seq<char>)
    ensures
        s.map_values(|c: char| digit_char_of(c)).map_values(|c: char| digit_char_of(c)) == s.map_values(|c: char| digit_char_of(c)),
{
    assert(s.map_values(|c: char| digit_char_of(c)).map_values(|c: char| digit_char_of(c)) =~= s.map_values(|c: char| digit_char_of(c)));
}

/// Transliterating digits keeps the length and every character that is not a
/// Western digit.
pub proof fn law_transliterate_digits_keeps_others(s: Seq<char>, i: int)
    requires
        0 <= i < s.len(),
        !ascii_digit(s[i]),
    ensures
        s.map_values(|c: char| digit_char_of(c)).len() == s.len(),
        s.map_values(|c: char| digit_char_of(c))[i] == s[i],
{
}

pub open spec fn opt_view(r: Option<(usize, &str)>) -> Option<(int, Seq<char>)> {
    match r {
        Some((n, s)) => Some((n as int, s@)),
        None => None,
    }
}

impl Transliterator {
    /// Western digits to Devanagari digits; every other character stays.
    pub fn transliterate_digits(input: &str) -> (r: String)
        ensures
            r@ == input@.map_values(|c: char| digit_char_of(c)),
    {
        let cs = chars_of(input);
        let mut out = String::new();
        let mut i: usize = 0;
        while i < cs.len()
            invariant
                i <= cs@.len(),
                cs@ == input@,
                out@ == cs@.subrange(0, i as int).map_values(|c: char| digit_char_of(c)),
            decreases cs.len() - i,
        {
            let d = Self::transliterate_digit(cs[i]);
            push_char(&mut out, d);
            proof {
                assert(cs@.subrange(0, i + 1).map_values(|c: char| digit_char_of(c)) =~= cs@.subrange(
                    0,
                    i as int,
                ).map_values(|c: char| digit_char_of(c)).push(d));
            }
            i = i + 1;
        }
        proof {
            assert(cs@.subrange(0, cs@.len() as int) =~= cs@);
        }
        out
    }

    /// One Western digit as its Devanagari digit; any other character as it is.
    pub fn transliterate_digit(c: char) -> (r: char)
        ensures
            r == digit_char_of(c),
    {
        match c {
            '0' => '०',
            '1' => '१',
            '2' => '२',
            '3' => '३',
            '4' => '४',
            '5' => '५',
            '6' => '६',
            '7' => '७',
            '8' => '८',
            '9' => '९',
            _ => c,
        }
    }

    /// The Devanagari of a word that the table knows.
    pub fn match_common_keyword(word: &str) -> (r: Option<&'static str>)
        ensures
            match keyword_of(word@) {
                Some(k) => r is Some && r->0@ == k,
                None => r is None,
            },
    {
        let w = chars_of(word);
        if eq_lit(&w, "kriya") || eq_lit(&w, "kriyaa") || eq_lit(&w, "kriyA") {
            Some("क्रिया")
        } else if eq_lit(&w, "mana") || eq_lit(&w, "mAna") || eq_lit(&w, "man") {
            Some("मान")
        } else if eq_lit(&w, "vikarya") || eq_lit(&w, "vikArya") {
            Some("विकार्य")
        } else if eq_lit(&w, "sthira") {
            Some("स्थिर")
        } else if eq_lit(&w, "samracana") || eq_lit(&w, "samracanA") || eq_lit(&w, "samrachana") {
            Some("संरचना")
        } else if eq_lit(&w, "vikalpa") {
            Some("विकल्प")
        } else if eq_lit(&w, "guna") {
            Some("गुण")
        } else if eq_lit(&w, "vidhana") || eq_lit(&w, "vidhAna") {
            Some("विधान")
        } else if eq_lit(&w, "yadi") {
            Some("यदि")
        } else if eq_lit(&w, "anyathayadi") {
            Some("अन्यथायदि")
        } else if eq_lit(&w, "anyatha") || eq_lit(&w, "anyathA") {
            Some("अन्यथा")
        } else if eq_lit(&w, "yavat") || eq_lit(&w, "yAvat") {
            Some("यावत्")
        } else if eq_lit(&w, "pratyeka") {
            Some("प्रत्येक")
        } else if eq_lit(&w, "iti") {
            Some("इति")
        } else if eq_lit(&w, "prati") {
            Some("प्रति")
        } else if eq_lit(&w, "bhanga") {
            Some("भङ्ग")
        } else if eq_lit(&w, "anuvrtta") {
            Some("अनुवृत्त")
        } else if eq_lit(&w, "rina") {
            Some("ऋण")
        } else if eq_lit(&w, "chalarina") {
            Some("चलऋण")
        } else if eq_lit(&w, "satyam") {
            Some("सत्यम्")
        } else if eq_lit(&w, "mithya") || eq_lit(&w, "mithyA") {
            Some("मिथ्या")
        } else if eq_lit(&w, "mudraya") {
            Some("मुद्रय")
        } else if eq_lit(&w, "mukhya") {
            Some("मुख्य")
        } else if eq_lit(&w, "rikta") {
            Some("रिक्त")
        } else if eq_lit(&w, "purna") || eq_lit(&w, "pUrNa") {
            Some("पूर्ण")
        } else if eq_lit(&w, "sutra") || eq_lit(&w, "sUtra") {
            Some("सूत्र")
        } else if eq_lit(&w, "varna") || eq_lit(&w, "varNa") {
            Some("वर्ण")
        } else if eq_lit(&w, "dvaidha") {
            Some("द्वैध")
        } else {
            None
        }
    }

    /// The consonant spelled at `i` of `cs`: how many letters it takes and what
    /// it writes.
    pub fn match_consonant(cs: &Vec<char>, i: usize) -> (r: Option<(usize, &'static str)>)
        ensures
            opt_view(r) == consonant_at(cs@, i as int),
    {
        let n = cs.len();
        if i < n && n - i >= 3 {
            let (a, b, c) = (cs[i], cs[i + 1], cs[i + 2]);
            if a == 'k' && (b == 'S' || b == 's') && c == 'h' {
                return Some((3, "क्ष"));
            } else if a == 'j' && b == 'n' && c == 'y' {
                return Some((3, "ज्ञ"));
            }
        }
        if i < n && n - i >= 2 {
            let two: Option<&'static str> = match (cs[i], cs[i + 1]) {
                ('k', 'h') | ('K', 'h') => Some("ख"),
                ('g', 'h') | ('G', 'h') => Some("घ"),
                ('n', 'g') => Some("ङ"),
                ('c', 'h') => Some("च"),
                ('C', 'h') => Some("छ"),
                ('j', 'h') | ('J', 'h') => Some("झ"),
                ('n', 'y') => Some("ञ"),
                ('T', 'h') => Some("ठ"),
                ('D', 'h') => Some("ढ"),
                ('t', 'h') => Some("थ"),
                ('d', 'h') => Some("ध"),
                ('p', 'h') => Some("फ"),
                ('b', 'h') => Some("भ"),
                ('s', 'h') => Some("श"),
                ('S', 'h') => Some("ष"),
                ('g', 'y') => Some("ज्ञ"),
                ('t', 'r') => Some("त्र"),
                _ => None,
            };
            match two {
                Some(s) => {
                    return Some((2, s));
                },
                None => {},
            }
        }
        if i >= n {
            return None;
        }
        match cs[i] {
            'k' | 'K' => Some((1, "क")),
            'g' | 'G' => Some((1, "ग")),
            'c' => Some((1, "च")),
            'j' | 'J' => Some((1, "ज")),
            'T' => Some((1, "ट")),
            'D' => Some((1, "ड")),
            'N' => Some((1, "ण")),
            't' => Some((1, "त")),
            'd' => Some((1, "द")),
            'n' => Some((1, "न")),
            'p' | 'P' => Some((1, "प")),
            'f' => Some((1, "फ")),
            'b' | 'B' => Some((1, "ब")),
            'm' | 'M' => Some((1, "म")),
            'y' | 'Y' => Some((1, "य")),
            'r' | 'R' => Some((1, "र")),
            'l' | 'L' => Some((1, "ल")),
            'v' | 'w' | 'V' | 'W' => Some((1, "व")),
            'S' | 'z' => Some((1, "ष")),
            's' => Some((1, "स")),
            'h' | 'H' => Some((1, "ह")),
            'x' => Some((1, "क्ष")),
            _ => None,
        }
    }

    /// The vowel spelled at `i` of `cs`: an independent vowel, or a vowel sign
    /// when `sign`.
    fn match_vowel(cs: &Vec<char>, i: usize, sign: bool) -> (r: Option<(usize, &'static str)>)
        ensures
            opt_view(r) == vowel_at(cs@, i as int, sign),
    {
        let n = cs.len();
        if i < n && n - i >= 2 {
            let two: Option<&'static str> = match (cs[i], cs[i + 1]) {
                ('a', 'a') => Some(if sign { "ा" } else { "आ" }),
                ('i', 'i') | ('e', 'e') => Some(if sign { "ी" } else { "ई" }),
                ('u', 'u') | ('o', 'o') => Some(if sign { "ू" } else { "ऊ" }),
                ('a', 'i') => Some(if sign { "ै" } else { "ऐ" }),
                ('a', 'u') => Some(if sign { "ौ" } else { "औ" }),
                ('r', 'i') => Some(if sign { "ृ" } else { "ऋ" }),
                _ => None,
            };
            match two {
                Some(s) => {
                    return Some((2, s));
                },
                None => {},
            }
        }
        if i >= n {
            return None;
        }
        match cs[i] {
            'a' => Some((1, if sign { "" } else { "अ" })),
            'A' => Some((1, if sign { "ा" } else { "आ" })),
            'i' => Some((1, if sign { "ि" } else { "इ" })),
            'I' => Some((1, if sign { "ी" } else { "ई" })),
            'u' => Some((1, if sign { "ु" } else { "उ" })),
            'U' => Some((1, if sign { "ू" } else { "ऊ" })),
            'e' => Some((1, if sign { "े" } else { "ए" })),
            'o' => Some((1, if sign { "ो" } else { "ओ" })),
            _ => None,
        }
    }

    /// An independent vowel at `i` of `cs`.
    pub fn match_independent_vowel(cs: &Vec<char>, i: usize) -> (r: Option<(usize, &'static str)>)
        ensures
            opt_view(r) == vowel_at(cs@, i as int, false),
    {
        Self::match_vowel(cs, i, false)
    }

    /// A vowel sign at `i` of `cs` (the inherent `a` writes nothing).
    pub fn match_matra(cs: &Vec<char>, i: usize) -> (r: Option<(usize, &'static str)>)
        ensures
            opt_view(r) == vowel_at(cs@, i as int, true),
    {
        Self::match_vowel(cs, i, true)
    }

    /// The syllable at `i` of `cs`: how many letters it takes (0 where none is
    /// spelled there) and what it writes.
    pub fn match_syllable(cs: &Vec<char>, i: usize) -> (r: (usize, String))
        requires
            i < cs@.len(),
        ensures
            r.0 as int == syllable_at(cs@, i as int).0,
            r.1@ == syllable_at(cs@, i as int).1,
    {
        match Self::match_independent_vowel(cs, i) {
            Some((n, v)) => {
                let mut s = String::new();
                push_str(&mut s, v);
                return (n, s);
            },
            None => {},
        }
        let n = cs.len();
        let mut idx = i;
        let mut result = String::new();
        let mut had = false;
        proof {
            lemma_cluster_bounds(cs@, i as int, Seq::empty(), false);
        }
        loop
            invariant
                i <= idx <= cs@.len(),
                cluster(cs@, i as int, Seq::empty(), false) == cluster(cs@, idx as int, result@, had),
                had == (idx > i),
            ensures
                i <= idx <= cs@.len(),
                cluster(cs@, i as int, Seq::empty(), false) == (idx as int, result@, had),
                had == (idx > i),
            decreases cs.len() - idx,
        {
            match Self::match_consonant(cs, idx) {
                Some((c_len, cons)) => {
                    if had {
                        push_char(&mut result, '्');
                    }
                    push_str(&mut result, cons);
                    idx = idx + c_len;
                    had = true;
                },
                None => {
                    break;
                },
            }
        }
        if had {
            match Self::match_matra(cs, idx) {
                Some((v_len, matra)) => {
                    proof {
                        lemma_vowel_bounds(cs@, idx as int, true);
                        assert(vowel_at(cs@, idx as int, true) == Some((v_len as int, matra@)));
                    }
                    push_str(&mut result, matra);
                    return (idx + v_len - i, result);
                },
                None => {
                    if idx < cs.len() {
                        if !is_alphabetic(cs[idx]) {
                            push_char(&mut result, '्');
                        }
                    } else {
                        push_char(&mut result, '्');
                    }
                    return (idx - i, result);
                },
            }
        }
        (0, String::new())
    }

    /// What the transliterator writes for `input`, before NFKC.
    pub fn to_devanagari_raw(input: &str) -> (r: String)
        ensures
            r@ == ime_raw(input@),
    {
        let chars = chars_of(input);
        let n = chars.len();
        let mut output = String::new();
        let mut i: usize = 0;
        while i < n
            invariant
                chars@ == input@,
                n == chars@.len(),
                i <= n,
                ime_raw(chars@) == output@ + ime_from(chars@, i as int),
            decreases n - i,
        {
            let ghost cs = chars@;
            let ghost before = output@;
            let ghost i0 = i as int;
            if i + 1 < n && chars[i] == '|' && chars[i + 1] == '|' {
                push_char(&mut output, '॥');
                i = i + 2;
                proof {
                    assert(output@ + ime_from(cs, i as int) =~= before + ime_from(cs, i0));
                }
            } else if chars[i] == '|' {
                push_char(&mut output, '।');
                i = i + 1;
                proof {
                    assert(output@ + ime_from(cs, i as int) =~= before + ime_from(cs, i0));
                }
            } else if '0' <= chars[i] && chars[i] <= '9' {
                push_char(&mut output, Self::transliterate_digit(chars[i]));
                i = i + 1;
                proof {
                    assert(output@ + ime_from(cs, i as int) =~= before + ime_from(cs, i0));
                }
            } else if chars[i] == '"' {
                push_char(&mut output, '"');
                i = i + 1;
                let ghost mut acc: Seq<char> = seq!['"'];
                while i < n && chars[i] != '"'
                    invariant
                        cs == chars@,
                        n == cs.len(),
                        i0 + 1 <= i <= n,
                        output@ == before + acc,
                        quoted(cs, i0 + 1, seq!['"']) == quoted(cs, i as int, acc),
                    decreases n - i,
                {
                    if chars[i] == '\\' && i + 1 < n {
                        push_char(&mut output, '\\');
                        push_char(&mut output, chars[i + 1]);
                        proof {
                            acc = acc.push('\\').push(cs[i + 1]);
                        }
                        i = i + 2;
                    } else {
                        push_char(&mut output, chars[i]);
                        proof {
                            acc = acc.push(cs[i as int]);
                        }
                        i = i + 1;
                    }
                    proof {
                        assert(output@ =~= before + acc);
                    }
                }
                if i < n && chars[i] == '"' {
                    push_char(&mut output, '"');
                    proof {
                        acc = acc.push('"');
                        assert(output@ =~= before + acc);
                    }
                    i = i + 1;
                }
                proof {
                    assert(quoted(cs, i0 + 1, seq!['"']) == (i as int, acc));
                    assert(output@ + ime_from(cs, i as int) =~= before + ime_from(cs, i0));
                }
            } else if !is_alphabetic(chars[i]) {
                push_char(&mut output, chars[i]);
                i = i + 1;
                proof {
                    assert(output@ + ime_from(cs, i as int) =~= before + ime_from(cs, i0));
                }
            } else {
                let mut word = String::new();
                let mut w = i;
                loop
                    invariant
                        cs == chars@,
                        n == cs.len(),
                        0 <= i0 <= w <= n,
                        word@ == cs.subrange(i0, w as int),
                        word_end(cs, i0) == word_end(cs, w as int),
                    ensures
                        i0 <= w <= n,
                        word@ == cs.subrange(i0, w as int),
                        word_end(cs, i0) == w,
                    decreases n - w,
                {
                    if w >= n {
                        break;
                    }
                    if !is_alphabetic(chars[w]) {
                        break;
                    }
                    push_char(&mut word, chars[w]);
                    proof {
                        assert(cs.subrange(i0, w + 1) =~= cs.subrange(i0, w as int).push(cs[w as int]));
                    }
                    w = w + 1;
                }
                proof {
                    lemma_word_end_bounds(cs, i0 + 1);
                }
                match Self::match_common_keyword(word.as_str()) {
                    Some(kw) => {
                        push_str(&mut output, kw);
                        i = w;
                        proof {
                            assert(output@ + ime_from(cs, i as int) =~= before + ime_from(cs, i0));
                        }
                    },
                    None => {
                        let (consumed, syl) = Self::match_syllable(&chars, i);
                        proof {
                            lemma_syllable_bounds(cs, i0);
                        }
                        if consumed > 0 {
                            push_str(&mut output, syl.as_str());
                            i = i + consumed;
                        } else {
                            push_char(&mut output, chars[i]);
                            i = i + 1;
                        }
                        proof {
                            assert(output@ + ime_from(cs, i as int) =~= before + ime_from(cs, i0));
                        }
                    },
                }
            }
        }
        proof {
            assert(output@ + ime_from(chars@, i as int) =~= output@);
        }
        output
    }

    /// Roman input to Devanagari, in NFKC form.
    pub fn to_devanagari(input: &str) -> (r: String)
        ensures
            r@ == nfkc_spec(ime_raw(input@)),
    {
        let raw = Self::to_devanagari_raw(input);
        nfkc(raw.as_str())
    }
}

// --- What the table spells -------------------------------------------------------

/// The characters of the words that the keyword table and the keyword and type
/// names of the language are made of.
proof fn lemma_table_words()
    ensures
        "kriya"@ == seq!['k', 'r', 'i', 'y', 'a'],
        "kriyaa"@ == seq!['k', 'r', 'i', 'y', 'a', 'a'],
        "kriyA"@ == seq!['k', 'r', 'i', 'y', 'A'],
        "mana"@ == seq!['m', 'a', 'n', 'a'],
        "mAna"@ == seq!['m', 'A', 'n', 'a'],
        "man"@ == seq!['m', 'a', 'n'],
        "vikarya"@ == seq!['v', 'i', 'k', 'a', 'r', 'y', 'a'],
        "vikArya"@ == seq!['v', 'i', 'k', 'A', 'r', 'y', 'a'],
        "sthira"@ == seq!['s', 't', 'h', 'i', 'r', 'a'],
        "samracana"@ == seq!['s', 'a', 'm', 'r', 'a', 'c', 'a', 'n', 'a'],
        "samracanA"@ == seq!['s', 'a', 'm', 'r', 'a', 'c', 'a', 'n', 'A'],
        "samrachana"@ == seq!['s', 'a', 'm', 'r', 'a', 'c', 'h', 'a', 'n', 'a'],
        "vikalpa"@ == seq!['v', 'i', 'k', 'a', 'l', 'p', 'a'],
        "guna"@ == seq!['g', 'u', 'n', 'a'],
        "vidhana"@ == seq!['v', 'i', 'd', 'h', 'a', 'n', 'a'],
        "vidhAna"@ == seq!['v', 'i', 'd', 'h', 'A', 'n', 'a'],
        "yadi"@ == seq!['y', 'a', 'd', 'i'],
        "anyathayadi"@ == seq!['a', 'n', 'y', 'a', 't', 'h', 'a', 'y', 'a', 'd', 'i'],
        "anyatha"@ == seq!['a', 'n', 'y', 'a', 't', 'h', 'a'],
        "anyathA"@ == seq!['a', 'n', 'y', 'a', 't', 'h', 'A'],
        "yavat"@ == seq!['y', 'a', 'v', 'a', 't'],
        "yAvat"@ == seq!['y', 'A', 'v', 'a', 't'],
        "pratyeka"@ == seq!['p', 'r', 'a', 't', 'y', 'e', 'k', 'a'],
        "iti"@ == seq!['i', 't', 'i'],
        "prati"@ == seq!['p', 'r', 'a', 't', 'i'],
        "bhanga"@ == seq!['b', 'h', 'a', 'n', 'g', 'a'],
        "anuvrtta"@ == seq!['a', 'n', 'u', 'v', 'r', 't', 't', 'a'],
        "rina"@ == seq!['r', 'i', 'n', 'a'],
        "chalarina"@ == seq!['c', 'h', 'a', 'l', 'a', 'r', 'i', 'n', 'a'],
        "satyam"@ == seq!['s', 'a', 't', 'y', 'a', 'm'],
        "mithya"@ == seq!['m', 'i', 't', 'h', 'y', 'a'],
        "mithyA"@ == seq!['m', 'i', 't', 'h', 'y', 'A'],
        "mudraya"@ == seq!['m', 'u', 'd', 'r', 'a', 'y', 'a'],
        "mukhya"@ == seq!['m', 'u', 'k', 'h', 'y', 'a'],
        "rikta"@ == seq!['r', 'i', 'k', 't', 'a'],
        "purna"@ == seq!['p', 'u', 'r', 'n', 'a'],
        "pUrNa"@ == seq!['p', 'U', 'r', 'N', 'a'],
        "sutra"@ == seq!['s', 'u', 't', 'r', 'a'],
        "sUtra"@ == seq!['s', 'U', 't', 'r', 'a'],
        "varna"@ == seq!['v', 'a', 'r', 'n', 'a'],
        "varNa"@ == seq!['v', 'a', 'r', 'N', 'a'],
        "dvaidha"@ == seq!['d', 'v', 'a', 'i', 'd', 'h', 'a'],
        "क्रिया"@ == seq!['\u{915}', '\u{94D}', '\u{930}', '\u{93F}', '\u{92F}', '\u{93E}'],
        "मान"@ == seq!['\u{92E}', '\u{93E}', '\u{928}'],
        "विकार्य"@ == seq!['\u{935}', '\u{93F}', '\u{915}', '\u{93E}', '\u{930}', '\u{94D}', '\u{92F}'],
        "स्थिर"@ == seq!['\u{938}', '\u{94D}', '\u{925}', '\u{93F}', '\u{930}'],
        "संरचना"@ == seq!['\u{938}', '\u{902}', '\u{930}', '\u{91A}', '\u{928}', '\u{93E}'],
        "विकल्प"@ == seq!['\u{935}', '\u{93F}', '\u{915}', '\u{932}', '\u{94D}', '\u{92A}'],
        "गुण"@ == seq!['\u{917}', '\u{941}', '\u{923}'],
        "विधान"@ == seq!['\u{935}', '\u{93F}', '\u{927}', '\u{93E}', '\u{928}'],
        "यदि"@ == seq!['\u{92F}', '\u{926}', '\u{93F}'],
        "अन्यथा"@ == seq!['\u{905}', '\u{928}', '\u{94D}', '\u{92F}', '\u{925}', '\u{93E}'],
        "अन्यथायदि"@ == seq!['\u{905}', '\u{928}', '\u{94D}', '\u{92F}', '\u{925}', '\u{93E}', '\u{92F}', '\u{926}', '\u{93F}'],
        "यावत्"@ == seq!['\u{92F}', '\u{93E}', '\u{935}', '\u{924}', '\u{94D}'],
        "प्रत्येक"@ == seq!['\u{92A}', '\u{94D}', '\u{930}', '\u{924}', '\u{94D}', '\u{92F}', '\u{947}', '\u{915}'],
        "इति"@ == seq!['\u{907}', '\u{924}', '\u{93F}'],
        "प्रति"@ == seq!['\u{92A}', '\u{94D}', '\u{930}', '\u{924}', '\u{93F}'],
        "भङ्ग"@ == seq!['\u{92D}', '\u{919}', '\u{94D}', '\u{917}'],
        "अनुवृत्त"@ == seq!['\u{905}', '\u{928}', '\u{941}', '\u{935}', '\u{943}', '\u{924}', '\u{94D}', '\u{924}'],
        "ऋण"@ == seq!['\u{90B}', '\u{923}'],
        "चलऋण"@ == seq!['\u{91A}', '\u{932}', '\u{90B}', '\u{923}'],
        "सत्यम्"@ == seq!['\u{938}', '\u{924}', '\u{94D}', '\u{92F}', '\u{92E}', '\u{94D}'],
        "मिथ्या"@ == seq!['\u{92E}', '\u{93F}', '\u{925}', '\u{94D}', '\u{92F}', '\u{93E}'],
        "पूर्ण८"@ == seq!['\u{92A}', '\u{942}', '\u{930}', '\u{94D}', '\u{923}', '\u{96E}'],
        "पूर्ण१६"@ == seq!['\u{92A}', '\u{942}', '\u{930}', '\u{94D}', '\u{923}', '\u{967}', '\u{96C}'],
        "पूर्ण३२"@ == seq!['\u{92A}', '\u{942}', '\u{930}', '\u{94D}', '\u{923}', '\u{969}', '\u{968}'],
        "पूर्ण६४"@ == seq!['\u{92A}', '\u{942}', '\u{930}', '\u{94D}', '\u{923}', '\u{96C}', '\u{96A}'],
        "पूर्ण"@ == seq!['\u{92A}', '\u{942}', '\u{930}', '\u{94D}', '\u{923}'],
        "अपू८"@ == seq!['\u{905}', '\u{92A}', '\u{942}', '\u{96E}'],
        "अपू१६"@ == seq!['\u{905}', '\u{92A}', '\u{942}', '\u{967}', '\u{96C}'],
        "अपू३२"@ == seq!['\u{905}', '\u{92A}', '\u{942}', '\u{969}', '\u{968}'],
        "अपू६४"@ == seq!['\u{905}', '\u{92A}', '\u{942}', '\u{96C}', '\u{96A}'],
        "अंश३२"@ == seq!['\u{905}', '\u{902}', '\u{936}', '\u{969}', '\u{968}'],
        "अंश६४"@ == seq!['\u{905}', '\u{902}', '\u{936}', '\u{96C}', '\u{96A}'],
        "अंश"@ == seq!['\u{905}', '\u{902}', '\u{936}'],
        "द्वैध"@ == seq!['\u{926}', '\u{94D}', '\u{935}', '\u{948}', '\u{927}'],
        "वर्ण"@ == seq!['\u{935}', '\u{930}', '\u{94D}', '\u{923}'],
        "सूत्र"@ == seq!['\u{938}', '\u{942}', '\u{924}', '\u{94D}', '\u{930}'],
        "रिक्त"@ == seq!['\u{930}', '\u{93F}', '\u{915}', '\u{94D}', '\u{924}'],
        "सूची"@ == seq!['\u{938}', '\u{942}', '\u{91A}', '\u{940}'],
        "मुद्रय"@ == seq!['\u{92E}', '\u{941}', '\u{926}', '\u{94D}', '\u{930}', '\u{92F}'],
        "मुख्य"@ == seq!['\u{92E}', '\u{941}', '\u{916}', '\u{94D}', '\u{92F}'],
{
    reveal_strlit("kriya");
    reveal_strlit("kriyaa");
    reveal_strlit("kriyA");
    reveal_strlit("mana");
    reveal_strlit("mAna");
    reveal_strlit("man");
    reveal_strlit("vikarya");
    reveal_strlit("vikArya");
    reveal_strlit("sthira");
    reveal_strlit("samracana");
    reveal_strlit("samracanA");
    reveal_strlit("samrachana");
    reveal_strlit("vikalpa");
    reveal_strlit("guna");
    reveal_strlit("vidhana");
    reveal_strlit("vidhAna");
    reveal_strlit("yadi");
    reveal_strlit("anyathayadi");
    reveal_strlit("anyatha");
    reveal_strlit("anyathA");
    reveal_strlit("yavat");
    reveal_strlit("yAvat");
    reveal_strlit("pratyeka");
    reveal_strlit("iti");
    reveal_strlit("prati");
    reveal_strlit("bhanga");
    reveal_strlit("anuvrtta");
    reveal_strlit("rina");
    reveal_strlit("chalarina");
    reveal_strlit("satyam");
    reveal_strlit("mithya");
    reveal_strlit("mithyA");
    reveal_strlit("mudraya");
    reveal_strlit("mukhya");
    reveal_strlit("rikta");
    reveal_strlit("purna");
    reveal_strlit("pUrNa");
    reveal_strlit("sutra");
    reveal_strlit("sUtra");
    reveal_strlit("varna");
    reveal_strlit("varNa");
    reveal_strlit("dvaidha");
    reveal_strlit("क्रिया");
    reveal_strlit("मान");
    reveal_strlit("विकार्य");
    reveal_strlit("स्थिर");
    reveal_strlit("संरचना");
    reveal_strlit("विकल्प");
    reveal_strlit("गुण");
    reveal_strlit("विधान");
    reveal_strlit("यदि");
    reveal_strlit("अन्यथा");
    reveal_strlit("अन्यथायदि");
    reveal_strlit("यावत्");
    reveal_strlit("प्रत्येक");
    reveal_strlit("इति");
    reveal_strlit("प्रति");
    reveal_strlit("भङ्ग");
    reveal_strlit("अनुवृत्त");
    reveal_strlit("ऋण");
    reveal_strlit("चलऋण");
    reveal_strlit("सत्यम्");
    reveal_strlit("मिथ्या");
    reveal_strlit("पूर्ण८");
    reveal_strlit("पूर्ण१६");
    reveal_strlit("पूर्ण३२");
    reveal_strlit("पूर्ण६४");
    reveal_strlit("पूर्ण");
    reveal_strlit("अपू८");
    reveal_strlit("अपू१६");
    reveal_strlit("अपू३२");
    reveal_strlit("अपू६४");
    reveal_strlit("अंश३२");
    reveal_strlit("अंश६४");
    reveal_strlit("अंश");
    reveal_strlit("द्वैध");
    reveal_strlit("वर्ण");
    reveal_strlit("सूत्र");
    reveal_strlit("रिक्त");
    reveal_strlit("सूची");
    reveal_strlit("मुद्रय");
    reveal_strlit("मुख्य");
}

/// The Roman spellings of the keywords: `w` is a spelling of `k`.
pub open spec fn roman_keyword(w: Seq<char>, k: TokenKindView) -> bool {
    (w == "kriya"@ && k == TokenKindView::Kriya)
    || (w == "kriyaa"@ && k == TokenKindView::Kriya)
    || (w == "kriyA"@ && k == TokenKindView::Kriya)
    || (w == "mana"@ && k == TokenKindView::Mana)
    || (w == "mAna"@ && k == TokenKindView::Mana)
    || (w == "man"@ && k == TokenKindView::Mana)
    || (w == "vikarya"@ && k == TokenKindView::Vikarya)
    || (w == "vikArya"@ && k == TokenKindView::Vikarya)
    || (w == "sthira"@ && k == TokenKindView::Sthira)
    || (w == "samracana"@ && k == TokenKindView::Samracana)
    || (w == "samracanA"@ && k == TokenKindView::Samracana)
    || (w == "samrachana"@ && k == TokenKindView::Samracana)
    || (w == "vikalpa"@ && k == TokenKindView::Vikalpa)
    || (w == "guna"@ && k == TokenKindView::Guna)
    || (w == "vidhana"@ && k == TokenKindView::Vidhana)
    || (w == "vidhAna"@ && k == TokenKindView::Vidhana)
    || (w == "yadi"@ && k == TokenKindView::Yadi)
    || (w == "anyathayadi"@ && k == TokenKindView::AnyathaYadi)
    || (w == "anyatha"@ && k == TokenKindView::Anyatha)
    || (w == "anyathA"@ && k == TokenKindView::Anyatha)
    || (w == "yavat"@ && k == TokenKindView::Yavat)
    || (w == "yAvat"@ && k == TokenKindView::Yavat)
    || (w == "pratyeka"@ && k == TokenKindView::Pratyeka)
    || (w == "iti"@ && k == TokenKindView::Iti)
    || (w == "prati"@ && k == TokenKindView::Prati)
    || (w == "bhanga"@ && k == TokenKindView::Bhanga)
    || (w == "anuvrtta"@ && k == TokenKindView::Anuvrtta)
    || (w == "rina"@ && k == TokenKindView::Rna)
    || (w == "chalarina"@ && k == TokenKindView::CalaRna)
    || (w == "satyam"@ && k == TokenKindView::Satyam)
    || (w == "mithya"@ && k == TokenKindView::Mithya)
    || (w == "mithyA"@ && k == TokenKindView::Mithya)
}

/// The Roman spellings of the type names: `w` is a spelling of a name of `t`.
pub open spec fn roman_type_name(w: Seq<char>, t: TypeView) -> bool {
    (w == "rikta"@ && t == TypeView::Rikta)
    || (w == "purna"@ && t == TypeView::Purna64)
    || (w == "pUrNa"@ && t == TypeView::Purna64)
    || (w == "sutra"@ && t == TypeView::Sutra)
    || (w == "sUtra"@ && t == TypeView::Sutra)
    || (w == "varna"@ && t == TypeView::Varna)
    || (w == "varNa"@ && t == TypeView::Varna)
    || (w == "dvaidha"@ && t == TypeView::Dvaidha)
}

/// Each Roman spelling of a keyword is written as the Devanagari word that the
/// lexer reads as that very keyword (`yavat` as the while keyword, `yadi` as
/// the if keyword, and so on).
pub proof fn law_roman_keywords_lex_as_named(w: Seq<char>, k: TokenKindView)
    requires
        roman_keyword(w, k),
    ensures
        keyword_of(w) is Some,
        keyword_spec(keyword_of(w)->0) == Some(k),
{
    lemma_table_words();
    if w == "kriya"@ && k == TokenKindView::Kriya {
        assert(w.len() == 5);
        assert(w[0] == 'k');
        assert(w[1] == 'r');
        assert(w[2] == 'i');
        assert(w[3] == 'y');
        assert(w[4] == 'a');
        assert(keyword_of(w) == Some("क्रिया"@));
        let d = "क्रिया"@;
        assert(d.len() == 6);
        assert(d[0] == '\u{915}');
        assert(d[1] == '\u{94D}');
        assert(d[2] == '\u{930}');
        assert(d[3] == '\u{93F}');
        assert(d[4] == '\u{92F}');
        assert(d[5] == '\u{93E}');
    } else if w == "kriyaa"@ && k == TokenKindView::Kriya {
        assert(w.len() == 6);
        assert(w[0] == 'k');
        assert(w[1] == 'r');
        assert(w[2] == 'i');
        assert(w[3] == 'y');
        assert(w[4] == 'a');
        assert(w[5] == 'a');
        assert(keyword_of(w) == Some("क्रिया"@));
        let d = "क्रिया"@;
        assert(d.len() == 6);
        assert(d[0] == '\u{915}');
        assert(d[1] == '\u{94D}');
        assert(d[2] == '\u{930}');
        assert(d[3] == '\u{93F}');
        assert(d[4] == '\u{92F}');
        assert(d[5] == '\u{93E}');
    } else if w == "kriyA"@ && k == TokenKindView::Kriya {
        assert(w.len() == 5);
        assert(w[0] == 'k');
        assert(w[1] == 'r');
        assert(w[2] == 'i');
        assert(w[3] == 'y');
        assert(w[4] == 'A');
        assert(keyword_of(w) == Some("क्रिया"@));
        let d = "क्रिया"@;
        assert(d.len() == 6);
        assert(d[0] == '\u{915}');
        assert(d[1] == '\u{94D}');
        assert(d[2] == '\u{930}');
        assert(d[3] == '\u{93F}');
        assert(d[4] == '\u{92F}');
        assert(d[5] == '\u{93E}');
    } else if w == "mana"@ && k == TokenKindView::Mana {
        assert(w.len() == 4);
        assert(w[0] == 'm');
        assert(w[1] == 'a');
        assert(w[2] == 'n');
        assert(w[3] == 'a');
        assert(keyword_of(w) == Some("मान"@));
        let d = "मान"@;
        assert(d.len() == 3);
        assert(d[0] == '\u{92E}');
        assert(d[1] == '\u{93E}');
        assert(d[2] == '\u{928}');
    } else if w == "mAna"@ && k == TokenKindView::Mana {
        assert(w.len() == 4);
        assert(w[0] == 'm');
        assert(w[1] == 'A');
        assert(w[2] == 'n');
        assert(w[3] == 'a');
        assert(keyword_of(w) == Some("मान"@));
        let d = "मान"@;
        assert(d.len() == 3);
        assert(d[0] == '\u{92E}');
        assert(d[1] == '\u{93E}');
        assert(d[2] == '\u{928}');
    } else if w == "man"@ && k == TokenKindView::Mana {
        assert(w.len() == 3);
        assert(w[0] == 'm');
        assert(w[1] == 'a');
        assert(w[2] == 'n');
        assert(keyword_of(w) == Some("मान"@));
        let d = "मान"@;
        assert(d.len() == 3);
        assert(d[0] == '\u{92E}');
        assert(d[1] == '\u{93E}');
        assert(d[2] == '\u{928}');
    } else if w == "vikarya"@ && k == TokenKindView::Vikarya {
        assert(w.len() == 7);
        assert(w[0] == 'v');
        assert(w[1] == 'i');
        assert(w[2] == 'k');
        assert(w[3] == 'a');
        assert(w[4] == 'r');
        assert(w[5] == 'y');
        assert(w[6] == 'a');
        assert(keyword_of(w) == Some("विकार्य"@));
        let d = "विकार्य"@;
        assert(d.len() == 7);
        assert(d[0] == '\u{935}');
        assert(d[1] == '\u{93F}');
        assert(d[2] == '\u{915}');
        assert(d[3] == '\u{93E}');
        assert(d[4] == '\u{930}');
        assert(d[5] == '\u{94D}');
        assert(d[6] == '\u{92F}');
    } else if w == "vikArya"@ && k == TokenKindView::Vikarya {
        assert(w.len() == 7);
        assert(w[0] == 'v');
        assert(w[1] == 'i');
        assert(w[2] == 'k');
        assert(w[3] == 'A');
        assert(w[4] == 'r');
        assert(w[5] == 'y');
        assert(w[6] == 'a');
        assert(keyword_of(w) == Some("विकार्य"@));
        let d = "विकार्य"@;
        assert(d.len() == 7);
        assert(d[0] == '\u{935}');
        assert(d[1] == '\u{93F}');
        assert(d[2] == '\u{915}');
        assert(d[3] == '\u{93E}');
        assert(d[4] == '\u{930}');
        assert(d[5] == '\u{94D}');
        assert(d[6] == '\u{92F}');
    } else if w == "sthira"@ && k == TokenKindView::Sthira {
        assert(w.len() == 6);
        assert(w[0] == 's');
        assert(w[1] == 't');
        assert(w[2] == 'h');
        assert(w[3] == 'i');
        assert(w[4] == 'r');
        assert(w[5] == 'a');
        assert(keyword_of(w) == Some("स्थिर"@));
        let d = "स्थिर"@;
        assert(d.len() == 5);
        assert(d[0] == '\u{938}');
        assert(d[1] == '\u{94D}');
        assert(d[2] == '\u{925}');
        assert(d[3] == '\u{93F}');
        assert(d[4] == '\u{930}');
    } else if w == "samracana"@ && k == TokenKindView::Samracana {
        assert(w.len() == 9);
        assert(w[0] == 's');
        assert(w[1] == 'a');
        assert(w[2] == 'm');
        assert(w[3] == 'r');
        assert(w[4] == 'a');
        assert(w[5] == 'c');
        assert(w[6] == 'a');
        assert(w[7] == 'n');
        assert(w[8] == 'a');
        assert(keyword_of(w) == Some("संरचना"@));
        let d = "संरचना"@;
        assert(d.len() == 6);
        assert(d[0] == '\u{938}');
        assert(d[1] == '\u{902}');
        assert(d[2] == '\u{930}');
        assert(d[3] == '\u{91A}');
        assert(d[4] == '\u{928}');
        assert(d[5] == '\u{93E}');
    } else if w == "samracanA"@ && k == TokenKindView::Samracana {
        assert(w.len() == 9);
        assert(w[0] == 's');
        assert(w[1] == 'a');
        assert(w[2] == 'm');
        assert(w[3] == 'r');
        assert(w[4] == 'a');
        assert(w[5] == 'c');
        assert(w[6] == 'a');
        assert(w[7] == 'n');
        assert(w[8] == 'A');
        assert(keyword_of(w) == Some("संरचना"@));
        let d = "संरचना"@;
        assert(d.len() == 6);
        assert(d[0] == '\u{938}');
        assert(d[1] == '\u{902}');
        assert(d[2] == '\u{930}');
        assert(d[3] == '\u{91A}');
        assert(d[4] == '\u{928}');
        assert(d[5] == '\u{93E}');
    } else if w == "samrachana"@ && k == TokenKindView::Samracana {
        assert(w.len() == 10);
        assert(w[0] == 's');
        assert(w[1] == 'a');
        assert(w[2] == 'm');
        assert(w[3] == 'r');
        assert(w[4] == 'a');
        assert(w[5] == 'c');
        assert(w[6] == 'h');
        assert(w[7] == 'a');
        assert(w[8] == 'n');
        assert(w[9] == 'a');
        assert(keyword_of(w) == Some("संरचना"@));
        let d = "संरचना"@;
        assert(d.len() == 6);
        assert(d[0] == '\u{938}');
        assert(d[1] == '\u{902}');
        assert(d[2] == '\u{930}');
        assert(d[3] == '\u{91A}');
        assert(d[4] == '\u{928}');
        assert(d[5] == '\u{93E}');
    } else if w == "vikalpa"@ && k == TokenKindView::Vikalpa {
        assert(w.len() == 7);
        assert(w[0] == 'v');
        assert(w[1] == 'i');
        assert(w[2] == 'k');
        assert(w[3] == 'a');
        assert(w[4] == 'l');
        assert(w[5] == 'p');
        assert(w[6] == 'a');
        assert(keyword_of(w) == Some("विकल्प"@));
        let d = "विकल्प"@;
        assert(d.len() == 6);
        assert(d[0] == '\u{935}');
        assert(d[1] == '\u{93F}');
        assert(d[2] == '\u{915}');
        assert(d[3] == '\u{932}');
        assert(d[4] == '\u{94D}');
        assert(d[5] == '\u{92A}');
    } else if w == "guna"@ && k == TokenKindView::Guna {
        assert(w.len() == 4);
        assert(w[0] == 'g');
        assert(w[1] == 'u');
        assert(w[2] == 'n');
        assert(w[3] == 'a');
        assert(keyword_of(w) == Some("गुण"@));
        let d = "गुण"@;
        assert(d.len() == 3);
        assert(d[0] == '\u{917}');
        assert(d[1] == '\u{941}');
        assert(d[2] == '\u{923}');
    } else if w == "vidhana"@ && k == TokenKindView::Vidhana {
        assert(w.len() == 7);
        assert(w[0] == 'v');
        assert(w[1] == 'i');
        assert(w[2] == 'd');
        assert(w[3] == 'h');
        assert(w[4] == 'a');
        assert(w[5] == 'n');
        assert(w[6] == 'a');
        assert(keyword_of(w) == Some("विधान"@));
        let d = "विधान"@;
        assert(d.len() == 5);
        assert(d[0] == '\u{935}');
        assert(d[1] == '\u{93F}');
        assert(d[2] == '\u{927}');
        assert(d[3] == '\u{93E}');
        assert(d[4] == '\u{928}');
    } else if w == "vidhAna"@ && k == TokenKindView::Vidhana {
        assert(w.len() == 7);
        assert(w[0] == 'v');
        assert(w[1] == 'i');
        assert(w[2] == 'd');
        assert(w[3] == 'h');
        assert(w[4] == 'A');
        assert(w[5] == 'n');
        assert(w[6] == 'a');
        assert(keyword_of(w) == Some("विधान"@));
        let d = "विधान"@;
        assert(d.len() == 5);
        assert(d[0] == '\u{935}');
        assert(d[1] == '\u{93F}');
        assert(d[2] == '\u{927}');
        assert(d[3] == '\u{93E}');
        assert(d[4] == '\u{928}');
    } else if w == "yadi"@ && k == TokenKindView::Yadi {
        assert(w.len() == 4);
        assert(w[0] == 'y');
        assert(w[1] == 'a');
        assert(w[2] == 'd');
        assert(w[3] == 'i');
        assert(keyword_of(w) == Some("यदि"@));
        let d = "यदि"@;
        assert(d.len() == 3);
        assert(d[0] == '\u{92F}');
        assert(d[1] == '\u{926}');
        assert(d[2] == '\u{93F}');
    } else if w == "anyathayadi"@ && k == TokenKindView::AnyathaYadi {
        assert(w.len() == 11);
        assert(w[0] == 'a');
        assert(w[1] == 'n');
        assert(w[2] == 'y');
        assert(w[3] == 'a');
        assert(w[4] == 't');
        assert(w[5] == 'h');
        assert(w[6] == 'a');
        assert(w[7] == 'y');
        assert(w[8] == 'a');
        assert(w[9] == 'd');
        assert(w[10] == 'i');
        assert(keyword_of(w) == Some("अन्यथायदि"@));
        let d = "अन्यथायदि"@;
        assert(d.len() == 9);
        assert(d[0] == '\u{905}');
        assert(d[1] == '\u{928}');
        assert(d[2] == '\u{94D}');
        assert(d[3] == '\u{92F}');
        assert(d[4] == '\u{925}');
        assert(d[5] == '\u{93E}');
        assert(d[6] == '\u{92F}');
        assert(d[7] == '\u{926}');
        assert(d[8] == '\u{93F}');
    } else if w == "anyatha"@ && k == TokenKindView::Anyatha {
        assert(w.len() == 7);
        assert(w[0] == 'a');
        assert(w[1] == 'n');
        assert(w[2] == 'y');
        assert(w[3] == 'a');
        assert(w[4] == 't');
        assert(w[5] == 'h');
        assert(w[6] == 'a');
        assert(keyword_of(w) == Some("अन्यथा"@));
        let d = "अन्यथा"@;
        assert(d.len() == 6);
        assert(d[0] == '\u{905}');
        assert(d[1] == '\u{928}');
        assert(d[2] == '\u{94D}');
        assert(d[3] == '\u{92F}');
        assert(d[4] == '\u{925}');
        assert(d[5] == '\u{93E}');
    } else if w == "anyathA"@ && k == TokenKindView::Anyatha {
        assert(w.len() == 7);
        assert(w[0] == 'a');
        assert(w[1] == 'n');
        assert(w[2] == 'y');
        assert(w[3] == 'a');
        assert(w[4] == 't');
        assert(w[5] == 'h');
        assert(w[6] == 'A');
        assert(keyword_of(w) == Some("अन्यथा"@));
        let d = "अन्यथा"@;
        assert(d.len() == 6);
        assert(d[0] == '\u{905}');
        assert(d[1] == '\u{928}');
        assert(d[2] == '\u{94D}');
        assert(d[3] == '\u{92F}');
        assert(d[4] == '\u{925}');
        assert(d[5] == '\u{93E}');
    } else if w == "yavat"@ && k == TokenKindView::Yavat {
        assert(w.len() == 5);
        assert(w[0] == 'y');
        assert(w[1] == 'a');
        assert(w[2] == 'v');
        assert(w[3] == 'a');
        assert(w[4] == 't');
        assert(keyword_of(w) == Some("यावत्"@));
        let d = "यावत्"@;
        assert(d.len() == 5);
        assert(d[0] == '\u{92F}');
        assert(d[1] == '\u{93E}');
        assert(d[2] == '\u{935}');
        assert(d[3] == '\u{924}');
        assert(d[4] == '\u{94D}');
    } else if w == "yAvat"@ && k == TokenKindView::Yavat {
        assert(w.len() == 5);
        assert(w[0] == 'y');
        assert(w[1] == 'A');
        assert(w[2] == 'v');
        assert(w[3] == 'a');
        assert(w[4] == 't');
        assert(keyword_of(w) == Some("यावत्"@));
        let d = "यावत्"@;
        assert(d.len() == 5);
        assert(d[0] == '\u{92F}');
        assert(d[1] == '\u{93E}');
        assert(d[2] == '\u{935}');
        assert(d[3] == '\u{924}');
        assert(d[4] == '\u{94D}');
    } else if w == "pratyeka"@ && k == TokenKindView::Pratyeka {
        assert(w.len() == 8);
        assert(w[0] == 'p');
        assert(w[1] == 'r');
        assert(w[2] == 'a');
        assert(w[3] == 't');
        assert(w[4] == 'y');
        assert(w[5] == 'e');
        assert(w[6] == 'k');
        assert(w[7] == 'a');
        assert(keyword_of(w) == Some("प्रत्येक"@));
        let d = "प्रत्येक"@;
        assert(d.len() == 8);
        assert(d[0] == '\u{92A}');
        assert(d[1] == '\u{94D}');
        assert(d[2] == '\u{930}');
        assert(d[3] == '\u{924}');
        assert(d[4] == '\u{94D}');
        assert(d[5] == '\u{92F}');
        assert(d[6] == '\u{947}');
        assert(d[7] == '\u{915}');
    } else if w == "iti"@ && k == TokenKindView::Iti {
        assert(w.len() == 3);
        assert(w[0] == 'i');
        assert(w[1] == 't');
        assert(w[2] == 'i');
        assert(keyword_of(w) == Some("इति"@));
        let d = "इति"@;
        assert(d.len() == 3);
        assert(d[0] == '\u{907}');
        assert(d[1] == '\u{924}');
        assert(d[2] == '\u{93F}');
    } else if w == "prati"@ && k == TokenKindView::Prati {
        assert(w.len() == 5);
        assert(w[0] == 'p');
        assert(w[1] == 'r');
        assert(w[2] == 'a');
        assert(w[3] == 't');
        assert(w[4] == 'i');
        assert(keyword_of(w) == Some("प्रति"@));
        let d = "प्रति"@;
        assert(d.len() == 5);
        assert(d[0] == '\u{92A}');
        assert(d[1] == '\u{94D}');
        assert(d[2] == '\u{930}');
        assert(d[3] == '\u{924}');
        assert(d[4] == '\u{93F}');
    } else if w == "bhanga"@ && k == TokenKindView::Bhanga {
        assert(w.len() == 6);
        assert(w[0] == 'b');
        assert(w[1] == 'h');
        assert(w[2] == 'a');
        assert(w[3] == 'n');
        assert(w[4] == 'g');
        assert(w[5] == 'a');
        assert(keyword_of(w) == Some("भङ्ग"@));
        let d = "भङ्ग"@;
        assert(d.len() == 4);
        assert(d[0] == '\u{92D}');
        assert(d[1] == '\u{919}');
        assert(d[2] == '\u{94D}');
        assert(d[3] == '\u{917}');
    } else if w == "anuvrtta"@ && k == TokenKindView::Anuvrtta {
        assert(w.len() == 8);
        assert(w[0] == 'a');
        assert(w[1] == 'n');
        assert(w[2] == 'u');
        assert(w[3] == 'v');
        assert(w[4] == 'r');
        assert(w[5] == 't');
        assert(w[6] == 't');
        assert(w[7] == 'a');
        assert(keyword_of(w) == Some("अनुवृत्त"@));
        let d = "अनुवृत्त"@;
        assert(d.len() == 8);
        assert(d[0] == '\u{905}');
        assert(d[1] == '\u{928}');
        assert(d[2] == '\u{941}');
        assert(d[3] == '\u{935}');
        assert(d[4] == '\u{943}');
        assert(d[5] == '\u{924}');
        assert(d[6] == '\u{94D}');
        assert(d[7] == '\u{924}');
    } else if w == "rina"@ && k == TokenKindView::Rna {
        assert(w.len() == 4);
        assert(w[0] == 'r');
        assert(w[1] == 'i');
        assert(w[2] == 'n');
        assert(w[3] == 'a');
        assert(keyword_of(w) == Some("ऋण"@));
        let d = "ऋण"@;
        assert(d.len() == 2);
        assert(d[0] == '\u{90B}');
        assert(d[1] == '\u{923}');
    } else if w == "chalarina"@ && k == TokenKindView::CalaRna {
        assert(w.len() == 9);
        assert(w[0] == 'c');
        assert(w[1] == 'h');
        assert(w[2] == 'a');
        assert(w[3] == 'l');
        assert(w[4] == 'a');
        assert(w[5] == 'r');
        assert(w[6] == 'i');
        assert(w[7] == 'n');
        assert(w[8] == 'a');
        assert(keyword_of(w) == Some("चलऋण"@));
        let d = "चलऋण"@;
        assert(d.len() == 4);
        assert(d[0] == '\u{91A}');
        assert(d[1] == '\u{932}');
        assert(d[2] == '\u{90B}');
        assert(d[3] == '\u{923}');
    } else if w == "satyam"@ && k == TokenKindView::Satyam {
        assert(w.len() == 6);
        assert(w[0] == 's');
        assert(w[1] == 'a');
        assert(w[2] == 't');
        assert(w[3] == 'y');
        assert(w[4] == 'a');
        assert(w[5] == 'm');
        assert(keyword_of(w) == Some("सत्यम्"@));
        let d = "सत्यम्"@;
        assert(d.len() == 6);
        assert(d[0] == '\u{938}');
        assert(d[1] == '\u{924}');
        assert(d[2] == '\u{94D}');
        assert(d[3] == '\u{92F}');
        assert(d[4] == '\u{92E}');
        assert(d[5] == '\u{94D}');
    } else if w == "mithya"@ && k == TokenKindView::Mithya {
        assert(w.len() == 6);
        assert(w[0] == 'm');
        assert(w[1] == 'i');
        assert(w[2] == 't');
        assert(w[3] == 'h');
        assert(w[4] == 'y');
        assert(w[5] == 'a');
        assert(keyword_of(w) == Some("मिथ्या"@));
        let d = "मिथ्या"@;
        assert(d.len() == 6);
        assert(d[0] == '\u{92E}');
        assert(d[1] == '\u{93F}');
        assert(d[2] == '\u{925}');
        assert(d[3] == '\u{94D}');
        assert(d[4] == '\u{92F}');
        assert(d[5] == '\u{93E}');
    } else if w == "mithyA"@ && k == TokenKindView::Mithya {
        assert(w.len() == 6);
        assert(w[0] == 'm');
        assert(w[1] == 'i');
        assert(w[2] == 't');
        assert(w[3] == 'h');
        assert(w[4] == 'y');
        assert(w[5] == 'A');
        assert(keyword_of(w) == Some("मिथ्या"@));
        let d = "मिथ्या"@;
        assert(d.len() == 6);
        assert(d[0] == '\u{92E}');
        assert(d[1] == '\u{93F}');
        assert(d[2] == '\u{925}');
        assert(d[3] == '\u{94D}');
        assert(d[4] == '\u{92F}');
        assert(d[5] == '\u{93E}');
    }
}

/// Each Roman spelling of a type name is written as a Devanagari name of that
/// type.
pub proof fn law_roman_type_names(w: Seq<char>, t: TypeView)
    requires
        roman_type_name(w, t),
    ensures
        keyword_of(w) is Some,
        named_type(keyword_of(w)->0) == t,
{
    lemma_table_words();
    if w == "rikta"@ && t == TypeView::Rikta {
        assert(w.len() == 5);
        assert(w[0] == 'r');
        assert(w[1] == 'i');
        assert(w[2] == 'k');
        assert(w[3] == 't');
        assert(w[4] == 'a');
        assert(keyword_of(w) == Some("रिक्त"@));
        let d = "रिक्त"@;
        assert(d.len() == 5);
        assert(d[0] == '\u{930}');
        assert(d[1] == '\u{93F}');
        assert(d[2] == '\u{915}');
        assert(d[3] == '\u{94D}');
        assert(d[4] == '\u{924}');
    } else if w == "purna"@ && t == TypeView::Purna64 {
        assert(w.len() == 5);
        assert(w[0] == 'p');
        assert(w[1] == 'u');
        assert(w[2] == 'r');
        assert(w[3] == 'n');
        assert(w[4] == 'a');
        assert(keyword_of(w) == Some("पूर्ण"@));
        let d = "पूर्ण"@;
        assert(d.len() == 5);
        assert(d[0] == '\u{92A}');
        assert(d[1] == '\u{942}');
        assert(d[2] == '\u{930}');
        assert(d[3] == '\u{94D}');
        assert(d[4] == '\u{923}');
    } else if w == "pUrNa"@ && t == TypeView::Purna64 {
        assert(w.len() == 5);
        assert(w[0] == 'p');
        assert(w[1] == 'U');
        assert(w[2] == 'r');
        assert(w[3] == 'N');
        assert(w[4] == 'a');
        assert(keyword_of(w) == Some("पूर्ण"@));
        let d = "पूर्ण"@;
        assert(d.len() == 5);
        assert(d[0] == '\u{92A}');
        assert(d[1] == '\u{942}');
        assert(d[2] == '\u{930}');
        assert(d[3] == '\u{94D}');
        assert(d[4] == '\u{923}');
    } else if w == "sutra"@ && t == TypeView::Sutra {
        assert(w.len() == 5);
        assert(w[0] == 's');
        assert(w[1] == 'u');
        assert(w[2] == 't');
        assert(w[3] == 'r');
        assert(w[4] == 'a');
        assert(keyword_of(w) == Some("सूत्र"@));
        let d = "सूत्र"@;
        assert(d.len() == 5);
        assert(d[0] == '\u{938}');
        assert(d[1] == '\u{942}');
        assert(d[2] == '\u{924}');
        assert(d[3] == '\u{94D}');
        assert(d[4] == '\u{930}');
    } else if w == "sUtra"@ && t == TypeView::Sutra {
        assert(w.len() == 5);
        assert(w[0] == 's');
        assert(w[1] == 'U');
        assert(w[2] == 't');
        assert(w[3] == 'r');
        assert(w[4] == 'a');
        assert(keyword_of(w) == Some("सूत्र"@));
        let d = "सूत्र"@;
        assert(d.len() == 5);
        assert(d[0] == '\u{938}');
        assert(d[1] == '\u{942}');
        assert(d[2] == '\u{924}');
        assert(d[3] == '\u{94D}');
        assert(d[4] == '\u{930}');
    } else if w == "varna"@ && t == TypeView::Varna {
        assert(w.len() == 5);
        assert(w[0] == 'v');
        assert(w[1] == 'a');
        assert(w[2] == 'r');
        assert(w[3] == 'n');
        assert(w[4] == 'a');
        assert(keyword_of(w) == Some("वर्ण"@));
        let d = "वर्ण"@;
        assert(d.len() == 4);
        assert(d[0] == '\u{935}');
        assert(d[1] == '\u{930}');
        assert(d[2] == '\u{94D}');
        assert(d[3] == '\u{923}');
    } else if w == "varNa"@ && t == TypeView::Varna {
        assert(w.len() == 5);
        assert(w[0] == 'v');
        assert(w[1] == 'a');
        assert(w[2] == 'r');
        assert(w[3] == 'N');
        assert(w[4] == 'a');
        assert(keyword_of(w) == Some("वर्ण"@));
        let d = "वर्ण"@;
        assert(d.len() == 4);
        assert(d[0] == '\u{935}');
        assert(d[1] == '\u{930}');
        assert(d[2] == '\u{94D}');
        assert(d[3] == '\u{923}');
    } else if w == "dvaidha"@ && t == TypeView::Dvaidha {
        assert(w.len() == 7);
        assert(w[0] == 'd');
        assert(w[1] == 'v');
        assert(w[2] == 'a');
        assert(w[3] == 'i');
        assert(w[4] == 'd');
        assert(w[5] == 'h');
        assert(w[6] == 'a');
        assert(keyword_of(w) == Some("द्वैध"@));
        let d = "द्वैध"@;
        assert(d.len() == 5);
        assert(d[0] == '\u{926}');
        assert(d[1] == '\u{94D}');
        assert(d[2] == '\u{935}');
        assert(d[3] == '\u{948}');
        assert(d[4] == '\u{927}');
    }
}

/// `mudraya` is written as the name of the print built-in.
pub proof fn law_roman_print()
    ensures
        keyword_of("mudraya"@) == Some(builtin_at(0).0),
{
    lemma_table_words();
    let w = "mudraya"@;
    assert(w.len() == 7);
    assert(w[0] == 'm');
    assert(w[1] == 'u');
    assert(w[2] == 'd');
    assert(w[3] == 'r');
    assert(w[4] == 'a');
    assert(w[5] == 'y');
    assert(w[6] == 'a');
}

} // verus!
