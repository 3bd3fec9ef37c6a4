//! What the lexer's symbol tokens are: each is written as the characters it
//! was read from.
use vstd::prelude::*;
use crate::lexer::{LexPos, Scan, scan_at, single_punct, adv, char_at};
use crate::token_text::kind_text;

verus! {

/// The characters that start an operator or a bracket.
pub open spec fn symbol_char(c: char) -> bool {
    c == '(' || c == ')' || c == '[' || c == ']' || c == ',' || c == ':' || c == '.' || c == '+' || c == '*'
        || c == '/' || c == '%' || c == '-' || c == '=' || c == '<' || c == '>' || c == '!'
}

proof fn lemma_symbol_texts()
    ensures
        "("@ == seq!['('],
        ")"@ == seq![')'],
        "["@ == seq!['['],
        "]"@ == seq![']'],
        ","@ == seq![','],
        ":"@ == seq![':'],
        "."@ == seq!['.'],
        "+"@ == seq!['+'],
        "*"@ == seq!['*'],
        "/"@ == seq!['/'],
        "%"@ == seq!['%'],
        "-"@ == seq!['-'],
        "->"@ == seq!['-', '>'],
        "="@ == seq!['='],
        "=="@ == seq!['=', '='],
        "<"@ == seq!['<'],
        "<="@ == seq!['<', '='],
        ">"@ == seq!['>'],
        ">="@ == seq!['>', '='],
        "!="@ == seq!['!', '='],
{
    reveal_strlit("(");
    reveal_strlit(")");
    reveal_strlit("[");
    reveal_strlit("]");
    reveal_strlit(",");
    reveal_strlit(":");
    reveal_strlit(".");
    reveal_strlit("+");
    reveal_strlit("*");
    reveal_strlit("/");
    reveal_strlit("%");
    reveal_strlit("-");
    reveal_strlit("->");
    reveal_strlit("=");
    reveal_strlit("==");
    reveal_strlit("<");
    reveal_strlit("<=");
    reveal_strlit(">");
    reveal_strlit(">=");
    reveal_strlit("!=");
}

/// The token of a one-character symbol is written as that character.
pub proof fn law_single_symbols_spell_themselves(c: char)
    ensures
        single_punct(c) matches Some(k) ==> kind_text(k) == seq![c],
        (c == '(' || c == ')' || c == '[' || c == ']' || c == ',' || c == ':' || c == '.' || c == '+' || c == '*'
            || c == '/' || c == '%') ==> single_punct(c) is Some,
{
    lemma_symbol_texts();
}

/// A scan at an operator or bracket character gives a token (but for a `!`
/// not followed by `=`), and that token is written exactly as the characters
/// it covers: one, or two for `->`, `==`, `<=`, `>=` and `!=`.
pub proof fn law_symbol_tokens_spell_their_source(cs: Seq<char>, s: LexPos)
    requires
        0 <= s.pos < cs.len(),
        symbol_char(cs[s.pos]),
    ensures
        cs[s.pos] != '!' ==> scan_at(cs, s) is Token,
        scan_at(cs, s) matches Scan::Token(tok, e) ==> s.pos < e.pos <= cs.len() && kind_text(tok.kind)
            == cs.subrange(s.pos, e.pos),
{
    lemma_symbol_texts();
    let c = cs[s.pos];
    let a = adv(cs, s);
    assert(a.pos == s.pos + 1);
    assert(cs.subrange(s.pos, s.pos + 1) =~= seq![c]);
    if s.pos + 1 < cs.len() {
        assert(cs.subrange(s.pos, s.pos + 2) =~= seq![c, cs[s.pos + 1]]);
        assert(adv(cs, a).pos == s.pos + 2);
    }
    assert(char_at(cs, a.pos) == (if s.pos + 1 < cs.len() { Some(cs[s.pos + 1]) } else { None::<char> }));
}

} // verus!
