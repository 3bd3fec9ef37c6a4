//! How tokens are shown to people.
use vstd::prelude::*;
use crate::span::{decimal, push_decimal_u64};
use crate::text::{push_char, push_str};
use crate::token::{TokenKind, TokenKindView, keyword_spec};

verus! {

/// An integer in ASCII decimal digits, with a `-` when it is negative.
pub open spec fn int_text(v: i64) -> Seq<char> {
    if v < 0 {
        seq!['-'] + decimal((-(v as int)) as nat)
    } else {
        decimal(v as nat)
    }
}

/// How a token kind is shown: a keyword or symbol by its spelling, a literal
/// by its text (an integer with its value in brackets, a string in quotes), a
/// name by itself. A decimal literal is shown by its digits alone.
pub open spec fn kind_text(k: TokenKindView) -> Seq<char> {
    match k {
        TokenKindView::Kriya => "क्रिया"@,
        TokenKindView::Mana => "मान"@,
        TokenKindView::Vikarya => "विकार्य"@,
        TokenKindView::Sthira => "स्थिर"@,
        TokenKindView::Samracana => "संरचना"@,
        TokenKindView::Vikalpa => "विकल्प"@,
        TokenKindView::Guna => "गुण"@,
        TokenKindView::Vidhana => "विधान"@,
        TokenKindView::Yadi => "यदि"@,
        TokenKindView::Anyatha => "अन्यथा"@,
        TokenKindView::AnyathaYadi => "अन्यथायदि"@,
        TokenKindView::Yavat => "यावत्"@,
        TokenKindView::Pratyeka => "प्रत्येक"@,
        TokenKindView::Iti => "इति"@,
        TokenKindView::Prati => "प्रति"@,
        TokenKindView::Bhanga => "भङ्ग"@,
        TokenKindView::Anuvrtta => "अनुवृत्त"@,
        TokenKindView::Rna => "ऋण"@,
        TokenKindView::CalaRna => "चलऋण"@,
        TokenKindView::Satyam => "सत्यम्"@,
        TokenKindView::Mithya => "मिथ्या"@,
        TokenKindView::Danda => "।"@,
        TokenKindView::DoubleDanda => "॥"@,
        TokenKindView::Plus => "+"@,
        TokenKindView::Minus => "-"@,
        TokenKindView::Star => "*"@,
        TokenKindView::Slash => "/"@,
        TokenKindView::Percent => "%"@,
        TokenKindView::Equal => "="@,
        TokenKindView::EqualEqual => "=="@,
        TokenKindView::NotEqual => "!="@,
        TokenKindView::Less => "<"@,
        TokenKindView::LessEqual => "<="@,
        TokenKindView::Greater => ">"@,
        TokenKindView::GreaterEqual => ">="@,
        TokenKindView::Arrow => "->"@,
        TokenKindView::Comma => ","@,
        TokenKindView::Colon => ":"@,
        TokenKindView::Dot => "."@,
        TokenKindView::LParen => "("@,
        TokenKindView::RParen => ")"@,
        TokenKindView::LBracket => "["@,
        TokenKindView::RBracket => "]"@,
        TokenKindView::Eof => "<अन्त>"@,
        TokenKindView::DevanagariInteger(v, raw) => raw + seq!['('] + int_text(v) + seq![')'],
        TokenKindView::DevanagariFloat(raw) => raw,
        TokenKindView::StringLiteral(t) => seq!['"'] + t + seq!['"'],
        TokenKindView::Identifier(id) => id,
    }
}

/// Appends `v` in decimal digits, with a `-` when it is negative.
fn push_i64(s: &mut String, v: i64)
    ensures
        final(s)@ == old(s)@ + int_text(v),
{
    if v < 0 {
        push_char(s, '-');
        let m: u64 = if v == i64::MIN { 9223372036854775808u64 } else { (-v) as u64 };
        push_decimal_u64(s, m);
        proof {
            assert(old(s)@ + int_text(v) =~= old(s)@.push('-') + decimal(m as nat));
        }
    } else {
        push_decimal_u64(s, v as u64);
    }
}

impl TokenKind {
    /// How this token kind is shown (see `kind_text`).
    pub fn text(&self) -> (r: String)
        ensures
            r@ == kind_text(self@),
    {
        match self {
            TokenKind::Kriya => String::from_str("क्रिया"),
            TokenKind::Mana => String::from_str("मान"),
            TokenKind::Vikarya => String::from_str("विकार्य"),
            TokenKind::Sthira => String::from_str("स्थिर"),
            TokenKind::Samracana => String::from_str("संरचना"),
            TokenKind::Vikalpa => String::from_str("विकल्प"),
            TokenKind::Guna => String::from_str("गुण"),
            TokenKind::Vidhana => String::from_str("विधान"),
            TokenKind::Yadi => String::from_str("यदि"),
            TokenKind::Anyatha => String::from_str("अन्यथा"),
            TokenKind::AnyathaYadi => String::from_str("अन्यथायदि"),
            TokenKind::Yavat => String::from_str("यावत्"),
            TokenKind::Pratyeka => String::from_str("प्रत्येक"),
            TokenKind::Iti => String::from_str("इति"),
            TokenKind::Prati => String::from_str("प्रति"),
            TokenKind::Bhanga => String::from_str("भङ्ग"),
            TokenKind::Anuvrtta => String::from_str("अनुवृत्त"),
            TokenKind::Rna => String::from_str("ऋण"),
            TokenKind::CalaRna => String::from_str("चलऋण"),
            TokenKind::Satyam => String::from_str("सत्यम्"),
            TokenKind::Mithya => String::from_str("मिथ्या"),
            TokenKind::Danda => String::from_str("।"),
            TokenKind::DoubleDanda => String::from_str("॥"),
            TokenKind::Plus => String::from_str("+"),
            TokenKind::Minus => String::from_str("-"),
            TokenKind::Star => String::from_str("*"),
            TokenKind::Slash => String::from_str("/"),
            TokenKind::Percent => String::from_str("%"),
            TokenKind::Equal => String::from_str("="),
            TokenKind::EqualEqual => String::from_str("=="),
            TokenKind::NotEqual => String::from_str("!="),
            TokenKind::Less => String::from_str("<"),
            TokenKind::LessEqual => String::from_str("<="),
            TokenKind::Greater => String::from_str(">"),
            TokenKind::GreaterEqual => String::from_str(">="),
            TokenKind::Arrow => String::from_str("->"),
            TokenKind::Comma => String::from_str(","),
            TokenKind::Colon => String::from_str(":"),
            TokenKind::Dot => String::from_str("."),
            TokenKind::LParen => String::from_str("("),
            TokenKind::RParen => String::from_str(")"),
            TokenKind::LBracket => String::from_str("["),
            TokenKind::RBracket => String::from_str("]"),
            TokenKind::Eof => String::from_str("<अन्त>"),
            TokenKind::DevanagariInteger(v, raw) => {
                let mut r = String::from_str(raw.as_str());
                push_char(&mut r, '(');
                push_i64(&mut r, *v);
                push_char(&mut r, ')');
                proof {
                    assert(r@ =~= kind_text(self@));
                }
                r
            },
            TokenKind::DevanagariFloat(raw) => String::from_str(raw.as_str()),
            TokenKind::StringLiteral(t) => {
                let mut r = String::new();
                push_char(&mut r, '"');
                push_str(&mut r, t.as_str());
                push_char(&mut r, '"');
                proof {
                    assert(r@ =~= kind_text(self@));
                }
                r
            },
            TokenKind::Identifier(id) => String::from_str(id.as_str()),
        }
    }
}

/// Whether `k` is a keyword.
pub open spec fn is_keyword(k: TokenKindView) -> bool {
    k == TokenKindView::Kriya || k == TokenKindView::Mana || k == TokenKindView::Vikarya || k == TokenKindView::Sthira || k == TokenKindView::Samracana || k == TokenKindView::Vikalpa || k == TokenKindView::Guna || k == TokenKindView::Vidhana || k == TokenKindView::Yadi || k == TokenKindView::Anyatha || k == TokenKindView::AnyathaYadi || k == TokenKindView::Yavat || k == TokenKindView::Pratyeka || k == TokenKindView::Iti || k == TokenKindView::Prati || k == TokenKindView::Bhanga || k == TokenKindView::Anuvrtta || k == TokenKindView::Rna || k == TokenKindView::CalaRna || k == TokenKindView::Satyam || k == TokenKindView::Mithya
}

proof fn lemma_keyword_words()
    ensures
        "क्रिया"@ == seq!['\u{915}', '\u{94D}', '\u{930}', '\u{93F}', '\u{92F}', '\u{93E}'],
        "मान"@ == seq!['\u{92E}', '\u{93E}', '\u{928}'],
        "विकार्य"@ == seq!['\u{935}', '\u{93F}', '\u{915}', '\u{93E}', '\u{930}', '\u{94D}', '\u{92F}'],
        "स्थिर"@ == seq!['\u{938}', '\u{94D}', '\u{925}', '\u{93F}', '\u{930}'],
        "संरचना"@ == seq!['\u{938}', '\u{902}', '\u{930}', '\u{91A}', '\u{928}', '\u{93E}'],
        "विकल्प"@ == seq!['\u{935}', '\u{93F}', '\u{915}', '\u{932}', '\u{94D}', '\u{92A}'],
        "गुण"@ == seq!['\u{917}', '\u{941}', '\u{923}'],
        "विधान"@ == seq!['\u{935}', '\u{93F}', '\u{927}', '\u{93E}', '\u{928}'],
        "यदि"@ == seq!['\u{92F}', '\u{926}', '\u{93F}'],
        "अन्यथा"@ == seq!['\u{905}', '\u{928}', '\u{94D}', '\u{92F}', '\u{925}', '\u{93E}'],
        "अन्यथायदि"@ == seq!['\u{905}', '\u{928}', '\u{94D}', '\u{92F}', '\u{925}', '\u{93E}', '\u{92F}', '\u{926}', '\u{93F}'],
        "यावत्"@ == seq!['\u{92F}', '\u{93E}', '\u{935}', '\u{924}', '\u{94D}'],
        "प्रत्येक"@ == seq!['\u{92A}', '\u{94D}', '\u{930}', '\u{924}', '\u{94D}', '\u{92F}', '\u{947}', '\u{915}'],
        "इति"@ == seq!['\u{907}', '\u{924}', '\u{93F}'],
        "प्रति"@ == seq!['\u{92A}', '\u{94D}', '\u{930}', '\u{924}', '\u{93F}'],
        "भङ्ग"@ == seq!['\u{92D}', '\u{919}', '\u{94D}', '\u{917}'],
        "अनुवृत्त"@ == seq!['\u{905}', '\u{928}', '\u{941}', '\u{935}', '\u{943}', '\u{924}', '\u{94D}', '\u{924}'],
        "ऋण"@ == seq!['\u{90B}', '\u{923}'],
        "चलऋण"@ == seq!['\u{91A}', '\u{932}', '\u{90B}', '\u{923}'],
        "सत्यम्"@ == seq!['\u{938}', '\u{924}', '\u{94D}', '\u{92F}', '\u{92E}', '\u{94D}'],
        "मिथ्या"@ == seq!['\u{92E}', '\u{93F}', '\u{925}', '\u{94D}', '\u{92F}', '\u{93E}'],
{
    reveal_strlit("क्रिया");
    reveal_strlit("मान");
    reveal_strlit("विकार्य");
    reveal_strlit("स्थिर");
    reveal_strlit("संरचना");
    reveal_strlit("विकल्प");
    reveal_strlit("गुण");
    reveal_strlit("विधान");
    reveal_strlit("यदि");
    reveal_strlit("अन्यथा");
    reveal_strlit("अन्यथायदि");
    reveal_strlit("यावत्");
    reveal_strlit("प्रत्येक");
    reveal_strlit("इति");
    reveal_strlit("प्रति");
    reveal_strlit("भङ्ग");
    reveal_strlit("अनुवृत्त");
    reveal_strlit("ऋण");
    reveal_strlit("चलऋण");
    reveal_strlit("सत्यम्");
    reveal_strlit("मिथ्या");
}

/// A word that the lexer reads as a keyword is shown as that same word, and
/// the shown text of every keyword is read back as that keyword.
pub proof fn law_keywords_round_trip(w: Seq<char>, k: TokenKindView)
    ensures
        keyword_spec(w) == Some(k) ==> kind_text(k) == w && is_keyword(k),
        is_keyword(k) ==> keyword_spec(kind_text(k)) == Some(k),
{
    lemma_keyword_words();
    if k == TokenKindView::Kriya {
        let w = "क्रिया"@;
        assert(w.len() == 6);
        assert(w[0] == '\u{915}');
        assert(w[1] == '\u{94D}');
        assert(w[2] == '\u{930}');
        assert(w[3] == '\u{93F}');
        assert(w[4] == '\u{92F}');
        assert(w[5] == '\u{93E}');
    } else if k == TokenKindView::Mana {
        let w = "मान"@;
        assert(w.len() == 3);
        assert(w[0] == '\u{92E}');
        assert(w[1] == '\u{93E}');
        assert(w[2] == '\u{928}');
    } else if k == TokenKindView::Vikarya {
        let w = "विकार्य"@;
        assert(w.len() == 7);
        assert(w[0] == '\u{935}');
        assert(w[1] == '\u{93F}');
        assert(w[2] == '\u{915}');
        assert(w[3] == '\u{93E}');
        assert(w[4] == '\u{930}');
        assert(w[5] == '\u{94D}');
        assert(w[6] == '\u{92F}');
    } else if k == TokenKindView::Sthira {
        let w = "स्थिर"@;
        assert(w.len() == 5);
        assert(w[0] == '\u{938}');
        assert(w[1] == '\u{94D}');
        assert(w[2] == '\u{925}');
        assert(w[3] == '\u{93F}');
        assert(w[4] == '\u{930}');
    } else if k == TokenKindView::Samracana {
        let w = "संरचना"@;
        assert(w.len() == 6);
        assert(w[0] == '\u{938}');
        assert(w[1] == '\u{902}');
        assert(w[2] == '\u{930}');
        assert(w[3] == '\u{91A}');
        assert(w[4] == '\u{928}');
        assert(w[5] == '\u{93E}');
    } else if k == TokenKindView::Vikalpa {
        let w = "विकल्प"@;
        assert(w.len() == 6);
        assert(w[0] == '\u{935}');
        assert(w[1] == '\u{93F}');
        assert(w[2] == '\u{915}');
        assert(w[3] == '\u{932}');
        assert(w[4] == '\u{94D}');
        assert(w[5] == '\u{92A}');
    } else if k == TokenKindView::Guna {
        let w = "गुण"@;
        assert(w.len() == 3);
        assert(w[0] == '\u{917}');
        assert(w[1] == '\u{941}');
        assert(w[2] == '\u{923}');
    } else if k == TokenKindView::Vidhana {
        let w = "विधान"@;
        assert(w.len() == 5);
        assert(w[0] == '\u{935}');
        assert(w[1] == '\u{93F}');
        assert(w[2] == '\u{927}');
        assert(w[3] == '\u{93E}');
        assert(w[4] == '\u{928}');
    } else if k == TokenKindView::Yadi {
        let w = "यदि"@;
        assert(w.len() == 3);
        assert(w[0] == '\u{92F}');
        assert(w[1] == '\u{926}');
        assert(w[2] == '\u{93F}');
    } else if k == TokenKindView::Anyatha {
        let w = "अन्यथा"@;
        assert(w.len() == 6);
        assert(w[0] == '\u{905}');
        assert(w[1] == '\u{928}');
        assert(w[2] == '\u{94D}');
        assert(w[3] == '\u{92F}');
        assert(w[4] == '\u{925}');
        assert(w[5] == '\u{93E}');
    } else if k == TokenKindView::AnyathaYadi {
        let w = "अन्यथायदि"@;
        assert(w.len() == 9);
        assert(w[0] == '\u{905}');
        assert(w[1] == '\u{928}');
        assert(w[2] == '\u{94D}');
        assert(w[3] == '\u{92F}');
        assert(w[4] == '\u{925}');
        assert(w[5] == '\u{93E}');
        assert(w[6] == '\u{92F}');
        assert(w[7] == '\u{926}');
        assert(w[8] == '\u{93F}');
    } else if k == TokenKindView::Yavat {
        let w = "यावत्"@;
        assert(w.len() == 5);
        assert(w[0] == '\u{92F}');
        assert(w[1] == '\u{93E}');
        assert(w[2] == '\u{935}');
        assert(w[3] == '\u{924}');
        assert(w[4] == '\u{94D}');
    } else if k == TokenKindView::Pratyeka {
        let w = "प्रत्येक"@;
        assert(w.len() == 8);
        assert(w[0] == '\u{92A}');
        assert(w[1] == '\u{94D}');
        assert(w[2] == '\u{930}');
        assert(w[3] == '\u{924}');
        assert(w[4] == '\u{94D}');
        assert(w[5] == '\u{92F}');
        assert(w[6] == '\u{947}');
        assert(w[7] == '\u{915}');
    } else if k == TokenKindView::Iti {
        let w = "इति"@;
        assert(w.len() == 3);
        assert(w[0] == '\u{907}');
        assert(w[1] == '\u{924}');
        assert(w[2] == '\u{93F}');
    } else if k == TokenKindView::Prati {
        let w = "प्रति"@;
        assert(w.len() == 5);
        assert(w[0] == '\u{92A}');
        assert(w[1] == '\u{94D}');
        assert(w[2] == '\u{930}');
        assert(w[3] == '\u{924}');
        assert(w[4] == '\u{93F}');
    } else if k == TokenKindView::Bhanga {
        let w = "भङ्ग"@;
        assert(w.len() == 4);
        assert(w[0] == '\u{92D}');
        assert(w[1] == '\u{919}');
        assert(w[2] == '\u{94D}');
        assert(w[3] == '\u{917}');
    } else if k == TokenKindView::Anuvrtta {
        let w = "अनुवृत्त"@;
        assert(w.len() == 8);
        assert(w[0] == '\u{905}');
        assert(w[1] == '\u{928}');
        assert(w[2] == '\u{941}');
        assert(w[3] == '\u{935}');
        assert(w[4] == '\u{943}');
        assert(w[5] == '\u{924}');
        assert(w[6] == '\u{94D}');
        assert(w[7] == '\u{924}');
    } else if k == TokenKindView::Rna {
        let w = "ऋण"@;
        assert(w.len() == 2);
        assert(w[0] == '\u{90B}');
        assert(w[1] == '\u{923}');
    } else if k == TokenKindView::CalaRna {
        let w = "चलऋण"@;
        assert(w.len() == 4);
        assert(w[0] == '\u{91A}');
        assert(w[1] == '\u{932}');
        assert(w[2] == '\u{90B}');
        assert(w[3] == '\u{923}');
    } else if k == TokenKindView::Satyam {
        let w = "सत्यम्"@;
        assert(w.len() == 6);
        assert(w[0] == '\u{938}');
        assert(w[1] == '\u{924}');
        assert(w[2] == '\u{94D}');
        assert(w[3] == '\u{92F}');
        assert(w[4] == '\u{92E}');
        assert(w[5] == '\u{94D}');
    } else if k == TokenKindView::Mithya {
        let w = "मिथ्या"@;
        assert(w.len() == 6);
        assert(w[0] == '\u{92E}');
        assert(w[1] == '\u{93F}');
        assert(w[2] == '\u{925}');
        assert(w[3] == '\u{94D}');
        assert(w[4] == '\u{92F}');
        assert(w[5] == '\u{93E}');
    }
}

} // verus!
