//! Tokens of the Devanagari lexer and the keyword table.
use vstd::prelude::*;
use crate::span::Span;

verus! {

/// The kind of a token. Literal and identifier tokens carry their text.
#[derive(Debug, Clone, PartialEq)]
pub enum TokenKind {
    /// क्रिया (fn)
    Kriya,
    /// मान (let)
    Mana,
    /// विकार्य (mut)
    Vikarya,
    /// स्थिर (const)
    Sthira,
    /// संरचना (struct)
    Samracana,
    /// विकल्प (enum)
    Vikalpa,
    /// गुण (trait)
    Guna,
    /// विधान (impl)
    Vidhana,
    /// यदि (if)
    Yadi,
    /// अन्यथा (else)
    Anyatha,
    /// अन्यथायदि (else if)
    AnyathaYadi,
    /// यावत् (while)
    Yavat,
    /// प्रत्येक (for each)
    Pratyeka,
    /// इति (end of block)
    Iti,
    /// प्रति (return)
    Prati,
    /// भङ्ग (break)
    Bhanga,
    /// अनुवृत्त (continue)
    Anuvrtta,
    /// ऋण (shared borrow)
    Rna,
    /// चलऋण (mutable borrow)
    CalaRna,
    /// सत्यम् (true)
    Satyam,
    /// मिथ्या (false)
    Mithya,
    /// An integer literal: its value and its Devanagari text (e.g. १० and 10).
    DevanagariInteger(i64, String),
    /// A decimal literal, by its Devanagari text (e.g. ३.१४).
    DevanagariFloat(String),
    /// A string literal, escapes resolved.
    StringLiteral(String),
    /// An identifier, in NFKC normal form.
    Identifier(String),
    /// । statement terminator
    Danda,
    /// ॥ section marker
    DoubleDanda,
    /// +
    Plus,
    /// -
    Minus,
    /// *
    Star,
    /// /
    Slash,
    /// %
    Percent,
    /// =
    Equal,
    /// ==
    EqualEqual,
    /// !=
    NotEqual,
    /// <
    Less,
    /// <=
    LessEqual,
    /// >
    Greater,
    /// >=
    GreaterEqual,
    /// ->
    Arrow,
    /// ,
    Comma,
    /// :
    Colon,
    /// .
    Dot,
    /// (
    LParen,
    /// )
    RParen,
    /// [
    LBracket,
    /// ]
    RBracket,
    /// end of input
    Eof,
}

/// A `TokenKind` with its texts taken as character sequences.
pub enum TokenKindView {
    Kriya,
    Mana,
    Vikarya,
    Sthira,
    Samracana,
    Vikalpa,
    Guna,
    Vidhana,
    Yadi,
    Anyatha,
    AnyathaYadi,
    Yavat,
    Pratyeka,
    Iti,
    Prati,
    Bhanga,
    Anuvrtta,
    Rna,
    CalaRna,
    Satyam,
    Mithya,
    DevanagariInteger(i64, Seq<char>),
    DevanagariFloat(Seq<char>),
    StringLiteral(Seq<char>),
    Identifier(Seq<char>),
    Danda,
    DoubleDanda,
    Plus,
    Minus,
    Star,
    Slash,
    Percent,
    Equal,
    EqualEqual,
    NotEqual,
    Less,
    LessEqual,
    Greater,
    GreaterEqual,
    Arrow,
    Comma,
    Colon,
    Dot,
    LParen,
    RParen,
    LBracket,
    RBracket,
    Eof,
}

impl View for TokenKind {
    type V = TokenKindView;

    open spec fn view(&self) -> TokenKindView {
        match self {
            TokenKind::Kriya => TokenKindView::Kriya,
            TokenKind::Mana => TokenKindView::Mana,
            TokenKind::Vikarya => TokenKindView::Vikarya,
            TokenKind::Sthira => TokenKindView::Sthira,
            TokenKind::Samracana => TokenKindView::Samracana,
            TokenKind::Vikalpa => TokenKindView::Vikalpa,
            TokenKind::Guna => TokenKindView::Guna,
            TokenKind::Vidhana => TokenKindView::Vidhana,
            TokenKind::Yadi => TokenKindView::Yadi,
            TokenKind::Anyatha => TokenKindView::Anyatha,
            TokenKind::AnyathaYadi => TokenKindView::AnyathaYadi,
            TokenKind::Yavat => TokenKindView::Yavat,
            TokenKind::Pratyeka => TokenKindView::Pratyeka,
            TokenKind::Iti => TokenKindView::Iti,
            TokenKind::Prati => TokenKindView::Prati,
            TokenKind::Bhanga => TokenKindView::Bhanga,
            TokenKind::Anuvrtta => TokenKindView::Anuvrtta,
            TokenKind::Rna => TokenKindView::Rna,
            TokenKind::CalaRna => TokenKindView::CalaRna,
            TokenKind::Satyam => TokenKindView::Satyam,
            TokenKind::Mithya => TokenKindView::Mithya,
            TokenKind::DevanagariInteger(v, raw) => TokenKindView::DevanagariInteger(*v, raw@),
            TokenKind::DevanagariFloat(raw) => TokenKindView::DevanagariFloat(raw@),
            TokenKind::StringLiteral(s) => TokenKindView::StringLiteral(s@),
            TokenKind::Identifier(s) => TokenKindView::Identifier(s@),
            TokenKind::Danda => TokenKindView::Danda,
            TokenKind::DoubleDanda => TokenKindView::DoubleDanda,
            TokenKind::Plus => TokenKindView::Plus,
            TokenKind::Minus => TokenKindView::Minus,
            TokenKind::Star => TokenKindView::Star,
            TokenKind::Slash => TokenKindView::Slash,
            TokenKind::Percent => TokenKindView::Percent,
            TokenKind::Equal => TokenKindView::Equal,
            TokenKind::EqualEqual => TokenKindView::EqualEqual,
            TokenKind::NotEqual => TokenKindView::NotEqual,
            TokenKind::Less => TokenKindView::Less,
            TokenKind::LessEqual => TokenKindView::LessEqual,
            TokenKind::Greater => TokenKindView::Greater,
            TokenKind::GreaterEqual => TokenKindView::GreaterEqual,
            TokenKind::Arrow => TokenKindView::Arrow,
            TokenKind::Comma => TokenKindView::Comma,
            TokenKind::Colon => TokenKindView::Colon,
            TokenKind::Dot => TokenKindView::Dot,
            TokenKind::LParen => TokenKindView::LParen,
            TokenKind::RParen => TokenKindView::RParen,
            TokenKind::LBracket => TokenKindView::LBracket,
            TokenKind::RBracket => TokenKindView::RBracket,
            TokenKind::Eof => TokenKindView::Eof,
        }
    }
}

/// A token and the region of source it was read from.
#[derive(Debug, Clone, PartialEq)]
pub struct Token {
    pub kind: TokenKind,
    pub span: Span,
}

/// A `Token` with its kind taken by its view.
pub struct TokenView {
    pub kind: TokenKindView,
    pub span: Span,
}

impl View for Token {
    type V = TokenView;

    open spec fn view(&self) -> TokenView {
        TokenView { kind: self.kind@, span: self.span }
    }
}

/// The keyword that the text `s` spells, if any.
pub open spec fn keyword_spec(s: Seq<char>) -> Option<TokenKindView> {
    if s == "क्रिया"@ {
        Some(TokenKindView::Kriya)
    } else if s == "मान"@ {
        Some(TokenKindView::Mana)
    } else if s == "विकार्य"@ {
        Some(TokenKindView::Vikarya)
    } else if s == "स्थिर"@ {
        Some(TokenKindView::Sthira)
    } else if s == "संरचना"@ {
        Some(TokenKindView::Samracana)
    } else if s == "विकल्प"@ {
        Some(TokenKindView::Vikalpa)
    } else if s == "गुण"@ {
        Some(TokenKindView::Guna)
    } else if s == "विधान"@ {
        Some(TokenKindView::Vidhana)
    } else if s == "यदि"@ {
        Some(TokenKindView::Yadi)
    } else if s == "अन्यथा"@ {
        Some(TokenKindView::Anyatha)
    } else if s == "अन्यथायदि"@ {
        Some(TokenKindView::AnyathaYadi)
    } else if s == "यावत्"@ {
        Some(TokenKindView::Yavat)
    } else if s == "प्रत्येक"@ {
        Some(TokenKindView::Pratyeka)
    } else if s == "इति"@ {
        Some(TokenKindView::Iti)
    } else if s == "प्रति"@ {
        Some(TokenKindView::Prati)
    } else if s == "भङ्ग"@ {
        Some(TokenKindView::Bhanga)
    } else if s == "अनुवृत्त"@ {
        Some(TokenKindView::Anuvrtta)
    } else if s == "ऋण"@ {
        Some(TokenKindView::Rna)
    } else if s == "चलऋण"@ {
        Some(TokenKindView::CalaRna)
    } else if s == "सत्यम्"@ {
        Some(TokenKindView::Satyam)
    } else if s == "मिथ्या"@ {
        Some(TokenKindView::Mithya)
    } else {
        None
    }
}

impl TokenKind {
    /// Maps a Sanskrit keyword to its token kind.
    pub fn from_keyword(s: &str) -> (r: Option<TokenKind>)
        ensures
            r matches Some(k) ==> keyword_spec(s@) == Some(k@),
            r is None ==> keyword_spec(s@) is None,
    {
        let w = String::from_str(s);
        if w == String::from_str("क्रिया") {
            return Some(TokenKind::Kriya);
        }
        if w == String::from_str("मान") {
            return Some(TokenKind::Mana);
        }
        if w == String::from_str("विकार्य") {
            return Some(TokenKind::Vikarya);
        }
        if w == String::from_str("स्थिर") {
            return Some(TokenKind::Sthira);
        }
        if w == String::from_str("संरचना") {
            return Some(TokenKind::Samracana);
        }
        if w == String::from_str("विकल्प") {
            return Some(TokenKind::Vikalpa);
        }
        if w == String::from_str("गुण") {
            return Some(TokenKind::Guna);
        }
        if w == String::from_str("विधान") {
            return Some(TokenKind::Vidhana);
        }
        if w == String::from_str("यदि") {
            return Some(TokenKind::Yadi);
        }
        if w == String::from_str("अन्यथा") {
            return Some(TokenKind::Anyatha);
        }
        if w == String::from_str("अन्यथायदि") {
            return Some(TokenKind::AnyathaYadi);
        }
        if w == String::from_str("यावत्") {
            return Some(TokenKind::Yavat);
        }
        if w == String::from_str("प्रत्येक") {
            return Some(TokenKind::Pratyeka);
        }
        if w == String::from_str("इति") {
            return Some(TokenKind::Iti);
        }
        if w == String::from_str("प्रति") {
            return Some(TokenKind::Prati);
        }
        if w == String::from_str("भङ्ग") {
            return Some(TokenKind::Bhanga);
        }
        if w == String::from_str("अनुवृत्त") {
            return Some(TokenKind::Anuvrtta);
        }
        if w == String::from_str("ऋण") {
            return Some(TokenKind::Rna);
        }
        if w == String::from_str("चलऋण") {
            return Some(TokenKind::CalaRna);
        }
        if w == String::from_str("सत्यम्") {
            return Some(TokenKind::Satyam);
        }
        if w == String::from_str("मिथ्या") {
            return Some(TokenKind::Mithya);
        }
        None
    }

    /// A copy of this kind.
    pub fn duplicate(&self) -> (r: TokenKind)
        ensures
            r@ == self@,
    {
        match self {
            TokenKind::Kriya => TokenKind::Kriya,
            TokenKind::Mana => TokenKind::Mana,
            TokenKind::Vikarya => TokenKind::Vikarya,
            TokenKind::Sthira => TokenKind::Sthira,
            TokenKind::Samracana => TokenKind::Samracana,
            TokenKind::Vikalpa => TokenKind::Vikalpa,
            TokenKind::Guna => TokenKind::Guna,
            TokenKind::Vidhana => TokenKind::Vidhana,
            TokenKind::Yadi => TokenKind::Yadi,
            TokenKind::Anyatha => TokenKind::Anyatha,
            TokenKind::AnyathaYadi => TokenKind::AnyathaYadi,
            TokenKind::Yavat => TokenKind::Yavat,
            TokenKind::Pratyeka => TokenKind::Pratyeka,
            TokenKind::Iti => TokenKind::Iti,
            TokenKind::Prati => TokenKind::Prati,
            TokenKind::Bhanga => TokenKind::Bhanga,
            TokenKind::Anuvrtta => TokenKind::Anuvrtta,
            TokenKind::Rna => TokenKind::Rna,
            TokenKind::CalaRna => TokenKind::CalaRna,
            TokenKind::Satyam => TokenKind::Satyam,
            TokenKind::Mithya => TokenKind::Mithya,
            TokenKind::Danda => TokenKind::Danda,
            TokenKind::DoubleDanda => TokenKind::DoubleDanda,
            TokenKind::Plus => TokenKind::Plus,
            TokenKind::Minus => TokenKind::Minus,
            TokenKind::Star => TokenKind::Star,
            TokenKind::Slash => TokenKind::Slash,
            TokenKind::Percent => TokenKind::Percent,
            TokenKind::Equal => TokenKind::Equal,
            TokenKind::EqualEqual => TokenKind::EqualEqual,
            TokenKind::NotEqual => TokenKind::NotEqual,
            TokenKind::Less => TokenKind::Less,
            TokenKind::LessEqual => TokenKind::LessEqual,
            TokenKind::Greater => TokenKind::Greater,
            TokenKind::GreaterEqual => TokenKind::GreaterEqual,
            TokenKind::Arrow => TokenKind::Arrow,
            TokenKind::Comma => TokenKind::Comma,
            TokenKind::Colon => TokenKind::Colon,
            TokenKind::Dot => TokenKind::Dot,
            TokenKind::LParen => TokenKind::LParen,
            TokenKind::RParen => TokenKind::RParen,
            TokenKind::LBracket => TokenKind::LBracket,
            TokenKind::RBracket => TokenKind::RBracket,
            TokenKind::Eof => TokenKind::Eof,
            TokenKind::DevanagariInteger(v, raw) => TokenKind::DevanagariInteger(*v, raw.clone()),
            TokenKind::DevanagariFloat(raw) => TokenKind::DevanagariFloat(raw.clone()),
            TokenKind::StringLiteral(s) => TokenKind::StringLiteral(s.clone()),
            TokenKind::Identifier(s) => TokenKind::Identifier(s.clone()),
        }
    }

    /// Whether two kinds are the same, texts compared by content.
    #[verifier::rlimit(50)]
    pub fn same_as(&self, other: &TokenKind) -> (r: bool)
        ensures
            r == (self@ == other@),
    {
        match (self, other) {
            (TokenKind::Kriya, TokenKind::Kriya) => true,
            (TokenKind::Mana, TokenKind::Mana) => true,
            (TokenKind::Vikarya, TokenKind::Vikarya) => true,
            (TokenKind::Sthira, TokenKind::Sthira) => true,
            (TokenKind::Samracana, TokenKind::Samracana) => true,
            (TokenKind::Vikalpa, TokenKind::Vikalpa) => true,
            (TokenKind::Guna, TokenKind::Guna) => true,
            (TokenKind::Vidhana, TokenKind::Vidhana) => true,
            (TokenKind::Yadi, TokenKind::Yadi) => true,
            (TokenKind::Anyatha, TokenKind::Anyatha) => true,
            (TokenKind::AnyathaYadi, TokenKind::AnyathaYadi) => true,
            (TokenKind::Yavat, TokenKind::Yavat) => true,
            (TokenKind::Pratyeka, TokenKind::Pratyeka) => true,
            (TokenKind::Iti, TokenKind::Iti) => true,
            (TokenKind::Prati, TokenKind::Prati) => true,
            (TokenKind::Bhanga, TokenKind::Bhanga) => true,
            (TokenKind::Anuvrtta, TokenKind::Anuvrtta) => true,
            (TokenKind::Rna, TokenKind::Rna) => true,
            (TokenKind::CalaRna, TokenKind::CalaRna) => true,
            (TokenKind::Satyam, TokenKind::Satyam) => true,
            (TokenKind::Mithya, TokenKind::Mithya) => true,
            (TokenKind::Danda, TokenKind::Danda) => true,
            (TokenKind::DoubleDanda, TokenKind::DoubleDanda) => true,
            (TokenKind::Plus, TokenKind::Plus) => true,
            (TokenKind::Minus, TokenKind::Minus) => true,
            (TokenKind::Star, TokenKind::Star) => true,
            (TokenKind::Slash, TokenKind::Slash) => true,
            (TokenKind::Percent, TokenKind::Percent) => true,
            (TokenKind::Equal, TokenKind::Equal) => true,
            (TokenKind::EqualEqual, TokenKind::EqualEqual) => true,
            (TokenKind::NotEqual, TokenKind::NotEqual) => true,
            (TokenKind::Less, TokenKind::Less) => true,
            (TokenKind::LessEqual, TokenKind::LessEqual) => true,
            (TokenKind::Greater, TokenKind::Greater) => true,
            (TokenKind::GreaterEqual, TokenKind::GreaterEqual) => true,
            (TokenKind::Arrow, TokenKind::Arrow) => true,
            (TokenKind::Comma, TokenKind::Comma) => true,
            (TokenKind::Colon, TokenKind::Colon) => true,
            (TokenKind::Dot, TokenKind::Dot) => true,
            (TokenKind::LParen, TokenKind::LParen) => true,
            (TokenKind::RParen, TokenKind::RParen) => true,
            (TokenKind::LBracket, TokenKind::LBracket) => true,
            (TokenKind::RBracket, TokenKind::RBracket) => true,
            (TokenKind::Eof, TokenKind::Eof) => true,
            (TokenKind::DevanagariInteger(a, ra), TokenKind::DevanagariInteger(b, rb)) => *a == *b && *ra == *rb,
            (TokenKind::DevanagariFloat(ra), TokenKind::DevanagariFloat(rb)) => *ra == *rb,
            (TokenKind::StringLiteral(a), TokenKind::StringLiteral(b)) => *a == *b,
            (TokenKind::Identifier(a), TokenKind::Identifier(b)) => *a == *b,
            _ => false,
        }
    }
}

impl Token {
    /// A copy of this token.
    pub fn duplicate(&self) -> (r: Token)
        ensures
            r@ == self@,
    {
        Token { kind: self.kind.duplicate(), span: self.span }
    }
}

} // verus!
