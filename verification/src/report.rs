//! How the front end's errors are reported: the messages of the lexer, the
//! type checker and the borrow checker.
use vstd::prelude::*;
use crate::span::{span_text, decimal, push_decimal};
use crate::text::{push_char, push_str};
use crate::lexer::{LexError, LexErrorView};
use crate::typecheck::{TypeError, TypeErrorView};
use crate::borrowck::{BorrowError, BorrowErrorView};

verus! {

/// The report of a lexer error.
pub open spec fn lex_message(e: LexErrorView) -> Seq<char> {
    match e {
        LexErrorView::UnexpectedChar(c, s) => "अमान्यः वर्णः (Unexpected character) '"@ + seq![c] + "' at "@ + span_text(s),
        LexErrorView::UnterminatedString(s) => "असमाप्तम् सूत्रम् (Unterminated string literal) at "@ + span_text(s),
        LexErrorView::InvalidNumber(n, s) => "अमान्या संख्या (Invalid number) '"@ + n + "' at "@ + span_text(s),
    }
}

impl LexError {
    /// How this error is reported.
    pub fn message(&self) -> (r: String)
        ensures
            r@ == lex_message(self@),
    {
        let r = match self {
            LexError::UnexpectedChar(c, s) => {
                let mut r = String::from_str("अमान्यः वर्णः (Unexpected character) '");
                push_char(&mut r, *c);
                push_str(&mut r, "' at ");
                push_str(&mut r, s.text().as_str());
                r
            },
            LexError::UnterminatedString(s) => {
                let mut r = String::from_str("असमाप्तम् सूत्रम् (Unterminated string literal) at ");
                push_str(&mut r, s.text().as_str());
                r
            },
            LexError::InvalidNumber(n, s) => {
                let mut r = String::from_str("अमान्या संख्या (Invalid number) '");
                push_str(&mut r, n.as_str());
                push_str(&mut r, "' at ");
                push_str(&mut r, s.text().as_str());
                r
            },
        };
        proof {
            assert(r@ =~= lex_message(self@));
        }
        r
    }
}

/// The report of a type error.
pub open spec fn type_message(e: TypeErrorView) -> Seq<char> {
    match e {
        TypeErrorView::Mismatch { expected, found, span } => "प्रकारभेदः (Type mismatch): अपेक्षितः '"@ + expected + "', किन्तु प्राप्तः '"@ + found + "' at "@ + span_text(span),
        TypeErrorView::UndefinedVar { name, span } => "अज्ञातः चरः (Undefined variable) '"@ + name + "' at "@ + span_text(span),
        TypeErrorView::UndefinedFunc { name, span } => "अज्ञाता क्रिया (Undefined function) '"@ + name + "' at "@ + span_text(span),
        TypeErrorView::ArgCountMismatch { expected, found, span } => "तर्कसंख्यादोषः (Argument count mismatch): अपेक्षिताः "@ + decimal(expected as nat) + ", किन्तु प्राप्ताः "@ + decimal(found as nat) + " at "@ + span_text(span),
        TypeErrorView::CannotMutateImmutable { name, span } => "अविकार्यचरस्य परिवर्तनम् अमान्यम् (Cannot mutate immutable variable) '"@ + name + "' at "@ + span_text(span),
        TypeErrorView::UndefinedStruct { name, span } => "अज्ञाता संरचना (Undefined struct) '"@ + name + "' at "@ + span_text(span),
        TypeErrorView::UndefinedField { struct_name, field, span } => "अज्ञातं क्षेत्रम् (Undefined field) '"@ + field + "' in struct '"@ + struct_name + "' at "@ + span_text(span),
        TypeErrorView::UndefinedMethod { struct_name, method, span } => "अज्ञाता विधिः (Undefined method) '"@ + method + "' for struct '"@ + struct_name + "' at "@ + span_text(span),
        TypeErrorView::MissingStructField { struct_name, field, span } => "अनुपस्थितं क्षेत्रम् (Missing field) '"@ + field + "' in struct '"@ + struct_name + "' at "@ + span_text(span),
    }
}

impl TypeError {
    /// How this error is reported.
    pub fn message(&self) -> (r: String)
        ensures
            r@ == type_message(self@),
    {
        let r = match self {
            TypeError::Mismatch { expected, found, span } => {
                let mut r = String::from_str("प्रकारभेदः (Type mismatch): अपेक्षितः '");
                push_str(&mut r, expected.as_str());
                push_str(&mut r, "', किन्तु प्राप्तः '");
                push_str(&mut r, found.as_str());
                push_str(&mut r, "' at ");
                push_str(&mut r, span.text().as_str());
                r
            },
            TypeError::UndefinedVar { name, span } => {
                let mut r = String::from_str("अज्ञातः चरः (Undefined variable) '");
                push_str(&mut r, name.as_str());
                push_str(&mut r, "' at ");
                push_str(&mut r, span.text().as_str());
                r
            },
            TypeError::UndefinedFunc { name, span } => {
                let mut r = String::from_str("अज्ञाता क्रिया (Undefined function) '");
                push_str(&mut r, name.as_str());
                push_str(&mut r, "' at ");
                push_str(&mut r, span.text().as_str());
                r
            },
            TypeError::ArgCountMismatch { expected, found, span } => {
                let mut r = String::from_str("तर्कसंख्यादोषः (Argument count mismatch): अपेक्षिताः ");
                push_decimal(&mut r, *expected);
                push_str(&mut r, ", किन्तु प्राप्ताः ");
                push_decimal(&mut r, *found);
                push_str(&mut r, " at ");
                push_str(&mut r, span.text().as_str());
                r
            },
            TypeError::CannotMutateImmutable { name, span } => {
                let mut r = String::from_str("अविकार्यचरस्य परिवर्तनम् अमान्यम् (Cannot mutate immutable variable) '");
                push_str(&mut r, name.as_str());
                push_str(&mut r, "' at ");
                push_str(&mut r, span.text().as_str());
                r
            },
            TypeError::UndefinedStruct { name, span } => {
                let mut r = String::from_str("अज्ञाता संरचना (Undefined struct) '");
                push_str(&mut r, name.as_str());
                push_str(&mut r, "' at ");
                push_str(&mut r, span.text().as_str());
                r
            },
            TypeError::UndefinedField { struct_name, field, span } => {
                let mut r = String::from_str("अज्ञातं क्षेत्रम् (Undefined field) '");
                push_str(&mut r, field.as_str());
                push_str(&mut r, "' in struct '");
                push_str(&mut r, struct_name.as_str());
                push_str(&mut r, "' at ");
                push_str(&mut r, span.text().as_str());
                r
            },
            TypeError::UndefinedMethod { struct_name, method, span } => {
                let mut r = String::from_str("अज्ञाता विधिः (Undefined method) '");
                push_str(&mut r, method.as_str());
                push_str(&mut r, "' for struct '");
                push_str(&mut r, struct_name.as_str());
                push_str(&mut r, "' at ");
                push_str(&mut r, span.text().as_str());
                r
            },
            TypeError::MissingStructField { struct_name, field, span } => {
                let mut r = String::from_str("अनुपस्थितं क्षेत्रम् (Missing field) '");
                push_str(&mut r, field.as_str());
                push_str(&mut r, "' in struct '");
                push_str(&mut r, struct_name.as_str());
                push_str(&mut r, "' at ");
                push_str(&mut r, span.text().as_str());
                r
            },
        };
        proof {
            assert(r@ =~= type_message(self@));
        }
        r
    }
}

/// The report of a borrow error.
pub open spec fn borrow_message(e: BorrowErrorView) -> Seq<char> {
    match e {
        BorrowErrorView::UseAfterMove { name, span, moved_at } => "स्वामित्व-दोषः: चरस्य '"@ + name + "' पूर्वमेव सङ्क्रमणं जातम् (Use after move) at "@ + span_text(span) + " (सङ्क्रान्तम् at "@ + span_text(moved_at) + ")"@,
        BorrowErrorView::AlreadyMutablyBorrowed { name, span } => "ऋण-दोषः: चरः '"@ + name + "' पूर्वमेव चलऋणेन बद्धः अस्ति (Already mutably borrowed) at "@ + span_text(span),
        BorrowErrorView::MutateWhileBorrowed { name, span } => "ऋण-दोषः: ऋणग्रस्तचरस्य विकारः अमान्यः (Cannot mutate '"@ + name + "' while borrowed) at "@ + span_text(span),
        BorrowErrorView::MutBorrowWhileImmutablyBorrowed { name, span } => "ऋण-दोषः: सामान्यऋणे सति चलऋणं न शक्यते (Cannot borrow '"@ + name + "' as mutable while immutably borrowed) at "@ + span_text(span),
        BorrowErrorView::BorrowWhileMutablyBorrowed { name, span } => "ऋण-दोषः: चलऋणे सति अन्यत् ऋणं न शक्यते (Cannot borrow '"@ + name + "' while already mutably borrowed) at "@ + span_text(span),
        BorrowErrorView::BorrowMoved { name, span } => "ऋण-दोषः: सङ्क्रान्तचरस्य ऋणग्रहणं न शक्यते (Cannot borrow moved variable '"@ + name + "') at "@ + span_text(span),
    }
}

impl BorrowError {
    /// How this error is reported.
    pub fn message(&self) -> (r: String)
        ensures
            r@ == borrow_message(self@),
    {
        let r = match self {
            BorrowError::UseAfterMove { name, span, moved_at } => {
                let mut r = String::from_str("स्वामित्व-दोषः: चरस्य '");
                push_str(&mut r, name.as_str());
                push_str(&mut r, "' पूर्वमेव सङ्क्रमणं जातम् (Use after move) at ");
                push_str(&mut r, span.text().as_str());
                push_str(&mut r, " (सङ्क्रान्तम् at ");
                push_str(&mut r, moved_at.text().as_str());
                push_str(&mut r, ")");
                r
            },
            BorrowError::AlreadyMutablyBorrowed { name, span } => {
                let mut r = String::from_str("ऋण-दोषः: चरः '");
                push_str(&mut r, name.as_str());
                push_str(&mut r, "' पूर्वमेव चलऋणेन बद्धः अस्ति (Already mutably borrowed) at ");
                push_str(&mut r, span.text().as_str());
                r
            },
            BorrowError::MutateWhileBorrowed { name, span } => {
                let mut r = String::from_str("ऋण-दोषः: ऋणग्रस्तचरस्य विकारः अमान्यः (Cannot mutate '");
                push_str(&mut r, name.as_str());
                push_str(&mut r, "' while borrowed) at ");
                push_str(&mut r, span.text().as_str());
                r
            },
            BorrowError::MutBorrowWhileImmutablyBorrowed { name, span } => {
                let mut r = String::from_str("ऋण-दोषः: सामान्यऋणे सति चलऋणं न शक्यते (Cannot borrow '");
                push_str(&mut r, name.as_str());
                push_str(&mut r, "' as mutable while immutably borrowed) at ");
                push_str(&mut r, span.text().as_str());
                r
            },
            BorrowError::BorrowWhileMutablyBorrowed { name, span } => {
                let mut r = String::from_str("ऋण-दोषः: चलऋणे सति अन्यत् ऋणं न शक्यते (Cannot borrow '");
                push_str(&mut r, name.as_str());
                push_str(&mut r, "' while already mutably borrowed) at ");
                push_str(&mut r, span.text().as_str());
                r
            },
            BorrowError::BorrowMoved { name, span } => {
                let mut r = String::from_str("ऋण-दोषः: सङ्क्रान्तचरस्य ऋणग्रहणं न शक्यते (Cannot borrow moved variable '");
                push_str(&mut r, name.as_str());
                push_str(&mut r, "') at ");
                push_str(&mut r, span.text().as_str());
                r
            },
        };
        proof {
            assert(r@ =~= borrow_message(self@));
        }
        r
    }
}

} // verus!
