//! The whole front end on a source text: lexing, parsing, type checking and
//! borrow checking, stopping at the first stage that fails.
use vstd::prelude::*;
use vstd::string::StringSliceAdditionalSpecFns;
use crate::token::{Token, TokenKind, TokenKindView, TokenView};
use crate::lexer::{Lexer, LexError, LexErrorView, lex_spec, tokens_view};
use crate::grammar::{ParseError, ParseErrorView, p_program};
use crate::ast::{Program, ProgramView};
use crate::parser::Parser;
use crate::typecheck::{TypeChecker, TypeError, TypeErrorView, tc_program, tc_new};
use crate::borrowck::{BorrowChecker, BorrowError, BorrowErrorView, bc_program, bc_new};

verus! {

/// The verdict on a source text: valid, or the error of the first stage that
/// rejects it.
#[derive(Debug)]
pub enum CheckOutcome {
    Valid,
    LexFailed(LexError),
    ParseFailed(ParseError),
    TypeFailed(TypeError),
    BorrowFailed(BorrowError),
}

pub enum CheckOutcomeView {
    Valid,
    LexFailed(LexErrorView),
    ParseFailed(ParseErrorView),
    TypeFailed(TypeErrorView),
    BorrowFailed(BorrowErrorView),
}

impl View for CheckOutcome {
    type V = CheckOutcomeView;

    open spec fn view(&self) -> CheckOutcomeView {
        match self {
            CheckOutcome::Valid => CheckOutcomeView::Valid,
            CheckOutcome::LexFailed(e) => CheckOutcomeView::LexFailed(e@),
            CheckOutcome::ParseFailed(e) => CheckOutcomeView::ParseFailed(e@),
            CheckOutcome::TypeFailed(e) => CheckOutcomeView::TypeFailed(e@),
            CheckOutcome::BorrowFailed(e) => CheckOutcomeView::BorrowFailed(e@),
        }
    }
}

/// Tokens that end with `Eof`, as the parser needs them.
pub open spec fn eof_terminated(ts: Seq<TokenView>) -> bool {
    ts.len() > 0 && ts[ts.len() - 1].kind == TokenKindView::Eof
}

/// The checks of a program tree: types first, then ownership and borrows, each
/// by a fresh checker.
pub open spec fn check_tree(p: ProgramView) -> CheckOutcomeView {
    match tc_program(tc_new(), p).1 {
        Err(e) => CheckOutcomeView::TypeFailed(e),
        Ok(_) => match bc_program(bc_new(), p).1 {
            Err(e) => CheckOutcomeView::BorrowFailed(e),
            Ok(_) => CheckOutcomeView::Valid,
        },
    }
}

/// The verdict on the characters `cs`. Tokens without a closing `Eof` are
/// taken as input that ended early.
pub open spec fn check_spec(cs: Seq<char>) -> CheckOutcomeView {
    match lex_spec(cs) {
        Err(e) => CheckOutcomeView::LexFailed(e),
        Ok(ts) => if !eof_terminated(ts) {
            CheckOutcomeView::ParseFailed(ParseErrorView::UnexpectedEof)
        } else {
            match p_program(ts, 0) {
                Err(e) => CheckOutcomeView::ParseFailed(e),
                Ok(p) => check_tree(p),
            }
        },
    }
}

/// Type checks and then borrow checks a program tree.
pub fn check_program_tree(program: &Program) -> (r: CheckOutcome)
    ensures
        r@ == check_tree(program@),
{
    let mut tc = TypeChecker::new();
    match tc.check_program(program) {
        Err(e) => {
            return CheckOutcome::TypeFailed(e);
        },
        Ok(_) => {},
    }
    let mut bc = BorrowChecker::new();
    match bc.check_program(program) {
        Err(e) => CheckOutcome::BorrowFailed(e),
        Ok(_) => CheckOutcome::Valid,
    }
}

/// Lexes and parses a source text.
pub fn parse_source(code: &str) -> (r: Result<Program, CheckOutcome>)
    requires
        code.spec_bytes().len() < usize::MAX,
    ensures
        match r {
            Ok(p) => lex_spec(code@) matches Ok(ts) && eof_terminated(ts) && p_program(ts, 0) == Ok::<ProgramView, ParseErrorView>(p@),
            Err(o) => check_spec(code@) == o@ && !(o@ is Valid) && !(o@ is TypeFailed) && !(o@ is BorrowFailed),
        },
{
    let mut lexer = Lexer::new(code);
    let tokens = match lexer.tokenize() {
        Ok(t) => t,
        Err(e) => {
            return Err(CheckOutcome::LexFailed(e));
        },
    };
    let n = tokens.len();
    let terminated = n > 0 && match &tokens[n - 1].kind {
        TokenKind::Eof => true,
        _ => false,
    };
    if !terminated {
        return Err(CheckOutcome::ParseFailed(ParseError::UnexpectedEof));
    }
    let mut parser = Parser::new(tokens);
    match parser.parse_program() {
        Ok(p) => Ok(p),
        Err(e) => Err(CheckOutcome::ParseFailed(e)),
    }
}

/// The verdict on a source text: lexed, parsed, type checked and borrow
/// checked in turn.
pub fn check_source(code: &str) -> (r: CheckOutcome)
    requires
        code.spec_bytes().len() < usize::MAX,
    ensures
        r@ == check_spec(code@),
{
    match parse_source(code) {
        Err(o) => o,
        Ok(p) => check_program_tree(&p),
    }
}

} // verus!
