pub mod text;
pub mod numeral;
pub mod span;
pub mod token;
pub mod token_text;
pub mod ast;
pub mod chars;
pub mod lexer;
pub mod grammar;
pub mod parser;
pub mod ime;
pub mod types;
pub mod typecheck;
pub mod borrowck;
pub mod pipeline;
pub mod runtime;
pub mod shell;
pub mod request;
pub mod report;
