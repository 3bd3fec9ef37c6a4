# Sankode

Sankode (सङ्कोड) is a small programming language written in Devanagari script:
keywords, identifiers and numerals are Devanagari, statements end with a danda
(`।`), and programs are checked for types and for ownership and borrowing
before they run.

This crate is its front end, verified with Verus. Every function in `src/`
states what it computes in its `requires`/`ensures` contract over a
mathematical model, and Verus proves the code against it.

## Layout

- `src/numeral.rs` — Devanagari digits and 64-bit integers in Devanagari numerals.
- `src/lexer.rs`, `src/token.rs`, `src/span.rs` — the lexer and its tokens.
- `src/grammar.rs`, `src/parser*` — the grammar as spec functions and the
  recursive-descent parser proved to follow it.
- `src/types.rs`, `src/typecheck*` — types and the type checker.
- `src/borrowck*` — the ownership and borrow checker, with its laws
  (`borrowck/laws.rs`): no variable is ever borrowed shared and mutably at
  once, moved values cannot be used, borrows of a statement end with it.
- `src/pipeline.rs` — lexing, parsing and both checks in turn.
- `src/ime.rs` — the phonetic (Roman to Devanagari) input method.
- `src/shell.rs`, `src/request.rs` — the decisions of the interactive shells and
  of the studio's HTTP front door.
- `src/report.rs`, `src/runtime.rs` — error messages.
- `app/` — the `sankode` command: file and network I/O, the interactive
  shells' loops, the studio server, and the interpreter (which computes with
  floating-point values).
- `tests/` — tests of the library.
