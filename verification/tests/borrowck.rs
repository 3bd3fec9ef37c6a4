use sankode::types::Type;
use sankode::borrowck::{BorrowChecker, BorrowError};
use sankode::lexer::Lexer;
use sankode::parser::Parser;
use sankode::typecheck::TypeChecker;

fn program(code: &str) -> sankode::ast::Program {
    let tokens = Lexer::new(code).tokenize().unwrap();
    Parser::new(tokens).parse_program().unwrap()
}

#[test]
fn test_valid_borrowing_program() {
    let code = r#"
क्रिया मुख्य() -> रिक्त
    मान विकार्य क = १०।
    मान ख = ऋण क।
    मुद्रय("मानम् = ", क)।
इति
"#;
    let tokens = Lexer::new(code).tokenize().unwrap();
    let program = Parser::new(tokens).parse_program().unwrap();

    let mut tc = TypeChecker::new();
    tc.check_program(&program).unwrap();

    let mut bc = BorrowChecker::new();
    assert!(bc.check_program(&program).is_ok());
}

#[test]
fn test_detect_use_after_move() {
    let code = r#"
क्रिया मुख्य() -> रिक्त
    मान सूत्र१: सूत्र = "नमस्ते"।
    मान सूत्र२ = सूत्र१।
    मुद्रय(सूत्र१)।
इति
"#;
    let tokens = Lexer::new(code).tokenize().unwrap();
    let program = Parser::new(tokens).parse_program().unwrap();

    let mut bc = BorrowChecker::new();
    let err = bc.check_program(&program).unwrap_err();
    match err {
        BorrowError::UseAfterMove { name, .. } => {
            assert_eq!(name, "सूत्र१");
        }
        _ => panic!("Expected UseAfterMove error"),
    }
}

#[test]
fn test_detect_simultaneous_mutable_and_immutable_borrow() {
    let code = r#"
क्रिया मुख्य() -> रिक्त
    मान विकार्य क = १०।
    मान ख = ऋण क।
    मान ग = चलऋण क।
इति
"#;
    let tokens = Lexer::new(code).tokenize().unwrap();
    let program = Parser::new(tokens).parse_program().unwrap();

    let mut bc = BorrowChecker::new();
    let err = bc.check_program(&program).unwrap_err();
    match err {
        BorrowError::MutBorrowWhileImmutablyBorrowed { name, .. } => {
            assert_eq!(name, "क");
        }
        _ => panic!("Expected MutBorrowWhileImmutablyBorrowed error"),
    }
}

#[test]
fn test_struct_borrowck_ok() {
    let code = r#"
संरचना बिन्दु
    क्ष: अंश६४।
    य: अंश६४।
इति

विधान बिन्दु
    क्रिया दूरता(स्व) -> अंश६४
        प्रति स्व.क्ष + स्व.य।
    इति
इति

क्रिया मुख्य() -> रिक्त
    मान विकार्य ब = बिन्दु(क्ष: ३.०, य: ४.०)।
    मान द = ब.दूरता()।
    ब.क्ष = ५.०।
इति
"#;
    let tokens = Lexer::new(code).tokenize().unwrap();
    let program = Parser::new(tokens).parse_program().unwrap();
    let mut bc = BorrowChecker::new();
    assert!(bc.check_program(&program).is_ok());
}

#[test]
fn test_struct_move_semantics() {
    let code = r#"
संरचना सन्देश
    पाठ: सूत्र।
इति

क्रिया मुख्य() -> रिक्त
    मान स१ = सन्देश(पाठ: "नमस्ते")।
    मान स२ = स१।
    मुद्रय(स१.पाठ)।
इति
"#;
    let tokens = Lexer::new(code).tokenize().unwrap();
    let program = Parser::new(tokens).parse_program().unwrap();
    let mut bc = BorrowChecker::new();
    let err = bc.check_program(&program).unwrap_err();
    match err {
        BorrowError::UseAfterMove { name, .. } => {
            assert_eq!(name, "स१");
        }
        _ => panic!("Expected UseAfterMove error for struct move"),
    }
}

#[test]
fn borrows_of_a_statement_end_with_it() {
    let code = "मान विकार्य क = १०।\nमुद्रय(ऋण क)।\nमान ग = चलऋण क।";
    let mut bc = BorrowChecker::new();
    assert!(bc.check_program(&program(code)).is_ok());
}

#[test]
fn borrow_errors() {
    let mut bc = BorrowChecker::new();
    let code = "मान विकार्य क = १०।\nमान ख = चलऋण क।\nमान ग = चलऋण क।";
    assert!(matches!(bc.check_program(&program(code)), Err(BorrowError::AlreadyMutablyBorrowed { .. })));
    let mut bc = BorrowChecker::new();
    let code = "मान विकार्य क = १०।\nमान ख = चलऋण क।\nमान ग = ऋण क।";
    assert!(matches!(bc.check_program(&program(code)), Err(BorrowError::BorrowWhileMutablyBorrowed { .. })));
    let mut bc = BorrowChecker::new();
    let code = "मान विकार्य क = १०।\nमान ख = ऋण क।\nक = २०।";
    assert!(matches!(bc.check_program(&program(code)), Err(BorrowError::MutateWhileBorrowed { .. })));
    let mut bc = BorrowChecker::new();
    let code = "मान क = \"अ\"।\nमान ख = क।\nमान ग = ऋण क।";
    assert!(matches!(bc.check_program(&program(code)), Err(BorrowError::BorrowMoved { .. })));
}

#[test]
fn borrow_scopes_and_shadowing() {
    let mut bc = BorrowChecker::new();
    let k = "क".to_string();
    bc.define_var(k.clone(), Type::Purna64, false);
    assert_eq!(bc.locate_var(&k), Some((0, 0)));
    bc.enter_scope();
    assert_eq!(bc.locate_var(&k), Some((0, 0)));
    bc.define_var(k.clone(), Type::Sutra, true);
    assert_eq!(bc.locate_var(&k), Some((1, 0)));
    bc.define_var(k.clone(), Type::Dvaidha, false);
    assert_eq!(bc.locate_var(&k), Some((1, 1)));
    bc.exit_scope();
    assert_eq!(bc.locate_var(&k), Some((0, 0)));
    assert_eq!(bc.locate_var(&"ख".to_string()), None);
}

#[test]
fn shared_borrows_may_be_many() {
    let mut bc = BorrowChecker::new();
    let code = "मान विकार्य क = १०।\nमान ख = ऋण क।\nमान ग = ऋण क।\nमुद्रय(क)।";
    assert!(bc.check_program(&program(code)).is_ok());
}

#[test]
fn mutable_borrows_in_separate_statements() {
    let mut bc = BorrowChecker::new();
    let code = "मान विकार्य क = १०।\nचलऋण क।\nचलऋण क।\nऋण क।";
    assert!(bc.check_program(&program(code)).is_ok());
}

#[test]
fn copied_values_are_not_moved() {
    let mut bc = BorrowChecker::new();
    let code = "मान क = १०।\nमान ख = क।\nमुद्रय(क)।";
    assert!(bc.check_program(&program(code)).is_ok());
    let mut bc = BorrowChecker::new();
    let code = "मान क = \"अ\"।\nमान ख = क।\nमुद्रय(क)।";
    assert!(matches!(bc.check_program(&program(code)), Err(BorrowError::UseAfterMove { .. })));
}
