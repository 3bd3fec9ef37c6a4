use sankode::ast::{ExprKind, Statement, TopLevelItem, TypeAnnotation};
use sankode::grammar::ParseError;
use sankode::lexer::Lexer;
use sankode::parser::Parser;

fn parse(code: &str) -> Result<sankode::ast::Program, ParseError> {
    let mut lexer = Lexer::new(code);
    let tokens = lexer.tokenize().unwrap();
    let mut parser = Parser::new(tokens);
    parser.parse_program()
}

#[test]
fn test_parse_hello_world() {
    let code = r#"
क्रिया मुख्य() -> रिक्त
    मुद्रय("नमस्ते जगत्!")।
    मान गणना = १०।
    मुद्रय("गणना = ", गणना)।
इति
"#;
    let mut lexer = Lexer::new(code);
    let tokens = lexer.tokenize().unwrap();
    let mut parser = Parser::new(tokens);
    let program = parser.parse_program().unwrap();

    assert_eq!(program.items.len(), 1);
    match &program.items[0] {
        TopLevelItem::Function(f) => {
            assert_eq!(f.name, "मुख्य");
            assert_eq!(f.body.len(), 3);
        }
        _ => panic!("Expected function"),
    }
}

#[test]
fn test_parse_struct_and_methods() {
    let code = r#"
संरचना बिन्दु
    क्ष: अंश६४।
    य: अंश६४।
इति

विधान बिन्दु
    क्रिया दूरता(स्व) -> अंश६४
        प्रति स्व.क्ष + स्व.य।
    इति
इति

क्रिया मुख्य() -> रिक्त
    मान विकार्य ब = बिन्दु(क्ष: ३.०, य: ४.०)।
    मान द = ब.दूरता()।
    ब.क्ष = ५.०।
इति
"#;
    let mut lexer = Lexer::new(code);
    let tokens = lexer.tokenize().unwrap();
    let mut parser = Parser::new(tokens);
    let program = parser.parse_program().unwrap();

    assert_eq!(program.items.len(), 3);
    match &program.items[0] {
        TopLevelItem::Struct(s) => {
            assert_eq!(s.name, "बिन्दु");
            assert_eq!(s.fields.len(), 2);
            assert_eq!(s.fields[0].name, "क्ष");
            assert_eq!(s.fields[1].name, "य");
        }
        _ => panic!("Expected struct"),
    }
    match &program.items[1] {
        TopLevelItem::Impl(imp) => {
            assert_eq!(imp.target, "बिन्दु");
            assert_eq!(imp.methods.len(), 1);
            assert_eq!(imp.methods[0].name, "दूरता");
            assert_eq!(imp.methods[0].params[0].name, "स्व");
        }
        _ => panic!("Expected impl block"),
    }
    match &program.items[2] {
        TopLevelItem::Function(f) => {
            assert_eq!(f.name, "मुख्य");
            assert_eq!(f.body.len(), 3);
        }
        _ => panic!("Expected function"),
    }
}

#[test]
fn operator_precedence_and_associativity() {
    let program = parse("मान क = १ - २ - ३ * ४।").unwrap();
    match &program.items[0] {
        TopLevelItem::Statement(Statement::VarDecl { init, .. }) => match &init.kind {
            ExprKind::Binary { left, op, right } => {
                assert_eq!(*op, sankode::ast::BinaryOp::Sub);
                assert!(matches!(left.kind, ExprKind::Binary { op: sankode::ast::BinaryOp::Sub, .. }));
                assert!(matches!(right.kind, ExprKind::Binary { op: sankode::ast::BinaryOp::Mul, .. }));
            }
            _ => panic!("expected a binary expression"),
        },
        _ => panic!("expected a declaration"),
    }
}

#[test]
fn list_types_and_index_assignment() {
    let program = parse("मान विकार्य स: सूची[पूर्ण६४] = [१, २]।\nस[०] = ३।").unwrap();
    match &program.items[0] {
        TopLevelItem::Statement(Statement::VarDecl { type_ann: Some(TypeAnnotation::List(inner)), .. }) => {
            assert_eq!(**inner, TypeAnnotation::Simple("पूर्ण६४".to_string()));
        }
        _ => panic!("expected a list declaration"),
    }
    assert!(matches!(program.items[1], TopLevelItem::Statement(Statement::IndexAssignment { .. })));
}

#[test]
fn missing_danda_is_an_error() {
    match parse("मान क = १") {
        Err(ParseError::UnexpectedToken { expected, .. }) => assert_eq!(expected, "। (Danda terminator)"),
        other => panic!("unexpected: {:?}", other),
    }
}

#[test]
fn bad_expression_is_an_error() {
    assert!(matches!(parse("मान क = ।"), Err(ParseError::InvalidExpression(_))));
}

#[test]
fn struct_literal_needs_field_names() {
    match parse("मान क = बिन्दु(क्ष: १, २)।") {
        Err(ParseError::UnexpectedToken { expected, .. }) => assert_eq!(expected, "क्षेत्र-नाम (Field name)"),
        other => panic!("unexpected: {:?}", other),
    }
}

#[test]
fn parse_expression_alone() {
    let mut lexer = Lexer::new("(१ + २) * ३");
    let tokens = lexer.tokenize().unwrap();
    let mut parser = Parser::new(tokens);
    let e = parser.parse_expression().unwrap();
    assert!(matches!(e.kind, ExprKind::Binary { op: sankode::ast::BinaryOp::Mul, .. }));
}

#[test]
fn else_if_chain_closed_by_one_iti() {
    let code = "मान अङ्क = ७५।\nयदि अङ्क >= ९०\n    मुद्रय(\"उत्कृष्टम् (A)\")।\nअन्यथायदि अङ्क >= ७०\n    मुद्रय(\"प्रथम-श्रेणी (B)\")।\nअन्यथा\n    मुद्रय(\"सामान्यम्\")।\nइति\n";
    let tokens = Lexer::new(code).tokenize().unwrap();
    let program = Parser::new(tokens).parse_program().unwrap();
    assert_eq!(program.items.len(), 2);
    match &program.items[1] {
        TopLevelItem::Statement(Statement::If { then_branch, else_branch: Some(els), .. }) => {
            assert_eq!(then_branch.len(), 1);
            assert_eq!(els.len(), 1);
            match &els[0] {
                Statement::If { then_branch, else_branch: Some(last), .. } => {
                    assert_eq!(then_branch.len(), 1);
                    assert_eq!(last.len(), 1);
                }
                _ => panic!("expected the else-if arm as a nested if"),
            }
        }
        _ => panic!("expected an if statement"),
    }
}

#[test]
fn else_if_without_else() {
    let code = "यदि सत्यम्\n    मुद्रय(\"क\")।\nअन्यथायदि मिथ्या\n    मुद्रय(\"ख\")।\nअन्यथायदि सत्यम्\n    मुद्रय(\"ग\")।\nइति\n";
    let tokens = Lexer::new(code).tokenize().unwrap();
    let program = Parser::new(tokens).parse_program().unwrap();
    assert_eq!(program.items.len(), 1);
    match &program.items[0] {
        TopLevelItem::Statement(Statement::If { else_branch: Some(els), .. }) => match &els[0] {
            Statement::If { else_branch: Some(inner), .. } => match &inner[0] {
                Statement::If { else_branch, .. } => assert!(else_branch.is_none()),
                _ => panic!("expected a third arm"),
            },
            _ => panic!("expected a second arm"),
        },
        _ => panic!("expected an if statement"),
    }
    let bad = "यदि सत्यम्\n    मुद्रय(\"क\")।\nअन्यथायदि मिथ्या\n    मुद्रय(\"ख\")।\n";
    let tokens = Lexer::new(bad).tokenize().unwrap();
    assert!(Parser::new(tokens).parse_program().is_err());
}
