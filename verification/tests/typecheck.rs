use sankode::span::Span;
use sankode::lexer::Lexer;
use sankode::parser::Parser;
use sankode::typecheck::{TypeChecker, TypeError};
use sankode::types::Type;
use sankode::ast::TypeAnnotation;

fn program(code: &str) -> sankode::ast::Program {
    let tokens = Lexer::new(code).tokenize().unwrap();
    Parser::new(tokens).parse_program().unwrap()
}

#[test]
fn test_valid_types() {
    let code = r#"
क्रिया फिबोनाची(संख्या: पूर्ण६४) -> पूर्ण६४
    यदि संख्या <= १
        प्रति संख्या।
    इति
    प्रति फिबोनाची(संख्या - १) + फिबोनाची(संख्या - २)।
इति

क्रिया मुख्य() -> रिक्त
    मान परिणाम: पूर्ण६४ = फिबोनाची(१०)।
    मुद्रय("परिणाम = ", परिणाम)।
इति
"#;
    let tokens = Lexer::new(code).tokenize().unwrap();
    let program = Parser::new(tokens).parse_program().unwrap();
    let mut checker = TypeChecker::new();
    assert!(checker.check_program(&program).is_ok());
}

#[test]
fn test_type_mismatch_detected() {
    let code = r#"
क्रिया मुख्य() -> रिक्त
    मान क: पूर्ण६४ = "सङ्केतः"।
इति
"#;
    let tokens = Lexer::new(code).tokenize().unwrap();
    let program = Parser::new(tokens).parse_program().unwrap();
    let mut checker = TypeChecker::new();
    let err = checker.check_program(&program).unwrap_err();
    match err {
        TypeError::Mismatch { expected, found, .. } => {
            assert_eq!(expected, "पूर्ण६४");
            assert_eq!(found, "सूत्र");
        }
        _ => panic!("Expected TypeMismatch error"),
    }
}

#[test]
fn test_cannot_mutate_immutable() {
    let code = r#"
क्रिया मुख्य() -> रिक्त
    मान क = १०।
    क = २०।
इति
"#;
    let tokens = Lexer::new(code).tokenize().unwrap();
    let program = Parser::new(tokens).parse_program().unwrap();
    let mut checker = TypeChecker::new();
    let err = checker.check_program(&program).unwrap_err();
    match err {
        TypeError::CannotMutateImmutable { name, .. } => {
            assert_eq!(name, "क");
        }
        _ => panic!("Expected CannotMutateImmutable error"),
    }
}

#[test]
fn test_struct_typecheck() {
    let code = r#"
संरचना बिन्दु
    क्ष: अंश६४।
    य: अंश६४।
इति

विधान बिन्दु
    क्रिया दूरता(स्व) -> अंश६४
        प्रति स्व.क्ष + स्व.य।
    इति

    क्रिया स्थानान्तरय(चलऋण स्व, अक्ष: अंश६४, अय: अंश६४) -> रिक्त
        स्व.क्ष = स्व.क्ष + अक्ष।
        स्व.य = स्व.य + अय।
    इति
इति

क्रिया मुख्य() -> रिक्त
    मान विकार्य ब = बिन्दु(क्ष: ३.०, य: ४.०)।
    मान द: अंश६४ = ब.दूरता()।
    ब.स्थानान्तरय(१.०, २.०)।
    ब.क्ष = ५.०।
इति
"#;
    let tokens = Lexer::new(code).tokenize().unwrap();
    let program = Parser::new(tokens).parse_program().unwrap();
    let mut checker = TypeChecker::new();
    assert!(checker.check_program(&program).is_ok());
}

#[test]
fn test_array_and_indexing_typecheck() {
    let code = r#"
क्रिया मुख्य() -> रिक्त
    मान विकार्य सारणी = [१०, २०, ३०]।
    मान प्रथम: पूर्ण६४ = सारणी[०]।
    सारणी[१] = ५०।
    मान आकार: पूर्ण६४ = सूची_दैर्घ्यम्(सारणी)।
    सूची_संयोजय(सारणी, १००)।
    मान नूतना: सूची = सूची_सृज(१०, ०)।
    मान वाक्य: सूत्र = "नमस्ते"।
    मान दैर्घ्य: पूर्ण६४ = सूत्र_दैर्घ्यम्(वाक्य)।
    मान वर्णः: सूत्र = सूत्र_वर्ण(वाक्य, ०)।
    मान घा: अंश६४ = घाताङ्क(१.०)।
    मान लॉ: अंश६४ = लॉग(२.०)।
इति
"#;
    let tokens = Lexer::new(code).tokenize().unwrap();
    let program = Parser::new(tokens).parse_program().unwrap();
    let mut checker = TypeChecker::new();
    assert!(checker.check_program(&program).is_ok());
}

#[test]
fn test_file_io_and_string_utils_typecheck() {
    let code = r#"
क्रिया मुख्य() -> रिक्त
    संचिका_लेख("परीक्षण.पाठ", "नमस्ते जगत्")।
    मान अस्ति: द्वैध = संचिका_विद्यते("परीक्षण.पाठ")।
    मान पाठ: सूत्र = संचिका_पठ("परीक्षण.पाठ")।
    मान भागाः: सूची = सूत्र_विभाजय(पाठ, " ")।
    मान संयुक्तम्: सूत्र = सूची_संयोग(भागाः, "-")।
    मान संख्या: अंश६४ = संख्या_पाठ("१२.३४")।
    मान सं_सूत्र: सूत्र = सूत्र_रूप(संख्या)।
इति
"#;
    let tokens = Lexer::new(code).tokenize().unwrap();
    let program = Parser::new(tokens).parse_program().unwrap();
    let mut checker = TypeChecker::new();
    assert!(checker.check_program(&program).is_ok());
}

#[test]
fn undefined_names() {
    let mut c = TypeChecker::new();
    assert!(matches!(c.check_program(&program("मुद्रय(क)।")), Err(TypeError::UndefinedVar { .. })));
    let mut c = TypeChecker::new();
    assert!(matches!(c.check_program(&program("अज्ञात(१)।")), Err(TypeError::UndefinedFunc { .. })));
    let mut c = TypeChecker::new();
    assert!(matches!(c.check_program(&program("मान स = बिन्दु(क्ष: १)।")), Err(TypeError::UndefinedStruct { .. })));
}

#[test]
fn argument_count_and_fields() {
    let mut c = TypeChecker::new();
    match c.check_program(&program("लॉग(१.०, २.०)।")) {
        Err(TypeError::ArgCountMismatch { expected, found, .. }) => {
            assert_eq!(expected, 1);
            assert_eq!(found, 2);
        }
        other => panic!("unexpected: {:?}", other),
    }
    let code = "संरचना ब\n क: पूर्ण६४।\n ख: पूर्ण६४।\nइति\nमान स = ब(क: १)।";
    let mut c = TypeChecker::new();
    match c.check_program(&program(code)) {
        Err(TypeError::MissingStructField { field, .. }) => assert_eq!(field, "ख"),
        other => panic!("unexpected: {:?}", other),
    }
    let code = "संरचना ब\n क: पूर्ण६४।\nइति\nमान स = ब(क: १)।\nमुद्रय(स.ग)।";
    let mut c = TypeChecker::new();
    assert!(matches!(c.check_program(&program(code)), Err(TypeError::UndefinedField { .. })));
    let code = "संरचना ब\n क: पूर्ण६४।\nइति\nमान स = ब(क: १)।\nस.ग()।";
    let mut c = TypeChecker::new();
    assert!(matches!(c.check_program(&program(code)), Err(TypeError::UndefinedMethod { .. })));
}

#[test]
fn binary_mismatch_message() {
    let mut c = TypeChecker::new();
    match c.check_program(&program("मान क = १ - \"अ\"।")) {
        Err(TypeError::Mismatch { expected, found, .. }) => {
            assert_eq!(expected, "समाना संख्या (Compatible numbers), किन्तु 'पूर्ण६४' एवं 'सूत्र'");
            assert_eq!(found, "पूर्ण६४ Sub");
        }
        other => panic!("unexpected: {:?}", other),
    }
}

#[test]
fn types_of_annotations() {
    assert!(Type::from_annotation(&TypeAnnotation::Simple("पूर्ण".to_string())).same(&Type::Purna64));
    assert!(Type::from_annotation(&TypeAnnotation::Simple("सूची".to_string())).same(&Type::SoochiAny));
    let r = Type::from_annotation(&TypeAnnotation::Reference(Box::new(TypeAnnotation::Simple("सूत्र".to_string()))));
    assert_eq!(r.name(), "ऋण सूत्र");
    assert!(r.is_copy());
    assert!(!Type::Sutra.is_copy());
    assert!(!Type::from_annotation(&TypeAnnotation::Simple("बिन्दु".to_string())).is_copy());
}

#[test]
fn check_expr_leaves_the_checker_unchanged() {
    let mut lexer = Lexer::new("१ + २");
    let tokens = lexer.tokenize().unwrap();
    let e = Parser::new(tokens).parse_expression().unwrap();
    let mut c = TypeChecker::new();
    assert!(c.check_expr(&e).unwrap().same(&Type::Purna64));
}

#[test]
fn type_scopes_and_shadowing() {
    let mut c = TypeChecker::new();
    let k = "क".to_string();
    let sp = Span::new(0, 0, 1, 1);
    c.define_var(k.clone(), Type::Purna64, false, sp);
    c.enter_scope();
    c.define_var(k.clone(), Type::Sutra, true, sp);
    let v = c.lookup_var(&k).unwrap();
    assert!(v.ty.same(&Type::Sutra));
    assert!(v.is_mut);
    c.exit_scope();
    let v = c.lookup_var(&k).unwrap();
    assert!(v.ty.same(&Type::Purna64));
    assert!(!v.is_mut);
    assert!(c.lookup_var(&"ख".to_string()).is_none());
}

#[test]
fn mutable_variable_takes_assignment() {
    let mut c = TypeChecker::new();
    assert!(c.check_program(&program("मान विकार्य क = १०।\nक = २०।")).is_ok());
    let mut c = TypeChecker::new();
    assert!(matches!(
        c.check_program(&program("मान क = १०।\nक = २०।")),
        Err(TypeError::CannotMutateImmutable { .. })
    ));
}

#[test]
fn activation_built_ins() {
    let code = "मान क = रेलू(१.५)।\nमान ख = महत्तम(क, २.०)।\nमान ग: अंश६४ = न्यूनतम(ख, ०.५)।";
    let mut c = TypeChecker::new();
    assert!(c.check_program(&program(code)).is_ok());
    let mut c = TypeChecker::new();
    assert!(matches!(c.check_program(&program("मान क = रेलू(१.०, २.०)।")), Err(TypeError::ArgCountMismatch { .. })));
    let mut c = TypeChecker::new();
    assert!(matches!(c.check_program(&program("मान क: पूर्ण६४ = महत्तम(१.०, २.०)।")), Err(TypeError::Mismatch { .. })));
}

#[test]
fn else_if_chain_typechecks() {
    let code = "मान अङ्क = ७५।\nयदि अङ्क >= ९०\n    मुद्रय(\"अ\")।\nअन्यथायदि अङ्क >= ७०\n    मुद्रय(\"ब\")।\nअन्यथा\n    मुद्रय(\"स\")।\nइति\n";
    let mut c = TypeChecker::new();
    assert!(c.check_program(&program(code)).is_ok());
    let mut c = TypeChecker::new();
    assert!(matches!(
        c.check_program(&program("यदि सत्यम्\n    मुद्रय(\"अ\")।\nअन्यथायदि \"स\"\n    मुद्रय(\"ब\")।\nइति\n")),
        Err(TypeError::Mismatch { .. })
    ));
}
