use sankode::borrowck::BorrowError;
use sankode::lexer::{LexError, Lexer};
use sankode::span::Span;
use sankode::typecheck::TypeError;

#[test]
fn span_shows_line_and_column() {
    assert_eq!(Span::new(0, 0, 0, 0).text(), "0:0");
    assert_eq!(Span::new(5, 9, 1234, 5).text(), "1234:5");
    assert_eq!(Span::new(5, 9, 10, 100).text(), "10:100");
}

#[test]
fn lexer_error_messages() {
    let e = Lexer::new("@").tokenize().unwrap_err();
    assert_eq!(e.message(), "अमान्यः वर्णः (Unexpected character) '@' at 1:1");
    let e = LexError::UnterminatedString(Span::new(0, 3, 2, 7));
    assert_eq!(e.message(), "असमाप्तम् सूत्रम् (Unterminated string literal) at 2:7");
    let e = LexError::InvalidNumber("९९".to_string(), Span::new(0, 3, 1, 1));
    assert_eq!(e.message(), "अमान्या संख्या (Invalid number) '९९' at 1:1");
}

#[test]
fn type_error_messages() {
    let span = Span::new(0, 0, 3, 12);
    let e = TypeError::ArgCountMismatch { expected: 2, found: 10, span };
    assert_eq!(e.message(), "तर्कसंख्यादोषः (Argument count mismatch): अपेक्षिताः 2, किन्तु प्राप्ताः 10 at 3:12");
    let e = TypeError::Mismatch { expected: "पूर्ण६४".to_string(), found: "सूत्र".to_string(), span };
    assert_eq!(e.message(), "प्रकारभेदः (Type mismatch): अपेक्षितः 'पूर्ण६४', किन्तु प्राप्तः 'सूत्र' at 3:12");
    let e = TypeError::UndefinedField { struct_name: "बिन्दु".to_string(), field: "क".to_string(), span };
    assert_eq!(e.message(), "अज्ञातं क्षेत्रम् (Undefined field) 'क' in struct 'बिन्दु' at 3:12");
}

#[test]
fn borrow_error_messages() {
    let e = BorrowError::UseAfterMove { name: "क".to_string(), span: Span::new(0, 0, 4, 2), moved_at: Span::new(0, 0, 3, 9) };
    assert_eq!(
        e.message(),
        "स्वामित्व-दोषः: चरस्य 'क' पूर्वमेव सङ्क्रमणं जातम् (Use after move) at 4:2 (सङ्क्रान्तम् at 3:9)"
    );
    let e = BorrowError::BorrowMoved { name: "ख".to_string(), span: Span::new(0, 0, 1, 1) };
    assert_eq!(e.message(), "ऋण-दोषः: सङ्क्रान्तचरस्य ऋणग्रहणं न शक्यते (Cannot borrow moved variable 'ख') at 1:1");
}
