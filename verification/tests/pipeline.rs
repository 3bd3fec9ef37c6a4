use sankode::pipeline::{check_source, CheckOutcome};

#[test]
fn valid_program_passes_every_stage() {
    let code = "क्रिया मुख्य() -> रिक्त\n    मान क = १०।\n    मुद्रय(क)।\nइति\n";
    assert!(matches!(check_source(code), CheckOutcome::Valid));
}

#[test]
fn each_stage_reports_its_error() {
    assert!(matches!(check_source("मान क = $।"), CheckOutcome::LexFailed(_)));
    assert!(matches!(check_source("मान क = १"), CheckOutcome::ParseFailed(_)));
    assert!(matches!(check_source("मान क: सूत्र = १।"), CheckOutcome::TypeFailed(_)));
    assert!(matches!(check_source("मान क = \"अ\"।\nमान ख = क।\nमुद्रय(क)।"), CheckOutcome::BorrowFailed(_)));
}
