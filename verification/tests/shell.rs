use sankode::ime::Transliterator;
use sankode::shell::{repl_line, script_line, trim_text, ShellAction};

#[test]
fn trimming_uses_unicode_whitespace() {
    assert_eq!(trim_text("\u{3000} अ ब\t\n"), "अ ब");
    assert_eq!(trim_text("   "), "");
    assert_eq!(trim_text("x"), "x");
}

#[test]
fn repl_quits_and_skips() {
    assert_eq!(repl_line("  विराम "), ShellAction::Quit);
    assert_eq!(repl_line("exit"), ShellAction::Quit);
    assert_eq!(repl_line("quit\n"), ShellAction::Quit);
    assert_eq!(repl_line(" \t "), ShellAction::Skip);
}

#[test]
fn repl_wraps_statements_in_main() {
    assert_eq!(
        repl_line(" मुद्रय(१)। "),
        ShellAction::Run("क्रिया मुख्य() -> रिक्त\nमुद्रय(१)।\nइति".to_string())
    );
    assert_eq!(
        repl_line("क्रिया क() -> रिक्त इति"),
        ShellAction::Run("क्रिया क() -> रिक्त इति".to_string())
    );
}

#[test]
fn script_toggles_phonetic_typing() {
    assert_eq!(script_line(false, ":ime"), (true, ShellAction::ImeToggled(true)));
    assert_eq!(script_line(true, " :ime "), (false, ShellAction::ImeToggled(false)));
    assert_eq!(script_line(true, "विराम"), (true, ShellAction::Quit));
    assert_eq!(script_line(false, ""), (false, ShellAction::Skip));
}

#[test]
fn script_adds_a_danda() {
    assert_eq!(script_line(false, "मुद्रय(१)"), (false, ShellAction::Run("मुद्रय(१)।".to_string())));
    assert_eq!(script_line(false, "मुद्रय(१)।"), (false, ShellAction::Run("मुद्रय(१)।".to_string())));
    assert_eq!(script_line(false, "क॥"), (false, ShellAction::Run("क॥".to_string())));
    assert_eq!(script_line(false, "यदि क इति"), (false, ShellAction::Run("यदि क इति".to_string())));
}

#[test]
fn script_transliterates_when_on() {
    let expected = format!("{}।", Transliterator::to_devanagari("mudraya(1)"));
    assert_eq!(script_line(true, " mudraya(1) "), (true, ShellAction::Run(expected.clone())));
    assert_ne!(expected, "mudraya(1)।");
    assert_eq!(script_line(true, "kriya |"), (true, ShellAction::Run("क्रिया ।".to_string())));
}

#[test]
fn ime_toggled_twice_is_as_before() {
    let (once, _) = script_line(false, ":ime");
    let (twice, action) = script_line(once, ":ime");
    assert!(!twice);
    assert_eq!(action, ShellAction::ImeToggled(false));
    assert_eq!(trim_text(&trim_text("  अ  ")), trim_text("  अ  "));
}
