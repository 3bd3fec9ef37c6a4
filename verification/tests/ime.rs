use sankode::ime::Transliterator;

#[test]
fn test_transliterate_digits() {
    assert_eq!(Transliterator::transliterate_digits("1024"), "१०२४");
    assert_eq!(Transliterator::transliterate_digits("3.14"), "३.१४");
}

#[test]
fn test_transliterate_keywords() {
    assert_eq!(Transliterator::to_devanagari("kriya"), "क्रिया");
    assert_eq!(Transliterator::to_devanagari("yadi"), "यदि");
    assert_eq!(Transliterator::to_devanagari("iti"), "इति");
    assert_eq!(Transliterator::to_devanagari("mukhya"), "मुख्य");
}

#[test]
fn test_transliterate_danda() {
    assert_eq!(Transliterator::to_devanagari("kriya mukhya() |"), "क्रिया मुख्य() ।");
}

#[test]
fn transliterate_digits_twice_is_once() {
    let once = Transliterator::transliterate_digits("a1b22c333 ०");
    assert_eq!(Transliterator::transliterate_digits(&once), once);
    assert_eq!(once, "a१b२२c३३३ ०");
}

#[test]
fn syllables_and_vowels() {
    assert_eq!(Transliterator::to_devanagari_raw("ka"), "क");
    assert_eq!(Transliterator::to_devanagari_raw("ki"), "कि");
    assert_eq!(Transliterator::to_devanagari_raw("k"), "क्");
    assert_eq!(Transliterator::to_devanagari_raw("a"), "अ");
    assert_eq!(Transliterator::to_devanagari_raw("aa"), "आ");
    assert_eq!(Transliterator::to_devanagari_raw("kSha"), "क्ष");
    assert_eq!(Transliterator::to_devanagari_raw("tra"), "त्र");
    assert_eq!(Transliterator::to_devanagari_raw("ktA"), "क्ता");
}

#[test]
fn strings_double_danda_and_digits() {
    assert_eq!(Transliterator::to_devanagari_raw("\"abc\""), "\"abc\"");
    assert_eq!(Transliterator::to_devanagari_raw("\"a\\\"b\""), "\"a\\\"b\"");
    assert_eq!(Transliterator::to_devanagari_raw("||"), "॥");
    assert_eq!(Transliterator::to_devanagari_raw("42"), "४२");
    assert_eq!(Transliterator::to_devanagari_raw("x = 1;"), "क्ष् = १;");
}

#[test]
fn keyword_table() {
    assert_eq!(Transliterator::match_common_keyword("prati"), Some("प्रति"));
    assert_eq!(Transliterator::match_common_keyword("mAna"), Some("मान"));
    assert_eq!(Transliterator::match_common_keyword("zzz"), None);
    assert_eq!(Transliterator::transliterate_digit('7'), '७');
    assert_eq!(Transliterator::transliterate_digit('x'), 'x');
}

#[test]
fn output_is_normalized() {
    assert_eq!(Transliterator::to_devanagari("\"\u{FB01}\""), "\"fi\"");
    assert_eq!(Transliterator::to_devanagari("\u{2460}"), "1");
    assert_eq!(Transliterator::to_devanagari_raw("\u{2460}"), "\u{2460}");
}

#[test]
fn documented_keyword_spellings() {
    assert_eq!(Transliterator::to_devanagari("man"), "मान");
    assert_eq!(Transliterator::to_devanagari("rina"), "ऋण");
    assert_eq!(Transliterator::to_devanagari("chalarina"), "चलऋण");
    assert_eq!(Transliterator::to_devanagari("samrachana"), "संरचना");
    assert_eq!(Transliterator::to_devanagari("anyathayadi"), "अन्यथायदि");
    assert_eq!(Transliterator::match_common_keyword("anyathayadi"), Some("अन्यथायदि"));
}
