use market_backtest::number::is_real_number;

const TEXTS: &[&str] = &[
    "0", "1", "-1", "+1", "5.5", ".5", "5.", "-.5", "+5.", "1e10", "1E10", "1e+10", "1e-10",
    "1.5e3", ".5e1", "5.e1", "007", "inf", "-inf", "+INF", "Infinity", "-infinity", "iNfInItY",
    "nan", "NaN", "-NAN", "1.7976931348623157e308", "1e400", "", "-", "+", ".", "-.", "e", "e5",
    "1e", "1e+", "1e-", "1.2.3", "1..2", "..", " 1", "1 ", "1,5", "0x10", "1_000", "infinit",
    "infinityy", "nana", "in", "++1", "+-1", "1e5.5", "1e5e5", "N/A", "abc", "5%", "\u{0661}",
];

#[test]
fn real_number_texts_agree_with_std() {
    for text in TEXTS {
        assert_eq!(
            is_real_number(text),
            text.parse::<f64>().is_ok(),
            "disagreement on {text:?}"
        );
    }
}

#[test]
fn real_number_examples() {
    assert!(is_real_number("5.25"));
    assert!(is_real_number("-3e-2"));
    assert!(is_real_number("NaN"));
    assert!(!is_real_number("N/A"));
    assert!(!is_real_number(""));
    assert!(!is_real_number(" 5"));
}
