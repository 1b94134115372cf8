use advisory_db::text::{chars_of, find_from, matches_at, measure_run, DigitClass};

fn chars(s: &str) -> Vec<char> {
    s.chars().collect()
}

#[test]
fn chars_of_gives_the_characters_in_order() {
    assert_eq!(chars_of("a/\u{e9}z"), vec!['a', '/', '\u{e9}', 'z']);
    assert_eq!(chars_of(""), Vec::<char>::new());
}

#[test]
fn matches_at_compares_in_place() {
    let text = chars("abcabc");
    assert!(matches_at(&text, &chars("abc"), 0));
    assert!(matches_at(&text, &chars("abc"), 3));
    assert!(!matches_at(&text, &chars("abc"), 1));
    assert!(!matches_at(&text, &chars("abc"), 4));
    assert!(!matches_at(&text, &chars("abcabcd"), 0));
    assert!(matches_at(&text, &chars(""), 6));
    assert!(!matches_at(&text, &chars(""), 7));
}

#[test]
fn find_from_gives_the_least_index() {
    let text = chars("xx/commit/commit");
    assert_eq!(find_from(&text, &chars("/commit"), 0), Some(2));
    assert_eq!(find_from(&text, &chars("/commit"), 2), Some(2));
    assert_eq!(find_from(&text, &chars("/commit"), 3), Some(9));
    assert_eq!(find_from(&text, &chars("/commit"), 10), None);
    assert_eq!(find_from(&text, &chars("/pull"), 0), None);
    assert_eq!(find_from(&text, &chars(""), 16), Some(16));
    assert_eq!(find_from(&text, &chars(""), 17), None);
    assert_eq!(find_from(&text, &chars("x"), 100), None);
}

#[test]
fn measure_run_counts_up_to_the_first_other_character() {
    let text = chars("12ab/9");
    assert_eq!(measure_run(&text, 0, DigitClass::Decimal), 2);
    assert_eq!(measure_run(&text, 0, DigitClass::Hex), 4);
    assert_eq!(measure_run(&text, 4, DigitClass::Hex), 0);
    assert_eq!(measure_run(&text, 5, DigitClass::Decimal), 1);
    assert_eq!(measure_run(&text, 6, DigitClass::Decimal), 0);
    assert_eq!(measure_run(&text, 60, DigitClass::Decimal), 0);
}

#[test]
fn digit_classes_hold_what_they_name() {
    for c in "0123456789".chars() {
        assert!(DigitClass::Decimal.accepts(c));
        assert!(DigitClass::Hex.accepts(c));
    }
    for c in "abcdefABCDEF".chars() {
        assert!(!DigitClass::Decimal.accepts(c));
        assert!(DigitClass::Hex.accepts(c));
    }
    for c in "gG/:@`[{ \u{663}\u{ff11}".chars() {
        assert!(!DigitClass::Decimal.accepts(c));
        assert!(!DigitClass::Hex.accepts(c));
    }
}
