use sqstransfer::numeral::{render, parse_count};

#[test]
fn numbers_are_rendered_as_plain_decimal_numerals() {
    assert_eq!(render(0), "0");
    assert_eq!(render(7), "7");
    assert_eq!(render(9), "9");
    assert_eq!(render(10), "10");
    assert_eq!(render(109), "109");
    assert_eq!(render(12345), "12345");
    assert_eq!(render(usize::MAX), usize::MAX.to_string());
}

#[test]
fn numerals_of_a_full_batch() {
    let ids: Vec<String> = (0..10).map(render).collect();
    assert_eq!(ids, vec!["0", "1", "2", "3", "4", "5", "6", "7", "8", "9"]);
}

#[test]
fn numerals_of_different_numbers_differ() {
    for a in 0..120usize {
        for b in 0..120usize {
            assert_eq!(render(a) == render(b), a == b);
        }
    }
}

#[test]
fn counts_are_read_from_numerals() {
    assert_eq!(parse_count("16"), Some(16));
    assert_eq!(parse_count("0"), Some(0));
    assert_eq!(parse_count("1"), Some(1));
    assert_eq!(parse_count("007"), Some(7));
    assert_eq!(parse_count("+5"), Some(5));
    assert_eq!(parse_count("+0"), Some(0));
    assert_eq!(parse_count("4096"), Some(4096));
}

#[test]
fn other_texts_are_no_counts() {
    assert_eq!(parse_count(""), None);
    assert_eq!(parse_count("+"), None);
    assert_eq!(parse_count("-"), None);
    assert_eq!(parse_count("-1"), None);
    assert_eq!(parse_count("-0"), None);
    assert_eq!(parse_count("++1"), None);
    assert_eq!(parse_count("1+"), None);
    assert_eq!(parse_count(" 1"), None);
    assert_eq!(parse_count("1 "), None);
    assert_eq!(parse_count("1_000"), None);
    assert_eq!(parse_count("1.5"), None);
    assert_eq!(parse_count("0x10"), None);
    assert_eq!(parse_count("sixteen"), None);
    assert_eq!(parse_count("１６"), None);
    assert_eq!(parse_count("1６"), None);
    assert_eq!(parse_count("+é"), None);
}

#[test]
fn counts_stop_at_the_largest_usize() {
    let largest = usize::MAX.to_string();
    assert_eq!(parse_count(&largest), Some(usize::MAX));
    assert_eq!(parse_count(&format!("+000{}", largest)), Some(usize::MAX));
    assert_eq!(parse_count(&format!("{}0", largest)), None);
    assert_eq!(parse_count("340282366920938463463374607431768211456"), None);
    let mut digits: Vec<char> = largest.chars().collect();
    let last = digits.len() - 1;
    digits[last] = char::from_digit(digits[last].to_digit(10).unwrap() + 1, 10).unwrap();
    let beyond: String = digits.into_iter().collect();
    assert_eq!(parse_count(&beyond), None);
}

#[test]
fn reading_undoes_rendering() {
    for n in [0usize, 1, 9, 10, 11, 99, 100, 101, 65535, 65536, usize::MAX - 1, usize::MAX] {
        assert_eq!(parse_count(&render(n)), Some(n));
    }
}

#[test]
fn counts_agree_with_the_standard_reading() {
    let texts = [
        "", "0", "00", "1", "16", "+16", "-16", "+", "-", "+-1", "1a", "a1", "99999", " 7", "7\n",
        "18446744073709551615", "18446744073709551616", "4294967295", "4294967296", "٣", "+٣",
    ];
    for text in texts {
        assert_eq!(parse_count(text), text.parse::<usize>().ok());
    }
}
