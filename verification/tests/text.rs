use button_automation::text::{
    chars_of, push_decimal, read_usize, same_ignoring_case, same_text, split_at_char, split_lines,
    starts_with, string_of, take_word, trimmed, white_space,
};

const SAMPLES: [&str; 14] = [
    "",
    " ",
    "\t\u{a0}\u{3000}",
    "word",
    " two words ",
    "GET /event HTTP/1.1",
    "a\nb",
    "a\r\nb\r\n",
    "a\r",
    "a\r\r\nb",
    "\n",
    "\r\n\r\n",
    "Content-Length: 12",
    "버튼: 선택: 완료",
];

#[test]
fn white_space_agrees_with_the_standard_library() {
    for code in 0..=0x10ffff_u32 {
        if let Some(c) = char::from_u32(code) {
            assert_eq!(white_space(c), c.is_whitespace(), "{code:x}");
        }
    }
}

#[test]
fn trimming_agrees_with_the_standard_library() {
    for sample in SAMPLES {
        let trimmed_text = string_of(&trimmed(&chars_of(sample)));
        assert_eq!(trimmed_text, sample.trim());
        assert_eq!(string_of(&trimmed(&chars_of(&trimmed_text))), trimmed_text);
    }
}

#[test]
fn words_agree_with_the_standard_library() {
    for sample in SAMPLES {
        let chars = chars_of(sample);
        let mut words = Vec::new();
        let mut from = 0;
        while let Some((word, to)) = take_word(&chars, from) {
            words.push(string_of(&word));
            from = to;
        }
        let expected: Vec<String> = sample.split_whitespace().map(String::from).collect();
        assert_eq!(words, expected);
    }
}

#[test]
fn lines_agree_with_the_standard_library() {
    for sample in SAMPLES {
        let lines: Vec<String> = split_lines(&chars_of(sample))
            .iter()
            .map(|line| string_of(line))
            .collect();
        let expected: Vec<String> = sample.lines().map(String::from).collect();
        assert_eq!(lines, expected);
    }
}

#[test]
fn splitting_at_a_character_agrees_with_the_standard_library() {
    for sample in SAMPLES {
        let split = split_at_char(&chars_of(sample), ':')
            .map(|(before, after)| (string_of(&before), string_of(&after)));
        let expected = sample
            .split_once(':')
            .map(|(before, after)| (before.to_string(), after.to_string()));
        assert_eq!(split, expected);
    }
}

#[test]
fn numbers_agree_with_the_standard_library() {
    let max = usize::MAX.to_string();
    let over = format!("{}0", usize::MAX);
    let next = format!("{}", usize::MAX as u128 + 1);
    for sample in [
        "", "+", "-", "0", "00", "7", "+7", "-0", "++1", " 1", "1 ", "12a", "1_000", "1.0", "256",
        "٣", &max, &over, &next,
    ] {
        assert_eq!(read_usize(&chars_of(sample)), sample.parse::<usize>().ok(), "{sample}");
    }
}

#[test]
fn a_written_number_is_read_back() {
    for n in [0_u64, 1, 9, 10, 99, 100, 500, 65_535, 12_582_912, u32::MAX as u64] {
        let mut text = String::from("n=");
        push_decimal(&mut text, n);
        assert_eq!(text, format!("n={n}"));
        assert_eq!(read_usize(&chars_of(&text[2..])), Some(n as usize));
    }
    let mut text = String::new();
    push_decimal(&mut text, u64::MAX);
    assert_eq!(text, "18446744073709551615");
}

#[test]
fn case_is_ignored_for_ascii_letters_only() {
    let same = |a: &str, b: &str| same_ignoring_case(&chars_of(a), &chars_of(b));
    assert!(same("Content-Length", "content-length"));
    assert!(same("CONTENT-LENGTH", "content-length"));
    assert!(!same("content_length", "content-length"));
    assert!(!same("content-lengt", "content-length"));
    assert!(!same("Ä", "ä"));
    assert!(same("[@", "[@"));
    assert!(!same("[", "{"));
}

#[test]
fn equality_and_prefixes_of_texts() {
    assert!(same_text("버튼", "버튼"));
    assert!(!same_text("버튼", "버트"));
    assert!(!same_text("a", "ab"));
    assert!(same_text("", ""));
    assert!(starts_with(&chars_of("https://a"), "https://"));
    assert!(!starts_with(&chars_of("http:/"), "http://"));
    assert!(!starts_with(&chars_of("HTTP://a"), "http://"));
}
