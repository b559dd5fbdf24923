use toggle::text::{
    chars_of, contains_chars, is_whitespace_char, matches_at, same_text, starts_with,
};

fn chars(s: &str) -> Vec<char> {
    s.chars().collect()
}

#[test]
fn whitespace_agrees_with_std_on_every_char() {
    for code in 0u32..=0x10FFFF {
        if let Some(c) = char::from_u32(code) {
            assert_eq!(is_whitespace_char(c), c.is_whitespace(), "U+{:04X}", code);
        }
    }
}

#[test]
fn chars_of_keeps_every_char() {
    assert_eq!(chars_of(""), Vec::<char>::new());
    assert_eq!(chars_of("a#é 日本"), vec!['a', '#', 'é', ' ', '日', '本']);
}

#[test]
fn contains_agrees_with_std() {
    let texts =
        ["", "a", "ab", "abc", "aab", "abab", "toggle:start ID=x", "xx toggle:end", "日本語"];
    let pats =
        ["", "a", "b", "ab", "ba", "abc", "bab", "toggle:start", "toggle:end", "本", "語x"];
    for text in texts {
        for pat in pats {
            assert_eq!(
                contains_chars(&chars(text), &chars(pat)),
                text.contains(pat),
                "{:?} in {:?}",
                pat,
                text
            );
            assert_eq!(
                starts_with(&chars(text), &chars(pat)),
                text.starts_with(pat),
                "{:?} at the start of {:?}",
                pat,
                text
            );
        }
    }
}

#[test]
fn matches_at_each_index() {
    let text = chars("abcabc");
    let pat = chars("bc");
    let hits: Vec<bool> = (0..8).map(|i| matches_at(&text, &pat, i)).collect();
    assert_eq!(hits, vec![false, true, false, false, true, false, false, false]);
    assert!(matches_at(&text, &chars(""), 6));
    assert!(!matches_at(&text, &chars(""), 7));
    assert!(!matches_at(&text, &pat, usize::MAX));
}

#[test]
fn same_text_compares_chars() {
    assert!(same_text("", ""));
    assert!(same_text("on", "on"));
    assert!(!same_text("on", "off"));
    assert!(!same_text("on", "On"));
    assert!(!same_text("on", "on "));
    assert!(!same_text("ab", "ba"));
}
