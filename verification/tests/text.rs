use double_pendulum::text::{characters, is_text};

#[test]
fn characters_lists_the_characters_in_order() {
    assert_eq!(characters(""), Vec::<char>::new());
    assert_eq!(characters("-h"), vec!['-', 'h']);
    assert_eq!(characters("0.05"), vec!['0', '.', '0', '5']);
    assert_eq!(characters("gr\u{fc}n \u{1f600}"), vec!['g', 'r', '\u{fc}', 'n', ' ', '\u{1f600}']);
}

#[test]
fn is_text_compares_character_by_character() {
    assert!(is_text(&characters(""), ""));
    assert!(is_text(&characters("-h"), "-h"));
    assert!(is_text(&characters("--pendulums"), "--pendulums"));
    assert!(is_text(&characters("gr\u{fc}n"), "gr\u{fc}n"));
    assert!(!is_text(&characters("-h"), "-H"));
    assert!(!is_text(&characters("-h"), "-h "));
    assert!(!is_text(&characters("-h"), ""));
    assert!(!is_text(&characters(""), "-h"));
    assert!(!is_text(&characters("-m1"), "-m2"));
    assert!(!is_text(&characters("gr\u{fc}n"), "grun"));
    assert!(!is_text(&characters("gru\u{308}n"), "gr\u{fc}n"));
}
