use backend::title::generate_chat_title;

#[test]
fn empty_message_gives_placeholder() {
    assert_eq!(generate_chat_title(""), "New Chat");
}

#[test]
fn short_message_is_kept() {
    assert_eq!(generate_chat_title("Hi"), "Hi");
}

#[test]
fn short_message_is_whitespace_normalized() {
    assert_eq!(generate_chat_title("  hello\tthere\n "), "hello there");
}

#[test]
fn blank_message_gives_empty_title() {
    assert_eq!(generate_chat_title("   "), "");
}

#[test]
fn long_message_is_cut_at_first_sentence() {
    let s = "How do I sort a vector in Rust. Then what about maps and sets?";
    assert_eq!(s.chars().count(), 62);
    assert_eq!(generate_chat_title(s), "How do I sort a vector in Rust");
}

#[test]
fn sixty_char_sentence_trimmed() {
    let s = "Tell me about the weather today. And also tomorrow please ok";
    assert_eq!(s.chars().count(), 60);
    assert_eq!(generate_chat_title(s), "Tell me about the weather today");
}

#[test]
fn long_unpunctuated_message_packs_words() {
    let words = ["alpha", "beta", "gamma", "delta", "epsilon", "zeta", "eta", "theta"];
    let mut s = String::new();
    while s.chars().count() < 200 {
        for w in words.iter() {
            if !s.is_empty() {
                s.push(' ');
            }
            s.push_str(w);
        }
    }
    let t = generate_chat_title(&s);
    assert_eq!(t, "alpha beta gamma delta epsilon zeta eta theta");
    assert!(t.chars().count() <= 50);
    assert!(s.starts_with(&t));
}

#[test]
fn long_first_word_is_truncated_with_ellipsis() {
    let s = "x".repeat(200);
    let t = generate_chat_title(&s);
    assert_eq!(t, format!("{}...", "x".repeat(47)));
    assert_eq!(t.chars().count(), 50);
}

#[test]
fn first_word_of_exactly_fifty_is_kept() {
    let s = format!("{} b", "a".repeat(50));
    assert_eq!(generate_chat_title(&s), "a".repeat(50));
    let s = format!("{} b", "a".repeat(51));
    assert_eq!(generate_chat_title(&s), format!("{}...", "a".repeat(47)));
}

#[test]
fn packing_fills_up_to_fifty() {
    let s = format!("{} {} {}", "a".repeat(24), "b".repeat(25), "c".repeat(10));
    assert_eq!(generate_chat_title(&s), format!("{} {}", "a".repeat(24), "b".repeat(25)));
}

#[test]
fn late_terminator_falls_back_to_words() {
    let s = format!("{} end.", "word ".repeat(15));
    let t = generate_chat_title(&s);
    assert_eq!(t, "word word word word word word word word word word");
}

#[test]
fn non_ascii_counts_characters() {
    let s = "é".repeat(50);
    assert_eq!(generate_chat_title(&s), s);
}
