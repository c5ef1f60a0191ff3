use peakrunner::feed::{entries_for, message, push, safe_text, Entry, CAPACITY, MAX_BYTES, MAX_CHARS};
use peakrunner::team::Team;

#[test]
fn bounded_and_plain() {
    let long_ascii = "x".repeat(161);
    let long_wide = "界".repeat(81);
    for text in ["", "  ", "hi\nthere", "\nhello", "hello\t", "hi\u{202e}there", long_ascii.as_str(), long_wide.as_str()] {
        assert!(message(text).is_none());
    }
    assert_eq!(message("  hello 世界  ").unwrap(), "hello 世界");
    let mut feed = Vec::new();
    for i in 0..40 {
        push(&mut feed, Entry::Chat { sender: "Pilot".into(), text: i.to_string() });
    }
    assert_eq!(feed.len(), CAPACITY);
    assert!(feed[0].line().ends_with("24"));
}

#[test]
fn messages_at_the_limits_are_kept() {
    let chars = "y".repeat(MAX_CHARS);
    assert_eq!(message(&chars).unwrap(), chars);
    // 80 three-byte characters: 240 bytes exactly, 80 characters.
    let wide = "界".repeat(MAX_BYTES / 3);
    assert_eq!(message(&wide).unwrap(), wide);
    // Raw text over the byte limit is refused before trimming.
    let padded = format!("{}{}", " ".repeat(200), "hello".repeat(9));
    assert!(padded.len() > MAX_BYTES);
    assert!(message(&padded).is_none());
}

#[test]
fn safe_text_refuses_controls_and_direction_marks() {
    assert!(safe_text("plain words 123"));
    for bad in ["a\u{0}b", "tab\there", "\u{7f}", "\u{85}", "\u{061c}", "\u{200e}", "\u{200f}", "\u{2028}", "\u{202a}",
        "\u{202e}", "\u{2066}", "\u{2069}"] {
        assert!(!safe_text(bad), "{bad:?}");
    }
    assert!(safe_text("\u{2027}\u{202f}\u{2065}\u{206a}"));
}

#[test]
fn feed_keeps_the_newest_entries_in_order() {
    let mut feed = Vec::new();
    for i in 0..CAPACITY {
        push(&mut feed, Entry::Play { text: i.to_string() });
    }
    assert_eq!(feed.len(), CAPACITY);
    push(&mut feed, Entry::Play { text: "new".into() });
    assert_eq!(feed.len(), CAPACITY);
    assert_eq!(feed[0], Entry::Play { text: "1".into() });
    assert_eq!(feed[CAPACITY - 1], Entry::Play { text: "new".into() });
}

#[test]
fn lines_read_as_the_feed_shows_them() {
    assert_eq!(Entry::Chat { sender: "Ann".into(), text: "hi".into() }.line(), "Ann: hi");
    assert_eq!(Entry::TeamChat { sender: "Ann".into(), text: "go".into(), team: Team::Glacier }.line(), "[TEAM] Ann: go");
    assert_eq!(Entry::Frag { killer: "Ann".into(), victim: "Bob".into(), weapon: "Disc launcher".into() }.line(),
        "Ann fragged Bob · Disc launcher");
    assert_eq!(Entry::Frag { killer: "Bob".into(), victim: "Bob".into(), weapon: "Suicide".into() }.line(),
        "Bob took the quick way out");
    assert_eq!(Entry::Frag { killer: "Bob".into(), victim: "Bob".into(), weapon: "Fall".into() }.line(),
        "Bob fragged Bob · Fall");
    assert_eq!(Entry::Play { text: "Touchdown!".into() }.line(), "Touchdown!");
}

#[test]
fn team_chat_reaches_only_its_team() {
    let feed = vec![
        Entry::Chat { sender: "A".into(), text: "all".into() },
        Entry::TeamChat { sender: "A".into(), text: "ember".into(), team: Team::Ember },
        Entry::TeamChat { sender: "B".into(), text: "glacier".into(), team: Team::Glacier },
    ];
    assert_eq!(entries_for(&feed, None).len(), 1);
    let ember = entries_for(&feed, Some(Team::Ember));
    assert_eq!(ember.len(), 2);
    assert_eq!(ember[1], Entry::TeamChat { sender: "A".into(), text: "ember".into(), team: Team::Ember });
    assert_eq!(entries_for(&feed, Some(Team::Glacier)).len(), 2);
    let copy = feed[2].duplicate();
    assert_eq!(copy, feed[2]);
}

#[test]
fn accepted_messages_are_accepted_again_unchanged() {
    for text in ["  hello 世界  ", "\u{3000}go\u{a0}", "x", " a  b "] {
        let once = message(text).unwrap();
        assert_eq!(message(&once), Some(once.clone()));
    }
    assert_eq!(peakrunner::text::trim("\u{85}\u{a0} mid \u{2028}\u{202f}"), "mid");
    assert_eq!(peakrunner::text::trim(" \t\n"), "");
    assert_eq!(peakrunner::text::trim("a\u{200b}"), "a\u{200b}", "zero width space is not white space");
}
