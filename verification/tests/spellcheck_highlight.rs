//! Splitting a draft into words, and marking the misspelled ones.

use std::ops::Range;

use thornychat_ui::spellcheck_highlight::{is_checkable, words, Highlighter, Settings};
use thornychat_ui::word_set::WordSet;

fn collect(line: &str) -> Vec<(Range<usize>, &str, &str)> {
    words(line).into_iter().map(|w| (w.range, w.core, w.raw)).collect()
}

#[test]
fn words_split_on_whitespace_and_trim_to_the_core() {
    assert_eq!(
        collect("i recieved teh file"),
        vec![
            (0..1, "i", "i"),
            (2..10, "recieved", "recieved"),
            (11..14, "teh", "teh"),
            (15..19, "file", "file"),
        ]
    );
}

#[test]
fn punctuation_is_trimmed_from_the_core_but_kept_in_raw() {
    // The range excludes the comma so a replacement can't eat it; the raw
    // token keeps it so the skip heuristics see the whole thing.
    assert_eq!(collect("(wat,)"), vec![(1..4, "wat", "(wat,)")]);
    // Internal punctuation stays — the speller does its own word breaking.
    assert_eq!(collect("don't"), vec![(0..5, "don't", "don't")]);
}

#[test]
fn ranges_are_utf8_byte_offsets() {
    // 'é' is two bytes — the range must land on char boundaries.
    let line = "a café";
    let found = collect(line);
    assert_eq!(found[1].0, 2..7);
    assert_eq!(&line[found[1].0.clone()], "café");
}

#[test]
fn tokens_without_a_core_are_skipped_not_terminal() {
    // The "---" must not end the iteration and hide "teh" behind it.
    assert_eq!(collect("ok --- teh"), vec![(0..2, "ok", "ok"), (7..10, "teh", "teh")]);
}

#[test]
fn irregular_whitespace_does_not_shift_ranges() {
    let line = "  teh\tfile  ";
    assert_eq!(collect(line), vec![(2..5, "teh", "teh"), (6..10, "file", "file")]);
}

#[test]
fn checkable_accepts_prose_rejects_chat_tokens() {
    assert!(is_checkable("teh"));
    assert!(is_checkable("hello"));
    assert!(is_checkable("Hello")); // capitalized is fine for the bar

    assert!(!is_checkable("a")); // needs 2+ letters
    assert!(!is_checkable("GG")); // acronym
    assert!(!is_checkable("camelCase")); // code
    assert!(!is_checkable("v2")); // has a digit
    assert!(!is_checkable("@bob")); // mention
    assert!(!is_checkable(":smile:")); // emoji shortcode
    assert!(!is_checkable("http://x.com")); // url
    assert!(!is_checkable("a/b")); // path
    assert!(!is_checkable("co_op")); // identifier
}

fn highlighter(words: &[&str]) -> Highlighter {
    let misspelled = WordSet::from_words(words.iter().map(|w| w.to_string()).collect());
    Highlighter::new(&Settings { revision: 1, misspelled })
}

#[test]
fn flagged_words_are_highlighted_where_they_appear() {
    let mut h = highlighter(&["recieved", "teh"]);
    let ranges: Vec<Range<usize>> = h.highlight_line("i recieved teh file");
    assert_eq!(ranges, vec![2..10, 11..14]);
}

#[test]
fn a_repeated_typo_is_flagged_every_time() {
    let mut h = highlighter(&["teh"]);
    let ranges: Vec<Range<usize>> = h.highlight_line("teh cat and teh dog");
    assert_eq!(ranges, vec![0..3, 12..15]);
}

#[test]
fn unflagged_tokens_matching_a_flagged_word_are_still_skipped() {
    // "teh" inside a URL is not prose, even though the word is flagged.
    let mut h = highlighter(&["teh"]);
    let ranges: Vec<Range<usize>> = h.highlight_line("http://teh/x teh");
    assert_eq!(ranges, vec![13..16]);
}

#[test]
fn an_empty_set_highlights_nothing() {
    let mut h = Highlighter::new(&Settings::default());
    assert_eq!(h.highlight_line("i recieved teh file").len(), 0);
}

#[test]
fn settings_compare_by_revision_only() {
    let a = Settings { revision: 7, misspelled: WordSet::new() };
    let b =
        Settings { revision: 7, misspelled: WordSet::from_words(vec!["teh".to_string()]) };
    // Same revision means "nothing changed" — the composer is responsible
    // for bumping it whenever the set does.
    assert_eq!(a, b);
    assert_ne!(a, Settings { revision: 8, misspelled: a.misspelled.clone() });
}

#[test]
fn lines_are_counted_and_a_change_rewinds() {
    let mut h = highlighter(&["teh"]);
    assert_eq!(h.current_line(), 0);
    h.highlight_line("one");
    h.highlight_line("two");
    assert_eq!(h.current_line(), 2);
    h.change_line(1);
    assert_eq!(h.current_line(), 1);
    h.update(&Settings { revision: 2, misspelled: WordSet::new() });
    assert_eq!(h.current_line(), 0);
    assert_eq!(h.highlight_line("teh").len(), 0);
}

#[test]
fn no_words_in_an_empty_line() {
    assert_eq!(collect(""), vec![]);
    assert_eq!(collect(" \t "), vec![]);
}
