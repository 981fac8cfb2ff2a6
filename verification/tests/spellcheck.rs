//! The rules on what the speller reports.

use thornychat_ui::spellcheck::{
    analyze, edit_distance_at_most, is_misspelled, pick_correction, suggestions_with,
    top_correction, whole_word_error, Analysis, CorrectiveAction, SpellError, MAX_SUGGESTIONS,
};

fn chars(s: &str) -> Vec<char> {
    s.chars().collect()
}

#[test]
fn bounded_distance_gives_up_past_the_budget() {
    assert_eq!(edit_distance_at_most(&chars("cat"), &chars("cat"), 1), Some(0));
    assert_eq!(edit_distance_at_most(&chars("cst"), &chars("cost"), 1), Some(1));
    // Over budget, and cheaply so — the length gap alone rules it out.
    assert_eq!(edit_distance_at_most(&chars("qwertyx"), &chars("q"), 2), None);
    assert_eq!(edit_distance_at_most(&chars("teh"), &chars("bun"), 1), None);
}

#[test]
fn a_transposition_costs_one_edit_not_two() {
    // The whole reason for the Damerau term: at plain Levenshtein's 2,
    // "teh" (3 chars, so a budget of 1) could never be corrected to "the".
    assert_eq!(edit_distance_at_most(&chars("teh"), &chars("the"), 1), Some(1));
    assert_eq!(edit_distance_at_most(&chars("recieve"), &chars("receive"), 1), Some(1));
    // Non-adjacent swaps are still two edits, as they should be.
    assert_eq!(edit_distance_at_most(&chars("tehs"), &chars("thes"), 1), Some(1));
    assert_eq!(edit_distance_at_most(&chars("abc"), &chars("cba"), 1), None);
}

#[test]
fn distance_counts_chars_not_bytes() {
    // 'é' is two bytes; swapping it for 'e' is one edit, not two.
    assert_eq!(edit_distance_at_most(&chars("café"), &chars("cafe"), 1), Some(1));
}

#[test]
fn engine_replacement_is_trusted_as_is() {
    // A REPLACE pick skips the distance guard entirely — the engine is
    // more confident than we are.
    assert_eq!(pick_correction("teh", Some("the"), &vec![]), Some("the".to_string()));
    // ...but a "fix" identical to what was typed is not a fix.
    assert_eq!(pick_correction("teh", Some("teh"), &vec![]), None);
}

#[test]
fn suggestions_apply_only_when_they_are_near_misses() {
    // An out-of-budget guess is ignored outright — it neither wins nor
    // ties, so it can't block the real fix behind it.
    let suggestions = vec!["nonsense".to_string(), "receive".to_string()];
    assert_eq!(pick_correction("recieve", None, &suggestions), Some("receive".to_string()));

    // The speller's best guess at an unknown word can be miles away; that
    // one is left for the bar to offer rather than applied silently.
    let far = vec!["quarterly".to_string()];
    assert_eq!(pick_correction("qwertyx", None, &far), None);

    // Short words get the tighter 1-edit budget: "cst" → "cost" (1) is in,
    // "cst" → "chest" (2) is out.
    assert_eq!(pick_correction("cst", None, &vec!["cost".to_string()]), Some("cost".to_string()));
    assert_eq!(pick_correction("cst", None, &vec!["chest".to_string()]), None);
}

#[test]
fn case_only_differences_are_not_corrections() {
    assert_eq!(pick_correction("teh", None, &vec!["Teh".to_string()]), None);
}

#[test]
fn a_tie_between_near_misses_is_left_to_the_bar() {
    // "the" and "ten" are both one edit from "teh". Ranking alone isn't
    // enough to pick one silently — for "im" the live speller ranks the
    // nonsense "mi" ahead of "I'm" and "in", all at one edit, which is
    // exactly the swap this rule exists to refuse.
    let suggestions = vec!["the".to_string(), "ten".to_string()];
    assert_eq!(pick_correction("teh", None, &suggestions), None);
    let im = vec!["mi".to_string(), "imp".to_string(), "in".to_string()];
    assert_eq!(pick_correction("im", None, &im), None);
}

#[test]
fn a_strictly_closer_guess_wins_over_the_ranking() {
    // Ranked first but two edits out; the one-edit guess behind it is the
    // unambiguous answer, so the ranking doesn't get to veto it.
    let suggestions = vec!["privileged".to_string(), "privilege".to_string()];
    assert_eq!(
        pick_correction("priviledge", None, &suggestions),
        Some("privilege".to_string())
    );
}

fn error(start: u32, length: u32, action: CorrectiveAction, replacement: Option<&str>) -> SpellError {
    SpellError { start, length, action, replacement: replacement.map(|r| r.to_string()) }
}

#[test]
fn the_distance_is_symmetric_and_zero_only_for_equal_words() {
    for (a, b) in [("kitten", "sitting"), ("", "ab"), ("ca", "abc"), ("teh", "the"), ("x", "x")] {
        let there = edit_distance_at_most(&chars(a), &chars(b), 10);
        let back = edit_distance_at_most(&chars(b), &chars(a), 10);
        assert_eq!(there, back);
        assert_eq!(there == Some(0), a == b);
    }
    assert_eq!(edit_distance_at_most(&chars("kitten"), &chars("sitting"), 10), Some(3));
    assert_eq!(edit_distance_at_most(&chars("ca"), &chars("abc"), 10), Some(3));
}

#[test]
fn an_error_counts_only_when_it_covers_the_whole_word() {
    let word = "teh";
    assert!(is_misspelled(word, Some(error(0, 3, CorrectiveAction::GetSuggestions, None))));
    assert!(!is_misspelled(word, None));
    assert!(!is_misspelled(word, Some(error(0, 2, CorrectiveAction::GetSuggestions, None))));
    assert!(!is_misspelled(word, Some(error(1, 2, CorrectiveAction::GetSuggestions, None))));
    // Lengths count UTF-16 code units: this letter takes two.
    assert!(is_misspelled("𐐷", Some(error(0, 2, CorrectiveAction::GetSuggestions, None))));
}

#[test]
fn the_engines_pick_is_read_only_when_it_replaces() {
    let replaced = whole_word_error("teh", Some(error(0, 3, CorrectiveAction::Replace, Some("the"))));
    assert_eq!(replaced.unwrap().replacement, Some("the".to_string()));
    let guessed =
        whole_word_error("teh", Some(error(0, 3, CorrectiveAction::GetSuggestions, Some("the"))));
    assert_eq!(guessed.unwrap().replacement, None);
}

#[test]
fn the_pick_leads_the_suggestions_and_the_row_is_short() {
    let guesses: Vec<String> =
        ["a", "the", "c", "d", "e", "f", "g"].iter().map(|s| s.to_string()).collect();
    let row = suggestions_with(&Some("the".to_string()), guesses);
    assert_eq!(row.len(), MAX_SUGGESTIONS);
    assert_eq!(row, ["the", "a", "c", "d", "e"]);
    let guesses: Vec<String> = ["a", "b", "c", "d", "e", "the"].iter().map(|s| s.to_string()).collect();
    let row = suggestions_with(&Some("the".to_string()), guesses);
    assert_eq!(row, ["the", "a", "b", "c", "d"]);
    let row = suggestions_with(&None, vec!["a".to_string(), "the".to_string()]);
    assert_eq!(row, ["a", "the"]);
    let found = analyze(
        "teh",
        Some(error(0, 3, CorrectiveAction::Replace, Some("the"))),
        vec!["ten".to_string(), "the".to_string()],
    );
    assert!(found.misspelled);
    assert_eq!(found.replacement, Some("the".to_string()));
    assert_eq!(found.suggestions, ["the", "ten"]);
}

#[test]
fn analysis_and_top_correction() {
    let flagged = analyze(
        "recieve",
        Some(error(0, 7, CorrectiveAction::GetSuggestions, None)),
        vec!["receive".to_string()],
    );
    assert!(flagged.misspelled);
    assert_eq!(top_correction("recieve", &flagged), Some("receive".to_string()));
    let fine = analyze("receive", None, vec!["recipe".to_string()]);
    assert!(!fine.misspelled);
    assert_eq!(top_correction("receive", &fine), None);
    assert!(!Analysis::default().misspelled);
}
