//! The composer: the caret, spell check, and the draft.

use thornychat_ui::screens::timeline::composer::{
    active_mention_query, chips, mention_candidates, placeholder, send_on_enter, set_body, update,
    Binding, Effect, Followup, Message, PickerTab, State,
};
use thornychat_ui::screens::timeline::editor::{
    ends_word, Action, Content, Edit, Line, LineEnding, Position,
};
use thornychat_ui::screens::timeline::spell::{
    flag_target, is_chat_slang, starts_lowercase, word_before_cursor, word_being_typed, Revert,
    SpellState,
};
use thornychat_ui::events::RoomMember;
use thornychat_ui::spellcheck::{analyze, top_correction, CorrectiveAction, SpellError};
use thornychat_ui::spellcheck_config::SpellcheckConfig;

#[test]
fn autocorrect_skips_leading_capital() {
    assert!(starts_lowercase("teh"));
    assert!(!starts_lowercase("Teh"));
    assert!(!starts_lowercase(""));
}

#[test]
fn the_finished_word_is_the_one_left_of_the_caret() {
    // "teh| cat" — the space was just typed at offset 3.
    let word = word_before_cursor("teh cat", 4).unwrap();
    assert_eq!((word.range, word.core), (0..3, "teh"));

    // Nothing is finished until the caret has passed a boundary.
    assert!(word_before_cursor("teh", 3).is_none());
    assert!(word_before_cursor("", 0).is_none());
}

#[test]
fn a_word_finished_mid_line_is_found_too() {
    // "one teh| two" — this is what an end-of-draft-only trigger could never
    // see.
    let word = word_before_cursor("one teh two", 8).unwrap();
    assert_eq!((word.range, word.core), (4..7, "teh"));
}

#[test]
fn only_the_caret_s_trailing_edge_counts_as_still_typing() {
    // Typing left to right, the caret sits at the end of the word.
    assert_eq!(word_being_typed("recieve", 7).unwrap().core, "recieve");
    // Clicked into the middle of it — that word is finished, and stays
    // marked so the bar has something to offer.
    assert!(word_being_typed("recieve", 3).is_none());
    // On whitespace, nothing is in progress.
    assert!(word_being_typed("recieve ", 8).is_none());
}

#[test]
fn the_bar_targets_the_word_the_caret_just_left() {
    // Caret inside a word: that word.
    assert_eq!(flag_target("one teh two", 6).unwrap().core, "teh");
    // Caret on the space after it (offset 7): still that word.
    assert_eq!(flag_target("one teh two", 7).unwrap().core, "teh");
    // Caret at the leading edge of the next word: that word instead.
    assert_eq!(flag_target("one teh two", 8).unwrap().core, "two");
    assert!(flag_target("   ", 3).is_none());
}

#[test]
fn undo_restores_the_typed_word_only_at_the_right_caret() {
    let revert =
        Revert { range: 0..3, corrected: "the".to_string(), original: "teh".to_string() };
    // Backspace ate the space, leaving the caret at the word's end.
    assert_eq!(revert.undo("the", 3), Some(("teh".to_string(), 3)));
    // Caret somewhere else — this Backspace wasn't the undo.
    assert_eq!(revert.undo("the cat", 7), None);
    // The correction is gone, so there is nothing to put back.
    assert_eq!(revert.undo("th", 3), None);
}

#[test]
fn only_a_boundary_keystroke_triggers_autocorrect() {
    assert!(ends_word(&Action::Edit(Edit::Insert(' '))));
    assert!(ends_word(&Action::Edit(Edit::Enter)));
    assert!(!ends_word(&Action::Edit(Edit::Insert('x'))));
    assert!(!ends_word(&Action::Edit(Edit::Backspace)));
    // A paste can drop in any amount of text — never a correction cue.
    assert!(!ends_word(&Action::Edit(Edit::Paste("teh ".to_string()))));
    assert!(!ends_word(&Action::SelectAll));
}

/// What an editor holds for a draft, with the caret at a byte offset.
fn content(body: &str, caret: usize) -> Content {
    let mut lines: Vec<Line> = body
        .split('\n')
        .map(|text| Line { text: text.to_string(), ending: LineEnding::Lf })
        .collect();
    lines.last_mut().unwrap().ending = LineEnding::Bare;
    let mut made = Content { lines, cursor: Position { line: 0, column: 0 } };
    made.cursor = made.position_at(caret);
    made
}

fn cursor_offset(state: &State) -> usize {
    content(&state.body, state.caret).cursor_offset()
}

#[test]
fn the_caret_survives_a_programmatic_rewrite() {
    let mut state = State::default();
    set_body(&mut state, "hello world".to_string(), Some(5));
    assert_eq!(cursor_offset(&state), 5);

    // Past the end clamps rather than panicking.
    set_body(&mut state, "hi".to_string(), Some(99));
    assert_eq!(cursor_offset(&state), 2);

    // No caret given means "put it at the end", which is what every
    // append-shaped edit wants.
    set_body(&mut state, "abc".to_string(), None);
    assert_eq!(cursor_offset(&state), 3);
}

#[test]
fn the_caret_offset_accounts_for_earlier_lines() {
    let mut state = State::default();
    // Offset 8 is the 'n' of "line2": 5 + 1 newline + 2.
    set_body(&mut state, "line1\nline2".to_string(), Some(8));
    assert_eq!(cursor_offset(&state), 8);

    // ...and the round trip back through `position_at` lands there.
    let body = state.body.clone();
    set_body(&mut state, body, Some(8));
    assert_eq!(cursor_offset(&state), 8);
}

const ON: SpellcheckConfig = SpellcheckConfig { enabled: true, autocorrect: false };
const OFF: SpellcheckConfig = SpellcheckConfig { enabled: false, autocorrect: false };
const AUTO: SpellcheckConfig = SpellcheckConfig { enabled: true, autocorrect: true };

/// A speller that must not be asked: the seeded verdicts stand in for it.
fn no_errors(word: &str) -> Option<SpellError> {
    panic!("the speller was asked about {:?}", word)
}

fn no_guesses(word: &str) -> Vec<String> {
    panic!("the speller was asked for alternatives to {:?}", word)
}

/// A `SpellState` that already "knows" `teh` is wrong and what to offer for
/// it, so `recompute` never reaches the speller.
fn seeded() -> SpellState {
    let mut spell = SpellState::new();
    spell.verdicts.push(("teh".to_string(), true));
    spell.flag_memo = Some(("teh".to_string(), vec!["the".to_string(), "ten".to_string()]));
    spell
}

#[test]
fn turning_spell_check_off_clears_every_mark() {
    let mut spell = seeded();
    spell.recompute("teh ", 4, &ON, &no_errors, &no_guesses);
    assert!(spell.highlight.misspelled.contains("teh"));

    spell.recompute("teh ", 4, &OFF, &no_errors, &no_guesses);
    assert!(spell.highlight.misspelled.is_empty());
    assert!(spell.flagged.is_none());
}

#[test]
fn chat_tokens_are_never_checked() {
    // These would all be flagged by a dictionary; none of them is a typo.
    let mut spell = SpellState::new();
    for body in ["@alice:example.org ", "https://example.org/page ", ":shrug: ", "ACRONYM "] {
        spell.recompute(body, body.len(), &ON, &no_errors, &no_guesses);
        assert!(spell.highlight.misspelled.is_empty(), "{body:?} was checked");
    }
}

#[test]
fn the_word_still_being_typed_is_not_marked_yet() {
    let mut spell = seeded();
    // Caret at the trailing edge: "teh" is mid-word, so it stays unpainted
    // rather than flashing red halfway through.
    spell.recompute("teh", 3, &ON, &no_errors, &no_guesses);
    assert!(spell.highlight.misspelled.is_empty());
    assert!(spell.flagged.is_none());

    // The space finishes it, and now it is marked.
    spell.recompute("teh ", 4, &ON, &no_errors, &no_guesses);
    assert!(spell.highlight.misspelled.contains("teh"));
}

#[test]
fn the_bar_targets_the_flagged_word_at_the_caret() {
    let mut spell = seeded();
    spell.recompute("teh ", 4, &ON, &no_errors, &no_guesses);
    let flagged = spell.flagged.expect("the bar should target \"teh\"");
    assert_eq!((flagged.range, flagged.word.as_str()), (0..3, "teh"));
    assert_eq!(flagged.suggestions, ["the", "ten"]);
}

#[test]
fn the_highlighter_revision_only_moves_when_the_marks_do() {
    let mut spell = seeded();
    spell.recompute("teh ", 4, &ON, &no_errors, &no_guesses);
    let revision = spell.highlight.revision;
    // Same marks, so the highlighter must not be asked to re-run.
    spell.recompute("teh ", 4, &ON, &no_errors, &no_guesses);
    assert_eq!(spell.highlight.revision, revision);

    // A real change bumps it.
    spell.recompute("", 0, &ON, &no_errors, &no_guesses);
    assert_ne!(spell.highlight.revision, revision);
}

#[test]
fn a_reset_draft_keeps_the_revision_monotonic() {
    let mut spell = seeded();
    spell.recompute("teh ", 4, &ON, &no_errors, &no_guesses);
    let revision = spell.highlight.revision;
    spell.reset();
    assert!(spell.flagged.is_none());
    assert!(spell.highlight.misspelled.is_empty());
    // A rewound revision could be mistaken for state already on screen.
    assert_eq!(spell.highlight.revision, revision);
}

/// A small speller: it replaces "teh", guesses at "disappointet", "gonna" and
/// "ur", and knows every other word.
fn errors(word: &str) -> Option<SpellError> {
    let length = word.encode_utf16().count() as u32;
    match word {
        "teh" => Some(SpellError {
            start: 0,
            length,
            action: CorrectiveAction::Replace,
            replacement: Some("the".to_string()),
        }),
        "disappointet" | "gonna" | "ur" => Some(SpellError {
            start: 0,
            length,
            action: CorrectiveAction::GetSuggestions,
            replacement: None,
        }),
        _ => None,
    }
}

fn guesses(word: &str) -> Vec<String> {
    let row: &[&str] = match word {
        "teh" => &["the", "ten"],
        "disappointet" => &["disappointed", "disappointment"],
        "gonna" => &["goanna"],
        "ur" => &["urn"],
        _ => &[],
    };
    row.iter().map(|s| s.to_string()).collect()
}

fn correction(word: &str) -> Option<String> {
    top_correction(word, &analyze(word, errors(word), guesses(word)))
}

/// Performs a keystroke as the editor does, and reports it.
fn key(state: &mut State, action: Action, cfg: &SpellcheckConfig) -> Effect {
    let mut body = state.body.clone();
    let mut caret = state.caret;
    match &action {
        Action::Edit(Edit::Insert(c)) => {
            body.insert(caret, *c);
            caret += c.len_utf8();
        },
        Action::Edit(Edit::Backspace) => {
            if let Some(last) = body[..caret].chars().last() {
                caret -= last.len_utf8();
                body.remove(caret);
            }
        },
        _ => {},
    }
    let held = content(&body, caret);
    update(state, Message::Action(action, held), cfg, &errors, &guesses).1
}

fn type_in(state: &mut State, body: &str, cfg: &SpellcheckConfig) {
    for c in body.chars() {
        key(state, Action::Edit(Edit::Insert(c)), cfg);
    }
}

/// Types `body` one character at a time and returns the draft it leaves
/// behind.
fn typed(body: &str, cfg: &SpellcheckConfig) -> String {
    let mut state = State::default();
    type_in(&mut state, body, cfg);
    state.body
}

#[test]
fn a_space_autocorrects_the_word_just_finished_and_backspace_undoes_it() {
    let expected = correction("teh").unwrap();
    let mut state = State::default();
    type_in(&mut state, "teh", &AUTO);
    // Mid-word: nothing has been rewritten yet.
    assert_eq!(state.body, "teh");

    key(&mut state, Action::Edit(Edit::Insert(' ')), &AUTO);
    assert_eq!(state.body, format!("{expected} "));
    // The boundary character stays put and the caret stays after it.
    assert_eq!(cursor_offset(&state), expected.len() + 1);

    // The very next Backspace undoes the correction instead of just eating
    // the space.
    key(&mut state, Action::Edit(Edit::Backspace), &AUTO);
    assert_eq!(state.body, "teh");
}

#[test]
fn a_typo_the_speller_only_guesses_at_is_still_corrected() {
    // "disappointet" gets no replacement of the engine's own — just guesses,
    // of which one is the nearest.
    let expected = correction("disappointet").unwrap();
    assert_eq!(expected, "disappointed");
    assert_eq!(typed("disappointet ", &AUTO), "disappointed ");
}

#[test]
fn chat_slang_is_left_alone_by_both_marking_and_autocorrect() {
    // The speller offers "goanna" for "gonna" and "urn" for "ur"; neither
    // word should be rewritten or marked.
    assert_eq!(typed("gonna ", &AUTO), "gonna ");
    assert_eq!(typed("ur ", &AUTO), "ur ");

    let mut state = State::default();
    type_in(&mut state, "gonna ", &AUTO);
    assert!(state.spell.highlight.misspelled.is_empty());
    assert!(is_chat_slang("gonna"));
    assert!(!is_chat_slang("teh"));
    assert!(!is_chat_slang("Gonna"));
    assert!(!is_chat_slang("UR"));
}

#[test]
fn an_undone_correction_is_not_made_again() {
    let expected = correction("teh").unwrap();
    let mut state = State::default();
    type_in(&mut state, "teh ", &AUTO);
    assert_eq!(state.body, format!("{expected} "));

    // Backspace takes the correction back...
    key(&mut state, Action::Edit(Edit::Backspace), &AUTO);
    assert_eq!(state.body, "teh");

    // ...and finishing the word again must leave it alone.
    key(&mut state, Action::Edit(Edit::Insert(' ')), &AUTO);
    assert_eq!(state.body, "teh ");

    // Still flagged, though — the bar keeps offering what autocorrect has
    // stopped doing on its own.
    assert!(state.spell.highlight.misspelled.contains("teh"));

    // And it stays rejected for the rest of the draft, not just once.
    type_in(&mut state, "teh ", &AUTO);
    assert_eq!(state.body, "teh teh ");
}

#[test]
fn a_rejection_does_not_outlive_the_draft() {
    let expected = correction("teh").unwrap();
    let mut state = State::default();
    type_in(&mut state, "teh ", &AUTO);
    key(&mut state, Action::Edit(Edit::Backspace), &AUTO);
    assert_eq!(state.body, "teh");

    // Sending clears the draft, and with it the rejection: the next message
    // starts from the same defaults as the first.
    update(&mut state, Message::SendSucceeded, &AUTO, &errors, &guesses);
    type_in(&mut state, "teh ", &AUTO);
    assert_eq!(state.body, format!("{expected} "));
}

#[test]
fn with_autocorrect_off_a_space_only_flags() {
    let mut state = State::default();
    type_in(&mut state, "teh", &ON);
    key(&mut state, Action::Edit(Edit::Insert(' ')), &ON);
    // Checking is on, so the word is marked — but never rewritten.
    assert_eq!(state.body, "teh ");
    assert!(state.spell.highlight.misspelled.contains("teh"));
}

fn say(state: &mut State, message: Message) -> (Followup, Effect) {
    update(state, message, &OFF, &errors, &guesses)
}

#[test]
fn typing_is_reported_while_the_draft_is_not_blank() {
    let mut state = State::default();
    assert!(matches!(key(&mut state, Action::Edit(Edit::Insert('h')), &OFF), Effect::Typing(true)));
    assert!(matches!(key(&mut state, Action::Edit(Edit::Backspace), &OFF), Effect::Typing(false)));
}

#[test]
fn a_blank_draft_is_not_sent() {
    let mut state = State::default();
    set_body(&mut state, "  \n ".to_string(), None);
    assert!(matches!(say(&mut state, Message::Send).1, Effect::Nothing));
}

#[test]
fn a_text_is_sent_and_the_draft_waits_for_the_answer() {
    let mut state = State::default();
    set_body(&mut state, "hello".to_string(), None);
    match say(&mut state, Message::Send).1 {
        Effect::Send { body, mentioned_user_ids, reply_to_event_id } => {
            assert_eq!(body, "hello");
            assert!(mentioned_user_ids.is_empty());
            assert_eq!(reply_to_event_id, None);
        },
        other => panic!("{:?}", other),
    }
    assert_eq!(state.body, "hello");
    say(&mut state, Message::SendFailed("offline".to_string()));
    assert_eq!(state.body, "hello");
    assert_eq!(state.error, Some("offline".to_string()));
    say(&mut state, Message::SendSucceeded);
    assert_eq!(state.body, "");
}

#[test]
fn files_wait_as_chips_and_go_out_before_text() {
    let mut state = State::default();
    say(&mut state, Message::AttachmentPicked(Ok(("a.png".to_string(), vec![1, 2, 3]))));
    say(&mut state, Message::AttachmentPicked(Ok(("b.bin".to_string(), vec![0; 2048]))));
    let shown = chips(&state);
    assert_eq!(shown.len(), 2);
    // The media type comes from the file's name.
    assert_eq!(state.staged_attachments[0].mime, "image/png");
    set_body(&mut state, "look".to_string(), None);
    match say(&mut state, Message::Send).1 {
        Effect::SendAttachment { filename, bytes, caption, .. } => {
            assert_eq!(filename, "a.png");
            assert_eq!(bytes, vec![1, 2, 3]);
            assert_eq!(caption, Some("look".to_string()));
        },
        other => panic!("{:?}", other),
    }
    // The batch's files stay staged until the server takes them.
    assert_eq!(state.staged_attachments.len(), 2);
    assert_eq!(state.sending_remaining, 2);
    assert_eq!(state.body, "");
}

#[test]
fn a_file_that_could_not_be_read_leaves_its_error() {
    let mut state = State::default();
    say(&mut state, Message::AttachmentPicked(Err("no such file".to_string())));
    assert_eq!(state.error, Some("no such file".to_string()));
    assert!(state.staged_attachments.is_empty());
}

#[test]
fn the_picker_button_toggles_and_switches_tabs() {
    let mut state = State::default();
    assert!(matches!(say(&mut state, Message::ToggleEmojiPicker).1, Effect::EnsureEmojiFetched));
    assert!(state.show_emoji_picker);
    assert!(matches!(
        say(&mut state, Message::ToggleStickerPicker).1,
        Effect::EnsureStickersFetched
    ));
    assert!(state.show_emoji_picker);
    assert_eq!(state.picker_tab, PickerTab::Sticker);
    assert!(matches!(say(&mut state, Message::ToggleStickerPicker).1, Effect::Nothing));
    assert!(!state.show_emoji_picker);
}

fn member(id: &str, name: &str) -> RoomMember {
    RoomMember {
        user_id: id.to_string(),
        display_name: name.to_string(),
        avatar_url: None,
        power_level: 0,
    }
}

#[test]
fn a_mention_is_looked_up_and_put_into_the_draft() {
    let mut state = State::default();
    state.member_candidates = vec![member("@bob:x", "Bob"), member("@ann:x", "Ann")];
    state.member_candidates_lower = vec!["bob".to_string(), "ann".to_string()];
    set_body(&mut state, "hi @an".to_string(), None);
    assert_eq!(active_mention_query(&state.body), Some("an"));
    assert_eq!(mention_candidates(&state), vec![1]);
    say(&mut state, Message::MentionCandidateClicked("@ann:x".to_string(), "Ann".to_string()));
    assert_eq!(state.body, "hi @Ann ");
    match say(&mut state, Message::Send).1 {
        Effect::Send { mentioned_user_ids, .. } => {
            assert_eq!(mentioned_user_ids, vec!["@ann:x".to_string()]);
        },
        other => panic!("{:?}", other),
    }
    assert_eq!(active_mention_query("mail me@home"), None);
    assert_eq!(active_mention_query("@bob has it"), None);
}

#[test]
fn enter_sends_and_shift_enter_breaks_the_line() {
    assert_eq!(send_on_enter(true, false), Binding::Send);
    assert_ne!(send_on_enter(true, true), Binding::Send);
    assert_ne!(send_on_enter(false, false), Binding::Send);
}

#[test]
fn text_is_inserted_at_the_caret() {
    let mut state = State::default();
    set_body(&mut state, "ac".to_string(), Some(1));
    say(&mut state, Message::InsertText("b".to_string()));
    assert_eq!(state.body, "abc");
    assert_eq!(state.caret, 2);
}

#[test]
fn a_restored_draft_has_its_caret_at_the_end() {
    let mut state = State::default();
    state.restore_draft("old é".to_string());
    assert_eq!(state.body, "old é");
    assert_eq!(state.caret, 6);
    assert!(!placeholder(&state).is_empty());
}

#[test]
fn a_picked_suggestion_replaces_the_flagged_word() {
    let mut state = State::default();
    type_in(&mut state, "teh cat", &ON);
    let held = content("teh cat", 1);
    update(&mut state, Message::Action(Action::Navigate, held), &ON, &errors, &guesses);
    assert_eq!(state.spell.flagged.as_ref().unwrap().word, "teh");
    update(&mut state, Message::SpellSuggestionPicked("the".to_string()), &ON, &errors, &guesses);
    assert_eq!(state.body, "the cat");
}

#[test]
fn positions_and_offsets_agree_across_line_endings() {
    let text = Content {
        lines: vec![
            Line { text: "ab".to_string(), ending: LineEnding::CrLf },
            Line { text: "cé".to_string(), ending: LineEnding::Bare },
        ],
        cursor: Position { line: 1, column: 3 },
    };
    assert_eq!(text.text(), "ab\r\ncé");
    assert_eq!(text.cursor_offset(), 7);
    for offset in [0, 1, 2, 4, 5, 7] {
        let p = text.position_at(offset);
        let at = Content {
            lines: vec![
                Line { text: "ab".to_string(), ending: LineEnding::CrLf },
                Line { text: "cé".to_string(), ending: LineEnding::Bare },
            ],
            cursor: p,
        };
        assert_eq!(at.cursor_offset(), offset);
    }
    assert!(text.splits_ending(3));
    assert!(!text.splits_ending(4));
}
