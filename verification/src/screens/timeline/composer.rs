//! Message composer: mention completion, emoji and sticker picking, spell
//! check, and attachment staging. Picked or pasted files wait as chips above
//! the input until Enter, with any typed text riding out as the first file's
//! caption.
//!
//! The draft is a plain string with a caret, kept as a byte offset. The editor
//! widget reports every action together with what it holds afterwards; every
//! programmatic edit goes through [`set_body`], and the widget is rebuilt from
//! the draft and the caret.
//!
//! Nothing here talks to a server: an update returns an [`Effect`], and
//! whoever carries it out feeds the outcome back.

use vstd::prelude::*;

use crate::events::{ReplyPreview, RequestId, RoomMember};
use crate::mime;
use crate::screens::timeline::editor;
use crate::screens::timeline::editor::{Action, Content, Edit};
use crate::screens::timeline::spell;
use crate::sizes;
use crate::spellcheck;
use crate::spellcheck::{Analysis, SpellError};
use crate::spellcheck_config::SpellcheckConfig;
use crate::spellcheck_highlight;
use crate::spellcheck_highlight::Token;
use crate::synthetic_input;
use crate::text;

pub use crate::screens::timeline::spell::{Flagged, Revert, SpellState};

verus! {

/// Which tab the picker shows while open.
#[derive(Debug, Clone, Copy, PartialEq, Eq, Structural)]
pub enum PickerTab {
    Emoji,
    Sticker,
}

/// A point of the window, its coordinates as the bit patterns of `f32`s: they
/// are only ever carried.
#[derive(Debug, Clone, Copy, PartialEq, Eq, Structural)]
pub struct Point {
    pub x: u32,
    pub y: u32,
}

/// A file waiting in the composer to be sent.
#[derive(Debug)]
pub struct StagedAttachment {
    pub filename: String,
    pub bytes: Vec<u8>,
    /// Guessed from the file name, once, at staging time.
    pub mime: String,
    /// Whether the chip shows a thumbnail.
    pub preview: bool,
}

/// The text, mentions and reply captured when Enter dispatched an attachment
/// batch. Kept until that send resolves, so that a failure restores the draft
/// instead of eating it.
#[derive(Debug)]
pub struct CarriedText {
    pub body: String,
    pub mentioned: Vec<(String, String)>,
    pub replying_to: Option<ReplyPreview>,
}

/// The composer.
#[derive(Debug)]
pub struct State {
    /// The draft.
    pub body: String,
    /// The caret, as a byte offset into the draft.
    pub caret: usize,
    pub show_emoji_picker: bool,
    pub picker_tab: PickerTab,
    pub member_candidates: Vec<RoomMember>,
    /// Lowercased display names, index-parallel to `member_candidates`.
    pub member_candidates_lower: Vec<String>,
    /// Mentions the user has confirmed, by user id and display name; attached
    /// on send, then cleared.
    pub mentioned: Vec<(String, String)>,
    /// Set while composing a reply.
    pub replying_to: Option<ReplyPreview>,
    /// In-flight text send.
    pub pending_request: Option<RequestId>,
    /// In-flight attachment upload, tracked apart from text sends: its success
    /// must not wipe a typed but unsent draft.
    pub pending_attachment_request: Option<RequestId>,
    /// In-flight sticker send, tracked apart for the same reason.
    pub pending_sticker_request: Option<RequestId>,
    /// Files waiting to be sent. While a batch is sending, the front entry is
    /// the in-flight upload; it stays staged until the server takes it.
    pub staged_attachments: Vec<StagedAttachment>,
    /// How many entries at the front of `staged_attachments` belong to the
    /// batch being sent. Files staged during an upload wait for their own
    /// Enter.
    pub sending_remaining: usize,
    /// Snapshot of the text that rides on the batch being sent.
    pub carried: Option<CarriedText>,
    pub error: Option<String>,
    pub spell: SpellState,
    /// Where the input's edit menu opened, while it is showing.
    pub context_menu: Option<Point>,
}

/// What the composer reacts to.
#[derive(Debug)]
pub enum Message {
    /// The editor performed an edit or a caret move, and now holds this.
    Action(Action, Content),
    Send,
    ToggleEmojiPicker,
    ToggleStickerPicker,
    /// Dismiss the picker (a click outside of it).
    ClosePicker,
    SelectPickerTab(PickerTab),
    EmojiPicked(String),
    CustomEmojiPicked { shortcode: String, mxc_url: String },
    /// A sticker was picked. The picker stays open, so that several can go out
    /// in a row.
    StickerPicked { url: String, body: String, width: Option<u32>, height: Option<u32> },
    MentionCandidateClicked(String, String),
    PickAttachment,
    /// A file's bytes arrived: staged as a chip above the input, not sent.
    AttachmentPicked(Result<(String, Vec<u8>), String>),
    /// The × of a staged attachment's chip was clicked.
    RemoveStagedAttachment(usize),
    /// A suggestion was clicked: replace the flagged word with it.
    SpellSuggestionPicked(String),
    /// "Add to dictionary" was clicked for the flagged word.
    SpellAddToDictionary,
    /// The speller's personal dictionary has changed.
    DictionaryChanged,
    /// The input was right-clicked.
    OpenContextMenu,
    CloseContextMenu,
    ContextCut,
    ContextCopy,
    ContextPaste,
    ContextSelectAll,
    /// Insert text at the caret: the edit menu's Paste.
    InsertText(String),
    CancelReply,
    /// Fed back once the in-flight text send resolves.
    SendSucceeded,
    SendFailed(String),
}

/// What is to be carried out.
#[derive(Debug)]
pub enum Effect {
    Nothing,
    Send { body: String, mentioned_user_ids: Vec<String>, reply_to_event_id: Option<String> },
    PickAttachment,
    /// Upload and send one attachment. Only the first file of a batch carries
    /// the caption, the mentions and the reply.
    SendAttachment {
        filename: String,
        bytes: Vec<u8>,
        mime: String,
        caption: Option<String>,
        mentioned_user_ids: Vec<String>,
        reply_to_event_id: Option<String>,
    },
    Typing(bool),
    /// The emoji picker shows: have the image of every emoji fetched.
    EnsureEmojiFetched,
    /// The sticker tab shows: have the collected stickers' images fetched.
    EnsureStickersFetched,
    SendSticker { url: String, body: String, width: Option<u32>, height: Option<u32> },
    /// An emoji was used: the glyph of a plain one, the URL of a custom one.
    EmojiUsed(String),
    /// Open the edit menu at the pointer.
    OpenContextMenu,
    /// Replay the clipboard chord at the focused input.
    ClipboardEdit(synthetic_input::Edit),
    /// Read the clipboard and hand its content back.
    PasteFromClipboard,
    /// Add the word to the speller's personal dictionary, then report
    /// [`Message::DictionaryChanged`].
    AddToDictionary(String),
}

/// What the input widget is to do after an update.
#[derive(Debug, Clone, Copy, PartialEq, Eq, Structural)]
pub enum Followup {
    Nothing,
    FocusInput,
    /// Focus, then select: focusing puts the caret at the end, so selecting
    /// must come second.
    FocusThenSelectAll,
}

// ---------------------------------------------------------------------------
// The model.
// ---------------------------------------------------------------------------
impl State {
    /// The caret stands between two characters of the draft, and a batch is
    /// made of staged files.
    pub open spec fn wf(&self) -> bool {
        &&& text::boundary(self.body@, self.caret as int)
        &&& self.sending_remaining <= self.staged_attachments@.len()
    }

    /// Nothing typed, nothing staged, nothing under way.
    pub open spec fn fresh(&self) -> bool {
        &&& self.body@.len() == 0
        &&& self.caret == 0
        &&& !self.show_emoji_picker
        &&& self.picker_tab == PickerTab::Emoji
        &&& self.member_candidates@.len() == 0
        &&& self.member_candidates_lower@.len() == 0
        &&& self.mentioned@.len() == 0
        &&& self.replying_to is None
        &&& self.pending_request is None
        &&& self.pending_attachment_request is None
        &&& self.pending_sticker_request is None
        &&& self.staged_attachments@.len() == 0
        &&& self.sending_remaining == 0
        &&& self.carried is None
        &&& self.error is None
        &&& self.spell.blank()
        &&& self.spell.highlight.revision == 0
        &&& self.context_menu is None
    }
}

/// The user ids of a list of mentions.
pub open spec fn mention_ids(mentioned: Seq<(String, String)>) -> Seq<Seq<char>> {
    Seq::new(mentioned.len(), |i: int| mentioned[i].0@)
}

/// Whether the draft and the caret are these, and all else but the spell
/// state is as it was.
pub open spec fn redrafted(before: State, after: State, body: Seq<char>, caret: int) -> bool {
    &&& after.body@ == body
    &&& after.caret == caret
    &&& after == (State { body: after.body, caret: after.caret, spell: after.spell, ..before })
}

/// The text between the first and the last character that is not white space,
/// where there is one.
pub open spec fn caption_of(body: Seq<char>) -> Option<Seq<char>> {
    if text::trimmed(body).len() == 0 {
        None
    } else {
        Some(text::trimmed(body))
    }
}

/// The event that a reply answers.
pub open spec fn reply_target(r: Option<ReplyPreview>) -> Option<Seq<char>> {
    match r {
        Some(p) => Some(p.event_id@),
        None => None,
    }
}

/// The word autocorrect may rewrite: the one the caret has just finished,
/// where it is prose, starts lowercase, is no slang and was not un-corrected
/// before.
pub open spec fn correctable(s: Seq<char>, cursor: int, rejected: Set<Seq<char>>) -> Option<
    Token,
> {
    match spell::finished_token(s, cursor) {
        Some(t) => {
            let w = t.core_of(s);
            if spellcheck_highlight::checkable(t.raw_of(s)) && spell::lower_start(w)
                && !spell::slang(w) && !rejected.contains(w) {
                Some(t)
            } else {
                None
            }
        },
        None => None,
    }
}

/// Whether `c` is the correction that a verdict on `w` comes to.
pub open spec fn chosen(w: Seq<char>, a: Analysis, c: Option<Seq<char>>) -> bool {
    if a.misspelled {
        spellcheck::is_correction(
            w,
            text::opt_view(a.replacement),
            text::views(a.suggestions@),
            c,
        )
    } else {
        c is None
    }
}

/// How to take back the correction of `t` to `c`.
pub open spec fn takes_back(r: Revert, s: Seq<char>, t: Token, c: Seq<char>) -> bool {
    &&& r.range.start == text::byte_at(s, t.core.0)
    &&& r.range.end == text::byte_at(s, t.core.0) + text::byte_len(c)
    &&& r.corrected@ == c
    &&& r.original@ == t.core_of(s)
}

/// Whether autocorrect, run on the draft `s` with the caret at `cursor`,
/// leaves this draft, caret and spell state.
pub open spec fn autocorrected<E: Fn(&str) -> Option<SpellError>, G: Fn(&str) -> Vec<String>>(
    before: SpellState,
    s: Seq<char>,
    cursor: int,
    after: SpellState,
    body: Seq<char>,
    caret: int,
    errors: E,
    guesses: G,
) -> bool {
    match correctable(s, cursor, before.rejected@) {
        None => after == before && body == s && caret == cursor,
        Some(t) => exists|a: Analysis, c: Option<Seq<char>>| #[trigger]
            spell::analysed(errors, guesses, t.core_of(s), a) && #[trigger] chosen(
                t.core_of(s),
                a,
                c,
            ) && match c {
                None => after == before && body == s && caret == cursor,
                Some(w) => {
                    &&& body == text::spliced(s, t.core.0, t.core.1, w)
                    &&& caret == cursor - text::byte_len(t.core_of(s)) + text::byte_len(w)
                    &&& after == (SpellState { pending_revert: after.pending_revert, ..before })
                    &&& after.pending_revert matches Some(r) && takes_back(r, s, t, w)
                },
            },
    }
}

/// The spell state once a revert has been used up.
pub open spec fn without_revert(s: SpellState) -> SpellState {
    SpellState { pending_revert: None, ..s }
}

/// What the Backspace right behind a correction restores.
pub open spec fn undo_of(before: State, action: Action, s: Seq<char>, cursor: int) -> Option<
    (Seq<char>, int),
> {
    match (action, before.spell.pending_revert) {
        (Action::Edit(Edit::Backspace), Some(r)) => spell::undone(r, s, cursor),
        _ => None,
    }
}

/// Whether `mid` is the spell state with the un-corrected word noted.
pub open spec fn noted(before: SpellState, mid: SpellState, w: Seq<char>) -> bool {
    &&& mid.rejected@ == before.rejected@.insert(w)
    &&& mid == (SpellState { rejected: mid.rejected, ..without_revert(before) })
}

/// What an editor action leaves: the editor's text and caret, with an
/// autocorrect taken back or a new one made, checked again.
pub open spec fn acted<E: Fn(&str) -> Option<SpellError>, G: Fn(&str) -> Vec<String>>(
    before: State,
    after: State,
    action: Action,
    content: Content,
    cfg: SpellcheckConfig,
    errors: E,
    guesses: G,
) -> bool {
    let s = editor::flat(content.lines@);
    let cursor = editor::offset_of(content.lines@, content.cursor) as int;
    &&& after == (State {
        body: after.body,
        caret: after.caret,
        spell: after.spell,
        error: if action is Edit {
            None
        } else {
            before.error
        },
        context_menu: None,
        ..before
    })
    &&& match undo_of(before, action, s, cursor) {
        Some((body, caret)) => {
            &&& after.body@ == body
            &&& after.caret == caret
            &&& exists|mid: SpellState| #[trigger]
                noted(before.spell, mid, before.spell.pending_revert->0.original@)
                    && spell::recomputed(mid, after.spell, body, caret, cfg, errors, guesses)
        },
        None => if cfg.autocorrect && editor::finishes_word(action) {
            exists|mid: SpellState| #[trigger]
                autocorrected(
                    without_revert(before.spell),
                    s,
                    cursor,
                    mid,
                    after.body@,
                    after.caret as int,
                    errors,
                    guesses,
                ) && spell::recomputed(
                    mid,
                    after.spell,
                    after.body@,
                    after.caret as int,
                    cfg,
                    errors,
                    guesses,
                )
        } else {
            &&& after.body@ == s
            &&& after.caret == cursor
            &&& spell::recomputed(
                without_revert(before.spell),
                after.spell,
                s,
                cursor,
                cfg,
                errors,
                guesses,
            )
        },
    }
}

/// The draft with `t` inserted at the caret.
pub open spec fn with_inserted(s: State, t: Seq<char>) -> Seq<char> {
    let k = text::index_at(s.body@, s.caret as int);
    text::spliced(s.body@, k, k, t)
}

/// What inserting text at the caret leaves: the caret stands behind it, no
/// correction can be taken back, and the draft is checked again.
pub open spec fn inserted<E: Fn(&str) -> Option<SpellError>, G: Fn(&str) -> Vec<String>>(
    before: State,
    after: State,
    t: Seq<char>,
    cfg: SpellcheckConfig,
    errors: E,
    guesses: G,
) -> bool {
    &&& redrafted(before, after, with_inserted(before, t), before.caret + text::byte_len(t))
    &&& spell::recomputed(
        without_revert(before.spell),
        after.spell,
        after.body@,
        after.caret as int,
        cfg,
        errors,
        guesses,
    )
}

/// The text before the last `@`, or all of it.
pub open spec fn before_mention(s: Seq<char>) -> Seq<char> {
    let n = text::end_before(s, text::is_char('@'), s.len() as int);
    if n > 0 {
        s.take(n - 1)
    } else {
        s
    }
}

/// Whether a mention of the user is confirmed.
pub open spec fn is_mentioned(mentioned: Seq<(String, String)>, user_id: Seq<char>) -> bool {
    exists|i: int| 0 <= i < mentioned.len() && (#[trigger] mentioned[i]).0@ == user_id
}

/// What completing a mention leaves.
pub open spec fn completed(
    before: State,
    after: State,
    user_id: String,
    display_name: String,
) -> bool {
    let body = before_mention(before.body@) + seq!['@'] + display_name@ + seq![' '];
    &&& after.body@ == body
    &&& after.caret == text::byte_len(body)
    &&& after.mentioned@ == if is_mentioned(before.mentioned@, user_id@) {
        before.mentioned@
    } else {
        before.mentioned@.push((user_id, display_name))
    }
    &&& after == (State {
        body: after.body,
        caret: after.caret,
        mentioned: after.mentioned,
        spell: SpellState { flagged: None, ..without_revert(before.spell) },
        ..before
    })
}

/// Whether exactly this file is staged already.
pub open spec fn is_staged(
    staged: Seq<StagedAttachment>,
    filename: Seq<char>,
    bytes: Seq<u8>,
) -> bool {
    exists|i: int|
        0 <= i < staged.len() && (#[trigger] staged[i]).filename@ == filename
            && staged[i].bytes@ == bytes
}

/// Whether `a` is the staged form of a file whose name has this media type.
pub open spec fn staged_as(
    a: StagedAttachment,
    filename: String,
    bytes: Vec<u8>,
    mime: Seq<char>,
) -> bool {
    &&& a.filename == filename
    &&& a.bytes == bytes
    &&& a.mime@ == mime
    &&& a.preview == mime::image_mime(mime)
}

/// What staging a file with a known media type leaves: a file that is staged
/// already is not staged again.
pub open spec fn staged(
    before: State,
    after: State,
    filename: String,
    bytes: Vec<u8>,
    mime: Seq<char>,
) -> bool {
    if is_staged(before.staged_attachments@, filename@, bytes@) {
        after == before
    } else {
        &&& after.staged_attachments@.len() == before.staged_attachments@.len() + 1
        &&& after.staged_attachments@.drop_last() == before.staged_attachments@
        &&& staged_as(after.staged_attachments@.last(), filename, bytes, mime)
        &&& after == (State {
            staged_attachments: after.staged_attachments,
            error: None,
            ..before
        })
    }
}

/// What staging a file leaves: its media type is guessed from its name.
pub open spec fn picked(before: State, after: State, filename: String, bytes: Vec<u8>) -> bool {
    exists|m: Seq<char>| #[trigger]
        staged(before, after, filename, bytes, m) && (mime::portable(filename@) ==> m
            == mime::guessed_mime(filename@)) && (!filename@.contains('.') ==> m
            == "application/octet-stream"@)
}

/// What unstaging leaves: the in-flight upload at the front stays, and a batch
/// that loses a file is one shorter.
pub open spec fn unstaged(before: State, after: State, index: usize) -> bool {
    if index < before.staged_attachments@.len() && !(index == 0
        && before.pending_attachment_request is Some) {
        &&& after.staged_attachments@ == before.staged_attachments@.remove(index as int)
        &&& after == (State {
            staged_attachments: after.staged_attachments,
            sending_remaining: if index < before.sending_remaining {
                (before.sending_remaining - 1) as usize
            } else {
                before.sending_remaining
            },
            ..before
        })
    } else {
        after == before
    }
}

/// Whether the flagged word still stands where it was flagged.
pub open spec fn flag_stands(s: State) -> bool {
    s.spell.flagged matches Some(f) && spell::slice_is(
        s.body@,
        f.range.start as int,
        f.range.end as int,
        f.word@,
    )
}

/// What picking a suggestion leaves: the flagged word is replaced where it
/// still stands, and the caret goes behind it.
pub open spec fn suggestion_taken<E: Fn(&str) -> Option<SpellError>, G: Fn(&str) -> Vec<String>>(
    before: State,
    after: State,
    replacement: Seq<char>,
    cfg: SpellcheckConfig,
    errors: E,
    guesses: G,
) -> bool {
    let mid = SpellState { flagged: None, ..without_revert(before.spell) };
    &&& if flag_stands(before) {
        let f = before.spell.flagged->0;
        redrafted(
            before,
            after,
            text::spliced(
                before.body@,
                text::index_at(before.body@, f.range.start as int),
                text::index_at(before.body@, f.range.end as int),
                replacement,
            ),
            f.range.start + text::byte_len(replacement),
        )
    } else {
        redrafted(before, after, before.body@, before.caret as int)
    }
    &&& spell::recomputed(
        mid,
        after.spell,
        after.body@,
        after.caret as int,
        cfg,
        errors,
        guesses,
    )
}

/// Whether `mid` is the spell state with every remembered verdict dropped.
pub open spec fn forgot(before: SpellState, mid: SpellState) -> bool {
    &&& mid.verdicts@.len() == 0
    &&& mid == (SpellState { flagged: None, verdicts: mid.verdicts, flag_memo: None, ..before })
}

/// What a change of the dictionary leaves: nothing remembered, and the draft
/// checked again.
pub open spec fn rechecked<E: Fn(&str) -> Option<SpellError>, G: Fn(&str) -> Vec<String>>(
    before: State,
    after: State,
    cfg: SpellcheckConfig,
    errors: E,
    guesses: G,
) -> bool {
    &&& after == (State { spell: after.spell, ..before })
    &&& exists|mid: SpellState| #[trigger]
        forgot(before.spell, mid) && spell::recomputed(
            mid,
            after.spell,
            before.body@,
            before.caret as int,
            cfg,
            errors,
            guesses,
        )
}

/// Whether `c` is the text, mentions and reply of the composer.
pub open spec fn carries(s: State, c: CarriedText) -> bool {
    &&& c.body@ == s.body@
    &&& c.mentioned@ == s.mentioned@
    &&& c.replying_to == s.replying_to
}

/// What Enter leaves, and what is sent: the first staged file with the text as
/// its caption, or the text; nothing while that kind of send is under way.
pub open spec fn sent(before: State, after: State, effect: Effect) -> bool {
    let closed = State { context_menu: None, ..before };
    if before.staged_attachments@.len() > 0 {
        if before.pending_attachment_request is Some {
            after == closed && effect is Nothing
        } else {
            let first = before.staged_attachments@[0];
            &&& after.body@.len() == 0
            &&& after.caret == 0
            &&& after.mentioned@.len() == 0
            &&& after.carried matches Some(c) && carries(before, c)
            &&& after.spell.blank()
            &&& after.spell.highlight.revision == before.spell.highlight.revision
            &&& after == (State {
                body: after.body,
                caret: after.caret,
                mentioned: after.mentioned,
                carried: after.carried,
                spell: after.spell,
                replying_to: None,
                error: None,
                sending_remaining: before.staged_attachments@.len() as usize,
                ..closed
            })
            &&& effect matches Effect::SendAttachment {
                filename,
                bytes,
                mime,
                caption,
                mentioned_user_ids,
                reply_to_event_id,
            } && filename == first.filename && bytes@ == first.bytes@ && mime == first.mime
                && text::opt_view(caption) == caption_of(before.body@) && text::views(
                mentioned_user_ids@,
            ) == mention_ids(before.mentioned@) && text::opt_view(reply_to_event_id)
                == reply_target(before.replying_to)
        }
    } else {
        &&& after == closed
        &&& if before.pending_request is Some || text::trimmed(before.body@).len() == 0 {
            effect is Nothing
        } else {
            effect matches Effect::Send { body, mentioned_user_ids, reply_to_event_id } && body@
                == text::trimmed(before.body@) && text::views(mentioned_user_ids@) == mention_ids(
                before.mentioned@,
            ) && text::opt_view(reply_to_event_id) == reply_target(before.replying_to)
        }
    }
}

/// What a text send that went through leaves: a fresh draft. The highlighter
/// revision goes on counting.
pub open spec fn cleared(before: State, after: State) -> bool {
    &&& after.body@.len() == 0
    &&& after.caret == 0
    &&& after.mentioned@.len() == 0
    &&& after.spell.blank()
    &&& after.spell.highlight.revision == before.spell.highlight.revision
    &&& after == (State {
        body: after.body,
        caret: after.caret,
        mentioned: after.mentioned,
        spell: after.spell,
        replying_to: None,
        pending_request: None,
        error: None,
        ..before
    })
}

/// What a click on a picker button leaves: it closes the picker on its own
/// tab, and opens it or switches it to that tab otherwise.
pub open spec fn toggled(before: State, after: State, tab: PickerTab) -> bool {
    if before.show_emoji_picker && before.picker_tab == tab {
        after == (State { show_emoji_picker: false, ..before })
    } else {
        after == (State { show_emoji_picker: true, picker_tab: tab, ..before })
    }
}

/// What a tab that shows has fetched.
pub open spec fn tab_effect(tab: PickerTab) -> Effect {
    match tab {
        PickerTab::Emoji => Effect::EnsureEmojiFetched,
        PickerTab::Sticker => Effect::EnsureStickersFetched,
    }
}

/// What a custom emoji puts into the draft.
pub open spec fn emoji_code(shortcode: Seq<char>) -> Seq<char> {
    seq![':'] + shortcode + seq![':', ' ']
}

/// What a message leaves of the composer, and what is to be carried out.
pub open spec fn updated<E: Fn(&str) -> Option<SpellError>, G: Fn(&str) -> Vec<String>>(
    before: State,
    after: State,
    message: Message,
    cfg: SpellcheckConfig,
    errors: E,
    guesses: G,
    followup: Followup,
    effect: Effect,
) -> bool {
    match message {
        Message::Action(action, content) => {
            &&& acted(before, after, action, content, cfg, errors, guesses)
            &&& followup == Followup::Nothing
            &&& effect == if action is Edit {
                Effect::Typing(text::trimmed(editor::flat(content.lines@)).len() > 0)
            } else {
                Effect::Nothing
            }
        },
        Message::Send => sent(before, after, effect) && followup == Followup::Nothing,
        Message::ToggleEmojiPicker => {
            &&& toggled(before, after, PickerTab::Emoji)
            &&& followup == Followup::Nothing
            &&& effect == if after.show_emoji_picker {
                Effect::EnsureEmojiFetched
            } else {
                Effect::Nothing
            }
        },
        Message::ToggleStickerPicker => {
            &&& toggled(before, after, PickerTab::Sticker)
            &&& followup == Followup::Nothing
            &&& effect == if after.show_emoji_picker {
                Effect::EnsureStickersFetched
            } else {
                Effect::Nothing
            }
        },
        Message::ClosePicker => {
            &&& after == (State { show_emoji_picker: false, ..before })
            &&& followup == Followup::Nothing
            &&& effect is Nothing
        },
        Message::SelectPickerTab(tab) => {
            &&& after == (State { picker_tab: tab, ..before })
            &&& followup == Followup::Nothing
            &&& effect == tab_effect(tab)
        },
        Message::EmojiPicked(glyph) => {
            &&& inserted(before, after, glyph@, cfg, errors, guesses)
            &&& followup == Followup::Nothing
            &&& effect == Effect::EmojiUsed(glyph)
        },
        Message::CustomEmojiPicked { shortcode, mxc_url } => {
            &&& inserted(before, after, emoji_code(shortcode@), cfg, errors, guesses)
            &&& followup == Followup::Nothing
            &&& effect == Effect::EmojiUsed(mxc_url)
        },
        Message::StickerPicked { url, body, width, height } => {
            &&& after == before
            &&& followup == Followup::Nothing
            &&& effect == (Effect::SendSticker { url, body, width, height })
        },
        Message::MentionCandidateClicked(user_id, display_name) => {
            &&& completed(before, after, user_id, display_name)
            &&& followup == Followup::Nothing
            &&& effect is Nothing
        },
        Message::PickAttachment => {
            &&& after == before
            &&& followup == Followup::Nothing
            &&& effect is PickAttachment
        },
        Message::AttachmentPicked(Ok((filename, bytes))) => {
            &&& picked(before, after, filename, bytes)
            &&& followup == Followup::Nothing
            &&& effect is Nothing
        },
        Message::AttachmentPicked(Err(reason)) => {
            &&& after == (State { error: Some(reason), ..before })
            &&& followup == Followup::Nothing
            &&& effect is Nothing
        },
        Message::RemoveStagedAttachment(index) => {
            &&& unstaged(before, after, index)
            &&& followup == Followup::Nothing
            &&& effect is Nothing
        },
        Message::SpellSuggestionPicked(replacement) => {
            &&& suggestion_taken(before, after, replacement@, cfg, errors, guesses)
            &&& followup == Followup::Nothing
            &&& effect is Nothing
        },
        Message::SpellAddToDictionary => {
            &&& followup == Followup::Nothing
            &&& match before.spell.flagged {
                Some(f) => {
                    &&& after == (State {
                        spell: SpellState { flagged: None, ..before.spell },
                        ..before
                    })
                    &&& effect == Effect::AddToDictionary(f.word)
                },
                None => rechecked(before, after, cfg, errors, guesses) && effect is Nothing,
            }
        },
        Message::DictionaryChanged => {
            &&& rechecked(before, after, cfg, errors, guesses)
            &&& followup == Followup::Nothing
            &&& effect is Nothing
        },
        Message::OpenContextMenu => {
            &&& after == before
            &&& followup == Followup::Nothing
            &&& effect is OpenContextMenu
        },
        Message::CloseContextMenu => {
            &&& after == (State { context_menu: None, ..before })
            &&& followup == Followup::Nothing
            &&& effect is Nothing
        },
        Message::ContextCut => {
            &&& after == (State { context_menu: None, ..before })
            &&& followup == Followup::Nothing
            &&& effect == Effect::ClipboardEdit(synthetic_input::Edit::Cut)
        },
        Message::ContextCopy => {
            &&& after == (State { context_menu: None, ..before })
            &&& followup == Followup::Nothing
            &&& effect == Effect::ClipboardEdit(synthetic_input::Edit::Copy)
        },
        Message::ContextPaste => {
            &&& after == (State { context_menu: None, ..before })
            &&& followup == Followup::Nothing
            &&& effect is PasteFromClipboard
        },
        Message::ContextSelectAll => {
            &&& after == (State { context_menu: None, ..before })
            &&& followup == Followup::FocusThenSelectAll
            &&& effect is Nothing
        },
        Message::InsertText(t) => {
            &&& inserted(State { error: None, ..before }, after, t@, cfg, errors, guesses)
            &&& followup == Followup::FocusInput
            &&& effect == Effect::Typing(text::trimmed(after.body@).len() > 0)
        },
        Message::CancelReply => {
            &&& after == (State { replying_to: None, ..before })
            &&& followup == Followup::Nothing
            &&& effect is Nothing
        },
        Message::SendSucceeded => {
            &&& cleared(before, after)
            &&& followup == Followup::Nothing
            &&& effect == Effect::Typing(false)
        },
        Message::SendFailed(reason) => {
            &&& after == (State { pending_request: None, error: Some(reason), ..before })
            &&& followup == Followup::Nothing
            &&& effect is Nothing
        },
    }
}

// ---------------------------------------------------------------------------
// The draft.
// ---------------------------------------------------------------------------
/// Replaces the draft wholesale and puts the caret at `caret` (or the end).
/// This is the path every programmatic edit takes. A caret past the end goes
/// to the end.
pub fn set_body(state: &mut State, body: String, caret: Option<usize>)
    requires
        caret matches Some(c) ==> c >= text::byte_len(body@) || text::boundary(body@, c as int),
    ensures
        final(state).body == body,
        final(state).caret == match caret {
            Some(c) => if c <= text::byte_len(body@) {
                c as int
            } else {
                text::byte_len(body@) as int
            },
            None => text::byte_len(body@) as int,
        },
        caret matches Some(c) && text::boundary(body@, c as int) ==> final(state).caret == caret->0,
        text::boundary(final(state).body@, final(state).caret as int),
        *final(state) == (State {
            body: final(state).body,
            caret: final(state).caret,
            ..*old(state)
        }),
{
    proof {
        text::lemma_ends_are_boundaries(body@);
        if let Some(c) = caret {
            if text::boundary(body@, c as int) {
                let k = text::index_at(body@, c as int);
                assert(text::is_index(body@, c as int, k));
                text::lemma_byte_at_monotone(body@, k, body@.len() as int);
            }
        }
    }
    let end: usize = text::byte_length(body.as_str());
    state.caret = match caret {
        Some(c) => if c <= end {
            c
        } else {
            end
        },
        None => end,
    };
    state.body = body;
}

/// Whether two lists of bytes are the same.
fn bytes_eq(a: &Vec<u8>, b: &Vec<u8>) -> (r: bool)
    ensures
        r == (a@ == b@),
{
    if a.len() != b.len() {
        return false;
    }
    let mut i: usize = 0;
    while i < a.len()
        invariant
            i <= a@.len(),
            a@.len() == b@.len(),
            forall|k: int| 0 <= k < i ==> a@[k] == b@[k],
        decreases a@.len() - i,
    {
        if a[i] != b[i] {
            assert(a@[i as int] != b@[i as int]);
            return false;
        }
        i = i + 1;
    }
    assert(a@ =~= b@);
    true
}

/// The user ids of a list of mentions.
fn ids_of(mentioned: &Vec<(String, String)>) -> (r: Vec<String>)
    ensures
        text::views(r@) == mention_ids(mentioned@),
{
    let mut r: Vec<String> = Vec::new();
    let mut i: usize = 0;
    while i < mentioned.len()
        invariant
            i <= mentioned@.len(),
            r@.len() == i,
            forall|k: int| 0 <= k < i ==> (#[trigger] r@[k])@ == mentioned@[k].0@,
        decreases mentioned@.len() - i,
    {
        r.push(mentioned[i].0.clone());
        i = i + 1;
    }
    assert(text::views(r@) =~= mention_ids(mentioned@));
    r
}

/// The event that a reply answers.
fn target_of(r: &Option<ReplyPreview>) -> (id: Option<String>)
    ensures
        text::opt_view(id) == reply_target(*r),
{
    match r {
        Some(p) => Some(p.event_id.clone()),
        None => None,
    }
}

/// Corrects the word the caret has just finished, if the speller offers a
/// plausible fix, and records how to undo it on the next Backspace. Only the
/// word is swapped: what the user typed behind it stays, so the caret keeps
/// its distance from the end of the word.
fn maybe_autocorrect<E: Fn(&str) -> Option<SpellError>, G: Fn(&str) -> Vec<String>>(
    state: &mut State,
    errors: &E,
    guesses: &G,
)
    requires
        text::boundary(old(state).body@, old(state).caret as int),
        forall|q: &str| call_requires(*errors, (q,)),
        forall|q: &str| call_requires(*guesses, (q,)),
    ensures
        autocorrected(
            old(state).spell,
            old(state).body@,
            old(state).caret as int,
            final(state).spell,
            final(state).body@,
            final(state).caret as int,
            *errors,
            *guesses,
        ),
        text::boundary(final(state).body@, final(state).caret as int),
        *final(state) == (State {
            body: final(state).body,
            caret: final(state).caret,
            spell: final(state).spell,
            ..*old(state)
        }),
{
    let ghost s = state.body@;
    let ghost cursor = state.caret as int;
    let cursor_at: usize = state.caret;
    let found = spell::word_before_cursor(state.body.as_str(), cursor_at);
    let word = match found {
        Some(word) => word,
        None => {
            return;
        },
    };
    let ghost t = spell::finished_token(s, cursor)->0;
    let original: String = word.core.to_owned();
    if !(spellcheck_highlight::is_checkable(word.raw) && spell::starts_lowercase(
        original.as_str(),
    ) && !spell::is_chat_slang(original.as_str())) {
        return;
    }
    if state.spell.rejected.contains(original.as_str()) {
        return;
    }
    let start: usize = word.range.start;
    let v = text::chars(state.body.as_str());
    proof {
        let ts = spellcheck_highlight::tokens(s);
        let p = |x: Token| text::byte_at(s, x.raw.1) < cursor;
        spell::lemma_leading(ts, p, 0);
        spellcheck_highlight::law_words_are_ordered_and_disjoint(s);
        assert(t.fits(s));
        assert(p(t));
        assert(text::is_index(s, start as int, t.core.0));
        assert(text::is_index(s, word.range.end as int, t.core.1));
        text::lemma_index_unique(s, start as int, t.core.0, t.core.0);
        text::lemma_index_unique(s, word.range.end as int, t.core.1, t.core.1);
    }
    let first = text::char_index(state.body.as_str(), &v, start);
    let last = text::char_index(state.body.as_str(), &v, word.range.end);
    let (a, b) = match (first, last) {
        (Some(a), Some(b)) => (a, b),
        _ => {
            return;
        },
    };
    proof {
        text::lemma_index_unique(s, start as int, t.core.0, a as int);
        text::lemma_index_unique(s, word.range.end as int, t.core.1, b as int);
    }
    let analysis = spell::ask(original.as_str(), errors, guesses);
    let correction = match spellcheck::top_correction(original.as_str(), &analysis) {
        Some(correction) => correction,
        None => {
            assert(chosen(t.core_of(s), analysis, None));
            return;
        },
    };
    assert(chosen(t.core_of(s), analysis, Some(correction@)));
    let body = text::splice(state.body.as_str(), a, b, correction.as_str());
    let width: usize = text::byte_length(correction.as_str());
    let old_width: usize = text::byte_length(original.as_str());
    let total: usize = text::byte_length(body.as_str());
    proof {
        let k = text::index_at(s, cursor);
        assert(text::is_index(s, cursor, k));
        if k < t.raw.1 {
            text::lemma_byte_at_monotone(s, k, t.raw.1);
        }
        text::lemma_spliced_later(s, a as int, b as int, correction@, k);
        text::lemma_spliced_offset(s, a as int, b as int, correction@);
        text::lemma_byte_at_monotone(body@, a + correction@.len(), body@.len() as int);
        text::lemma_byte_at_monotone(
            body@,
            k - b + a + correction@.len(),
            body@.len() as int,
        );
        text::lemma_byte_at_monotone(s, t.core.1, k);
        text::lemma_byte_len_concat(s.take(t.core.0), t.core_of(s));
        assert(s.take(t.core.1) =~= s.take(t.core.0) + t.core_of(s));
        assert(body@.take(body@.len() as int) =~= body@);
    }
    let caret: usize = cursor_at - old_width + width;
    let end: usize = start + width;
    state.spell.pending_revert = Some(
        Revert { range: std::ops::Range { start, end }, corrected: correction, original },
    );
    set_body(state, body, Some(caret));
}

/// Re-runs the spell check over the whole draft against the caret.
fn recompute_spell<E: Fn(&str) -> Option<SpellError>, G: Fn(&str) -> Vec<String>>(
    state: &mut State,
    cfg: &SpellcheckConfig,
    errors: &E,
    guesses: &G,
)
    requires
        forall|q: &str| call_requires(*errors, (q,)),
        forall|q: &str| call_requires(*guesses, (q,)),
    ensures
        spell::recomputed(
            old(state).spell,
            final(state).spell,
            old(state).body@,
            old(state).caret as int,
            *cfg,
            *errors,
            *guesses,
        ),
        *final(state) == (State { spell: final(state).spell, ..*old(state) }),
{
    state.spell.recompute(state.body.as_str(), state.caret, cfg, errors, guesses);
}

/// Applies what the editor did.
fn act<E: Fn(&str) -> Option<SpellError>, G: Fn(&str) -> Vec<String>>(
    state: &mut State,
    action: Action,
    content: Content,
    cfg: &SpellcheckConfig,
    errors: &E,
    guesses: &G,
) -> (effect: Effect)
    requires
        old(state).wf(),
        content.wf(),
        forall|q: &str| call_requires(*errors, (q,)),
        forall|q: &str| call_requires(*guesses, (q,)),
    ensures
        final(state).wf(),
        acted(*old(state), *final(state), action, content, *cfg, *errors, *guesses),
        effect == if action is Edit {
            Effect::Typing(text::trimmed(editor::flat(content.lines@)).len() > 0)
        } else {
            Effect::Nothing
        },
{
    let ghost before = *state;
    let is_edit = match &action {
        Action::Edit(_) => true,
        _ => false,
    };
    let was_backspace = match &action {
        Action::Edit(Edit::Backspace) => true,
        _ => false,
    };
    let finished_word = editor::ends_word(&action);
    if is_edit {
        // A stale error should not pin itself above the composer once the
        // user has moved on.
        state.error = None;
    }
    state.context_menu = None;
    // A revert is good for exactly one edit, whatever that edit turns out
    // to be.
    let revert = state.spell.pending_revert.take();
    let body = content.text();
    let total: usize = text::byte_length(body.as_str());
    let cursor: usize = content.cursor_offset();
    proof {
        editor::lemma_caret_boundary(content);
    }
    let typing = if is_edit {
        let t = text::trim(body.as_str());
        Effect::Typing(t.unicode_len() > 0)
    } else {
        Effect::Nothing
    };
    set_body(state, body, Some(cursor));
    if was_backspace {
        if let Some(revert) = revert {
            let restored = revert.undo(state.body.as_str(), state.caret);
            if let Some((body, caret)) = restored {
                set_body(state, body, Some(caret));
                // This Backspace is the user saying no to the fix, so stop
                // offering to make it for them.
                state.spell.rejected.insert(revert.original);
                let ghost mid = state.spell;
                assert(noted(before.spell, mid, before.spell.pending_revert->0.original@));
                recompute_spell(state, cfg, errors, guesses);
                assert(spell::recomputed(
                    mid,
                    state.spell,
                    state.body@,
                    state.caret as int,
                    *cfg,
                    *errors,
                    *guesses,
                ));
                return typing;
            }
        }
    }
    assert(state.spell == without_revert(before.spell));
    assert(undo_of(
        before,
        action,
        editor::flat(content.lines@),
        editor::offset_of(content.lines@, content.cursor) as int,
    ) is None);
    // Autocorrect fires on the edit that finishes a word. The caret says
    // which word that was, so it works mid-line and not only at the end.
    if cfg.autocorrect && finished_word {
        maybe_autocorrect(state, errors, guesses);
    }
    recompute_spell(state, cfg, errors, guesses);
    typing
}

/// Inserts `t` at the caret, leaving the caret just after it.
fn insert_at_caret(state: &mut State, t: &str)
    requires
        text::boundary(old(state).body@, old(state).caret as int),
    ensures
        final(state).body@ == with_inserted(*old(state), t@),
        final(state).caret == old(state).caret + text::byte_len(t@),
        text::boundary(final(state).body@, final(state).caret as int),
        *final(state) == (State {
            body: final(state).body,
            caret: final(state).caret,
            ..*old(state)
        }),
{
    let ghost s = state.body@;
    let v = text::chars(state.body.as_str());
    if let Some(k) = text::char_index(state.body.as_str(), &v, state.caret) {
        let body = text::splice(state.body.as_str(), k, k, t);
        let width: usize = text::byte_length(t);
        let total: usize = text::byte_length(body.as_str());
        proof {
            text::lemma_spliced_offset(s, k as int, k as int, t@);
            text::lemma_byte_at_monotone(body@, k + t@.len(), body@.len() as int);
            assert(body@.take(body@.len() as int) =~= body@);
        }
        let caret: usize = state.caret + width;
        set_body(state, body, Some(caret));
    }
}

/// Inserts `t` at the caret and checks the draft again. No correction can be
/// taken back behind an insertion.
fn insert_checked<E: Fn(&str) -> Option<SpellError>, G: Fn(&str) -> Vec<String>>(
    state: &mut State,
    t: &str,
    cfg: &SpellcheckConfig,
    errors: &E,
    guesses: &G,
)
    requires
        old(state).wf(),
        forall|q: &str| call_requires(*errors, (q,)),
        forall|q: &str| call_requires(*guesses, (q,)),
    ensures
        final(state).wf(),
        inserted(*old(state), *final(state), t@, *cfg, *errors, *guesses),
{
    insert_at_caret(state, t);
    state.spell.pending_revert = None;
    recompute_spell(state, cfg, errors, guesses);
}

/// Whether a mention of the user is confirmed.
fn mentions(mentioned: &Vec<(String, String)>, user_id: &str) -> (r: bool)
    ensures
        r == is_mentioned(mentioned@, user_id@),
{
    let mut i: usize = 0;
    while i < mentioned.len()
        invariant
            i <= mentioned@.len(),
            forall|k: int| 0 <= k < i ==> (#[trigger] mentioned@[k]).0@ != user_id@,
        decreases mentioned@.len() - i,
    {
        if text::str_eq(mentioned[i].0.as_str(), user_id) {
            return true;
        }
        i = i + 1;
    }
    false
}

/// Replaces the trailing `@partial` with a confirmed mention.
fn complete_mention(state: &mut State, user_id: String, display_name: String)
    requires
        old(state).wf(),
    ensures
        final(state).wf(),
        completed(*old(state), *final(state), user_id, display_name),
{
    let ghost s = state.body@;
    let v = text::chars(state.body.as_str());
    let n: usize = text::end_before_char(&v, '@', v.len());
    let mut body = text::string_of(
        &v,
        0,
        if n > 0 {
            n - 1
        } else {
            v.len()
        },
    );
    assert(body@ =~= before_mention(s));
    body.push('@');
    body.append(display_name.as_str());
    body.push(' ');
    assert(body@ =~= before_mention(s) + seq!['@'] + display_name@ + seq![' ']);
    set_body(state, body, None);
    if !mentions(&state.mentioned, user_id.as_str()) {
        state.mentioned.push((user_id, display_name));
    }
    state.spell.pending_revert = None;
    // A just-picked mention is never a typo: clicking a suggestion for the
    // tail of a display name would corrupt the mention.
    state.spell.flagged = None;
}

/// Whether exactly this file is staged already.
fn already_staged(staged: &Vec<StagedAttachment>, filename: &str, bytes: &Vec<u8>) -> (r: bool)
    ensures
        r == is_staged(staged@, filename@, bytes@),
{
    let mut i: usize = 0;
    while i < staged.len()
        invariant
            i <= staged@.len(),
            forall|k: int|
                0 <= k < i ==> !((#[trigger] staged@[k]).filename@ == filename@
                    && staged@[k].bytes@ == bytes@),
        decreases staged@.len() - i,
    {
        if text::str_eq(staged[i].filename.as_str(), filename) && bytes_eq(
            &staged[i].bytes,
            bytes,
        ) {
            return true;
        }
        i = i + 1;
    }
    false
}

/// Stages a file of a known media type. A file that is staged already is
/// skipped: it is an echo of the same paste, or a double pick.
pub fn stage(state: &mut State, filename: String, bytes: Vec<u8>, mime: String)
    requires
        old(state).wf(),
    ensures
        final(state).wf(),
        staged(*old(state), *final(state), filename, bytes, mime@),
{
    if already_staged(&state.staged_attachments, filename.as_str(), &bytes) {
        return;
    }
    let preview = mime::is_image(mime.as_str());
    state.staged_attachments.push(StagedAttachment { filename, bytes, mime, preview });
    assert(state.staged_attachments@.drop_last() =~= old(state).staged_attachments@);
    state.error = None;
}

/// Stages a file that was picked or pasted.
pub fn pick(state: &mut State, filename: String, bytes: Vec<u8>)
    requires
        old(state).wf(),
    ensures
        final(state).wf(),
        picked(*old(state), *final(state), filename, bytes),
{
    let guess = mime::guess_mime(filename.as_str());
    let ghost m = guess@;
    stage(state, filename, bytes, guess);
    assert(staged(*old(state), *state, filename, bytes, m));
}

/// Takes a staged file out again.
fn unstage(state: &mut State, index: usize)
    requires
        old(state).wf(),
    ensures
        final(state).wf(),
        unstaged(*old(state), *final(state), index),
{
    // The front chip is the in-flight upload while a batch sends; removing it
    // could not cancel the upload.
    if index < state.staged_attachments.len() && !(index == 0
        && state.pending_attachment_request.is_some()) {
        let _ = state.staged_attachments.remove(index);
        if index < state.sending_remaining {
            state.sending_remaining = state.sending_remaining - 1;
        }
    }
}

/// Replaces the flagged word with a suggestion.
fn take_suggestion<E: Fn(&str) -> Option<SpellError>, G: Fn(&str) -> Vec<String>>(
    state: &mut State,
    replacement: String,
    cfg: &SpellcheckConfig,
    errors: &E,
    guesses: &G,
)
    requires
        old(state).wf(),
        forall|q: &str| call_requires(*errors, (q,)),
        forall|q: &str| call_requires(*guesses, (q,)),
    ensures
        final(state).wf(),
        suggestion_taken(
            *old(state),
            *final(state),
            replacement@,
            *cfg,
            *errors,
            *guesses,
        ),
{
    let ghost before = *state;
    if let Some(flagged) = state.spell.flagged.take() {
        // Only where the range still holds the exact word that was flagged:
        // a draft edited out from under the bar is never corrupted.
        if let Some((a, b)) = spell::find_slice(
            state.body.as_str(),
            &flagged.range,
            flagged.word.as_str(),
        ) {
            let body = text::splice(state.body.as_str(), a, b, replacement.as_str());
            let width: usize = text::byte_length(replacement.as_str());
            let total: usize = text::byte_length(body.as_str());
            proof {
                text::lemma_spliced_offset(before.body@, a as int, b as int, replacement@);
                text::lemma_byte_at_monotone(
                    body@,
                    a + replacement@.len(),
                    body@.len() as int,
                );
                assert(body@.take(body@.len() as int) =~= body@);
            }
            let caret: usize = flagged.range.start + width;
            set_body(state, body, Some(caret));
        }
    }
    state.spell.pending_revert = None;
    recompute_spell(state, cfg, errors, guesses);
}

/// Drops what is remembered of the speller and checks the draft again.
fn recheck<E: Fn(&str) -> Option<SpellError>, G: Fn(&str) -> Vec<String>>(
    state: &mut State,
    cfg: &SpellcheckConfig,
    errors: &E,
    guesses: &G,
)
    requires
        old(state).wf(),
        forall|q: &str| call_requires(*errors, (q,)),
        forall|q: &str| call_requires(*guesses, (q,)),
    ensures
        final(state).wf(),
        rechecked(*old(state), *final(state), *cfg, *errors, *guesses),
{
    state.spell.flagged = None;
    state.spell.forget_verdicts();
    let ghost mid = state.spell;
    assert(forgot(old(state).spell, mid));
    recompute_spell(state, cfg, errors, guesses);
}

/// Enter: sends what is staged, or what is typed.
fn send(state: &mut State) -> (effect: Effect)
    requires
        old(state).wf(),
    ensures
        final(state).wf(),
        sent(*old(state), *final(state), effect),
{
    let ghost before = *state;
    state.context_menu = None;
    let n: usize = state.staged_attachments.len();
    if n > 0 {
        // The upload slot is single, and a second Enter mid-batch would send
        // the front file twice.
        if state.pending_attachment_request.is_some() {
            return Effect::Nothing;
        }
        let mut mentioned: Vec<(String, String)> = Vec::new();
        std::mem::swap(&mut state.mentioned, &mut mentioned);
        let replying_to = state.replying_to.take();
        let carried = CarriedText { body: state.body.clone(), mentioned, replying_to };
        set_body(state, String::new(), None);
        state.error = None;
        state.spell.reset();
        state.sending_remaining = n;
        let trimmed = text::trim(carried.body.as_str());
        let caption = if trimmed.unicode_len() == 0 {
            None
        } else {
            Some(trimmed.to_owned())
        };
        let mentioned_user_ids = ids_of(&carried.mentioned);
        let reply_to_event_id = target_of(&carried.replying_to);
        // The entry stays staged until the server takes it: the bytes must
        // survive a failure for a retry.
        let effect = Effect::SendAttachment {
            filename: state.staged_attachments[0].filename.clone(),
            bytes: text::clone_bytes(&state.staged_attachments[0].bytes),
            mime: state.staged_attachments[0].mime.clone(),
            caption,
            mentioned_user_ids,
            reply_to_event_id,
        };
        state.carried = Some(carried);
        return effect;
    }
    // A second Enter before the first send resolved would post the message
    // twice.
    if state.pending_request.is_some() {
        return Effect::Nothing;
    }
    let body = text::trim(state.body.as_str()).to_owned();
    if body.as_str().unicode_len() == 0 {
        return Effect::Nothing;
    }
    Effect::Send {
        body,
        mentioned_user_ids: ids_of(&state.mentioned),
        reply_to_event_id: target_of(&state.replying_to),
    }
}

/// A text send went through: a fresh draft.
pub fn clear_draft(state: &mut State)
    requires
        old(state).wf(),
    ensures
        final(state).wf(),
        cleared(*old(state), *final(state)),
{
    set_body(state, String::new(), None);
    state.mentioned = Vec::new();
    state.replying_to = None;
    state.pending_request = None;
    state.error = None;
    state.spell.reset();
}

/// A click on a picker button; whether the picker shows afterwards.
fn toggle_picker(state: &mut State, tab: PickerTab) -> (open: bool)
    requires
        old(state).wf(),
    ensures
        final(state).wf(),
        toggled(*old(state), *final(state), tab),
        open == final(state).show_emoji_picker,
{
    if state.show_emoji_picker && state.picker_tab == tab {
        state.show_emoji_picker = false;
        return false;
    }
    state.show_emoji_picker = true;
    state.picker_tab = tab;
    true
}

impl State {
    /// An empty composer.
    pub fn new() -> (r: Self)
        ensures
            r.wf(),
            r.fresh(),
    {
        let r = State {
            body: String::new(),
            caret: 0,
            show_emoji_picker: false,
            picker_tab: PickerTab::Emoji,
            member_candidates: Vec::new(),
            member_candidates_lower: Vec::new(),
            mentioned: Vec::new(),
            replying_to: None,
            pending_request: None,
            pending_attachment_request: None,
            pending_sticker_request: None,
            staged_attachments: Vec::new(),
            sending_remaining: 0,
            carried: None,
            error: None,
            spell: SpellState::new(),
            context_menu: None,
        };
        proof {
            text::lemma_ends_are_boundaries(r.body@);
        }
        r
    }

    /// Puts a draft back in the composer, caret at the end: for when a send
    /// fails and the carried text has to be restored.
    pub fn restore_draft(&mut self, body: String)
        ensures
            final(self).body == body,
            final(self).caret == text::byte_len(body@),
            text::boundary(body@, final(self).caret as int),
            *final(self) == (State {
                body: final(self).body,
                caret: final(self).caret,
                ..*old(self)
            }),
    {
        set_body(self, body, None);
    }
}

impl Default for State {
    /// An empty composer.
    fn default() -> (r: Self)
        ensures
            r.wf(),
            r.fresh(),
    {
        State::new()
    }
}

/// Applies a message to the composer. The speller is handed in as two
/// functions: the first error of a word, and the alternatives for it.
pub fn update<E: Fn(&str) -> Option<SpellError>, G: Fn(&str) -> Vec<String>>(
    state: &mut State,
    message: Message,
    cfg: &SpellcheckConfig,
    errors: &E,
    guesses: &G,
) -> (r: (Followup, Effect))
    requires
        old(state).wf(),
        message matches Message::Action(_, content) ==> content.wf(),
        forall|q: &str| call_requires(*errors, (q,)),
        forall|q: &str| call_requires(*guesses, (q,)),
    ensures
        final(state).wf(),
        updated(*old(state), *final(state), message, *cfg, *errors, *guesses, r.0, r.1),
{
    match message {
        Message::Action(action, content) => {
            let effect = act(state, action, content, cfg, errors, guesses);
            (Followup::Nothing, effect)
        },
        Message::Send => {
            let effect = send(state);
            (Followup::Nothing, effect)
        },
        Message::ToggleEmojiPicker => {
            if toggle_picker(state, PickerTab::Emoji) {
                (Followup::Nothing, Effect::EnsureEmojiFetched)
            } else {
                (Followup::Nothing, Effect::Nothing)
            }
        },
        Message::ToggleStickerPicker => {
            if toggle_picker(state, PickerTab::Sticker) {
                (Followup::Nothing, Effect::EnsureStickersFetched)
            } else {
                (Followup::Nothing, Effect::Nothing)
            }
        },
        Message::ClosePicker => {
            state.show_emoji_picker = false;
            (Followup::Nothing, Effect::Nothing)
        },
        Message::SelectPickerTab(tab) => {
            state.picker_tab = tab;
            let effect = match tab {
                PickerTab::Emoji => Effect::EnsureEmojiFetched,
                PickerTab::Sticker => Effect::EnsureStickersFetched,
            };
            (Followup::Nothing, effect)
        },
        Message::EmojiPicked(glyph) => {
            insert_checked(state, glyph.as_str(), cfg, errors, guesses);
            (Followup::Nothing, Effect::EmojiUsed(glyph))
        },
        Message::CustomEmojiPicked { shortcode, mxc_url } => {
            let code = text::join3(":", shortcode.as_str(), ": ");
            proof {
                reveal_strlit(":");
                reveal_strlit(": ");
                assert(code@ =~= emoji_code(shortcode@));
            }
            insert_checked(state, code.as_str(), cfg, errors, guesses);
            // By the URL, the key that custom reactions use: one tally.
            (Followup::Nothing, Effect::EmojiUsed(mxc_url))
        },
        Message::StickerPicked { url, body, width, height } => {
            (Followup::Nothing, Effect::SendSticker { url, body, width, height })
        },
        Message::MentionCandidateClicked(user_id, display_name) => {
            complete_mention(state, user_id, display_name);
            (Followup::Nothing, Effect::Nothing)
        },
        Message::PickAttachment => (Followup::Nothing, Effect::PickAttachment),
        Message::AttachmentPicked(Ok((filename, bytes))) => {
            pick(state, filename, bytes);
            (Followup::Nothing, Effect::Nothing)
        },
        Message::AttachmentPicked(Err(reason)) => {
            state.error = Some(reason);
            (Followup::Nothing, Effect::Nothing)
        },
        Message::RemoveStagedAttachment(index) => {
            unstage(state, index);
            (Followup::Nothing, Effect::Nothing)
        },
        Message::SpellSuggestionPicked(replacement) => {
            take_suggestion(state, replacement, cfg, errors, guesses);
            (Followup::Nothing, Effect::Nothing)
        },
        Message::SpellAddToDictionary => {
            match state.spell.flagged.take() {
                Some(flagged) => (Followup::Nothing, Effect::AddToDictionary(flagged.word)),
                None => {
                    recheck(state, cfg, errors, guesses);
                    (Followup::Nothing, Effect::Nothing)
                },
            }
        },
        Message::DictionaryChanged => {
            recheck(state, cfg, errors, guesses);
            (Followup::Nothing, Effect::Nothing)
        },
        Message::OpenContextMenu => (Followup::Nothing, Effect::OpenContextMenu),
        Message::CloseContextMenu => {
            state.context_menu = None;
            (Followup::Nothing, Effect::Nothing)
        },
        Message::ContextCopy => {
            state.context_menu = None;
            (Followup::Nothing, Effect::ClipboardEdit(synthetic_input::Edit::Copy))
        },
        Message::ContextCut => {
            state.context_menu = None;
            (Followup::Nothing, Effect::ClipboardEdit(synthetic_input::Edit::Cut))
        },
        Message::ContextPaste => {
            state.context_menu = None;
            (Followup::Nothing, Effect::PasteFromClipboard)
        },
        Message::ContextSelectAll => {
            state.context_menu = None;
            (Followup::FocusThenSelectAll, Effect::Nothing)
        },
        Message::InsertText(t) => {
            state.error = None;
            insert_checked(state, t.as_str(), cfg, errors, guesses);
            let trimmed = text::trim(state.body.as_str());
            let typing = Effect::Typing(trimmed.unicode_len() > 0);
            (Followup::FocusInput, typing)
        },
        Message::CancelReply => {
            state.replying_to = None;
            (Followup::Nothing, Effect::Nothing)
        },
        Message::SendSucceeded => {
            clear_draft(state);
            (Followup::Nothing, Effect::Typing(false))
        },
        Message::SendFailed(reason) => {
            state.pending_request = None;
            state.error = Some(reason);
            (Followup::Nothing, Effect::Nothing)
        },
    }
}

// ---------------------------------------------------------------------------
// What is shown.
// ---------------------------------------------------------------------------
/// How many mention candidates the completion list shows.
pub const MENTION_LIMIT: usize = 6;

/// The `@partial` word at the end of the draft, without its `@`.
pub open spec fn mention_query(s: Seq<char>) -> Option<Seq<char>> {
    let n = text::end_before(s, text::spaces(), s.len() as int);
    if n < s.len() && s[n] == '@' {
        Some(s.skip(n + 1))
    } else {
        None
    }
}

/// The `@partial` word being typed at the end of the draft, if any. Only the
/// trailing word counts: editing a mention mid-message does not bring the
/// list back.
pub fn active_mention_query(body: &str) -> (r: Option<&str>)
    ensures
        match (r, mention_query(body@)) {
            (Some(q), Some(x)) => q@ == x,
            (None, None) => true,
            _ => false,
        },
{
    let v = text::chars(body);
    let n: usize = text::end_before_space(&v, v.len());
    if n < v.len() && v[n] == '@' {
        let r = body.substring_char(n + 1, v.len());
        assert(r@ =~= body@.skip(n + 1));
        Some(r)
    } else {
        None
    }
}

/// The first `n` indices from `i` on whose name starts with the query.
pub open spec fn matches_from(
    names: Seq<String>,
    count: int,
    query: Seq<char>,
    i: int,
    n: int,
) -> Seq<int>
    decreases count - i,
{
    if i >= count || n <= 0 {
        Seq::empty()
    } else if text::starts(names[i]@, query) {
        seq![i] + matches_from(names, count, query, i + 1, n - 1)
    } else {
        matches_from(names, count, query, i + 1, n)
    }
}

/// How many members have a lowercased name.
pub open spec fn named_members(s: State) -> int {
    if s.member_candidates@.len() <= s.member_candidates_lower@.len() {
        s.member_candidates@.len() as int
    } else {
        s.member_candidates_lower@.len() as int
    }
}

/// The members that the completion list offers, as indices of the roster.
pub open spec fn offered_mentions(s: State) -> Seq<int> {
    match mention_query(s.body@) {
        Some(q) => matches_from(
            s.member_candidates_lower@,
            named_members(s),
            text::lowered(q),
            0,
            MENTION_LIMIT as int,
        ),
        None => Seq::empty(),
    }
}

/// The members that the completion list offers: those whose name starts with
/// the query, ignoring case, the first few in roster order. Empty where no
/// list shows.
pub fn mention_candidates(state: &State) -> (r: Vec<usize>)
    ensures
        r@.map_values(|i: usize| i as int) == offered_mentions(*state),
{
    let mut r: Vec<usize> = Vec::new();
    let query = match active_mention_query(state.body.as_str()) {
        Some(q) => q.to_lowercase(),
        None => {
            assert(r@.map_values(|i: usize| i as int) =~= Seq::<int>::empty());
            return r;
        },
    };
    let names = &state.member_candidates_lower;
    let count: usize = if state.member_candidates.len() <= names.len() {
        state.member_candidates.len()
    } else {
        names.len()
    };
    let mut i: usize = 0;
    let ghost all = offered_mentions(*state);
    while i < count && r.len() < MENTION_LIMIT
        invariant
            i <= count <= names@.len(),
            r@.len() <= MENTION_LIMIT,
            all == r@.map_values(|k: usize| k as int) + matches_from(
                names@,
                count as int,
                query@,
                i as int,
                MENTION_LIMIT - r@.len(),
            ),
        decreases count - i,
    {
        if text::starts_with(names[i].as_str(), query.as_str()) {
            let ghost before = r@.map_values(|k: usize| k as int);
            r.push(i);
            proof {
                let rest = matches_from(
                    names@,
                    count as int,
                    query@,
                    i + 1,
                    MENTION_LIMIT - r@.len(),
                );
                assert(r@.map_values(|k: usize| k as int) =~= before.push(i as int));
                assert(all =~= before + (seq![i as int] + rest));
                assert(before.push(i as int) + rest =~= before + (seq![i as int] + rest));
            }
        }
        i = i + 1;
    }
    assert(all =~= r@.map_values(|k: usize| k as int));
    r
}

/// The chip of a staged attachment.
#[derive(Debug)]
pub struct Chip {
    pub label: String,
    pub size: String,
    /// Whether it shows a thumbnail, rather than the attachment glyph.
    pub thumbnail: bool,
    /// Whether its × works.
    pub removable: bool,
}

/// Whether this is the chip of a staged file, uploading or not.
pub open spec fn is_chip(c: Chip, a: StagedAttachment, uploading: bool) -> bool {
    &&& c.label@ == if uploading {
        a.filename@ + " — uploading…"@
    } else {
        a.filename@
    }
    &&& c.size@ == sizes::size_label(a.bytes@.len())
    &&& c.thumbnail == a.preview
    &&& c.removable == !uploading
}

/// The chips above the input: one per staged file. While a batch uploads, the
/// front chip is the in-flight file; its label says so and its × is off.
pub fn chips(state: &State) -> (r: Vec<Chip>)
    ensures
        r@.len() == state.staged_attachments@.len(),
        forall|i: int|
            0 <= i < r@.len() ==> is_chip(
                #[trigger] r@[i],
                state.staged_attachments@[i],
                i == 0 && state.pending_attachment_request is Some,
            ),
{
    let mut r: Vec<Chip> = Vec::new();
    let mut i: usize = 0;
    while i < state.staged_attachments.len()
        invariant
            i <= state.staged_attachments@.len(),
            r@.len() == i,
            forall|k: int|
                0 <= k < i ==> is_chip(
                    #[trigger] r@[k],
                    state.staged_attachments@[k],
                    k == 0 && state.pending_attachment_request is Some,
                ),
        decreases state.staged_attachments@.len() - i,
    {
        let file = &state.staged_attachments[i];
        let uploading = i == 0 && state.pending_attachment_request.is_some();
        let label = if uploading {
            text::join2(file.filename.as_str(), " — uploading…")
        } else {
            file.filename.clone()
        };
        let size = sizes::human_size(file.bytes.len());
        r.push(Chip { label, size, thumbnail: file.preview, removable: !uploading });
        i = i + 1;
    }
    r
}

/// What the empty input says.
pub fn placeholder(state: &State) -> (r: &'static str)
    ensures
        r@ == if state.staged_attachments@.len() == 0 {
            "Message... (@mention, markdown supported)"@
        } else {
            "Add a caption… (optional) — Enter sends the attachment"@
        },
{
    if state.staged_attachments.len() == 0 {
        "Message... (@mention, markdown supported)"
    } else {
        "Add a caption… (optional) — Enter sends the attachment"
    }
}

/// What a key press means to the input.
#[derive(Debug, Clone, Copy, PartialEq, Eq, Structural)]
pub enum Binding {
    Send,
    /// Whatever the editor does with the key by itself.
    Editor,
}

/// Enter sends; Shift+Enter breaks the line. Everything else is the editor's.
pub fn send_on_enter(enter: bool, shift: bool) -> (r: Binding)
    ensures
        r == if enter && !shift {
            Binding::Send
        } else {
            Binding::Editor
        },
{
    if enter && !shift {
        Binding::Send
    } else {
        Binding::Editor
    }
}

/// The entries of the input's edit menu, in order.
#[derive(Debug, Clone, Copy, PartialEq, Eq, Structural)]
pub enum MenuEntry {
    Cut,
    Copy,
    Paste,
    SelectAll,
}

impl MenuEntry {
    /// What the entry reads.
    pub open spec fn label_of(self) -> Seq<char> {
        match self {
            MenuEntry::Cut => "Cut"@,
            MenuEntry::Copy => "Copy"@,
            MenuEntry::Paste => "Paste"@,
            MenuEntry::SelectAll => "Select all"@,
        }
    }

    /// What the entry sends.
    pub open spec fn message_of(self) -> Message {
        match self {
            MenuEntry::Cut => Message::ContextCut,
            MenuEntry::Copy => Message::ContextCopy,
            MenuEntry::Paste => Message::ContextPaste,
            MenuEntry::SelectAll => Message::ContextSelectAll,
        }
    }
}

/// The entries of the input's edit menu: what each reads, and what it sends.
pub fn context_menu() -> (r: Vec<(&'static str, Message)>)
    ensures
        r@.len() == 4,
        r@[0].0@ == MenuEntry::Cut.label_of() && r@[0].1 == MenuEntry::Cut.message_of(),
        r@[1].0@ == MenuEntry::Copy.label_of() && r@[1].1 == MenuEntry::Copy.message_of(),
        r@[2].0@ == MenuEntry::Paste.label_of() && r@[2].1 == MenuEntry::Paste.message_of(),
        r@[3].0@ == MenuEntry::SelectAll.label_of() && r@[3].1
            == MenuEntry::SelectAll.message_of(),
{
    vec![
        ("Cut", Message::ContextCut),
        ("Copy", Message::ContextCopy),
        ("Paste", Message::ContextPaste),
        ("Select all", Message::ContextSelectAll),
    ]
}

// ---------------------------------------------------------------------------
// Laws.
// ---------------------------------------------------------------------------
/// Backspace right behind a correction restores the draft as it was before
/// the character that finished the word was typed: in the draft `s`, with the
/// word at `[a, b)` and that character at `b`, the correction to `w` followed
/// by deleting the character leaves `s` without it, caret behind the word.
pub proof fn law_backspace_takes_a_correction_back(
    s: Seq<char>,
    a: int,
    b: int,
    w: Seq<char>,
    r: Revert,
)
    requires
        0 <= a <= b < s.len(),
        r.range.start == text::byte_at(s, a),
        r.range.end == text::byte_at(s, a) + text::byte_len(w),
        r.corrected@ == w,
        r.original@ == s.subrange(a, b),
    ensures
        spell::undone(
            r,
            text::spliced(s, a, b, w).remove(a + w.len()),
            r.range.end as int,
        ) == Some((s.remove(b), text::byte_at(s, b) as int)),
{
    let t = text::spliced(s, a, b, w).remove(a + w.len());
    assert(t =~= text::spliced(s, a, b + 1, w));
    text::lemma_spliced_offset(s, a, b + 1, w);
    assert(text::is_index(t, r.range.start as int, a));
    assert(text::is_index(t, r.range.end as int, a + w.len()));
    text::lemma_index_unique(t, r.range.start as int, a, a);
    text::lemma_index_unique(t, r.range.end as int, a + w.len(), a + w.len());
    assert(t.subrange(a, a + w.len()) =~= w);
    assert(text::spliced(t, a, a + w.len(), r.original@) =~= s.remove(b));
    assert(s.take(b) =~= s.take(a) + s.subrange(a, b));
    text::lemma_byte_len_concat(s.take(a), s.subrange(a, b));
}

/// Autocorrect rewrites neither a word that was un-corrected before, nor chat
/// slang, nor a word that starts with a capital: the draft is what the editor
/// holds.
pub proof fn law_autocorrect_keeps_its_hands_off<
    E: Fn(&str) -> Option<SpellError>,
    G: Fn(&str) -> Vec<String>,
>(
    before: State,
    after: State,
    action: Action,
    content: Content,
    cfg: SpellcheckConfig,
    errors: E,
    guesses: G,
)
    requires
        acted(before, after, action, content, cfg, errors, guesses),
        ({
            let s = editor::flat(content.lines@);
            let c = editor::offset_of(content.lines@, content.cursor) as int;
            &&& undo_of(before, action, s, c) is None
            &&& match spell::finished_token(s, c) {
                Some(t) => before.spell.rejected@.contains(t.core_of(s)) || spell::slang(
                    t.core_of(s),
                ) || !spell::lower_start(t.core_of(s)),
                None => true,
            }
        }),
    ensures
        after.body@ == editor::flat(content.lines@),
        after.caret == editor::offset_of(content.lines@, content.cursor),
        after.spell.pending_revert is None,
{
}

/// With autocorrect off, or on an edit that finishes no word, the draft is
/// what the editor holds, unless a correction is being taken back; and what
/// could be taken back before this edit cannot be afterwards.
pub proof fn law_a_revert_lasts_one_edit<
    E: Fn(&str) -> Option<SpellError>,
    G: Fn(&str) -> Vec<String>,
>(
    before: State,
    after: State,
    action: Action,
    content: Content,
    cfg: SpellcheckConfig,
    errors: E,
    guesses: G,
)
    requires
        acted(before, after, action, content, cfg, errors, guesses),
        !cfg.autocorrect || !editor::finishes_word(action),
    ensures
        after.spell.pending_revert is None,
        undo_of(
            before,
            action,
            editor::flat(content.lines@),
            editor::offset_of(content.lines@, content.cursor) as int,
        ) is None ==> after.body@ == editor::flat(content.lines@),
{
}

/// While a send is under way, Enter sends nothing of its kind and keeps the
/// draft.
pub proof fn law_nothing_is_sent_twice(before: State, after: State, effect: Effect)
    requires
        sent(before, after, effect),
        if before.staged_attachments@.len() > 0 {
            before.pending_attachment_request is Some
        } else {
            before.pending_request is Some
        },
    ensures
        effect is Nothing,
        after.body == before.body,
        after.staged_attachments == before.staged_attachments,
{
}

/// The text that rides on a batch is kept until the batch resolves: the draft
/// that Enter cleared can be put back.
pub proof fn law_a_dispatched_caption_is_not_lost(before: State, after: State, effect: Effect)
    requires
        sent(before, after, effect),
        effect is SendAttachment,
    ensures
        after.carried matches Some(c) && c.body@ == before.body@ && c.mentioned@
            == before.mentioned@ && c.replying_to == before.replying_to,
        after.staged_attachments == before.staged_attachments,
        after.sending_remaining == before.staged_attachments@.len() as usize,
{
}

/// Whether the draft reads so: the word that was just finished, with
/// punctuation around it or not, then a gap in which the caret's end stands,
/// and whatever there is before and behind.
pub open spec fn reads(
    before: Seq<char>,
    lead: Seq<char>,
    core: Seq<char>,
    trail: Seq<char>,
    gap: Seq<char>,
) -> bool {
    &&& before.len() > 0 ==> text::white_space(before[before.len() - 1])
    &&& core.len() > 0
    &&& text::alphabetic(core[0]) || text::numeric(core[0])
    &&& text::alphabetic(core[core.len() - 1]) || text::numeric(core[core.len() - 1])
    &&& forall|i: int| 0 <= i < core.len() ==> !text::white_space(#[trigger] core[i])
    &&& forall|i: int|
        0 <= i < lead.len() ==> !text::white_space(#[trigger] lead[i]) && !text::alphabetic(lead[i])
            && !text::numeric(lead[i])
    &&& forall|i: int|
        0 <= i < trail.len() ==> !text::white_space(#[trigger] trail[i]) && !text::alphabetic(
            trail[i],
        ) && !text::numeric(trail[i])
    &&& gap.len() > 0
    &&& forall|i: int| 0 <= i < gap.len() ==> text::white_space(#[trigger] gap[i])
}

/// The word of such a draft is the one that the caret has just finished.
proof fn lemma_reads(
    before: Seq<char>,
    lead: Seq<char>,
    core: Seq<char>,
    trail: Seq<char>,
    gap: Seq<char>,
    behind: Seq<char>,
)
    requires
        reads(before, lead, core, trail, gap),
    ensures
        ({
            let s = before + lead + core + trail + gap + behind;
            let a = (before + lead).len() as int;
            let b = a + core.len();
            let t = Token {
                core: (a, b),
                raw: (before.len() as int, b + trail.len()),
            };
            &&& spell::finished_token(s, text::byte_len(before + lead + core + trail + gap) as int)
                == Some(t)
            &&& t.core_of(s) == core
            &&& t.raw_of(s) == lead + core + trail
            &&& text::byte_at(s, a) == text::byte_len(before + lead)
        }),
{
    let s = before + lead + core + trail + gap + behind;
    let a0 = before.len() as int;
    let a = a0 + lead.len();
    let b = a + core.len();
    let e = b + trail.len();
    let k = e + gap.len();
    let raw = (a0, e);
    let cut = (a, b);
    assert forall|i: int| a0 <= i < e implies !text::white_space(#[trigger] s[i]) by {
        if i < a {
            assert(s[i] == lead[i - a0]);
        } else if i < b {
            assert(s[i] == core[i - a]);
        } else {
            assert(s[i] == trail[i - b]);
        }
    }
    if a0 > 0 {
        assert(s[a0 - 1] == before[a0 - 1]);
    }
    assert(s[e] == gap[0]);
    assert(s[a] == core[0]);
    assert(s[b - 1] == core[core.len() - 1]);
    assert forall|i: int| a0 <= i < a || b <= i < e implies !text::alphabetic(#[trigger] s[i])
        && !text::numeric(s[i]) by {
        if i < a {
            assert(s[i] == lead[i - a0]);
        } else {
            assert(s[i] == trail[i - b]);
        }
    }
    assert(spellcheck_highlight::stands_as_word(s, raw, cut));
    assert forall|x: (int, int), y: (int, int)| #[trigger]
        spellcheck_highlight::stands_as_word(s, x, y) && x.1 < k implies x.1 <= e by {
        if x.1 > e {
            assert(s[x.1 - 1] == gap[x.1 - 1 - e]);
            assert(!text::white_space(s[x.1 - 1]));
        }
    }
    spell::law_the_finished_word_is_the_last_before_the_caret(s, k, raw, cut);
    assert(s.take(k) =~= before + lead + core + trail + gap);
    assert(s.subrange(a, b) =~= core);
    assert(s.subrange(a0, e) =~= lead + core + trail);
    assert(s.take(a) =~= before + lead);
}

/// With autocorrect on, white space or Enter behind a word that is prose, that
/// starts in lower case, that is neither of the two slang words and that was
/// not taken back in this draft, puts the speller's correction in its place:
/// what stands around the word stays, punctuation included, the caret keeps
/// its place behind it, and how to take it back is kept.
pub proof fn law_a_finished_word_is_corrected<
    E: Fn(&str) -> Option<SpellError>,
    G: Fn(&str) -> Vec<String>,
>(
    old_state: State,
    new_state: State,
    action: Action,
    content: Content,
    cfg: SpellcheckConfig,
    errors: E,
    guesses: G,
    followup: Followup,
    effect: Effect,
    before: Seq<char>,
    lead: Seq<char>,
    core: Seq<char>,
    trail: Seq<char>,
    gap: Seq<char>,
    behind: Seq<char>,
    w: Seq<char>,
)
    requires
        updated(
            old_state,
            new_state,
            Message::Action(action, content),
            cfg,
            errors,
            guesses,
            followup,
            effect,
        ),
        cfg.autocorrect,
        action == Action::Edit(Edit::Enter) || (action matches Action::Edit(Edit::Insert(c))
            && text::white_space(c)),
        reads(before, lead, core, trail, gap),
        editor::flat(content.lines@) == before + lead + core + trail + gap + behind,
        editor::offset_of(content.lines@, content.cursor) == text::byte_len(
            before + lead + core + trail + gap,
        ),
        spellcheck_highlight::checkable(lead + core + trail),
        text::lowercase(core[0]),
        core != "gonna"@ && core != "ur"@,
        !old_state.spell.rejected@.contains(core),
        forall|a: Analysis, c: Option<Seq<char>>| #[trigger]
            spell::analysed(errors, guesses, core, a) && #[trigger] chosen(core, a, c) ==> c
                == Some(w),
    ensures
        new_state.body@ == before + lead + w + trail + gap + behind,
        new_state.caret == text::byte_len(before + lead + w + trail + gap),
        new_state.spell.pending_revert matches Some(r) && r.original@ == core && r.corrected@ == w
            && r.range.start == text::byte_len(before + lead) && r.range.end == text::byte_len(
            before + lead + w,
        ),
{
    let s = before + lead + core + trail + gap + behind;
    let a = (before + lead).len() as int;
    let b = a + core.len();
    lemma_reads(before, lead, core, trail, gap, behind);
    assert(text::spliced(s, a, b, w) =~= before + lead + w + trail + gap + behind);
    text::lemma_byte_len_concat(before + lead, w);
    let rest = trail + gap;
    assert(before + lead + core + trail + gap =~= (before + lead) + core + rest);
    assert(before + lead + w + trail + gap =~= (before + lead) + w + rest);
    text::lemma_byte_len_concat((before + lead) + core, rest);
    text::lemma_byte_len_concat((before + lead) + w, rest);
    text::lemma_byte_len_concat(before + lead, core);
}

/// A replacement that the speller recommends outright for the whole word is
/// what the word is corrected to.
pub proof fn law_a_recommended_replacement_is_the_correction<
    E: Fn(&str) -> Option<SpellError>,
    G: Fn(&str) -> Vec<String>,
>(
    errors: E,
    guesses: G,
    core: Seq<char>,
    w: Seq<char>,
    a: Analysis,
    c: Option<Seq<char>>,
)
    requires
        core.len() > 0,
        w != core,
        forall|q: &str, e: Option<SpellError>|
            q@ == core && #[trigger] call_ensures(errors, (q,), e) ==> e is Some && e->0.start == 0
                && e->0.length == spellcheck::utf16_len(core) && e->0.action
                == spellcheck::CorrectiveAction::Replace && e->0.replacement is Some
                && e->0.replacement->0@ == w,
        spell::analysed(errors, guesses, core, a),
        chosen(core, a, c),
    ensures
        c == Some(w),
{
}

/// A single guess that is one edit away from the word, letter case aside, is
/// what the word is corrected to where the speller recommends nothing.
pub proof fn law_a_lone_near_guess_is_the_correction<
    E: Fn(&str) -> Option<SpellError>,
    G: Fn(&str) -> Vec<String>,
>(
    errors: E,
    guesses: G,
    core: Seq<char>,
    w: Seq<char>,
    a: Analysis,
    c: Option<Seq<char>>,
)
    requires
        core.len() > 0,
        text::lowered(w) != text::lowered(core),
        spellcheck::distance(text::lowered(core), text::lowered(w)) == 1,
        forall|q: &str, e: Option<SpellError>|
            q@ == core && #[trigger] call_ensures(errors, (q,), e) ==> e is Some && e->0.start == 0
                && e->0.length == spellcheck::utf16_len(core) && e->0.action
                == spellcheck::CorrectiveAction::GetSuggestions,
        forall|q: &str, g: Vec<String>|
            q@ == core && #[trigger] call_ensures(guesses, (q,), g) ==> g@.len() == 1 && g@[0]@
                == w,
        spell::analysed(errors, guesses, core, a),
        chosen(core, a, c),
    ensures
        c == Some(w),
{
    let (q, e) = choose|q: &str, e: Option<SpellError>|
        q@ == core && #[trigger] call_ensures(errors, (q,), e) && if spell::flags(core, e) {
            exists|g: Vec<String>| #[trigger]
                call_ensures(guesses, (q,), g) && spellcheck::is_analysis(
                    core,
                    e,
                    text::views(g@),
                    a,
                )
        } else {
            spellcheck::is_analysis(core, e, Seq::empty(), a)
        };
    let g = choose|g: Vec<String>| #[trigger]
        call_ensures(guesses, (q,), g) && spellcheck::is_analysis(core, e, text::views(g@), a);
    let v = text::views(g@);
    assert(v[0] == w);
    assert(text::views(a.suggestions@) == v);
    assert(spellcheck::wins(core, v, 0));
    if let Some(x) = c {
        let k = choose|k: int| #[trigger] spellcheck::wins(core, v, k) && x == v[k];
        assert(k == 0);
    }
}

/// A word that the speller has nothing to say against is left as it is.
pub proof fn law_a_good_word_is_left_alone<
    E: Fn(&str) -> Option<SpellError>,
    G: Fn(&str) -> Vec<String>,
>(
    errors: E,
    guesses: G,
    core: Seq<char>,
    a: Analysis,
    c: Option<Seq<char>>,
)
    requires
        forall|q: &str, e: Option<SpellError>|
            q@ == core && #[trigger] call_ensures(errors, (q,), e) ==> e is None,
        spell::analysed(errors, guesses, core, a),
        chosen(core, a, c),
    ensures
        c is None,
{
}

/// The Backspace right behind a correction puts the word back that was typed,
/// where the correction still stands; the caret goes behind it, and the word
/// is not corrected again in this draft. All else stays.
pub proof fn law_backspace_restores_what_was_typed<
    E: Fn(&str) -> Option<SpellError>,
    G: Fn(&str) -> Vec<String>,
>(
    old_state: State,
    new_state: State,
    content: Content,
    cfg: SpellcheckConfig,
    errors: E,
    guesses: G,
    followup: Followup,
    effect: Effect,
    before: Seq<char>,
    behind: Seq<char>,
    r: Revert,
)
    requires
        updated(
            old_state,
            new_state,
            Message::Action(Action::Edit(Edit::Backspace), content),
            cfg,
            errors,
            guesses,
            followup,
            effect,
        ),
        old_state.spell.pending_revert == Some(r),
        r.range.start == text::byte_len(before),
        r.range.end == text::byte_len(before + r.corrected@),
        editor::flat(content.lines@) == before + r.corrected@ + behind,
        editor::offset_of(content.lines@, content.cursor) == r.range.end,
    ensures
        new_state.body@ == before + r.original@ + behind,
        new_state.caret == text::byte_len(before + r.original@),
        new_state.spell.pending_revert is None,
        new_state.spell.rejected@ == old_state.spell.rejected@.insert(r.original@),
{
    let s = before + r.corrected@ + behind;
    let a = before.len() as int;
    let b = a + r.corrected@.len();
    assert(s.take(a) =~= before);
    assert(s.take(b) =~= before + r.corrected@);
    assert(text::is_index(s, r.range.start as int, a));
    assert(text::is_index(s, r.range.end as int, b));
    text::lemma_index_unique(s, r.range.start as int, a, a);
    text::lemma_index_unique(s, r.range.end as int, b, b);
    assert(s.subrange(a, b) =~= r.corrected@);
    assert(text::spliced(s, a, b, r.original@) =~= before + r.original@ + behind);
    text::lemma_byte_len_concat(before, r.original@);
    text::lemma_byte_len_concat(before, r.corrected@);
    assert(spell::slice_is(s, r.range.start as int, r.range.end as int, r.corrected@));
}

/// Picking a suggestion puts it in the place of the flagged word, with the
/// caret behind it, where the word still stands.
pub proof fn law_a_picked_suggestion_replaces_the_word<
    E: Fn(&str) -> Option<SpellError>,
    G: Fn(&str) -> Vec<String>,
>(
    old_state: State,
    new_state: State,
    w: String,
    cfg: SpellcheckConfig,
    errors: E,
    guesses: G,
    followup: Followup,
    effect: Effect,
    before: Seq<char>,
    behind: Seq<char>,
)
    requires
        updated(
            old_state,
            new_state,
            Message::SpellSuggestionPicked(w),
            cfg,
            errors,
            guesses,
            followup,
            effect,
        ),
        old_state.spell.flagged matches Some(f) && f.range.start == text::byte_len(before)
            && f.range.end == text::byte_len(before + f.word@) && old_state.body@ == before
            + f.word@ + behind,
    ensures
        new_state.body@ == before + w@ + behind,
        new_state.caret == text::byte_len(before + w@),
{
    let f = old_state.spell.flagged->0;
    let s = old_state.body@;
    let a = before.len() as int;
    let b = a + f.word@.len();
    assert(s.take(a) =~= before);
    assert(s.take(b) =~= before + f.word@);
    assert(text::is_index(s, f.range.start as int, a));
    assert(text::is_index(s, f.range.end as int, b));
    text::lemma_index_unique(s, f.range.start as int, a, a);
    text::lemma_index_unique(s, f.range.end as int, b, b);
    assert(s.subrange(a, b) =~= f.word@);
    assert(text::spliced(s, a, b, w@) =~= before + w@ + behind);
    text::lemma_byte_len_concat(before, w@);
    text::lemma_byte_len_concat(before, f.word@);
    assert(spell::slice_is(s, f.range.start as int, f.range.end as int, f.word@));
}

/// What is typed in goes in at the caret, and the caret goes behind it: an
/// emoji, a custom emoji's code between colons with a space behind it, and
/// text that is pasted.
pub proof fn law_insertions_go_in_at_the_caret<
    E: Fn(&str) -> Option<SpellError>,
    G: Fn(&str) -> Vec<String>,
>(
    old_state: State,
    new_state: State,
    message: Message,
    cfg: SpellcheckConfig,
    errors: E,
    guesses: G,
    followup: Followup,
    effect: Effect,
    before: Seq<char>,
    behind: Seq<char>,
    w: Seq<char>,
)
    requires
        updated(old_state, new_state, message, cfg, errors, guesses, followup, effect),
        old_state.body@ == before + behind,
        old_state.caret == text::byte_len(before),
        ({
            ||| message matches Message::EmojiPicked(glyph) && w == glyph@
            ||| message matches Message::InsertText(t) && w == t@
            ||| message matches Message::CustomEmojiPicked { shortcode, mxc_url } && w == seq![':']
                + shortcode@ + seq![':'] + seq![' ']
        }),
    ensures
        new_state.body@ == before + w + behind,
        new_state.caret == text::byte_len(before + w),
        new_state.spell.pending_revert is None,
        message matches Message::EmojiPicked(glyph) ==> effect == Effect::EmojiUsed(glyph),
        message matches Message::CustomEmojiPicked { shortcode, mxc_url } ==> effect
            == Effect::EmojiUsed(mxc_url),
{
    let s = old_state.body@;
    let a = before.len() as int;
    assert(s.take(a) =~= before);
    assert(text::is_index(s, old_state.caret as int, a));
    text::lemma_index_unique(s, old_state.caret as int, a, a);
    assert(text::spliced(s, a, a, w) =~= before + w + behind);
    text::lemma_byte_len_concat(before, w);
    if let Message::CustomEmojiPicked { shortcode, mxc_url } = message {
        assert(emoji_code(shortcode@) =~= w);
    }
}

/// Completing a mention puts the name behind the last `@` of the draft, with a
/// space behind it, and notes whom it mentions, once.
pub proof fn law_a_mention_takes_the_place_of_its_beginning<
    E: Fn(&str) -> Option<SpellError>,
    G: Fn(&str) -> Vec<String>,
>(
    old_state: State,
    new_state: State,
    user_id: String,
    name: String,
    cfg: SpellcheckConfig,
    errors: E,
    guesses: G,
    followup: Followup,
    effect: Effect,
    before: Seq<char>,
    partial: Seq<char>,
)
    requires
        updated(
            old_state,
            new_state,
            Message::MentionCandidateClicked(user_id, name),
            cfg,
            errors,
            guesses,
            followup,
            effect,
        ),
        old_state.body@ == before + seq!['@'] + partial,
        forall|i: int| 0 <= i < partial.len() ==> (#[trigger] partial[i]) != '@',
    ensures
        new_state.body@ == before + seq!['@'] + name@ + seq![' '],
        new_state.caret == text::byte_len(new_state.body@),
        new_state.replying_to == old_state.replying_to,
        exists|i: int|
            0 <= i < new_state.mentioned@.len() && (#[trigger] new_state.mentioned@[i]).0@
                == user_id@,
        (forall|i: int|
            0 <= i < old_state.mentioned@.len() ==> (#[trigger] old_state.mentioned@[i]).0@
                != user_id@) ==> new_state.mentioned@ == old_state.mentioned@.push((user_id, name)),
        (exists|i: int|
            0 <= i < old_state.mentioned@.len() && (#[trigger] old_state.mentioned@[i]).0@
                == user_id@) ==> new_state.mentioned@ == old_state.mentioned@,
{
    let s = old_state.body@;
    let n = before.len() + 1;
    let p = text::is_char('@');
    text::lemma_end_before(s, p, s.len() as int);
    let e = text::end_before(s, p, s.len() as int);
    assert(p(s[n - 1]));
    if e > n {
        assert(s[e - 1] == partial[e - 1 - n]);
    }
    assert(e == n);
    assert(s.take(n - 1) =~= before);
    if !is_mentioned(old_state.mentioned@, user_id@) {
        let m = new_state.mentioned@;
        assert(m[m.len() - 1].0@ == user_id@);
    }
}

/// Only a word at the very end of the draft that begins with `@` is a mention
/// being typed, and it is searched for by what stands behind the `@`.
pub proof fn law_a_mention_is_the_last_word(before: Seq<char>, word: Seq<char>)
    requires
        before.len() > 0 ==> text::white_space(before[before.len() - 1]),
        forall|i: int| 0 <= i < word.len() ==> !text::white_space(#[trigger] word[i]),
    ensures
        mention_query(before + seq!['@'] + word) == Some(word),
        word.len() > 0 && word[0] != '@' ==> mention_query(before + word) is None,
        mention_query(before) is None,
{
    lemma_last_word(before, seq!['@'] + word);
    lemma_last_word(before, word);
    lemma_last_word(before, Seq::empty());
    let s = before + seq!['@'] + word;
    assert(s =~= before + (seq!['@'] + word));
    assert(s.skip(before.len() as int + 1) =~= word);
    assert(before + Seq::<char>::empty() =~= before);
    let t = before + word;
    if word.len() > 0 {
        assert(t[before.len() as int] == word[0]);
    }
}

proof fn lemma_last_word(before: Seq<char>, word: Seq<char>)
    requires
        before.len() > 0 ==> text::white_space(before[before.len() - 1]),
        forall|i: int|
            0 <= i < word.len() ==> !text::white_space(#[trigger] word[i]) || word[i] == '@',
    ensures
        text::end_before(before + word, text::spaces(), (before + word).len() as int)
            == before.len(),
{
    let s = before + word;
    let n = before.len() as int;
    text::lemma_end_before(s, text::spaces(), s.len() as int);
    let e = text::end_before(s, text::spaces(), s.len() as int);
    if n > 0 {
        assert(s[n - 1] == before[n - 1]);
        assert(text::spaces()(s[n - 1]));
    }
    if e > n {
        assert(s[e - 1] == word[e - 1 - n]);
        assert(text::spaces()(s[e - 1]));
    }
}

proof fn lemma_matches(names: Seq<String>, count: int, query: Seq<char>, i: int, n: int)
    requires
        0 <= i,
        0 <= n,
        count <= names.len(),
    ensures
        ({
            let m = matches_from(names, count, query, i, n);
            &&& m.len() <= n
            &&& forall|k: int|
                0 <= k < m.len() ==> i <= (#[trigger] m[k]) < count && text::starts(
                    names[m[k]]@,
                    query,
                )
            &&& forall|j: int, k: int| 0 <= j < k < m.len() ==> (#[trigger] m[j]) < (#[trigger] m[k])
            &&& forall|x: int|
                i <= x < count && text::starts((#[trigger] names[x])@, query) ==> m.contains(x) || (
                m.len() == n && forall|k: int| 0 <= k < m.len() ==> (#[trigger] m[k]) < x)
        }),
    decreases count - i,
{
    let m = matches_from(names, count, query, i, n);
    if i < count && n > 0 {
        if text::starts(names[i]@, query) {
            lemma_matches(names, count, query, i + 1, n - 1);
            let rest = matches_from(names, count, query, i + 1, n - 1);
            assert(m == seq![i] + rest);
            assert(forall|k: int| 1 <= k < m.len() ==> #[trigger] m[k] == rest[k - 1]);
            assert forall|x: int|
                i <= x < count && text::starts((#[trigger] names[x])@, query) implies m.contains(x)
                || (m.len() == n && forall|k: int| 0 <= k < m.len() ==> (#[trigger] m[k]) < x) by {
                if x == i {
                    assert(m[0] == i);
                } else if rest.contains(x) {
                    let k = choose|k: int| 0 <= k < rest.len() && rest[k] == x;
                    assert(m[k + 1] == x);
                }
            }
        } else {
            lemma_matches(names, count, query, i + 1, n);
        }
    }
}

/// The completion list offers members whose lowercased name starts with what
/// was typed, in the order of the roster, and no more than six; none is passed
/// over for one further down.
pub proof fn law_which_members_are_offered(s: State, q: Seq<char>, r: Seq<usize>, x: int)
    requires
        r.map_values(|i: usize| i as int) == offered_mentions(s),
        mention_query(s.body@) == Some(q),
        s.member_candidates@.len() == s.member_candidates_lower@.len(),
    ensures
        r.len() <= 6,
        forall|k: int|
            0 <= k < r.len() ==> (#[trigger] r[k]) < s.member_candidates@.len() && text::starts(
                s.member_candidates_lower@[r[k] as int]@,
                text::lowered(q),
            ),
        forall|j: int, k: int| 0 <= j < k < r.len() ==> (#[trigger] r[j]) < (#[trigger] r[k]),
        0 <= x < s.member_candidates@.len() && text::starts(
            s.member_candidates_lower@[x]@,
            text::lowered(q),
        ) && r.len() < 6 ==> r.contains(x as usize),
{
    let all = r.map_values(|i: usize| i as int);
    let names = s.member_candidates_lower@;
    lemma_matches(names, named_members(s), text::lowered(q), 0, 6);
    assert forall|k: int|
        0 <= k < r.len() implies (#[trigger] r[k]) < s.member_candidates@.len() && text::starts(
        names[r[k] as int]@,
        text::lowered(q),
    ) by {
        assert(all[k] == r[k] as int);
    }
    assert forall|j: int, k: int| 0 <= j < k < r.len() implies (#[trigger] r[j]) < (
    #[trigger] r[k]) by {
        assert(all[j] == r[j] as int);
        assert(all[k] == r[k] as int);
    }
    if 0 <= x < names.len() && text::starts(names[x]@, text::lowered(q)) && r.len() < 6 {
        assert(all.contains(x));
        let k = choose|k: int| 0 <= k < all.len() && all[k] == x;
        assert(r[k] == x as usize);
    }
}

/// A file that is picked goes behind those that are staged, under its own name
/// and with its own bytes, unless exactly it is staged already; the draft is
/// none of its business.
pub proof fn law_a_picked_file_is_staged_once<
    E: Fn(&str) -> Option<SpellError>,
    G: Fn(&str) -> Vec<String>,
>(
    before: State,
    after: State,
    filename: String,
    bytes: Vec<u8>,
    cfg: SpellcheckConfig,
    errors: E,
    guesses: G,
    followup: Followup,
    effect: Effect,
)
    requires
        updated(
            before,
            after,
            Message::AttachmentPicked(Ok((filename, bytes))),
            cfg,
            errors,
            guesses,
            followup,
            effect,
        ),
    ensures
        effect is Nothing,
        after.body == before.body && after.mentioned == before.mentioned && after.replying_to
            == before.replying_to,
        (exists|i: int|
            0 <= i < before.staged_attachments@.len() && (
            #[trigger] before.staged_attachments@[i]).filename@ == filename@
                && before.staged_attachments@[i].bytes@ == bytes@) ==> after == before,
        (forall|i: int|
            0 <= i < before.staged_attachments@.len() ==> (
            #[trigger] before.staged_attachments@[i]).filename@ != filename@
                || before.staged_attachments@[i].bytes@ != bytes@) ==> {
            let n = before.staged_attachments@.len() as int;
            &&& after.staged_attachments@.len() == n + 1
            &&& forall|i: int|
                0 <= i < n ==> #[trigger] after.staged_attachments@[i]
                    == before.staged_attachments@[i]
            &&& after.staged_attachments@[n].filename@ == filename@
            &&& after.staged_attachments@[n].bytes@ == bytes@
            &&& !filename@.contains('.') ==> after.staged_attachments@[n].mime@
                == "application/octet-stream"@
            &&& mime::portable(filename@) ==> after.staged_attachments@[n].mime@
                == mime::guessed_mime(filename@)
            &&& after.error is None
        },
{
    let n = before.staged_attachments@.len() as int;
    if !is_staged(before.staged_attachments@, filename@, bytes@) {
        assert(after.staged_attachments@.drop_last() == before.staged_attachments@);
        assert forall|i: int| 0 <= i < n implies #[trigger] after.staged_attachments@[i]
            == before.staged_attachments@[i] by {
            assert(after.staged_attachments@.drop_last()[i] == after.staged_attachments@[i]);
        }
    }
}

/// Removing a chip removes that file and no other; the one that is being
/// uploaded stays.
pub proof fn law_a_removed_chip_is_gone<
    E: Fn(&str) -> Option<SpellError>,
    G: Fn(&str) -> Vec<String>,
>(
    before: State,
    after: State,
    index: usize,
    cfg: SpellcheckConfig,
    errors: E,
    guesses: G,
    followup: Followup,
    effect: Effect,
    i: int,
)
    requires
        updated(
            before,
            after,
            Message::RemoveStagedAttachment(index),
            cfg,
            errors,
            guesses,
            followup,
            effect,
        ),
        index < before.staged_attachments@.len(),
    ensures
        index == 0 && before.pending_attachment_request is Some ==> after == before,
        !(index == 0 && before.pending_attachment_request is Some) ==> {
            &&& after.staged_attachments@.len() == before.staged_attachments@.len() - 1
            &&& 0 <= i < index ==> after.staged_attachments@[i] == before.staged_attachments@[i]
            &&& index <= i < after.staged_attachments@.len() ==> after.staged_attachments@[i]
                == before.staged_attachments@[i + 1]
        },
        after.body == before.body,
{
}

/// The picker buttons open their own tab and close it again; picking a sticker
/// leaves the picker open; the edit menu does what its entries say.
pub proof fn law_what_the_buttons_do<
    E: Fn(&str) -> Option<SpellError>,
    G: Fn(&str) -> Vec<String>,
>(
    before: State,
    after: State,
    message: Message,
    cfg: SpellcheckConfig,
    errors: E,
    guesses: G,
    followup: Followup,
    effect: Effect,
)
    requires
        updated(before, after, message, cfg, errors, guesses, followup, effect),
    ensures
        message is ToggleEmojiPicker && !(before.show_emoji_picker && before.picker_tab
            == PickerTab::Emoji) ==> after.show_emoji_picker && after.picker_tab == PickerTab::Emoji
            && effect is EnsureEmojiFetched,
        message is ToggleStickerPicker && !(before.show_emoji_picker && before.picker_tab
            == PickerTab::Sticker) ==> after.show_emoji_picker && after.picker_tab
            == PickerTab::Sticker && effect is EnsureStickersFetched,
        message is ToggleEmojiPicker && before.show_emoji_picker && before.picker_tab
            == PickerTab::Emoji ==> !after.show_emoji_picker,
        message is ToggleStickerPicker && before.show_emoji_picker && before.picker_tab
            == PickerTab::Sticker ==> !after.show_emoji_picker,
        message is ClosePicker ==> !after.show_emoji_picker,
        message is StickerPicked ==> after == before,
        message matches Message::StickerPicked { url, body, width, height } ==> effect == (
        Effect::SendSticker { url, body, width, height }),
        message is CancelReply ==> after.replying_to is None && after.body == before.body,
        message is PickAttachment ==> effect is PickAttachment,
        message is ContextCut ==> effect == Effect::ClipboardEdit(synthetic_input::Edit::Cut),
        message is ContextCopy ==> effect == Effect::ClipboardEdit(synthetic_input::Edit::Copy),
        message is ContextPaste ==> effect is PasteFromClipboard,
        message is ContextSelectAll ==> followup == Followup::FocusThenSelectAll,
        message is ContextCut || message is ContextCopy || message is ContextPaste || message
            is ContextSelectAll || message is CloseContextMenu ==> after.context_menu is None
            && after.body == before.body,
        message is OpenContextMenu ==> effect is OpenContextMenu,
        message is SpellAddToDictionary && before.spell.flagged is Some ==> effect
            is AddToDictionary && effect->AddToDictionary_0@ == before.spell.flagged->0.word@
            && after.spell.flagged is None,
        message matches Message::AttachmentPicked(Err(why)) ==> after.error == Some(why)
            && after.staged_attachments == before.staged_attachments,
        message is SendSucceeded ==> after.body@.len() == 0 && after.replying_to is None
            && after.pending_request is None && after.mentioned@.len() == 0,
        message matches Message::SendFailed(why) ==> after.error == Some(why) && after.body
            == before.body && after.pending_request is None,
{
}

} // verus!
