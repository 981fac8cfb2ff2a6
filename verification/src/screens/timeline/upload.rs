//! The batch of attachments that is being sent: what happens when an upload
//! comes to its end.

use vstd::prelude::*;

use crate::events::RequestId;
use crate::screens::timeline::composer;
use crate::screens::timeline::composer::{CarriedText, Effect, State};
use crate::text;

verus! {

/// Whether text went out with a file.
pub open spec fn had_caption(carried: Option<CarriedText>) -> bool {
    carried matches Some(c) && text::trimmed(c.body@).len() > 0
}

/// How many files of the batch are left behind the one that went out.
pub open spec fn left_behind(s: State) -> int {
    if s.staged_attachments@.len() <= 1 || s.sending_remaining == 0 {
        0
    } else {
        s.sending_remaining - 1
    }
}

/// What an upload that went through leaves: its chip is gone, and so is the
/// text that went with it. A draft that was typed meanwhile stays.
pub open spec fn uploaded(before: State, after: State) -> bool {
    &&& after.staged_attachments@ == if before.staged_attachments@.len() > 0 {
        before.staged_attachments@.remove(0)
    } else {
        before.staged_attachments@
    }
    &&& after == (State {
        staged_attachments: after.staged_attachments,
        sending_remaining: left_behind(before) as usize,
        pending_attachment_request: None,
        carried: None,
        error: None,
        ..before
    })
}

/// The file that goes out next: it, its media type and its bytes.
#[derive(Debug)]
pub struct NextFile {
    pub filename: String,
    pub bytes: Vec<u8>,
    pub mime: String,
}

/// Whether this is the next file of a batch: the first one that is staged,
/// while the batch lasts.
pub open spec fn is_next(next: Option<NextFile>, after: State) -> bool {
    if after.sending_remaining > 0 && after.staged_attachments@.len() > 0 {
        let a = after.staged_attachments@[0];
        next matches Some(f) && f.filename == a.filename && f.bytes@ == a.bytes@ && f.mime == a.mime
    } else {
        next is None
    }
}

/// Takes the success of the upload under way: says which file of the batch
/// goes out next, and whether text went out with this one.
pub fn upload_succeeded(state: &mut State) -> (r: (Option<NextFile>, bool))
    requires
        old(state).wf(),
    ensures
        final(state).wf(),
        uploaded(*old(state), *final(state)),
        is_next(r.0, *final(state)),
        r.1 == had_caption(old(state).carried),
{
    state.pending_attachment_request = None;
    state.error = None;
    if state.staged_attachments.len() > 0 {
        state.staged_attachments.remove(0);
    }
    if state.sending_remaining > 0 {
        state.sending_remaining = state.sending_remaining - 1;
    }
    if state.staged_attachments.len() == 0 {
        state.sending_remaining = 0;
    }
    let caption = match state.carried.take() {
        Some(c) => text::trim(c.body.as_str()).unicode_len() > 0,
        None => false,
    };
    let next = if state.sending_remaining > 0 && state.staged_attachments.len() > 0 {
        let a = &state.staged_attachments[0];
        Some(
            NextFile {
                filename: a.filename.clone(),
                bytes: text::clone_bytes(&a.bytes),
                mime: a.mime.clone(),
            },
        )
    } else {
        None
    };
    (next, caption)
}

/// What a file that went out leaves: where the next one of its batch can go
/// out, it does.
pub open spec fn landed(before: State, after: State, can_send: bool, id: RequestId) -> bool {
    &&& uploaded(before, State { pending_attachment_request: None, ..after })
    &&& after.pending_attachment_request == if can_send && left_behind(before) > 0 {
        Some(id)
    } else {
        None
    }
}

/// Whether this is the file that goes out next.
pub open spec fn goes_next(next: Option<NextFile>, before: State, can_send: bool) -> bool {
    if can_send && left_behind(before) > 0 {
        let a = before.staged_attachments@[1];
        next matches Some(f) && f.filename == a.filename && f.bytes@ == a.bytes@ && f.mime == a.mime
    } else {
        next is None
    }
}

/// Takes a file that went out off the batch; says which one goes out next, as
/// the request with this id, and whether text went out with this one.
pub fn file_landed(state: &mut State, can_send: bool, id: RequestId) -> (r: (
    Option<NextFile>,
    bool,
))
    requires
        old(state).wf(),
    ensures
        final(state).wf(),
        landed(*old(state), *final(state), can_send, id),
        goes_next(r.0, *old(state), can_send),
        r.1 == had_caption(old(state).carried),
{
    let (next, caption) = upload_succeeded(state);
    if can_send && next.is_some() {
        state.pending_attachment_request = Some(id);
        (next, caption)
    } else {
        (None, caption)
    }
}

/// What an upload that failed leaves: the batch stops with its file at the
/// front, and the text that was to go with it comes back, unless something
/// was typed meanwhile.
pub open spec fn upload_refused(before: State, after: State, error: String) -> bool {
    let stopped = State {
        pending_attachment_request: None,
        error: Some(error),
        sending_remaining: 0,
        carried: None,
        ..before
    };
    match before.carried {
        None => after == stopped,
        Some(c) => {
            let back = before.body@.len() == 0;
            &&& back ==> after.body == c.body && after.caret == text::byte_len(c.body@)
                && after.mentioned == c.mentioned
            &&& !back ==> after.body == before.body && after.caret == before.caret
                && after.mentioned == before.mentioned
            &&& after.replying_to == if before.replying_to is None {
                c.replying_to
            } else {
                before.replying_to
            }
            &&& after == (State {
                body: after.body,
                caret: after.caret,
                mentioned: after.mentioned,
                replying_to: after.replying_to,
                ..stopped
            })
        },
    }
}

/// Takes the failure of the upload under way.
pub fn upload_failed(state: &mut State, error: String)
    requires
        old(state).wf(),
    ensures
        final(state).wf(),
        upload_refused(*old(state), *final(state), error),
{
    state.pending_attachment_request = None;
    state.error = Some(error);
    state.sending_remaining = 0;
    if let Some(carried) = state.carried.take() {
        let CarriedText { body, mentioned, replying_to } = carried;
        if state.body.as_str().unicode_len() == 0 {
            state.restore_draft(body);
            state.mentioned = mentioned;
        }
        if state.replying_to.is_none() {
            state.replying_to = replying_to;
        }
    }
}

// ---------------------------------------------------------------------------
// Laws.
// ---------------------------------------------------------------------------
/// A batch goes out whole and in order: behind the first file comes the
/// second, without a caption of its own, and so on to the last.
pub proof fn law_a_batch_goes_out_in_order(before: State, after: State, next: Option<NextFile>)
    requires
        before.wf(),
        before.sending_remaining > 0,
        uploaded(before, after),
        is_next(next, after),
    ensures
        after.sending_remaining == before.sending_remaining - 1,
        before.sending_remaining > 1 ==> (next matches Some(f) && f.filename
            == before.staged_attachments@[1].filename && f.bytes@
            == before.staged_attachments@[1].bytes@),
        before.sending_remaining == 1 ==> next is None,
{
}

/// A failed upload loses no file: everything that was staged still is, in the
/// same order, so that Enter tries again.
pub proof fn law_a_failed_upload_keeps_its_file(before: State, after: State, error: String)
    requires
        upload_refused(before, after, error),
    ensures
        after.staged_attachments@ == before.staged_attachments@,
        after.pending_attachment_request is None,
        after.sending_remaining == 0,
{
}

/// Text that was to go out with a file that failed is back in the draft, with
/// its mentions and its reply.
pub proof fn law_a_failed_caption_comes_back(
    before: State,
    mid: State,
    after: State,
    effect: Effect,
    error: String,
)
    requires
        composer::sent(before, mid, effect),
        effect is SendAttachment,
        upload_refused(mid, after, error),
    ensures
        after.body@ == before.body@,
        after.mentioned@ == before.mentioned@,
        after.replying_to == before.replying_to,
        after.staged_attachments@ == before.staged_attachments@,
{
}

/// A draft that was typed during an upload survives its end.
pub proof fn law_a_new_draft_survives(before: State, sent: State, failed: State, error: String)
    requires
        before.body@.len() > 0,
        uploaded(before, sent),
        upload_refused(before, failed, error),
    ensures
        sent.body == before.body,
        failed.body == before.body,
{
}

} // verus!
