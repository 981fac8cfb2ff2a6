//! What the interface asks of the sync worker.

use vstd::prelude::*;

use crate::events::{NotificationMode, NotificationScope, RequestId};

verus! {

/// A command to the sync worker. Those with a request id are answered.
#[derive(Debug)]
pub enum ClientCommand {
    OpenRoom { room_id: String },
    CloseRoom { room_id: String },
    JoinRoom { room_id_or_alias: String, via: Vec<String>, request_id: RequestId },
    LeaveRoom { room_id: String, request_id: RequestId },
    ForgetRoom { room_id: String, request_id: RequestId },
    CreateRoom { encrypted: bool, request_id: RequestId },
    CreateRoomWith { user_id: String, encrypted: bool, request_id: RequestId },
    OpenDirectMessage { user_id: String, encrypted: bool, request_id: RequestId },
    SetRoomName { room_id: String, name: String, request_id: RequestId },
    FetchSpaceHierarchy { space_id: String, from: Option<String>, request_id: RequestId },
    SearchUsers { query: String, request_id: RequestId },
    SendMessage {
        room_id: String,
        body: String,
        mentioned_user_ids: Vec<String>,
        reply_to_event_id: Option<String>,
        request_id: RequestId,
    },
    SendAttachment {
        room_id: String,
        filename: String,
        bytes: Vec<u8>,
        mime: String,
        caption: Option<String>,
        mentioned_user_ids: Vec<String>,
        reply_to_event_id: Option<String>,
        request_id: RequestId,
    },
    SendSticker {
        room_id: String,
        url: String,
        body: String,
        width: Option<u32>,
        height: Option<u32>,
        mimetype: Option<String>,
        request_id: RequestId,
    },
    EditMessage { room_id: String, event_id: String, new_body: String, request_id: RequestId },
    RedactEvent {
        room_id: String,
        event_id: String,
        reason: Option<String>,
        request_id: RequestId,
    },
    ToggleReaction { room_id: String, event_id: String, key: String, request_id: RequestId },
    /// Re-enable the room's send queue.
    RetrySend { room_id: String },
    SetTyping { room_id: String, typing: bool },
    MarkRoomRead { room_id: String, public_receipt: bool },
    PaginateBackwards { room_id: String, request_id: RequestId },
    FetchMedia { mxc_url: String, request_id: RequestId },
    FetchUrlPreview { url: String },
    SetRoomNotificationMode { room_id: String, mode: NotificationMode, request_id: RequestId },
    ClearRoomNotificationMode { room_id: String, request_id: RequestId },
    SetDefaultNotificationMode {
        scope: NotificationScope,
        mode: NotificationMode,
        request_id: RequestId,
    },
    JoinCall { room_id: String, request_id: RequestId },
    LeaveCall { room_id: String, request_id: RequestId },
    RetryCrossSigningBootstrap,
    EnableRecovery { passphrase: Option<String>, request_id: RequestId },
    RestoreFromBackup { recovery_key: String, request_id: RequestId },
    StartVerification { user_id: String },
    AcceptVerificationRequest,
    ConfirmSasMatch,
    RejectSasMatch,
    VerificationCancel,
    Logout,
}

/// `uuid::Uuid::new_v4`, as its 128 bits: a random id. Nothing is claimed of
/// it, for it is different on every call.
#[verifier::external_body]
pub(crate) fn new_request_id() -> (r: RequestId) {
    uuid::Uuid::new_v4().as_u128()
}

} // verus!
