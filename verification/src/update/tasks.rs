//! What the application reacts to, and what it asks of its surroundings.

use vstd::prelude::*;

use crate::commands::ClientCommand;
use crate::events::{
    CallState, EmbedVideo, EmojiPack, NotificationMode, PowerLevelTag, RecoveryEnableStage,
    RequestId, RoomMember, RoomSummary, SasState, SpaceChildSummary, SyncState, TimelineItem,
    UrlPreview, UserSearchResult,
};
use crate::media::MediaKind;
use crate::screens::dm_search;
use crate::screens::login;
use crate::screens::room_list;
use crate::screens::settings;
use crate::screens::space_explorer;
use crate::screens::timeline;
use crate::screens::timeline::{Point, Rect};
use crate::screens::verification;
use crate::state::{App, Size};
use crate::steam::SteamAppData;
use crate::synthetic_input::Edit;
use crate::tweets::TweetData;

verus! {

/// What the sync worker reports.
#[derive(Debug)]
pub enum ClientEvent {
    SyncStateChanged(SyncState),
    LoggedOut,
    RoomListUpdated(Vec<RoomSummary>),
    DirectMessageReady { room_id: String },
    RoomCreated { room_id: String },
    UserSearchResults { request_id: RequestId, results: Vec<UserSearchResult>, limited: bool },
    PowerLevelTagsUpdated { room_id: String, tags: Vec<PowerLevelTag> },
    TimelineUpdated { room_id: String, items: Vec<TimelineItem> },
    TimelineStartReached { room_id: String },
    RoomMembersUpdated { room_id: String, members: Vec<RoomMember> },
    TypingUpdated { room_id: String, user_ids: Vec<String> },
    CommandSucceeded { request_id: RequestId },
    CommandFailed { request_id: RequestId, error: String },
    CrossSigningBootstrapNeedsFallback { url: String },
    CrossSigningBootstrapDone,
    CrossSigningBootstrapFailed { reason: String },
    VerificationStateChanged(SasState),
    KeyBackupNeedsRecovery,
    RecoverySetupNeeded,
    RecoveryEnableProgress(RecoveryEnableStage),
    RecoveryEnabled { recovery_key: String },
    RecoveryEnableFailed { reason: String },
    KeyBackupRestored,
    KeyBackupFailed { reason: String },
    CustomEmojiPacksUpdated(Vec<EmojiPack>),
    /// The bytes of some media, what they are, and the extension that a file
    /// with them has.
    MediaFetched { request_id: RequestId, kind: MediaKind, extension: String, bytes: Vec<u8> },
    MediaFetchFailed { request_id: RequestId },
    UrlPreviewFetched(UrlPreview),
    UrlPreviewFailed { url: String },
    RoomNotificationModesUpdated(Vec<(String, NotificationMode)>),
    RoomNotificationModeChanged { room_id: String, mode: NotificationMode },
    RoomNotificationModeCleared { room_id: String },
    DefaultNotificationModesUpdated {
        direct_messages: NotificationMode,
        group_chats: NotificationMode,
    },
    CallStateUpdated { room_id: String, call: CallState },
    SpaceHierarchyFetched {
        request_id: RequestId,
        space_id: String,
        children: Vec<SpaceChildSummary>,
        next_batch: Option<String>,
    },
    SpaceChildrenFetched { space_id: String, child_ids: Vec<String> },
}

/// What the application reacts to.
#[derive(Debug)]
pub enum Message {
    /// A stored session was restored, with its user; or there was none.
    RestoreResult(Result<Option<Option<String>>, String>),
    /// A login went through, with its user.
    LoginResult(Result<Option<String>, String>),
    WorkerStarted,
    Client(ClientEvent),
    Login(login::Message),
    RoomList(room_list::Message),
    ConfirmLeaveRoom(String),
    ConfirmForgetRoom(String),
    RoomRenameDraftChanged(String),
    ConfirmRoomRename(String),
    CancelRoomAction,
    Timeline(timeline::Message),
    Verification(verification::Message),
    SpaceExplorer(space_explorer::Message),
    DmSearch(dm_search::Message),
    /// The emoji of the picker, which is about to show them.
    EmojiWanted(Vec<String>),
    /// An emoji's image came, or there is none.
    EmojiSvgFetched(String, bool),
    /// An animation was decoded, or shows as a still.
    GifDecoded(String),
    TweetFetched(String, Result<TweetData, String>),
    SteamFetched(String, Result<SteamAppData, String>),
    WebImageFetched(String, bool),
    PasteClipboard,
    /// A file was dropped, by its path.
    FileDropped(String),
    /// Files were read for the room that was open then; some may have failed.
    AttachmentsReadFor { room_id: String, files: Vec<(String, Vec<u8>)>, failed: usize },
    CloseZoom,
    DownloadZoomedImage,
    EscapePressed,
    /// The window's scale, as the bit pattern of an `f32`.
    InlineVideoScale(u32),
    /// The player was created, or why not.
    InlineVideoOpened(Option<String>),
    /// The stage was probed: where it is, and what of it is visible.
    InlineVideoBounds(Option<(Rect, Option<Rect>)>),
    ReclaimAppFocus,
    WindowResized,
    CursorMoved(Point),
    AutoscrollTick,
    AutoscrollEnd,
    /// What the system says of autostart comes with it.
    ToggleSettings(bool),
    SettingsResizeStarted,
    /// The cursor moved during a drag: where to, and the size that the panel
    /// then has, measured from the anchor.
    SettingsResizeDragged { cursor: Point, resized: Size },
    SettingsResizeReleased,
    Settings(settings::Message),
    Noop,
}

/// What is to be done outside.
#[derive(Debug)]
pub enum Task {
    /// Hand the command to the sync worker.
    Send(ClientCommand),
    Discover { homeserver: String },
    PasswordLogin { homeserver: String, username: String, password: String },
    SsoLogin { homeserver: String, identity_provider_id: Option<String> },
    Timeline(timeline::Task),
    Settings(settings::Task),
    OpenUrl(String),
    /// Report the search's timer a moment from now.
    WaitForTyping(u64),
    FetchTweet { url: String, api_url: String },
    FetchSteam { url: String, api_url: String },
    FetchWebImage(String),
    FetchEmoji(String),
    /// Report the emoji that the picker shows.
    ListPickerEmoji,
    /// Keep the image for drawing.
    ShowMedia { url: String, kind: MediaKind, bytes: Vec<u8> },
    DecodeGif { url: String, bytes: Vec<u8> },
    SaveDownload { suggested: String, bytes: Vec<u8> },
    PickAttachments { room_id: String },
    ReadClipboard { room_id: String },
    /// The same for the edit menu, which pastes text too.
    ReadClipboardForMenu { room_id: String },
    ReadDropped { room_id: String, path: String },
    FocusComposer,
    /// Scroll the timeline to its newest message.
    ScrollToBottom,
    /// Scroll by as much as the cursor is away from where it started.
    AutoscrollStep { origin: Point, cursor: Point },
    FetchScale,
    ProbeStage,
    OpenPlayer { video: EmbedVideo, full: Rect, visible: Option<Rect>, scale: u32 },
    SyncPlayer { full: Rect, visible: Option<Rect>, scale: u32 },
    HidePlayer,
    ClosePlayer,
    ReclaimFocus,
    ReplayEdit(Edit),
    AddToDictionary(String),
    SaveEmojiUsage,
    SaveStickers,
    SaveLastRoom(String),
    ClearLastRoom,
}

/// The tasks that send a command: none without a worker to take it.
pub open spec fn sent(app: App, command: ClientCommand) -> Seq<Task> {
    if app.connected {
        seq![Task::Send(command)]
    } else {
        Seq::empty()
    }
}

/// Some commands, as tasks.
pub open spec fn sends(commands: Seq<ClientCommand>) -> Seq<Task> {
    commands.map_values(|c: ClientCommand| Task::Send(c))
}

/// No task.
pub fn nothing() -> (r: Vec<Task>)
    ensures
        r@ == Seq::<Task>::empty(),
{
    Vec::new()
}

/// One task.
pub fn one(task: Task) -> (r: Vec<Task>)
    ensures
        r@ == seq![task],
{
    let mut r: Vec<Task> = Vec::new();
    r.push(task);
    assert(r@ =~= seq![task]);
    r
}

/// Sends a command, where there is a worker to take it.
pub fn send_cmd(app: &App, command: ClientCommand) -> (r: Vec<Task>)
    ensures
        r@ == sent(*app, command),
{
    if app.connected {
        one(Task::Send(command))
    } else {
        nothing()
    }
}

/// Sends some commands.
pub fn send_all(commands: Vec<ClientCommand>) -> (r: Vec<Task>)
    ensures
        r@ == sends(commands@),
{
    let ghost all = commands@;
    let mut rest = commands;
    let mut back: Vec<Task> = Vec::new();
    while rest.len() > 0
        invariant
            rest@.len() <= all.len(),
            rest@ == all.take(rest@.len() as int),
            back@.len() == all.len() - rest@.len(),
            forall|k: int|
                0 <= k < back@.len() ==> #[trigger] back@[k] == Task::Send(
                    all[all.len() - 1 - k],
                ),
        decreases rest@.len(),
    {
        let ghost n = rest@.len() as int;
        if let Some(c) = rest.pop() {
            back.push(Task::Send(c));
            assert(rest@ =~= all.take(n - 1));
        }
    }
    let mut r: Vec<Task> = Vec::new();
    let ghost turned = back@;
    while back.len() > 0
        invariant
            back@.len() <= turned.len(),
            back@ == turned.take(back@.len() as int),
            r@.len() == turned.len() - back@.len(),
            forall|k: int|
                0 <= k < r@.len() ==> #[trigger] r@[k] == turned[turned.len() - 1 - k],
        decreases back@.len(),
    {
        let ghost n = back@.len() as int;
        if let Some(t) = back.pop() {
            r.push(t);
            assert(back@ =~= turned.take(n - 1));
        }
    }
    assert(r@ =~= sends(all));
    r
}

} // verus!
