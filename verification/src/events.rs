//! The values that the sync worker reports, as the interface reads them.

use vstd::prelude::*;

use crate::text;

verus! {

/// Correlates a command with its eventual success or failure.
pub type RequestId = u128;

/// A member of a room.
#[derive(Debug)]
pub struct RoomMember {
    pub user_id: String,
    pub display_name: String,
    pub avatar_url: Option<String>,
    pub power_level: i64,
}

/// A named power level of a room.
#[derive(Debug)]
pub struct PowerLevelTag {
    pub level: i64,
    pub name: String,
    /// The tag's colour as the room state writes it, e.g. `#c0ffee`.
    pub color: Option<String>,
}

/// The message that a reply answers.
#[derive(Debug)]
pub struct ReplyPreview {
    pub event_id: String,
    pub sender: String,
    pub snippet: String,
    pub image_url: Option<String>,
}

/// One reaction key under a message, with everyone who used it.
#[derive(Debug)]
pub struct Reaction {
    pub key: String,
    pub count: usize,
    pub reacted_by_me: bool,
    pub senders: Vec<String>,
}

/// What the sender's verification says about a message.
#[derive(Debug)]
pub enum TrustShield {
    Red(String),
    Grey(String),
}

/// A local message that did not go out.
#[derive(Debug, Clone, Copy, PartialEq, Eq, Structural)]
pub struct SendFailure {
    pub is_recoverable: bool,
}

/// What a timeline row holds.
#[derive(Debug)]
pub enum TimelineItemContent {
    Text(String),
    Emote(String),
    Image { url: String, caption: Option<String>, width: Option<u32>, height: Option<u32> },
    Sticker { url: String, body: String, width: Option<u32>, height: Option<u32> },
    File { filename: String, caption: Option<String>, is_image: bool },
    MembershipChange(String),
    Redacted,
    DateDivider(String),
    NewMessagesDivider,
}

/// One row of a room's timeline.
#[derive(Debug)]
pub struct TimelineItem {
    pub event_id: Option<String>,
    pub sender: String,
    pub sender_display_name: Option<String>,
    pub sender_avatar_url: Option<String>,
    pub timestamp_ms: u64,
    pub content: TimelineItemContent,
    pub in_reply_to: Option<ReplyPreview>,
    pub reactions: Vec<Reaction>,
    pub read_by: Vec<String>,
    pub thread_reply_count: Option<u32>,
    pub shield: Option<TrustShield>,
    pub send_failed: Option<SendFailure>,
}

impl RoomMember {
    /// The same member.
    pub fn copy(&self) -> (r: Self)
        ensures
            r == *self,
    {
        RoomMember {
            user_id: self.user_id.clone(),
            display_name: self.display_name.clone(),
            avatar_url: text::clone_opt(&self.avatar_url),
            power_level: self.power_level,
        }
    }
}

impl ReplyPreview {
    /// The same preview.
    pub fn copy(&self) -> (r: Self)
        ensures
            r == *self,
    {
        ReplyPreview {
            event_id: self.event_id.clone(),
            sender: self.sender.clone(),
            snippet: self.snippet.clone(),
            image_url: text::clone_opt(&self.image_url),
        }
    }
}

/// How a room notifies.
#[derive(Debug, Clone, Copy, PartialEq, Eq, Structural)]
pub enum NotificationMode {
    AllMessages,
    MentionsAndKeywordsOnly,
    Mute,
}

/// The state of the connection to the homeserver.
#[derive(Debug)]
pub enum SyncState {
    Connecting,
    Syncing,
    Offline,
    Error(String),
}

/// A room of the sidebar.
#[derive(Debug)]
pub struct RoomSummary {
    pub room_id: String,
    pub name: String,
    pub is_space: bool,
    pub is_dm: bool,
    pub is_encrypted: bool,
    pub topic: Option<String>,
    pub avatar_url: Option<String>,
    pub unread_count: u64,
}

/// A custom emoji of a pack.
#[derive(Debug)]
pub struct CustomEmoji {
    pub shortcode: String,
    pub mxc_url: String,
}

/// A pack of custom emoji.
#[derive(Debug)]
pub struct EmojiPack {
    pub name: String,
    pub emojis: Vec<CustomEmoji>,
}

impl CustomEmoji {
    /// The same emoji.
    pub fn copy(&self) -> (r: Self)
        ensures
            r == *self,
    {
        CustomEmoji { shortcode: self.shortcode.clone(), mxc_url: self.mxc_url.clone() }
    }
}

/// What the homeserver found out about a link.
#[derive(Debug)]
pub struct UrlPreview {
    pub url: String,
    pub title: Option<String>,
    pub description: Option<String>,
    pub site_name: Option<String>,
    pub image_mxc: Option<String>,
    pub image_width: Option<u32>,
    pub image_height: Option<u32>,
}

/// A video that can play inline, as its link identifies it.
#[derive(Debug)]
pub struct EmbedVideo {
    /// The platform's display name.
    pub platform: String,
    /// The platform's id of the video.
    pub id: String,
    /// The file's name, for a plain video file.
    pub file_name: Option<String>,
    /// The page to watch it on.
    pub watch_url: String,
}

impl EmbedVideo {
    /// Whether two values identify the same video.
    pub fn same(&self, other: &EmbedVideo) -> (r: bool)
        ensures
            r == (self.platform@ == other.platform@ && self.id@ == other.id@),
    {
        text::str_eq(self.platform.as_str(), other.platform.as_str()) && text::str_eq(
            self.id.as_str(),
            other.id.as_str(),
        )
    }

    /// The same video.
    pub fn copy(&self) -> (r: Self)
        ensures
            r == *self,
    {
        EmbedVideo {
            platform: self.platform.clone(),
            id: self.id.clone(),
            file_name: text::clone_opt(&self.file_name),
            watch_url: self.watch_url.clone(),
        }
    }
}

/// What a default notification mode is for.
#[derive(Debug, Clone, Copy, PartialEq, Eq, Structural)]
pub enum NotificationScope {
    DirectMessages,
    GroupChats,
}

/// How far a device verification has come.
#[derive(Debug)]
pub enum SasState {
    RequestReceived { from_user_id: String },
    RequestSent,
    Ready,
    /// The emoji to compare, each with its name.
    EmojisReady(Vec<(String, String)>),
    WaitingForOtherPartyConfirmation,
    Done,
    Cancelled { reason: String },
}

/// How far setting up a backup has come.
#[derive(Debug, Clone, Copy, PartialEq, Eq, Structural)]
pub enum RecoveryEnableStage {
    Starting,
    CreatingBackup,
    CreatingRecoveryKey,
    BackingUp,
}

/// A device in a call.
#[derive(Debug)]
pub struct CallParticipant {
    pub user_id: String,
}

/// A room's call.
#[derive(Debug)]
pub struct CallState {
    /// Who is in the call: no one where there is none.
    pub participants: Vec<CallParticipant>,
    /// Whether this device is in it.
    pub joined: bool,
}

/// A user that a directory search found.
#[derive(Debug)]
pub struct UserSearchResult {
    pub user_id: String,
    pub display_name: Option<String>,
    pub avatar_url: Option<String>,
}

/// Who may join a child of a space.
#[derive(Debug, Clone, Copy, PartialEq, Eq, Structural)]
pub enum SpaceJoinRule {
    Public,
    Restricted,
    Knock,
    InviteOnly,
}

/// A child of a space.
#[derive(Debug)]
pub struct SpaceChildSummary {
    pub room_id: String,
    pub name: Option<String>,
    pub canonical_alias: Option<String>,
    pub topic: Option<String>,
    pub avatar_url: Option<String>,
    pub num_joined_members: u64,
    pub is_space: bool,
    pub joined: bool,
    pub join_rule: SpaceJoinRule,
    pub via: Vec<String>,
}

/// An identity provider that a homeserver signs in through.
#[derive(Debug)]
pub struct SsoProvider {
    pub id: String,
    pub name: String,
}

/// The ways to sign in that a homeserver offers.
#[derive(Debug)]
pub struct LoginFlows {
    pub supports_password: bool,
    pub supports_sso: bool,
    pub sso_providers: Vec<SsoProvider>,
}

/// The readable part of a user id: the localpart, where bridged users lose
/// their `irc_` prefix.
pub open spec fn friendly(user_id: Seq<char>) -> Seq<char> {
    let bare = if user_id.len() > 0 && user_id[0] == '@' {
        user_id.skip(1)
    } else {
        user_id
    };
    let local = bare.take(text::find_from(bare, text::is_char(':'), 0));
    if text::starts(local, "irc_"@) {
        local.skip(4)
    } else {
        local
    }
}

/// The readable part of a user id.
pub fn friendly_user_id(user_id: &str) -> (r: &str)
    ensures
        r@ == friendly(user_id@),
{
    proof {
        reveal_strlit("irc_");
    }
    let n: usize = user_id.unicode_len();
    let bare = if n > 0 && user_id.get_char(0) == '@' {
        user_id.substring_char(1, n)
    } else {
        user_id
    };
    let v = text::chars(bare);
    let end: usize = text::find_char(&v, ':', 0);
    let local = bare.substring_char(0, end);
    let ghost whole = if user_id@.len() > 0 && user_id@[0] == '@' {
        user_id@.skip(1)
    } else {
        user_id@
    };
    assert(bare@ =~= whole);
    assert(local@ =~= whole.take(end as int));
    if text::starts_with(local, "irc_") {
        let r = local.substring_char(4, end);
        assert(r@ =~= local@.skip(4));
        r
    } else {
        local
    }
}

/// A user id reads as what stands between its `@` and its first colon, less
/// the prefix of a bridge.
pub proof fn law_a_user_reads_as_the_local_part(local: Seq<char>, server: Seq<char>)
    requires
        !local.contains(':'),
    ensures
        !(local.len() >= 4 && local.take(4) == "irc_"@) ==> friendly(
            seq!['@'] + local + seq![':'] + server,
        ) == local,
        friendly(seq!['@'] + "irc_"@ + local + seq![':'] + server) == local,
{
    reveal_strlit("irc_");
    let p = text::is_char(':');
    let bare = local + seq![':'] + server;
    assert((seq!['@'] + local + seq![':'] + server).skip(1) =~= bare);
    assert(bare[local.len() as int] == ':');
    assert forall|j: int| 0 <= j < local.len() implies !p(#[trigger] bare[j]) by {
        assert(bare[j] == local[j]);
    }
    text::lemma_find_from_is(bare, p, 0, local.len() as int);
    assert(bare.take(local.len() as int) =~= local);
    if text::starts(local, "irc_"@) {
        assert(local.take(4) =~= "irc_"@);
    }
    let long = "irc_"@ + local;
    let other = long + seq![':'] + server;
    assert((seq!['@'] + "irc_"@ + local + seq![':'] + server).skip(1) =~= other);
    assert(other[long.len() as int] == ':');
    assert forall|j: int| 0 <= j < long.len() implies !p(#[trigger] other[j]) by {
        assert(other[j] == long[j]);
        if j >= 4 {
            assert(long[j] == local[j - 4]);
        }
    }
    text::lemma_find_from_is(other, p, 0, long.len() as int);
    assert(other.take(long.len() as int) =~= long);
    assert(long.subrange(0, 4) =~= "irc_"@);
    assert(long.skip(4) =~= local);
}

} // verus!
