//! Slash commands of the composer.
//!
//! Slash commands are a client feature, so a known set is recognised here and
//! each submission is turned into one of: a message to send, an action for the
//! sync worker, or a usage error to show. An unknown `/word` is left alone and
//! sent as an ordinary message, so paths and typos like `/method` still go
//! through; a leading `//` escapes to a literal single slash.

use vstd::prelude::*;

use crate::text;

verus! {

/// What a composer submission parses into.
#[derive(Debug, Clone, PartialEq)]
pub enum Parsed {
    /// Send text. `emote` picks an emote (`/me`); `markdown` false posts the
    /// body verbatim as plain text (`/plain`) instead of the usual render.
    Message { body: String, emote: bool, markdown: bool },
    /// A room or moderation action to dispatch to the sync worker.
    Action(Action),
    /// A usage error to show in the composer; nothing is sent.
    Error(String),
}

/// A room or moderation action requested by a command.
#[derive(Debug, Clone, PartialEq)]
pub enum Action {
    Join(String),
    /// Ask to join a knock-rule room (sends the knock; entry happens if a
    /// moderator accepts).
    Knock(String),
    Leave,
    Invite(String),
    Dm(String),
    Kick { user: String, reason: Option<String> },
    Ban { user: String, reason: Option<String> },
    Unban(String),
    Topic(String),
    Nick(String),
    RoomName(String),
}

#[derive(Debug, Clone, Copy, PartialEq, Eq, Structural)]
pub enum CommandCategory {
    Text,
    Rooms,
    People,
    Moderation,
}

/// Static metadata for one slash command: its name, aliases, usage and
/// description, shared by the usage errors of [`parse`] and the manual, so
/// that the two cannot describe a command differently.
#[derive(Debug)]
pub struct CommandSpec {
    pub name: &'static str,
    pub aliases: Vec<&'static str>,
    /// `None` for commands that cannot fail (`/leave`, the emoticons).
    pub usage: Option<&'static str>,
    /// One or two sentences for the manual. Does not restate usage or
    /// aliases: the manual appends those itself.
    pub description: &'static str,
    pub category: CommandCategory,
}

/// The commands the composer recognises.
#[derive(Debug, Clone, Copy, PartialEq, Eq, Structural)]
pub enum Command {
    Me,
    Plain,
    Shrug,
    TableFlip,
    Unflip,
    Lenny,
    Join,
    Knock,
    Leave,
    RoomName,
    Topic,
    Invite,
    Dm,
    Nick,
    Kick,
    Ban,
    Unban,
}

pub const USAGE_ME: &'static str = "Usage: /me <action>";

pub const USAGE_PLAIN: &'static str = "Usage: /plain <message>";

pub const USAGE_JOIN: &'static str = "Usage: /join <#room:server or !roomid:server>";

pub const USAGE_KNOCK: &'static str = "Usage: /knock <#room:server or !roomid:server>";

pub const USAGE_ROOMNAME: &'static str = "Usage: /roomname <new name>";

pub const USAGE_TOPIC: &'static str = "Usage: /topic <text>";

pub const USAGE_INVITE: &'static str = "Usage: /invite <@user:server>";

pub const USAGE_DM: &'static str = "Usage: /dm <@user:server>";

pub const USAGE_NICK: &'static str = "Usage: /nick <display name>";

pub const USAGE_KICK: &'static str = "Usage: /kick <@user:server> [reason]";

pub const USAGE_BAN: &'static str = "Usage: /ban <@user:server> [reason]";

pub const USAGE_UNBAN: &'static str = "Usage: /unban <@user:server>";

pub const USER_ID_HINT: &'static str = " — user ids look like @name:server";

pub const SHRUG: &'static str = "¯\\_(ツ)_/¯";

pub const TABLE_FLIP: &'static str = "(╯°□°）╯︵ ┻━┻";

pub const UNFLIP: &'static str = "┬─┬ ノ( ゜-゜ノ)";

pub const LENNY: &'static str = "( ͡° ͜ʖ ͡°)";

// ---------------------------------------------------------------------------
// The model.
// ---------------------------------------------------------------------------
/// A parsed submission with its strings as character sequences.
pub enum ParsedView {
    Message { body: Seq<char>, emote: bool, markdown: bool },
    Action(ActionView),
    Error(Seq<char>),
}

/// An action with its strings as character sequences.
pub enum ActionView {
    Join(Seq<char>),
    Knock(Seq<char>),
    Leave,
    Invite(Seq<char>),
    Dm(Seq<char>),
    Kick { user: Seq<char>, reason: Option<Seq<char>> },
    Ban { user: Seq<char>, reason: Option<Seq<char>> },
    Unban(Seq<char>),
    Topic(Seq<char>),
    Nick(Seq<char>),
    RoomName(Seq<char>),
}

impl View for Action {
    type V = ActionView;

    open spec fn view(&self) -> ActionView {
        match *self {
            Action::Join(s) => ActionView::Join(s@),
            Action::Knock(s) => ActionView::Knock(s@),
            Action::Leave => ActionView::Leave,
            Action::Invite(s) => ActionView::Invite(s@),
            Action::Dm(s) => ActionView::Dm(s@),
            Action::Kick { user, reason } => ActionView::Kick {
                user: user@,
                reason: text::opt_view(reason),
            },
            Action::Ban { user, reason } => ActionView::Ban {
                user: user@,
                reason: text::opt_view(reason),
            },
            Action::Unban(s) => ActionView::Unban(s@),
            Action::Topic(s) => ActionView::Topic(s@),
            Action::Nick(s) => ActionView::Nick(s@),
            Action::RoomName(s) => ActionView::RoomName(s@),
        }
    }
}

impl View for Parsed {
    type V = ParsedView;

    open spec fn view(&self) -> ParsedView {
        match *self {
            Parsed::Message { body, emote, markdown } => ParsedView::Message {
                body: body@,
                emote,
                markdown,
            },
            Parsed::Action(a) => ParsedView::Action(a@),
            Parsed::Error(e) => ParsedView::Error(e@),
        }
    }
}

/// The name a command goes by in the catalog.
pub open spec fn name_of(c: Command) -> &'static str {
    match c {
        Command::Me => "me",
        Command::Plain => "plain",
        Command::Shrug => "shrug",
        Command::TableFlip => "tableflip",
        Command::Unflip => "unflip",
        Command::Lenny => "lenny",
        Command::Join => "join",
        Command::Knock => "knock",
        Command::Leave => "leave",
        Command::RoomName => "roomname",
        Command::Topic => "topic",
        Command::Invite => "invite",
        Command::Dm => "dm",
        Command::Nick => "nick",
        Command::Kick => "kick",
        Command::Ban => "ban",
        Command::Unban => "unban",
    }
}

/// The other names of a command.
pub open spec fn aliases_of(c: Command) -> Seq<&'static str> {
    match c {
        Command::Join => seq!["j"],
        Command::Leave => seq!["part"],
        Command::RoomName => seq!["rename"],
        Command::Dm => seq!["msg", "query"],
        _ => Seq::empty(),
    }
}

/// The usage line of a command, where it can be misused.
pub open spec fn usage_of(c: Command) -> Option<&'static str> {
    match c {
        Command::Me => Some(USAGE_ME),
        Command::Plain => Some(USAGE_PLAIN),
        Command::Join => Some(USAGE_JOIN),
        Command::Knock => Some(USAGE_KNOCK),
        Command::RoomName => Some(USAGE_ROOMNAME),
        Command::Topic => Some(USAGE_TOPIC),
        Command::Invite => Some(USAGE_INVITE),
        Command::Dm => Some(USAGE_DM),
        Command::Nick => Some(USAGE_NICK),
        Command::Kick => Some(USAGE_KICK),
        Command::Ban => Some(USAGE_BAN),
        Command::Unban => Some(USAGE_UNBAN),
        _ => None,
    }
}

/// The group of the manual that a command belongs to.
pub open spec fn category_of(c: Command) -> CommandCategory {
    match c {
        Command::Me | Command::Plain | Command::Shrug | Command::TableFlip | Command::Unflip
        | Command::Lenny => CommandCategory::Text,
        Command::Join | Command::Knock | Command::Leave | Command::RoomName | Command::Topic =>
            CommandCategory::Rooms,
        Command::Invite | Command::Dm | Command::Nick => CommandCategory::People,
        Command::Kick | Command::Ban | Command::Unban => CommandCategory::Moderation,
    }
}

/// The manual's sentence on a command.
pub open spec fn description_of(c: Command) -> &'static str {
    match c {
        Command::Me =>
            "Emote: \"/me waves\" shows as your name followed by \"waves\", in the emote colour (Appearance, \"Emote/action text\").",
        Command::Plain => "Send the text verbatim, with no Markdown formatting.",
        Command::Shrug => "Prepend the classic shrug emoticon, then any text you add after it.",
        Command::TableFlip => "Prepend a table-flip emoticon, then any text you add after it.",
        Command::Unflip =>
            "Prepend a put-the-table-back emoticon, then any text you add after it.",
        Command::Lenny => "Prepend the Lenny face, then any text you add after it.",
        Command::Join => "Join a room by alias or id.",
        Command::Knock => "Ask to join a knock-rule room; you enter if a moderator accepts.",
        Command::Leave => "Leave the room you're viewing.",
        Command::RoomName => "Rename the current room.",
        Command::Topic =>
            "Set the current room's topic. Other clients show it; ThornyChat doesn't display topics yet.",
        Command::Invite => "Invite someone to this room.",
        Command::Dm => "Open or start a direct message.",
        Command::Nick => "Change your display name across your whole account.",
        Command::Kick => "Remove someone from the room; they can rejoin.",
        Command::Ban => "Ban someone; they can't rejoin until unbanned.",
        Command::Unban => "Lift a ban.",
    }
}

/// The catalog's order: text, rooms, people, moderation.
pub open spec fn catalog() -> Seq<Command> {
    seq![
        Command::Me,
        Command::Plain,
        Command::Shrug,
        Command::TableFlip,
        Command::Unflip,
        Command::Lenny,
        Command::Join,
        Command::Knock,
        Command::Leave,
        Command::RoomName,
        Command::Topic,
        Command::Invite,
        Command::Dm,
        Command::Nick,
        Command::Kick,
        Command::Ban,
        Command::Unban,
    ]
}

/// Whether a catalog entry describes the command.
pub open spec fn describes(s: CommandSpec, c: Command) -> bool {
    &&& s.name@ == name_of(c)@
    &&& s.aliases@.len() == aliases_of(c).len()
    &&& forall|k: int|
        0 <= k < s.aliases@.len() ==> (#[trigger] s.aliases@[k])@ == aliases_of(c)[k]@
    &&& match (s.usage, usage_of(c)) {
        (Some(u), Some(w)) => u@ == w@,
        (None, None) => true,
        _ => false,
    }
    &&& s.description@ == description_of(c)@
    &&& s.category == category_of(c)
}

/// Whether `word` is the name of `c` or one of its aliases.
pub open spec fn goes_by(c: Command, word: Seq<char>) -> bool {
    word == name_of(c)@ || exists|k: int|
        0 <= k < aliases_of(c).len() && word == (#[trigger] aliases_of(c)[k])@
}

/// The command that a lowercase word names.
pub open spec fn named(word: Seq<char>) -> Option<Command> {
    if word == "me"@ {
        Some(Command::Me)
    } else if word == "plain"@ {
        Some(Command::Plain)
    } else if word == "shrug"@ {
        Some(Command::Shrug)
    } else if word == "tableflip"@ {
        Some(Command::TableFlip)
    } else if word == "unflip"@ {
        Some(Command::Unflip)
    } else if word == "lenny"@ {
        Some(Command::Lenny)
    } else if word == "join"@ || word == "j"@ {
        Some(Command::Join)
    } else if word == "knock"@ {
        Some(Command::Knock)
    } else if word == "leave"@ || word == "part"@ {
        Some(Command::Leave)
    } else if word == "roomname"@ || word == "rename"@ {
        Some(Command::RoomName)
    } else if word == "topic"@ {
        Some(Command::Topic)
    } else if word == "invite"@ {
        Some(Command::Invite)
    } else if word == "dm"@ || word == "msg"@ || word == "query"@ {
        Some(Command::Dm)
    } else if word == "nick"@ {
        Some(Command::Nick)
    } else if word == "kick"@ {
        Some(Command::Kick)
    } else if word == "ban"@ {
        Some(Command::Ban)
    } else if word == "unban"@ {
        Some(Command::Unban)
    } else {
        None
    }
}

/// An ordinary message.
pub open spec fn plain_message(body: Seq<char>) -> ParsedView {
    ParsedView::Message { body, emote: false, markdown: true }
}

/// An emoticon, optionally followed by the rest of the line.
pub open spec fn prepended(prefix: Seq<char>, args: Seq<char>) -> Seq<char> {
    if args.len() == 0 {
        prefix
    } else {
        prefix + seq![' '] + args
    }
}

/// The shape of a user id: `@name:server`.
pub open spec fn user_like(s: Seq<char>) -> bool {
    s.len() > 0 && s[0] == '@' && s.contains(':')
}

/// The shape of a room id or alias: `#alias:server` or `!id:server`.
pub open spec fn room_like(s: Seq<char>) -> bool {
    s.len() > 0 && (s[0] == '#' || s[0] == '!') && s.contains(':')
}

/// The part before the first white space.
pub open spec fn head(s: Seq<char>) -> Seq<char> {
    s.take(text::find_from(s, text::spaces(), 0))
}

/// The trimmed part behind the first white space.
pub open spec fn tail(s: Seq<char>) -> Seq<char> {
    let i = text::find_from(s, text::spaces(), 0);
    if i < s.len() {
        text::trimmed(s.skip(i + 1))
    } else {
        Seq::empty()
    }
}

/// An argument that must name a user, and what a good one becomes.
pub open spec fn with_user(
    args: Seq<char>,
    usage: Seq<char>,
    ok: spec_fn(Seq<char>) -> ActionView,
) -> ParsedView {
    if args.len() == 0 {
        ParsedView::Error(usage)
    } else if user_like(head(args)) {
        ParsedView::Action(ok(head(args)))
    } else {
        ParsedView::Error(usage + USER_ID_HINT@)
    }
}

/// An argument that must name a room, and what a good one becomes.
pub open spec fn with_room(
    args: Seq<char>,
    usage: Seq<char>,
    ok: spec_fn(Seq<char>) -> ActionView,
) -> ParsedView {
    if args.len() == 0 || !room_like(head(args)) {
        ParsedView::Error(usage)
    } else {
        ParsedView::Action(ok(head(args)))
    }
}

/// An argument that must not be empty, and what a good one becomes.
pub open spec fn with_args(args: Seq<char>, usage: Seq<char>, ok: ParsedView) -> ParsedView {
    if args.len() == 0 {
        ParsedView::Error(usage)
    } else {
        ok
    }
}

/// The reason behind a user id, where there is one.
pub open spec fn reason_of(args: Seq<char>) -> Option<Seq<char>> {
    if tail(args).len() == 0 {
        None
    } else {
        Some(tail(args))
    }
}

/// What a command makes of its trimmed arguments.
pub open spec fn run(c: Command, args: Seq<char>) -> ParsedView {
    match c {
        Command::Me => with_args(
            args,
            USAGE_ME@,
            ParsedView::Message { body: args, emote: true, markdown: true },
        ),
        Command::Plain => with_args(
            args,
            USAGE_PLAIN@,
            ParsedView::Message { body: args, emote: false, markdown: false },
        ),
        Command::Shrug => plain_message(prepended(SHRUG@, args)),
        Command::TableFlip => plain_message(prepended(TABLE_FLIP@, args)),
        Command::Unflip => plain_message(prepended(UNFLIP@, args)),
        Command::Lenny => plain_message(prepended(LENNY@, args)),
        Command::Join => with_room(args, USAGE_JOIN@, |r: Seq<char>| ActionView::Join(r)),
        Command::Knock => with_room(args, USAGE_KNOCK@, |r: Seq<char>| ActionView::Knock(r)),
        Command::Leave => ParsedView::Action(ActionView::Leave),
        Command::RoomName => with_args(
            args,
            USAGE_ROOMNAME@,
            ParsedView::Action(ActionView::RoomName(args)),
        ),
        Command::Topic => with_args(args, USAGE_TOPIC@, ParsedView::Action(ActionView::Topic(args))),
        Command::Invite => with_user(args, USAGE_INVITE@, |u: Seq<char>| ActionView::Invite(u)),
        Command::Dm => with_user(args, USAGE_DM@, |u: Seq<char>| ActionView::Dm(u)),
        Command::Nick => with_args(args, USAGE_NICK@, ParsedView::Action(ActionView::Nick(args))),
        Command::Kick => with_user(
            args,
            USAGE_KICK@,
            |u: Seq<char>| ActionView::Kick { user: u, reason: reason_of(args) },
        ),
        Command::Ban => with_user(
            args,
            USAGE_BAN@,
            |u: Seq<char>| ActionView::Ban { user: u, reason: reason_of(args) },
        ),
        Command::Unban => with_user(args, USAGE_UNBAN@, |u: Seq<char>| ActionView::Unban(u)),
    }
}

/// What a trimmed submission parses into.
pub open spec fn parsed_text(t: Seq<char>) -> ParsedView {
    if t.len() == 0 || t[0] != '/' {
        plain_message(t)
    } else if t.len() > 1 && t[1] == '/' {
        plain_message(t.skip(1))
    } else {
        match named(text::ascii_lowered(head(t.skip(1)))) {
            Some(c) => run(c, tail(t.skip(1))),
            None => plain_message(t),
        }
    }
}

/// What a submission parses into.
pub open spec fn parsed(input: Seq<char>) -> ParsedView {
    parsed_text(text::trimmed(input))
}

// ---------------------------------------------------------------------------
// The parser.
// ---------------------------------------------------------------------------
/// Parses one composer submission.
pub fn parse(input: &str) -> (r: Parsed)
    ensures
        r@ == parsed(input@),
{
    let trimmed = text::trim(input);
    let v = text::chars(trimmed);
    if v.len() == 0 || v[0] != '/' {
        return message(trimmed);
    }
    let n: usize = v.len();
    // `//text` is a literal message beginning with a single slash.
    if n > 1 && v[1] == '/' {
        let body = trimmed.substring_char(1, n);
        assert(body@ =~= trimmed@.skip(1));
        return message(body);
    }
    let rest = trimmed.substring_char(1, n);
    assert(rest@ =~= trimmed@.skip(1));
    let (word, args) = split_head(rest);
    match command_named(text::to_ascii_lowercase(word).as_str()) {
        Some(c) => run_command(c, args),
        None => message(trimmed),
    }
}

/// Splits at the first white space; the second part is trimmed.
fn split_head<'a>(s: &'a str) -> (r: (&'a str, &'a str))
    ensures
        r.0@ == head(s@),
        r.1@ == tail(s@),
{
    let v = text::chars(s);
    let i: usize = text::find_space(&v, 0);
    let n: usize = v.len();
    let first = s.substring_char(0, i);
    assert(first@ =~= head(s@));
    if i < n {
        let behind = s.substring_char(i + 1, n);
        assert(behind@ =~= s@.skip(i + 1));
        (first, text::trim(behind))
    } else {
        let nothing = s.substring_char(n, n);
        assert(nothing@ =~= Seq::<char>::empty());
        (first, nothing)
    }
}

/// The command that a lowercase word names.
pub fn command_named(word: &str) -> (r: Option<Command>)
    ensures
        r == named(word@),
{
    if text::str_eq(word, "me") {
        Some(Command::Me)
    } else if text::str_eq(word, "plain") {
        Some(Command::Plain)
    } else if text::str_eq(word, "shrug") {
        Some(Command::Shrug)
    } else if text::str_eq(word, "tableflip") {
        Some(Command::TableFlip)
    } else if text::str_eq(word, "unflip") {
        Some(Command::Unflip)
    } else if text::str_eq(word, "lenny") {
        Some(Command::Lenny)
    } else if text::str_eq(word, "join") || text::str_eq(word, "j") {
        Some(Command::Join)
    } else if text::str_eq(word, "knock") {
        Some(Command::Knock)
    } else if text::str_eq(word, "leave") || text::str_eq(word, "part") {
        Some(Command::Leave)
    } else if text::str_eq(word, "roomname") || text::str_eq(word, "rename") {
        Some(Command::RoomName)
    } else if text::str_eq(word, "topic") {
        Some(Command::Topic)
    } else if text::str_eq(word, "invite") {
        Some(Command::Invite)
    } else if text::str_eq(word, "dm") || text::str_eq(word, "msg") || text::str_eq(word, "query") {
        Some(Command::Dm)
    } else if text::str_eq(word, "nick") {
        Some(Command::Nick)
    } else if text::str_eq(word, "kick") {
        Some(Command::Kick)
    } else if text::str_eq(word, "ban") {
        Some(Command::Ban)
    } else if text::str_eq(word, "unban") {
        Some(Command::Unban)
    } else {
        None
    }
}

/// Runs a recognised command on its trimmed arguments.
fn run_command(c: Command, args: &str) -> (r: Parsed)
    ensures
        r@ == run(c, args@),
{
    match c {
        Command::Me => match require(args, USAGE_ME) {
            Ok(a) => Parsed::Message { body: a.to_owned(), emote: true, markdown: true },
            Err(e) => Parsed::Error(e),
        },
        Command::Plain => match require(args, USAGE_PLAIN) {
            Ok(a) => Parsed::Message { body: a.to_owned(), emote: false, markdown: false },
            Err(e) => Parsed::Error(e),
        },
        Command::Shrug => message(prepend(SHRUG, args).as_str()),
        Command::TableFlip => message(prepend(TABLE_FLIP, args).as_str()),
        Command::Unflip => message(prepend(UNFLIP, args).as_str()),
        Command::Lenny => message(prepend(LENNY, args).as_str()),
        Command::Join => match require_room(args, USAGE_JOIN) {
            Ok(r) => Parsed::Action(Action::Join(r)),
            Err(e) => Parsed::Error(e),
        },
        Command::Knock => match require_room(args, USAGE_KNOCK) {
            Ok(r) => Parsed::Action(Action::Knock(r)),
            Err(e) => Parsed::Error(e),
        },
        Command::Leave => Parsed::Action(Action::Leave),
        Command::RoomName => match require(args, USAGE_ROOMNAME) {
            Ok(n) => Parsed::Action(Action::RoomName(n.to_owned())),
            Err(e) => Parsed::Error(e),
        },
        Command::Topic => match require(args, USAGE_TOPIC) {
            Ok(t) => Parsed::Action(Action::Topic(t.to_owned())),
            Err(e) => Parsed::Error(e),
        },
        Command::Invite => match require_user(args, USAGE_INVITE) {
            Ok(u) => Parsed::Action(Action::Invite(u)),
            Err(e) => Parsed::Error(e),
        },
        Command::Dm => match require_user(args, USAGE_DM) {
            Ok(u) => Parsed::Action(Action::Dm(u)),
            Err(e) => Parsed::Error(e),
        },
        Command::Nick => match require(args, USAGE_NICK) {
            Ok(n) => Parsed::Action(Action::Nick(n.to_owned())),
            Err(e) => Parsed::Error(e),
        },
        Command::Kick => match require_user_reason(args, USAGE_KICK) {
            Ok((user, reason)) => Parsed::Action(Action::Kick { user, reason }),
            Err(e) => Parsed::Error(e),
        },
        Command::Ban => match require_user_reason(args, USAGE_BAN) {
            Ok((user, reason)) => Parsed::Action(Action::Ban { user, reason }),
            Err(e) => Parsed::Error(e),
        },
        Command::Unban => match require_user(args, USAGE_UNBAN) {
            Ok(u) => Parsed::Action(Action::Unban(u)),
            Err(e) => Parsed::Error(e),
        },
    }
}

/// An ordinary message.
fn message(body: &str) -> (r: Parsed)
    ensures
        r@ == plain_message(body@),
{
    Parsed::Message { body: body.to_owned(), emote: false, markdown: true }
}

/// A text emoticon command sends the emoticon, optionally followed by the rest
/// of the line.
fn prepend(prefix: &str, args: &str) -> (r: String)
    ensures
        r@ == prepended(prefix@, args@),
{
    if args.is_empty() {
        prefix.to_owned()
    } else {
        let mut r = prefix.to_owned();
        r.push(' ');
        r.append(args);
        assert(r@ =~= prepended(prefix@, args@));
        r
    }
}

/// The arguments, unless there are none.
fn require<'a>(args: &'a str, usage: &str) -> (r: Result<&'a str, String>)
    ensures
        match r {
            Ok(a) => args@.len() > 0 && a@ == args@,
            Err(e) => args@.len() == 0 && e@ == usage@,
        },
{
    if args.is_empty() {
        Err(usage.to_owned())
    } else {
        Ok(args)
    }
}

/// The first token, as an `@user:server` id.
fn require_user(args: &str, usage: &str) -> (r: Result<String, String>)
    ensures
        match r {
            Ok(u) => args@.len() > 0 && user_like(head(args@)) && u@ == head(args@),
            Err(e) => if args@.len() == 0 {
                e@ == usage@
            } else {
                !user_like(head(args@)) && e@ == usage@ + USER_ID_HINT@
            },
        },
{
    match require(args, usage) {
        Err(e) => Err(e),
        Ok(a) => {
            let (first, _) = split_head(a);
            if looks_like_user(first) {
                Ok(first.to_owned())
            } else {
                Err(text::join2(usage, USER_ID_HINT))
            }
        },
    }
}

/// The first token, as `#alias:server` or `!id:server`.
fn require_room(args: &str, usage: &str) -> (r: Result<String, String>)
    ensures
        match r {
            Ok(u) => args@.len() > 0 && room_like(head(args@)) && u@ == head(args@),
            Err(e) => (args@.len() == 0 || !room_like(head(args@))) && e@ == usage@,
        },
{
    match require(args, usage) {
        Err(e) => Err(e),
        Ok(a) => {
            let (first, _) = split_head(a);
            if looks_like_room(first) {
                Ok(first.to_owned())
            } else {
                Err(usage.to_owned())
            }
        },
    }
}

/// `<@user:server> [reason]`: the user is the first token, the reason is
/// everything after it.
fn require_user_reason(args: &str, usage: &str) -> (r: Result<(String, Option<String>), String>)
    ensures
        match r {
            Ok((u, reason)) => {
                &&& args@.len() > 0
                &&& user_like(head(args@))
                &&& u@ == head(args@)
                &&& text::opt_view(reason) == reason_of(args@)
            },
            Err(e) => if args@.len() == 0 {
                e@ == usage@
            } else {
                !user_like(head(args@)) && e@ == usage@ + USER_ID_HINT@
            },
        },
{
    match require(args, usage) {
        Err(e) => Err(e),
        Ok(a) => {
            let (user, rest) = split_head(a);
            let reason = if rest.is_empty() {
                None
            } else {
                Some(rest.to_owned())
            };
            if looks_like_user(user) {
                Ok((user.to_owned(), reason))
            } else {
                Err(text::join2(usage, USER_ID_HINT))
            }
        },
    }
}

/// Whether the token has the shape of a user id.
pub fn looks_like_user(s: &str) -> (r: bool)
    ensures
        r == user_like(s@),
{
    let v = text::chars(s);
    v.len() > 0 && v[0] == '@' && text::contains_char(&v, ':')
}

/// Whether the token has the shape of a room id or alias.
pub fn looks_like_room(s: &str) -> (r: bool)
    ensures
        r == room_like(s@),
{
    let v = text::chars(s);
    v.len() > 0 && (v[0] == '#' || v[0] == '!') && text::contains_char(&v, ':')
}

// ---------------------------------------------------------------------------
// The catalog.
// ---------------------------------------------------------------------------
/// The catalog entry of one command.
pub fn command_spec(c: Command) -> (r: CommandSpec)
    ensures
        describes(r, c),
{
    let (name, usage, description, category) = match c {
        Command::Me => (
            "me",
            Some(USAGE_ME),
            "Emote: \"/me waves\" shows as your name followed by \"waves\", in the emote colour (Appearance, \"Emote/action text\").",
            CommandCategory::Text,
        ),
        Command::Plain => (
            "plain",
            Some(USAGE_PLAIN),
            "Send the text verbatim, with no Markdown formatting.",
            CommandCategory::Text,
        ),
        Command::Shrug => (
            "shrug",
            None,
            "Prepend the classic shrug emoticon, then any text you add after it.",
            CommandCategory::Text,
        ),
        Command::TableFlip => (
            "tableflip",
            None,
            "Prepend a table-flip emoticon, then any text you add after it.",
            CommandCategory::Text,
        ),
        Command::Unflip => (
            "unflip",
            None,
            "Prepend a put-the-table-back emoticon, then any text you add after it.",
            CommandCategory::Text,
        ),
        Command::Lenny => (
            "lenny",
            None,
            "Prepend the Lenny face, then any text you add after it.",
            CommandCategory::Text,
        ),
        Command::Join => (
            "join",
            Some(USAGE_JOIN),
            "Join a room by alias or id.",
            CommandCategory::Rooms,
        ),
        Command::Knock => (
            "knock",
            Some(USAGE_KNOCK),
            "Ask to join a knock-rule room; you enter if a moderator accepts.",
            CommandCategory::Rooms,
        ),
        Command::Leave => ("leave", None, "Leave the room you're viewing.", CommandCategory::Rooms),
        Command::RoomName => (
            "roomname",
            Some(USAGE_ROOMNAME),
            "Rename the current room.",
            CommandCategory::Rooms,
        ),
        Command::Topic => (
            "topic",
            Some(USAGE_TOPIC),
            "Set the current room's topic. Other clients show it; ThornyChat doesn't display topics yet.",
            CommandCategory::Rooms,
        ),
        Command::Invite => (
            "invite",
            Some(USAGE_INVITE),
            "Invite someone to this room.",
            CommandCategory::People,
        ),
        Command::Dm => (
            "dm",
            Some(USAGE_DM),
            "Open or start a direct message.",
            CommandCategory::People,
        ),
        Command::Nick => (
            "nick",
            Some(USAGE_NICK),
            "Change your display name across your whole account.",
            CommandCategory::People,
        ),
        Command::Kick => (
            "kick",
            Some(USAGE_KICK),
            "Remove someone from the room; they can rejoin.",
            CommandCategory::Moderation,
        ),
        Command::Ban => (
            "ban",
            Some(USAGE_BAN),
            "Ban someone; they can't rejoin until unbanned.",
            CommandCategory::Moderation,
        ),
        Command::Unban => ("unban", Some(USAGE_UNBAN), "Lift a ban.", CommandCategory::Moderation),
    };
    let aliases: Vec<&'static str> = match c {
        Command::Join => vec!["j"],
        Command::Leave => vec!["part"],
        Command::RoomName => vec!["rename"],
        Command::Dm => vec!["msg", "query"],
        _ => Vec::new(),
    };
    CommandSpec { name, aliases, usage, description, category }
}

/// Every command the composer recognises, in the manual's order.
pub fn commands() -> (r: Vec<CommandSpec>)
    ensures
        r@.len() == catalog().len(),
        forall|k: int| 0 <= k < r@.len() ==> describes(#[trigger] r@[k], catalog()[k]),
{
    let order: Vec<Command> = vec![
        Command::Me,
        Command::Plain,
        Command::Shrug,
        Command::TableFlip,
        Command::Unflip,
        Command::Lenny,
        Command::Join,
        Command::Knock,
        Command::Leave,
        Command::RoomName,
        Command::Topic,
        Command::Invite,
        Command::Dm,
        Command::Nick,
        Command::Kick,
        Command::Ban,
        Command::Unban,
    ];
    let mut r: Vec<CommandSpec> = Vec::new();
    assert(order@ =~= catalog());
    let mut i: usize = 0;
    while i < order.len()
        invariant
            order@ == catalog(),
            i <= order@.len(),
            r@.len() == i,
            forall|k: int| 0 <= k < i ==> describes(#[trigger] r@[k], catalog()[k]),
        decreases order@.len() - i,
    {
        r.push(command_spec(order[i]));
        i = i + 1;
    }
    r
}

// ---------------------------------------------------------------------------
// Laws.
// ---------------------------------------------------------------------------
/// Nothing but white space.
pub open spec fn blank(s: Seq<char>) -> bool {
    forall|k: int| 0 <= k < s.len() ==> text::white_space(#[trigger] s[k])
}

/// A word: something, and no white space in it.
pub open spec fn unbroken(s: Seq<char>) -> bool {
    s.len() > 0 && forall|k: int| 0 <= k < s.len() ==> !text::white_space(#[trigger] s[k])
}

/// Something that neither begins nor ends with white space.
pub open spec fn solid(s: Seq<char>) -> bool {
    s.len() > 0 && !text::white_space(s[0]) && !text::white_space(s[s.len() - 1])
}

/// A submission as it is typed: the word behind a slash, a gap, and the rest,
/// amid white space.
pub open spec fn typed(
    lead: Seq<char>,
    word: Seq<char>,
    gap: Seq<char>,
    args: Seq<char>,
    trail: Seq<char>,
) -> Seq<char> {
    lead + (seq!['/'] + word + gap + args) + trail
}

/// Whether a submission is typed as a command with something behind it.
pub open spec fn is_typed(
    lead: Seq<char>,
    word: Seq<char>,
    gap: Seq<char>,
    args: Seq<char>,
    trail: Seq<char>,
) -> bool {
    &&& blank(lead) && blank(gap) && blank(trail)
    &&& gap.len() > 0
    &&& unbroken(word) && word[0] != '/'
    &&& solid(args)
}

/// What stands between white space is what is left of a trimmed text.
proof fn lemma_trim_is(lead: Seq<char>, middle: Seq<char>, trail: Seq<char>)
    requires
        blank(lead),
        blank(trail),
        solid(middle),
    ensures
        text::trimmed(lead + middle + trail) == middle,
{
    let s = lead + middle + trail;
    let a = lead.len() as int;
    let b = a + middle.len();
    assert forall|j: int| 0 <= j < a implies !text::non_spaces()(#[trigger] s[j]) by {
        assert(s[j] == lead[j]);
    }
    assert(s[a] == middle[0]);
    text::lemma_find_from_is(s, text::non_spaces(), 0, a);
    assert forall|j: int| b <= j < s.len() implies !text::non_spaces()(#[trigger] s[j]) by {
        assert(s[j] == trail[j - b]);
    }
    assert(s[b - 1] == middle[middle.len() - 1]);
    text::lemma_end_before(s, text::non_spaces(), s.len() as int);
    let e = text::end_before(s, text::non_spaces(), s.len() as int);
    if e > b {
        assert(text::non_spaces()(s[e - 1]));
    }
    if e < b {
        assert(!text::non_spaces()(s[b - 1]));
    }
    assert(s.subrange(a, b) =~= middle);
}

/// A text of white space is trimmed to nothing.
proof fn lemma_trim_blank(s: Seq<char>)
    requires
        blank(s),
    ensures
        text::trimmed(s) == Seq::<char>::empty(),
{
    assert forall|j: int| 0 <= j < s.len() implies !text::non_spaces()(#[trigger] s[j]) by {}
    text::lemma_find_from_is(s, text::non_spaces(), 0, s.len() as int);
    text::lemma_end_before(s, text::non_spaces(), s.len() as int);
    assert(text::trimmed(s) =~= Seq::<char>::empty());
}

/// The first word and the rest, where there is a gap between them.
proof fn lemma_first_word(word: Seq<char>, gap: Seq<char>, rest: Seq<char>)
    requires
        unbroken(word),
        blank(gap),
        gap.len() > 0,
        solid(rest),
    ensures
        head(word + gap + rest) == word,
        tail(word + gap + rest) == rest,
{
    let s = word + gap + rest;
    let n = word.len() as int;
    assert forall|j: int| 0 <= j < n implies !text::spaces()(#[trigger] s[j]) by {
        assert(s[j] == word[j]);
    }
    assert(s[n] == gap[0]);
    text::lemma_find_from_is(s, text::spaces(), 0, n);
    assert(s.take(n) =~= word);
    let more = gap.skip(1);
    assert(s.skip(n + 1) =~= more + rest + Seq::<char>::empty());
    assert(blank(more)) by {
        assert forall|k: int| 0 <= k < more.len() implies text::white_space(#[trigger] more[k]) by {
            assert(more[k] == gap[k + 1]);
        }
    }
    lemma_trim_is(more, rest, Seq::empty());
}

/// A lone word is its own first word.
proof fn lemma_lone_word(word: Seq<char>)
    requires
        unbroken(word),
    ensures
        head(word) == word,
        tail(word) == Seq::<char>::empty(),
{
    assert forall|j: int| 0 <= j < word.len() implies !text::spaces()(#[trigger] word[j]) by {}
    text::lemma_find_from_is(word, text::spaces(), 0, word.len() as int);
    assert(word.take(word.len() as int) =~= word);
}

/// How a command with something behind it is read.
proof fn lemma_typed(
    lead: Seq<char>,
    word: Seq<char>,
    gap: Seq<char>,
    args: Seq<char>,
    trail: Seq<char>,
)
    requires
        is_typed(lead, word, gap, args, trail),
    ensures
        parsed(typed(lead, word, gap, args, trail)) == match named(text::ascii_lowered(word)) {
            Some(c) => run(c, args),
            None => plain_message(seq!['/'] + word + gap + args),
        },
{
    let m = seq!['/'] + word + gap + args;
    assert(m[0] == '/' && m[m.len() - 1] == args[args.len() - 1]);
    lemma_trim_is(lead, m, trail);
    assert(m[1] == word[0]);
    assert(m.skip(1) =~= word + gap + args);
    lemma_first_word(word, gap, args);
}

/// How a command with nothing behind it is read.
proof fn lemma_typed_alone(lead: Seq<char>, word: Seq<char>, trail: Seq<char>)
    requires
        blank(lead),
        blank(trail),
        unbroken(word),
        word[0] != '/',
    ensures
        parsed(lead + (seq!['/'] + word) + trail) == match named(text::ascii_lowered(word)) {
            Some(c) => run(c, Seq::empty()),
            None => plain_message(seq!['/'] + word),
        },
{
    let m = seq!['/'] + word;
    assert(m[0] == '/' && m[m.len() - 1] == word[word.len() - 1]);
    lemma_trim_is(lead, m, trail);
    assert(m[1] == word[0]);
    assert(m.skip(1) =~= word);
    lemma_lone_word(word);
}

/// The names of the commands are told apart.
proof fn lemma_names(w: Seq<char>)
    ensures
        named(w) == Some(Command::Me) <==> w == "me"@,
        named(w) == Some(Command::Plain) <==> w == "plain"@,
        named(w) == Some(Command::Shrug) <==> w == "shrug"@,
        named(w) == Some(Command::TableFlip) <==> w == "tableflip"@,
        named(w) == Some(Command::Unflip) <==> w == "unflip"@,
        named(w) == Some(Command::Lenny) <==> w == "lenny"@,
        named(w) == Some(Command::Join) <==> w == "join"@ || w == "j"@,
        named(w) == Some(Command::Knock) <==> w == "knock"@,
        named(w) == Some(Command::Leave) <==> w == "leave"@ || w == "part"@,
        named(w) == Some(Command::RoomName) <==> w == "roomname"@ || w == "rename"@,
        named(w) == Some(Command::Topic) <==> w == "topic"@,
        named(w) == Some(Command::Invite) <==> w == "invite"@,
        named(w) == Some(Command::Dm) <==> w == "dm"@ || w == "msg"@ || w == "query"@,
        named(w) == Some(Command::Nick) <==> w == "nick"@,
        named(w) == Some(Command::Kick) <==> w == "kick"@,
        named(w) == Some(Command::Ban) <==> w == "ban"@,
        named(w) == Some(Command::Unban) <==> w == "unban"@,
{
    law_catalog_names_are_recognised(Command::Me, w);
    law_catalog_names_are_recognised(Command::Plain, w);
    law_catalog_names_are_recognised(Command::Shrug, w);
    law_catalog_names_are_recognised(Command::TableFlip, w);
    law_catalog_names_are_recognised(Command::Unflip, w);
    law_catalog_names_are_recognised(Command::Lenny, w);
    law_catalog_names_are_recognised(Command::Join, w);
    law_catalog_names_are_recognised(Command::Knock, w);
    law_catalog_names_are_recognised(Command::Leave, w);
    law_catalog_names_are_recognised(Command::RoomName, w);
    law_catalog_names_are_recognised(Command::Topic, w);
    law_catalog_names_are_recognised(Command::Invite, w);
    law_catalog_names_are_recognised(Command::Dm, w);
    law_catalog_names_are_recognised(Command::Nick, w);
    law_catalog_names_are_recognised(Command::Kick, w);
    law_catalog_names_are_recognised(Command::Ban, w);
    law_catalog_names_are_recognised(Command::Unban, w);
    assert(aliases_of(Command::Join)[0] == "j");
    assert(aliases_of(Command::Leave)[0] == "part");
    assert(aliases_of(Command::RoomName)[0] == "rename");
    assert(aliases_of(Command::Dm)[0] == "msg");
    assert(aliases_of(Command::Dm)[1] == "query");
}

/// Whether this is a message with this text: an emote or not, formatted or not.
pub open spec fn is_message(r: Parsed, text: Seq<char>, emotes: bool, formats: bool) -> bool {
    r matches Parsed::Message { body, emote, markdown } && body@ == text && emote == emotes
        && markdown == formats
}

/// Whether this is an ordinary message with this text.
pub open spec fn is_ordinary(r: Parsed, text: Seq<char>) -> bool {
    is_message(r, text, false, true)
}

/// `/me` makes an emote of the text behind it, `/plain` sends it as it stands,
/// and the emoticon commands put their emoticon in front of it.
pub proof fn law_text_commands_send_their_text(
    lead: Seq<char>,
    word: Seq<char>,
    gap: Seq<char>,
    args: Seq<char>,
    trail: Seq<char>,
    r: Parsed,
)
    requires
        is_typed(lead, word, gap, args, trail),
        r@ == parsed(typed(lead, word, gap, args, trail)),
    ensures
        ({
            let w = text::ascii_lowered(word);
            &&& w == "me"@ ==> is_message(r, args, true, true)
            &&& w == "plain"@ ==> is_message(r, args, false, false)
            &&& w == "shrug"@ ==> is_ordinary(r, "¯\\_(ツ)_/¯"@ + seq![' '] + args)
            &&& w == "tableflip"@ ==> is_ordinary(r, "(╯°□°）╯︵ ┻━┻"@ + seq![' '] + args)
            &&& w == "unflip"@ ==> is_ordinary(r, "┬─┬ ノ( ゜-゜ノ)"@ + seq![' '] + args)
            &&& w == "lenny"@ ==> is_ordinary(r, "( ͡° ͜ʖ ͡°)"@ + seq![' '] + args)
        }),
{
    lemma_typed(lead, word, gap, args, trail);
    lemma_names(text::ascii_lowered(word));
}

/// `/roomname` and `/rename` name the room, `/topic` sets its topic, `/nick`
/// the user's own name: each to all of the text behind it. `/leave` and
/// `/part` leave the room, whatever stands behind them.
pub proof fn law_naming_commands_take_the_whole_text(
    lead: Seq<char>,
    word: Seq<char>,
    gap: Seq<char>,
    args: Seq<char>,
    trail: Seq<char>,
    r: Parsed,
)
    requires
        is_typed(lead, word, gap, args, trail),
        r@ == parsed(typed(lead, word, gap, args, trail)),
    ensures
        ({
            let w = text::ascii_lowered(word);
            &&& w == "roomname"@ || w == "rename"@ ==> (r matches Parsed::Action(a) && a matches
                Action::RoomName(x) && x@ == args)
            &&& w == "topic"@ ==> (r matches Parsed::Action(a) && a matches Action::Topic(x) && x@
                == args)
            &&& w == "nick"@ ==> (r matches Parsed::Action(a) && a matches Action::Nick(x) && x@
                == args)
            &&& w == "leave"@ || w == "part"@ ==> (r matches Parsed::Action(a) && a is Leave)
        }),
{
    lemma_typed(lead, word, gap, args, trail);
    lemma_names(text::ascii_lowered(word));
}

/// `/join`, `/j` and `/knock` take the first word behind them, where it has
/// the shape of a room, and complain with their own usage where it has not.
pub proof fn law_room_commands_take_a_room(
    lead: Seq<char>,
    word: Seq<char>,
    gap: Seq<char>,
    room: Seq<char>,
    more: Seq<char>,
    trail: Seq<char>,
    r: Parsed,
)
    requires
        unbroken(room),
        more.len() > 0 ==> text::white_space(more[0]) && !text::white_space(more[more.len() - 1]),
        is_typed(lead, word, gap, room + more, trail),
        r@ == parsed(typed(lead, word, gap, room + more, trail)),
    ensures
        ({
            let w = text::ascii_lowered(word);
            let fits = (room[0] == '#' || room[0] == '!') && room.contains(':');
            &&& w == "join"@ || w == "j"@ ==> if fits {
                r matches Parsed::Action(a) && a matches Action::Join(x) && x@ == room
            } else {
                r matches Parsed::Error(e) && e@
                    == "Usage: /join <#room:server or !roomid:server>"@
            }
            &&& w == "knock"@ ==> if fits {
                r matches Parsed::Action(a) && a matches Action::Knock(x) && x@ == room
            } else {
                r matches Parsed::Error(e) && e@
                    == "Usage: /knock <#room:server or !roomid:server>"@
            }
        }),
{
    lemma_typed(lead, word, gap, room + more, trail);
    lemma_names(text::ascii_lowered(word));
    lemma_head_of(room, more);
}

/// The first word of a text that goes on with white space, or not at all.
proof fn lemma_head_of(word: Seq<char>, more: Seq<char>)
    requires
        unbroken(word),
        more.len() > 0 ==> text::white_space(more[0]),
    ensures
        head(word + more) == word,
{
    let s = word + more;
    let n = word.len() as int;
    assert forall|j: int| 0 <= j < n implies !text::spaces()(#[trigger] s[j]) by {
        assert(s[j] == word[j]);
    }
    if more.len() > 0 {
        assert(s[n] == more[0]);
    }
    text::lemma_find_from_is(s, text::spaces(), 0, n);
    assert(s.take(n) =~= word);
}

/// Whether this is an error with this text.
pub open spec fn complains(r: Parsed, text: Seq<char>) -> bool {
    r matches Parsed::Error(e) && e@ == text
}

/// Whether this is what a command says of something that is no user id.
pub open spec fn wants_a_user(r: Parsed, usage: Seq<char>) -> bool {
    r matches Parsed::Error(e) && e@ == usage + " — user ids look like @name:server"@
}

/// `/invite`, `/dm` (or `/msg`, `/query`) and `/unban` take the first word
/// behind them, where it has the shape of a user id, and complain with their
/// own usage where it has not.
pub proof fn law_people_commands_take_a_user(
    lead: Seq<char>,
    word: Seq<char>,
    gap: Seq<char>,
    user: Seq<char>,
    more: Seq<char>,
    trail: Seq<char>,
    r: Parsed,
)
    requires
        unbroken(user),
        more.len() > 0 ==> text::white_space(more[0]) && !text::white_space(more[more.len() - 1]),
        is_typed(lead, word, gap, user + more, trail),
        r@ == parsed(typed(lead, word, gap, user + more, trail)),
    ensures
        ({
            let w = text::ascii_lowered(word);
            let fits = user[0] == '@' && user.contains(':');
            &&& w == "invite"@ ==> if fits {
                r matches Parsed::Action(a) && a matches Action::Invite(x) && x@ == user
            } else {
                wants_a_user(r, "Usage: /invite <@user:server>"@)
            }
            &&& w == "dm"@ || w == "msg"@ || w == "query"@ ==> if fits {
                r matches Parsed::Action(a) && a matches Action::Dm(x) && x@ == user
            } else {
                wants_a_user(r, "Usage: /dm <@user:server>"@)
            }
            &&& w == "unban"@ ==> if fits {
                r matches Parsed::Action(a) && a matches Action::Unban(x) && x@ == user
            } else {
                wants_a_user(r, "Usage: /unban <@user:server>"@)
            }
        }),
{
    lemma_typed(lead, word, gap, user + more, trail);
    lemma_names(text::ascii_lowered(word));
    lemma_head_of(user, more);
}

/// `/kick` and `/ban` remove the user that the first word names, for the
/// reason that all of the text behind it gives.
pub proof fn law_moderation_takes_a_user_and_a_reason(
    lead: Seq<char>,
    word: Seq<char>,
    gap: Seq<char>,
    user: Seq<char>,
    space: Seq<char>,
    reason: Seq<char>,
    trail: Seq<char>,
    r: Parsed,
)
    requires
        unbroken(user),
        blank(space) && space.len() > 0 && solid(reason),
        is_typed(lead, word, gap, user + space + reason, trail),
        r@ == parsed(typed(lead, word, gap, user + space + reason, trail)),
    ensures
        ({
            let w = text::ascii_lowered(word);
            let fits = user[0] == '@' && user.contains(':');
            &&& w == "kick"@ ==> if fits {
                r matches Parsed::Action(a) && a matches Action::Kick { user: u, reason: Some(x) }
                    && u@ == user && x@ == reason
            } else {
                wants_a_user(r, "Usage: /kick <@user:server> [reason]"@)
            }
            &&& w == "ban"@ ==> if fits {
                r matches Parsed::Action(a) && a matches Action::Ban { user: u, reason: Some(x) }
                    && u@ == user && x@ == reason
            } else {
                wants_a_user(r, "Usage: /ban <@user:server> [reason]"@)
            }
        }),
{
    lemma_typed(lead, word, gap, user + space + reason, trail);
    lemma_names(text::ascii_lowered(word));
    lemma_first_word(user, space, reason);
}

/// `/kick` and `/ban` need no reason.
pub proof fn law_moderation_needs_no_reason(
    lead: Seq<char>,
    word: Seq<char>,
    gap: Seq<char>,
    user: Seq<char>,
    trail: Seq<char>,
    r: Parsed,
)
    requires
        unbroken(user),
        is_typed(lead, word, gap, user, trail),
        r@ == parsed(typed(lead, word, gap, user, trail)),
    ensures
        ({
            let w = text::ascii_lowered(word);
            let fits = user[0] == '@' && user.contains(':');
            &&& w == "kick"@ ==> if fits {
                r matches Parsed::Action(a) && a matches Action::Kick { user: u, reason: None }
                    && u@ == user
            } else {
                wants_a_user(r, "Usage: /kick <@user:server> [reason]"@)
            }
            &&& w == "ban"@ ==> if fits {
                r matches Parsed::Action(a) && a matches Action::Ban { user: u, reason: None }
                    && u@ == user
            } else {
                wants_a_user(r, "Usage: /ban <@user:server> [reason]"@)
            }
        }),
{
    lemma_typed(lead, word, gap, user, trail);
    lemma_names(text::ascii_lowered(word));
    lemma_lone_word(user);
}

/// A command that needs something behind it complains without it, with its own
/// usage; the others do without.
pub proof fn law_lone_commands(lead: Seq<char>, word: Seq<char>, trail: Seq<char>, r: Parsed)
    requires
        blank(lead),
        blank(trail),
        unbroken(word),
        word[0] != '/',
        r@ == parsed(lead + (seq!['/'] + word) + trail),
    ensures
        ({
            let w = text::ascii_lowered(word);
            &&& w == "me"@ ==> complains(r, "Usage: /me <action>"@)
            &&& w == "plain"@ ==> complains(r, "Usage: /plain <message>"@)
            &&& w == "shrug"@ ==> is_ordinary(r, "¯\\_(ツ)_/¯"@)
            &&& w == "tableflip"@ ==> is_ordinary(r, "(╯°□°）╯︵ ┻━┻"@)
            &&& w == "unflip"@ ==> is_ordinary(r, "┬─┬ ノ( ゜-゜ノ)"@)
            &&& w == "lenny"@ ==> is_ordinary(r, "( ͡° ͜ʖ ͡°)"@)
            &&& w == "join"@ || w == "j"@ ==> complains(r, "Usage: /join <#room:server or !roomid:server>"@)
            &&& w == "knock"@ ==> complains(r, "Usage: /knock <#room:server or !roomid:server>"@)
            &&& w == "leave"@ || w == "part"@ ==> (r matches Parsed::Action(a) && a is Leave)
            &&& w == "roomname"@ || w == "rename"@ ==> complains(r, "Usage: /roomname <new name>"@)
            &&& w == "topic"@ ==> complains(r, "Usage: /topic <text>"@)
            &&& w == "invite"@ ==> complains(r, "Usage: /invite <@user:server>"@)
            &&& w == "dm"@ || w == "msg"@ || w == "query"@ ==> complains(r, "Usage: /dm <@user:server>"@)
            &&& w == "nick"@ ==> complains(r, "Usage: /nick <display name>"@)
            &&& w == "kick"@ ==> complains(r, "Usage: /kick <@user:server> [reason]"@)
            &&& w == "ban"@ ==> complains(r, "Usage: /ban <@user:server> [reason]"@)
            &&& w == "unban"@ ==> complains(r, "Usage: /unban <@user:server>"@)
        }),
{
    lemma_typed_alone(lead, word, trail);
    lemma_names(text::ascii_lowered(word));
}

/// Whether a lowercase word is the name of a command, or another name of one.
pub open spec fn is_command_name(w: Seq<char>) -> bool {
    ||| w == "me"@ || w == "plain"@ || w == "shrug"@ || w == "tableflip"@ || w == "unflip"@
    ||| w == "lenny"@ || w == "join"@ || w == "j"@ || w == "knock"@ || w == "leave"@
    ||| w == "part"@ || w == "roomname"@ || w == "rename"@ || w == "topic"@ || w == "invite"@
    ||| w == "dm"@ || w == "msg"@ || w == "query"@ || w == "nick"@ || w == "kick"@
    ||| w == "ban"@ || w == "unban"@
}

/// Whatever is no command is sent as it is typed, but for the white space
/// around it: other words behind a slash, slash and all, and text without one.
/// Of two slashes one is taken off.
pub proof fn law_all_else_is_sent(
    lead: Seq<char>,
    said: Seq<char>,
    trail: Seq<char>,
    r: Parsed,
    word: Seq<char>,
    more: Seq<char>,
)
    requires
        blank(lead),
        blank(trail),
        solid(said),
        r@ == parsed(lead + said + trail),
    ensures
        said[0] != '/' ==> is_ordinary(r, said),
        said.len() > 1 && said[0] == '/' && said[1] == '/' ==> is_ordinary(r, said.skip(1)),
        said == seq!['/'] ==> is_ordinary(r, said),
        said == seq!['/'] + word + more && unbroken(word) && word[0] != '/' && (more.len() > 0
            ==> text::white_space(more[0])) && !is_command_name(text::ascii_lowered(word))
            ==> is_ordinary(r, said),
{
    lemma_trim_is(lead, said, trail);
    if said == seq!['/'] {
        assert(said.skip(1) =~= Seq::<char>::empty());
        assert(head(said.skip(1)) =~= Seq::<char>::empty());
        assert(text::ascii_lowered(Seq::<char>::empty()) =~= Seq::<char>::empty());
        lemma_names(Seq::empty());
        reveal_strlit("me");
        reveal_strlit("plain");
        reveal_strlit("shrug");
        reveal_strlit("tableflip");
        reveal_strlit("unflip");
        reveal_strlit("lenny");
        reveal_strlit("join");
        reveal_strlit("j");
        reveal_strlit("knock");
        reveal_strlit("leave");
        reveal_strlit("part");
        reveal_strlit("roomname");
        reveal_strlit("rename");
        reveal_strlit("topic");
        reveal_strlit("invite");
        reveal_strlit("dm");
        reveal_strlit("msg");
        reveal_strlit("query");
        reveal_strlit("nick");
        reveal_strlit("kick");
        reveal_strlit("ban");
        reveal_strlit("unban");
    }
    if said == seq!['/'] + word + more && unbroken(word) && word[0] != '/' && (more.len() > 0
        ==> text::white_space(more[0])) && !is_command_name(text::ascii_lowered(word)) {
        assert(said[1] == word[0]);
        assert(said.skip(1) =~= word + more);
        lemma_head_of(word, more);
        lemma_names(text::ascii_lowered(word));
    }
}

/// A submission of nothing but white space is an empty message.
pub proof fn law_nothing_is_nothing(input: Seq<char>, r: Parsed)
    requires
        blank(input),
        r@ == parsed(input),
    ensures
        is_ordinary(r, Seq::empty()),
{
    lemma_trim_blank(input);
}

/// White space around a submission does not change what it means.
pub proof fn law_outer_space_is_ignored(input: Seq<char>)
    ensures
        parsed(text::trimmed(input)) == parsed(input),
{
    text::lemma_trimmed_twice(input);
}

/// Text that does not begin with a slash is sent as it stands.
pub proof fn law_plain_text_passes_through(input: Seq<char>)
    requires
        text::trimmed(input).len() > 0 ==> text::trimmed(input)[0] != '/',
    ensures
        parsed(input) == plain_message(text::trimmed(input)),
{
}

/// A leading double slash is sent with the first slash taken off, whatever
/// follows it.
pub proof fn law_double_slash_escapes(input: Seq<char>)
    requires
        text::trimmed(input).len() > 1,
        text::trimmed(input)[0] == '/',
        text::trimmed(input)[1] == '/',
    ensures
        parsed(input) == plain_message(text::trimmed(input).skip(1)),
{
}

/// A word that names no command is sent, slash and all.
pub proof fn law_unknown_commands_are_sent(input: Seq<char>)
    requires
        text::trimmed(input).len() > 0 && text::trimmed(input)[0] == '/',
        text::trimmed(input).len() > 1 ==> text::trimmed(input)[1] != '/',
        named(text::ascii_lowered(head(text::trimmed(input).skip(1)))) is None,
    ensures
        parsed(input) == plain_message(text::trimmed(input)),
{
}

/// A recognised command is never sent back as the slash text it was typed as.
pub proof fn law_recognised_commands_are_not_echoed(c: Command, args: Seq<char>, typed: Seq<char>)
    requires
        typed.len() > 0,
        typed[0] == '/',
    ensures
        run(c, args) != plain_message(typed),
{
    reveal_strlit("¯\\_(ツ)_/¯");
    reveal_strlit("(╯°□°）╯︵ ┻━┻");
    reveal_strlit("┬─┬ ノ( ゜-゜ノ)");
    reveal_strlit("( ͡° ͜ʖ ͡°)");
    assert(prepended(SHRUG@, args)[0] == SHRUG@[0]);
    assert(prepended(TABLE_FLIP@, args)[0] == TABLE_FLIP@[0]);
    assert(prepended(UNFLIP@, args)[0] == UNFLIP@[0]);
    assert(prepended(LENNY@, args)[0] == LENNY@[0]);
}

/// Every name and alias of the catalog is recognised as the command it
/// belongs to, and as no other.
pub proof fn law_catalog_names_are_recognised(c: Command, word: Seq<char>)
    ensures
        goes_by(c, word) <==> named(word) == Some(c),
{
    reveal_strlit("me");
    reveal_strlit("plain");
    reveal_strlit("shrug");
    reveal_strlit("tableflip");
    reveal_strlit("unflip");
    reveal_strlit("lenny");
    reveal_strlit("join");
    reveal_strlit("j");
    reveal_strlit("knock");
    reveal_strlit("leave");
    reveal_strlit("part");
    reveal_strlit("roomname");
    reveal_strlit("rename");
    reveal_strlit("topic");
    reveal_strlit("invite");
    reveal_strlit("dm");
    reveal_strlit("msg");
    reveal_strlit("query");
    reveal_strlit("nick");
    reveal_strlit("kick");
    reveal_strlit("ban");
    reveal_strlit("unban");
    assert("me"@.len() == 2);
    assert("plain"@.len() == 5);
    assert("shrug"@.len() == 5);
    assert("tableflip"@.len() == 9);
    assert("unflip"@.len() == 6);
    assert("lenny"@.len() == 5);
    assert("join"@.len() == 4);
    assert("j"@.len() == 1);
    assert("knock"@.len() == 5);
    assert("leave"@.len() == 5);
    assert("part"@.len() == 4);
    assert("roomname"@.len() == 8);
    assert("rename"@.len() == 6);
    assert("topic"@.len() == 5);
    assert("invite"@.len() == 6);
    assert("dm"@.len() == 2);
    assert("msg"@.len() == 3);
    assert("query"@.len() == 5);
    assert("nick"@.len() == 4);
    assert("kick"@.len() == 4);
    assert("ban"@.len() == 3);
    assert("unban"@.len() == 5);
    assert("me"@[0] == 'm' && "dm"@[0] == 'd');
    assert("msg"@[0] == 'm' && "ban"@[0] == 'b');
    assert("join"@[0] == 'j' && "part"@[0] == 'p' && "nick"@[0] == 'n' && "kick"@[0] == 'k');
    assert("plain"@[0] == 'p' && "shrug"@[0] == 's' && "knock"@[0] == 'k' && "topic"@[0] == 't');
    assert("query"@[0] == 'q' && "unban"@[0] == 'u' && "lenny"@[0] == 'l' && "leave"@[0] == 'l');
    assert("lenny"@[2] == 'n' && "leave"@[2] == 'a');
    assert("unflip"@[0] == 'u' && "rename"@[0] == 'r' && "invite"@[0] == 'i');
    assert(aliases_of(Command::Join)[0]@ == "j"@);
    assert(aliases_of(Command::Leave)[0]@ == "part"@);
    assert(aliases_of(Command::RoomName)[0]@ == "rename"@);
    assert(aliases_of(Command::Dm)[0]@ == "msg"@);
    assert(aliases_of(Command::Dm)[1]@ == "query"@);
    if goes_by(c, word) && word != name_of(c)@ {
        let k = choose|k: int|
            0 <= k < aliases_of(c).len() && word == (#[trigger] aliases_of(c)[k])@;
        assert(k == 0 || k == 1);
        assert(named(word) == Some(c));
    }
    if named(word) == Some(c) && word != name_of(c)@ {
        let a = aliases_of(c);
        assert((a.len() > 0 && word == a[0]@) || (a.len() > 1 && word == a[1]@));
    }
    if word == name_of(c)@ {
        assert(named(word) == Some(c));
    }
}

} // verus!
