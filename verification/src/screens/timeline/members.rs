//! The room's members: who they are called, how the list groups them, who is
//! typing, who has read up to where, and who reacted.

use vstd::prelude::*;

use crate::color;
use crate::color::Color;
use crate::events;
use crate::events::{PowerLevelTag, RoomMember, TimelineItem};
use crate::text;

verus! {

// ---------------------------------------------------------------------------
// Looking members up.
// ---------------------------------------------------------------------------
/// The last of the first `n` members with the user id.
pub open spec fn member_before(members: Seq<RoomMember>, user_id: Seq<char>, n: int) -> Option<int>
    decreases n,
{
    if n <= 0 {
        None
    } else if members[n - 1].user_id@ == user_id {
        Some(n - 1)
    } else {
        member_before(members, user_id, n - 1)
    }
}

/// The member with the user id.
pub open spec fn member_at(members: Seq<RoomMember>, user_id: Seq<char>) -> Option<int> {
    member_before(members, user_id, members.len() as int)
}

/// The member with the user id.
pub fn member_by_id<'a>(members: &'a Vec<RoomMember>, user_id: &str) -> (r: Option<&'a RoomMember>)
    ensures
        match (r, member_at(members@, user_id@)) {
            (Some(m), Some(i)) => 0 <= i < members@.len() && *m == members@[i],
            (None, None) => true,
            _ => false,
        },
{
    let mut n: usize = members.len();
    while n > 0
        invariant
            n <= members@.len(),
            member_at(members@, user_id@) == member_before(members@, user_id@, n as int),
        decreases n,
    {
        if text::str_eq(members[n - 1].user_id.as_str(), user_id) {
            return Some(&members[n - 1]);
        }
        n = n - 1;
    }
    None
}

/// What a user is called: the display name of a member, the readable part of
/// the id of anyone else.
pub open spec fn name_of(members: Seq<RoomMember>, user_id: Seq<char>) -> Seq<char> {
    match member_at(members, user_id) {
        Some(i) => members[i].display_name@,
        None => events::friendly(user_id),
    }
}

/// What a user is called.
pub fn display_name(members: &Vec<RoomMember>, user_id: &str) -> (r: String)
    ensures
        r@ == name_of(members@, user_id@),
{
    match member_by_id(members, user_id) {
        Some(m) => m.display_name.clone(),
        None => events::friendly_user_id(user_id).to_owned(),
    }
}

/// What each of some users is called.
pub open spec fn names_of(members: Seq<RoomMember>, user_ids: Seq<Seq<char>>) -> Seq<Seq<char>> {
    user_ids.map_values(|id: Seq<char>| name_of(members, id))
}

/// What each of some users is called.
fn display_names(members: &Vec<RoomMember>, user_ids: &Vec<String>) -> (r: Vec<String>)
    ensures
        text::views(r@) == names_of(members@, text::views(user_ids@)),
{
    let mut r: Vec<String> = Vec::new();
    let mut i: usize = 0;
    while i < user_ids.len()
        invariant
            i <= user_ids@.len(),
            r@.len() == i,
            forall|k: int| 0 <= k < i ==> (#[trigger] r@[k])@ == name_of(members@, user_ids@[k]@),
        decreases user_ids@.len() - i,
    {
        r.push(display_name(members, user_ids[i].as_str()));
        i = i + 1;
    }
    assert(text::views(r@) =~= names_of(members@, text::views(user_ids@)));
    r
}

// ---------------------------------------------------------------------------
// Typing, reading, reacting.
// ---------------------------------------------------------------------------
/// What the typing line says.
pub open spec fn typing_text(members: Seq<RoomMember>, user_ids: Seq<Seq<char>>) -> Option<
    Seq<char>,
> {
    if user_ids.len() == 0 {
        None
    } else if user_ids.len() == 1 {
        Some(name_of(members, user_ids[0]) + " is typing…"@)
    } else if user_ids.len() == 2 {
        Some(
            name_of(members, user_ids[0]) + " and "@ + name_of(members, user_ids[1])
                + " are typing…"@,
        )
    } else {
        Some("Several people are typing…"@)
    }
}

/// What the typing line says, while anyone is typing.
pub fn typing_line(typing_users: &Vec<String>, members: &Vec<RoomMember>) -> (r: Option<String>)
    ensures
        text::opt_view(r) == typing_text(members@, text::views(typing_users@)),
{
    let n: usize = typing_users.len();
    if n == 0 {
        None
    } else if n == 1 {
        let a = display_name(members, typing_users[0].as_str());
        Some(text::join2(a.as_str(), " is typing…"))
    } else if n == 2 {
        let a = display_name(members, typing_users[0].as_str());
        let b = display_name(members, typing_users[1].as_str());
        let mut r = text::join3(a.as_str(), " and ", b.as_str());
        r.append(" are typing…");
        Some(r)
    } else {
        Some("Several people are typing…".to_owned())
    }
}

/// How many faces the row of followers shows.
pub const SHOWN_FOLLOWERS: usize = 8;

/// A face: whose, and its picture.
#[derive(Debug)]
pub struct Face {
    pub name: String,
    pub avatar_url: Option<String>,
}

/// Whether this is the face of a user.
pub open spec fn is_face(f: Face, members: Seq<RoomMember>, user_id: Seq<char>) -> bool {
    &&& f.name@ == name_of(members, user_id)
    &&& f.avatar_url == match member_at(members, user_id) {
        Some(i) => members[i].avatar_url,
        None => None,
    }
}

/// The last of the first `n` items that someone has read up to.
pub open spec fn read_item(items: Seq<TimelineItem>, n: int) -> Option<int>
    decreases n,
{
    if n <= 0 {
        None
    } else if items[n - 1].event_id is Some && items[n - 1].read_by@.len() > 0 {
        Some(n - 1)
    } else {
        read_item(items, n - 1)
    }
}

/// The users from `i` on that are not oneself.
pub open spec fn others_from(
    user_ids: Seq<String>,
    own: Option<Seq<char>>,
    i: int,
) -> Seq<Seq<char>>
    decreases user_ids.len() - i,
{
    if i < 0 || i >= user_ids.len() {
        Seq::empty()
    } else if own == Some(user_ids[i]@) {
        others_from(user_ids, own, i + 1)
    } else {
        seq![user_ids[i]@] + others_from(user_ids, own, i + 1)
    }
}

/// Everyone else whose read receipt sits on the newest message that has any.
pub open spec fn followers_of(items: Seq<TimelineItem>, own: Option<Seq<char>>) -> Seq<Seq<char>> {
    match read_item(items, items.len() as int) {
        Some(i) => others_from(items[i].read_by@, own, 0),
        None => Seq::empty(),
    }
}

/// The row of followers: the faces it shows, and how many more there are.
#[derive(Debug)]
pub struct Followers {
    pub faces: Vec<Face>,
    pub extra: usize,
}

/// Whether the row shows these users: the first few by face, the others by
/// number.
pub open spec fn shows_followers(
    f: Followers,
    members: Seq<RoomMember>,
    users: Seq<Seq<char>>,
) -> bool {
    &&& f.faces@.len() + f.extra == users.len()
    &&& f.faces@.len() <= SHOWN_FOLLOWERS
    &&& f.extra > 0 ==> f.faces@.len() == SHOWN_FOLLOWERS
    &&& forall|i: int|
        0 <= i < f.faces@.len() ==> is_face(#[trigger] f.faces@[i], members, users[i])
}

/// The face of a user.
fn face(members: &Vec<RoomMember>, user_id: &str) -> (r: Face)
    ensures
        is_face(r, members@, user_id@),
{
    match member_by_id(members, user_id) {
        Some(m) => Face {
            name: m.display_name.clone(),
            avatar_url: text::clone_opt(&m.avatar_url),
        },
        None => Face { name: events::friendly_user_id(user_id).to_owned(), avatar_url: None },
    }
}

/// Everyone else's face whose read receipt sits on the newest message.
pub fn follower_avatars(
    items: &Vec<TimelineItem>,
    own_user_id: &Option<String>,
    members: &Vec<RoomMember>,
) -> (r: Followers)
    ensures
        shows_followers(
            r,
            members@,
            followers_of(items@, text::opt_view(*own_user_id)),
        ),
{
    let ghost own = text::opt_view(*own_user_id);
    let mut n: usize = items.len();
    while n > 0 && !(items[n - 1].event_id.is_some() && items[n - 1].read_by.len() > 0)
        invariant
            n <= items@.len(),
            read_item(items@, items@.len() as int) == read_item(items@, n as int),
        decreases n,
    {
        n = n - 1;
    }
    let mut faces: Vec<Face> = Vec::new();
    let mut extra: usize = 0;
    if n == 0 {
        return Followers { faces, extra };
    }
    let read_by = &items[n - 1].read_by;
    let ghost all = others_from(read_by@, own, 0);
    let ghost mut seen = Seq::<Seq<char>>::empty();
    let mut i: usize = 0;
    assert(all =~= seen + others_from(read_by@, own, 0));
    while i < read_by.len()
        invariant
            i <= read_by@.len(),
            own == text::opt_view(*own_user_id),
            all == seen + others_from(read_by@, own, i as int),
            seen.len() <= i,
            faces@.len() + extra == seen.len(),
            faces@.len() <= SHOWN_FOLLOWERS,
            extra > 0 ==> faces@.len() == SHOWN_FOLLOWERS,
            forall|k: int|
                0 <= k < faces@.len() ==> is_face(#[trigger] faces@[k], members@, seen[k]),
        decreases read_by@.len() - i,
    {
        let user_id = read_by[i].as_str();
        let mine = match own_user_id {
            Some(id) => text::str_eq(id.as_str(), user_id),
            None => false,
        };
        if !mine {
            if faces.len() >= SHOWN_FOLLOWERS {
                extra = extra + 1;
            } else {
                faces.push(face(members, user_id));
            }
            proof {
                let rest = others_from(read_by@, own, i + 1);
                let next = seen.push(user_id@);
                assert(seen + (seq![user_id@] + rest) =~= next + rest);
                assert forall|k: int| 0 <= k < faces@.len() implies is_face(
                    #[trigger] faces@[k],
                    members@,
                    next[k],
                ) by {
                    if k < seen.len() {
                        assert(next[k] == seen[k]);
                    }
                }
                seen = next;
            }
        }
        i = i + 1;
    }
    assert(all =~= seen);
    Followers { faces, extra }
}

/// What hovering a follower's face says.
pub fn follower_tooltip(face: &Face) -> (r: String)
    ensures
        r@ == face.name@ + " is following the conversation"@,
{
    text::join2(face.name.as_str(), " is following the conversation")
}

/// How many names the tooltip of a reaction lists.
pub const SHOWN_REACTORS: usize = 12;

/// Some names, separated by commas.
pub open spec fn comma_list(names: Seq<Seq<char>>) -> Seq<char>
    decreases names.len(),
{
    if names.len() == 0 {
        Seq::empty()
    } else if names.len() == 1 {
        names[0]
    } else {
        comma_list(names.drop_last()) + ", "@ + names.last()
    }
}

/// What the tooltip of a reaction says.
pub open spec fn reactors_text(names: Seq<Seq<char>>) -> Seq<char> {
    if names.len() > SHOWN_REACTORS {
        comma_list(names.take(SHOWN_REACTORS as int)) + " and "@ + text::decimal(
            (names.len() - SHOWN_REACTORS) as nat,
        ) + " more"@
    } else {
        comma_list(names)
    }
}

/// The first `n` names, separated by commas.
pub fn join_commas(names: &Vec<String>, n: usize) -> (r: String)
    requires
        n <= names@.len(),
    ensures
        r@ == comma_list(text::views(names@).take(n as int)),
{
    let mut r = String::new();
    let ghost all = text::views(names@);
    let mut i: usize = 0;
    assert(all.take(0) =~= Seq::<Seq<char>>::empty());
    while i < n
        invariant
            i <= n <= names@.len(),
            all == text::views(names@),
            r@ == comma_list(all.take(i as int)),
        decreases n - i,
    {
        if i > 0 {
            r.append(", ");
        }
        r.append(names[i].as_str());
        proof {
            let next = all.take(i + 1);
            assert(next.drop_last() =~= all.take(i as int));
            assert(next.last() == all[i as int]);
            if i == 0 {
                assert(r@ =~= next[0]);
            }
        }
        i = i + 1;
    }
    r
}

/// Who reacted, for the reaction's tooltip: a dozen names, then how many more.
pub fn reaction_senders_label(senders: &Vec<String>, members: &Vec<RoomMember>) -> (r: String)
    ensures
        r@ == reactors_text(names_of(members@, text::views(senders@))),
{
    let names = display_names(members, senders);
    let n: usize = names.len();
    if n > SHOWN_REACTORS {
        let mut r = join_commas(&names, SHOWN_REACTORS);
        let extra = text::decimal_string((n - SHOWN_REACTORS) as u64);
        r.append(" and ");
        r.append(extra.as_str());
        r.append(" more");
        r
    } else {
        let r = join_commas(&names, n);
        assert(text::views(names@).take(n as int) =~= text::views(names@));
        r
    }
}

// ---------------------------------------------------------------------------
// The member list.
// ---------------------------------------------------------------------------
/// The first tag at or after `i` that a power level reaches.
pub open spec fn tag_from(tags: Seq<PowerLevelTag>, level: i64, i: int) -> int
    decreases tags.len() - i,
{
    if i < 0 || i >= tags.len() {
        tags.len() as int
    } else if level >= tags[i].level {
        i
    } else {
        tag_from(tags, level, i + 1)
    }
}

/// The group of a member: by the room's tags where it has any, by the
/// conventional bands otherwise. Below every tag is a group of its own.
pub open spec fn group_of(tags: Seq<PowerLevelTag>, level: i64) -> int {
    if tags.len() == 0 {
        if level >= 100 {
            0
        } else if level >= 50 {
            1
        } else {
            2
        }
    } else {
        tag_from(tags, level, 0)
    }
}

/// How many groups there are, the empty ones counted.
pub open spec fn group_count(tags: Seq<PowerLevelTag>) -> int {
    if tags.len() == 0 {
        3
    } else {
        tags.len() as int + 1
    }
}

/// What a group is called.
pub open spec fn group_label(tags: Seq<PowerLevelTag>, g: int) -> Seq<char> {
    if tags.len() == 0 {
        if g == 0 {
            "Admin"@
        } else if g == 1 {
            "Moderator"@
        } else {
            "Member"@
        }
    } else if 0 <= g < tags.len() {
        tags[g].name@
    } else {
        "Member"@
    }
}

/// The colour of a group, where its tag defines one.
pub open spec fn group_color(tags: Seq<PowerLevelTag>, g: int) -> Option<Color> {
    if 0 <= g < tags.len() {
        match tags[g].color {
            Some(c) => color::tag_color(c@),
            None => None,
        }
    } else {
        None
    }
}

/// The members from `i` on that belong to the group, by index.
pub open spec fn in_group(
    members: Seq<RoomMember>,
    tags: Seq<PowerLevelTag>,
    g: int,
    i: int,
) -> Seq<int>
    decreases members.len() - i,
{
    if i < 0 || i >= members.len() {
        Seq::empty()
    } else if group_of(tags, members[i].power_level) == g {
        seq![i] + in_group(members, tags, g, i + 1)
    } else {
        in_group(members, tags, g, i + 1)
    }
}

/// The groups from `g` on that have members.
pub open spec fn peopled(members: Seq<RoomMember>, tags: Seq<PowerLevelTag>, g: int) -> Seq<int>
    decreases group_count(tags) - g,
{
    if g >= group_count(tags) {
        Seq::empty()
    } else if in_group(members, tags, g, 0).len() > 0 {
        seq![g] + peopled(members, tags, g + 1)
    } else {
        peopled(members, tags, g + 1)
    }
}

/// A section of the member list.
#[derive(Debug)]
pub struct Group {
    pub label: String,
    pub color: Option<Color>,
    /// The members, as indices of the roster.
    pub members: Vec<usize>,
}

/// Whether this is the section of a group.
pub open spec fn is_group(
    x: Group,
    members: Seq<RoomMember>,
    tags: Seq<PowerLevelTag>,
    g: int,
) -> bool {
    &&& x.label@ == group_label(tags, g)
    &&& x.color == group_color(tags, g)
    &&& x.members@.map_values(|i: usize| i as int) == in_group(members, tags, g, 0)
}

/// The group of a power level.
fn find_group(tags: &Vec<PowerLevelTag>, level: i64) -> (r: usize)
    ensures
        r == group_of(tags@, level),
        r < group_count(tags@),
{
    if tags.len() == 0 {
        return if level >= 100 {
            0
        } else if level >= 50 {
            1
        } else {
            2
        };
    }
    let mut i: usize = 0;
    while i < tags.len()
        invariant
            i <= tags@.len(),
            tag_from(tags@, level, 0) == tag_from(tags@, level, i as int),
        decreases tags@.len() - i,
    {
        if level >= tags[i].level {
            return i;
        }
        i = i + 1;
    }
    i
}

/// The members of a group.
fn collect_group(
    members: &Vec<RoomMember>,
    tags: &Vec<PowerLevelTag>,
    g: usize,
) -> (r: Vec<usize>)
    ensures
        r@.map_values(|i: usize| i as int) == in_group(members@, tags@, g as int, 0),
{
    let mut r: Vec<usize> = Vec::new();
    let ghost all = in_group(members@, tags@, g as int, 0);
    let mut i: usize = 0;
    assert(r@.map_values(|k: usize| k as int) =~= Seq::<int>::empty());
    assert(all =~= Seq::<int>::empty() + all);
    while i < members.len()
        invariant
            i <= members@.len(),
            all == r@.map_values(|k: usize| k as int) + in_group(
                members@,
                tags@,
                g as int,
                i as int,
            ),
        decreases members@.len() - i,
    {
        if find_group(tags, members[i].power_level) == g {
            let ghost before = r@.map_values(|k: usize| k as int);
            r.push(i);
            proof {
                let rest = in_group(members@, tags@, g as int, i + 1);
                assert(r@.map_values(|k: usize| k as int) =~= before.push(i as int));
                assert(before.push(i as int) + rest =~= before + (seq![i as int] + rest));
            }
        }
        i = i + 1;
    }
    assert(all =~= r@.map_values(|k: usize| k as int));
    r
}

/// What a group is called.
fn label_of(tags: &Vec<PowerLevelTag>, g: usize) -> (r: String)
    ensures
        r@ == group_label(tags@, g as int),
{
    if tags.len() == 0 {
        if g == 0 {
            "Admin".to_owned()
        } else if g == 1 {
            "Moderator".to_owned()
        } else {
            "Member".to_owned()
        }
    } else if g < tags.len() {
        tags[g].name.clone()
    } else {
        "Member".to_owned()
    }
}

/// The colour of a group.
fn color_of_group(tags: &Vec<PowerLevelTag>, g: usize) -> (r: Option<Color>)
    ensures
        r == group_color(tags@, g as int),
{
    if g < tags.len() {
        match &tags[g].color {
            Some(c) => color::parse_hex_color(c.as_str()),
            None => None,
        }
    } else {
        None
    }
}

/// The line above the member list.
pub fn roster_title(members: &Vec<RoomMember>) -> (r: String)
    ensures
        r@ == text::decimal(members@.len()) + " Members"@,
{
    text::join2(text::decimal_string(members.len() as u64).as_str(), " Members")
}

/// The sections of the member list: by the room's power-level tags, which
/// come highest first, or by the conventional bands. Sections without members
/// do not show; members keep the roster's order.
pub fn member_panel(members: &Vec<RoomMember>, tags: &Vec<PowerLevelTag>) -> (r: Vec<Group>)
    requires
        tags@.len() < usize::MAX,
    ensures
        r@.len() == peopled(members@, tags@, 0).len(),
        forall|i: int|
            0 <= i < r@.len() ==> is_group(
                #[trigger] r@[i],
                members@,
                tags@,
                peopled(members@, tags@, 0)[i],
            ),
{
    let mut r: Vec<Group> = Vec::new();
    let count: usize = if tags.len() == 0 {
        3
    } else {
        tags.len() + 1
    };
    let ghost all = peopled(members@, tags@, 0);
    let ghost mut done = Seq::<int>::empty();
    let mut g: usize = 0;
    assert(all =~= done + peopled(members@, tags@, 0));
    while g < count
        invariant
            g <= count,
            count == group_count(tags@),
            all == done + peopled(members@, tags@, g as int),
            r@.len() == done.len(),
            forall|i: int|
                0 <= i < r@.len() ==> is_group(#[trigger] r@[i], members@, tags@, done[i]),
        decreases count - g,
    {
        let group = collect_group(members, tags, g);
        proof {
            assert(group@.map_values(|i: usize| i as int).len() == group@.len());
        }
        if group.len() > 0 {
            r.push(Group { label: label_of(tags, g), color: color_of_group(tags, g), members: group });
            proof {
                let rest = peopled(members@, tags@, g + 1);
                let next = done.push(g as int);
                assert(done + (seq![g as int] + rest) =~= next + rest);
                assert forall|i: int| 0 <= i < r@.len() implies is_group(
                    #[trigger] r@[i],
                    members@,
                    tags@,
                    next[i],
                ) by {
                    if i < done.len() {
                        assert(next[i] == done[i]);
                    }
                }
                done = next;
            }
        }
        g = g + 1;
    }
    assert(all =~= done);
    r
}

/// The colour of a power level: that of the first tag it reaches.
pub open spec fn level_color(tags: Seq<PowerLevelTag>, level: i64) -> Option<Color> {
    group_color(tags, tag_from(tags, level, 0))
}

/// The group colour of a power level: the one of the tag that the member list
/// files it under. None where no tag applies or the tag defines no colour.
pub fn tag_color_for_level(tags: &Vec<PowerLevelTag>, power_level: i64) -> (r: Option<Color>)
    ensures
        r == level_color(tags@, power_level),
{
    if tags.len() == 0 {
        return None;
    }
    let g: usize = find_group(tags, power_level);
    color_of_group(tags, g)
}

/// The colour of a sender's name: that of the group, or one of the palette.
pub open spec fn name_color(
    members: Seq<RoomMember>,
    tags: Seq<PowerLevelTag>,
    sender: Seq<char>,
) -> Color {
    match member_at(members, sender) {
        Some(i) => match level_color(tags, members[i].power_level) {
            Some(c) => c,
            None => color::user_color(sender),
        },
        None => color::user_color(sender),
    }
}

/// The colour of a sender's name: that of the sender's group, or a stable one
/// per user where there is none.
pub fn sender_color(members: &Vec<RoomMember>, tags: &Vec<PowerLevelTag>, sender: &str) -> (r:
    Color)
    ensures
        r == name_color(members@, tags@, sender@),
{
    match member_by_id(members, sender) {
        Some(m) => match tag_color_for_level(tags, m.power_level) {
            Some(c) => c,
            None => color::name_palette_color(sender),
        },
        None => color::name_palette_color(sender),
    }
}

/// What the menu of a member offers last: tinting its messages, or not.
pub fn highlight_label(user_id: &str, highlighted_member: &Option<String>) -> (r: &'static str)
    ensures
        r@ == if text::opt_view(*highlighted_member) == Some(user_id@) {
            "Clear highlight"@
        } else {
            "Highlight messages"@
        },
{
    let on = match highlighted_member {
        Some(id) => text::str_eq(id.as_str(), user_id),
        None => false,
    };
    if on {
        "Clear highlight"
    } else {
        "Highlight messages"
    }
}

// ---------------------------------------------------------------------------
// Laws.
// ---------------------------------------------------------------------------
/// Every member is listed in exactly one section: the one of its group, which
/// shows.
pub proof fn law_every_member_is_listed_once(
    members: Seq<RoomMember>,
    tags: Seq<PowerLevelTag>,
    i: int,
)
    requires
        0 <= i < members.len(),
    ensures
        peopled(members, tags, 0).contains(group_of(tags, members[i].power_level)),
        forall|g: int| #[trigger]
            in_group(members, tags, g, 0).contains(i) <==> g == group_of(
                tags,
                members[i].power_level,
            ),
{
    let own = group_of(tags, members[i].power_level);
    lemma_tag_from(tags, members[i].power_level, 0);
    assert forall|g: int| #[trigger] in_group(members, tags, g, 0).contains(i) <==> g == own by {
        lemma_in_group(members, tags, g, 0, i);
    }
    assert(in_group(members, tags, own, 0).contains(i));
    lemma_peopled(members, tags, 0, own);
}

proof fn lemma_tag_from(tags: Seq<PowerLevelTag>, level: i64, i: int)
    requires
        0 <= i <= tags.len(),
    ensures
        i <= tag_from(tags, level, i) <= tags.len(),
    decreases tags.len() - i,
{
    if i < tags.len() && level < tags[i].level {
        lemma_tag_from(tags, level, i + 1);
    }
}

proof fn lemma_in_group(
    members: Seq<RoomMember>,
    tags: Seq<PowerLevelTag>,
    g: int,
    from: int,
    i: int,
)
    requires
        0 <= from,
        0 <= i < members.len(),
    ensures
        in_group(members, tags, g, from).contains(i) <==> from <= i && group_of(
            tags,
            members[i].power_level,
        ) == g,
    decreases members.len() - from,
{
    if from < members.len() {
        lemma_in_group(members, tags, g, from + 1, i);
        let rest = in_group(members, tags, g, from + 1);
        if group_of(tags, members[from].power_level) == g {
            let all = seq![from] + rest;
            assert(all[0] == from);
            if rest.contains(i) {
                let k = choose|k: int| 0 <= k < rest.len() && rest[k] == i;
                assert(all[k + 1] == i);
            }
            if all.contains(i) && i != from {
                let k = choose|k: int| 0 <= k < all.len() && all[k] == i;
                assert(rest[k - 1] == i);
            }
        }
    }
}

proof fn lemma_peopled(members: Seq<RoomMember>, tags: Seq<PowerLevelTag>, from: int, g: int)
    requires
        from <= g < group_count(tags),
        in_group(members, tags, g, 0).len() > 0,
    ensures
        peopled(members, tags, from).contains(g),
    decreases g - from,
{
    let rest = peopled(members, tags, from + 1);
    if from == g {
        assert((seq![g] + rest)[0] == g);
    } else {
        lemma_peopled(members, tags, from + 1, g);
        let k = choose|k: int| 0 <= k < rest.len() && rest[k] == g;
        if in_group(members, tags, from, 0).len() > 0 {
            assert((seq![from] + rest)[k + 1] == g);
        }
    }
}

proof fn lemma_member_before(members: Seq<RoomMember>, user_id: Seq<char>, n: int)
    requires
        0 <= n <= members.len(),
    ensures
        match member_before(members, user_id, n) {
            Some(i) => 0 <= i < n && members[i].user_id@ == user_id && forall|j: int|
                i < j < n ==> (#[trigger] members[j]).user_id@ != user_id,
            None => forall|j: int| 0 <= j < n ==> (#[trigger] members[j]).user_id@ != user_id,
        },
    decreases n,
{
    if n > 0 {
        lemma_member_before(members, user_id, n - 1);
    }
}

/// A member goes by the display name; someone who is no member goes by the
/// local part of the user id.
pub proof fn law_what_a_user_is_called(
    members: Seq<RoomMember>,
    user_id: Seq<char>,
    i: int,
    local: Seq<char>,
    server: Seq<char>,
)
    requires
        !local.contains(':'),
        !(local.len() >= 4 && local.take(4) == "irc_"@),
    ensures
        0 <= i < members.len() && members[i].user_id@ == user_id && (forall|j: int|
            i < j < members.len() ==> (#[trigger] members[j]).user_id@ != user_id) ==> name_of(
            members,
            user_id,
        ) == members[i].display_name@,
        (forall|j: int| 0 <= j < members.len() ==> (#[trigger] members[j]).user_id@ != user_id)
            && user_id == seq!['@'] + local + seq![':'] + server ==> name_of(members, user_id)
            == local,
{
    lemma_member_before(members, user_id, members.len() as int);
    events::law_a_user_reads_as_the_local_part(local, server);
}

/// The typing line names one or two people and counts no more of them.
pub proof fn law_who_is_typing(members: Seq<RoomMember>, ids: Seq<Seq<char>>, r: Option<String>)
    requires
        text::opt_view(r) == typing_text(members, ids),
    ensures
        ids.len() == 0 ==> r is None,
        ids.len() > 0 ==> r is Some,
        ids.len() == 1 ==> r->0@ == name_of(members, ids[0]) + " is typing…"@,
        ids.len() == 2 ==> r->0@ == name_of(members, ids[0]) + " and "@ + name_of(members, ids[1])
            + " are typing…"@,
        ids.len() > 2 ==> r->0@ == "Several people are typing…"@,
{
}

/// Whether the user is one whose receipt counts: not oneself.
proof fn lemma_others(user_ids: Seq<String>, own: Option<Seq<char>>, i: int, x: Seq<char>)
    requires
        0 <= i,
    ensures
        others_from(user_ids, own, i).contains(x) == (own != Some(x) && exists|k: int|
            i <= k < user_ids.len() && (#[trigger] user_ids[k])@ == x),
    decreases user_ids.len() - i,
{
    if i < user_ids.len() {
        lemma_others(user_ids, own, i + 1, x);
        let rest = others_from(user_ids, own, i + 1);
        let all = others_from(user_ids, own, i);
        if own != Some(user_ids[i]@) {
            assert(all == seq![user_ids[i]@] + rest);
            if rest.contains(x) {
                let k = choose|k: int| 0 <= k < rest.len() && rest[k] == x;
                assert(all[k + 1] == x);
            }
            if user_ids[i]@ == x {
                assert(all[0] == x);
            }
            if all.contains(x) && user_ids[i]@ != x {
                let k = choose|k: int| 0 <= k < all.len() && all[k] == x;
                assert(rest[k - 1] == x);
            }
        }
    }
}

/// The followers are everyone but oneself who has read up to the newest
/// message that anyone has read up to; the first eight show by face, and the
/// others are counted.
pub proof fn law_who_follows(
    f: Followers,
    items: Seq<TimelineItem>,
    own: Option<Seq<char>>,
    members: Seq<RoomMember>,
    n: int,
    user: Seq<char>,
)
    requires
        shows_followers(f, members, followers_of(items, own)),
        0 <= n < items.len(),
        items[n].event_id is Some && items[n].read_by@.len() > 0,
        forall|j: int|
            n < j < items.len() ==> (#[trigger] items[j]).event_id is None
                || items[j].read_by@.len() == 0,
    ensures
        followers_of(items, own).contains(user) == (own != Some(user) && exists|k: int|
            0 <= k < items[n].read_by@.len() && (#[trigger] items[n].read_by@[k])@ == user),
        f.faces@.len() <= 8,
        f.faces@.len() + f.extra == followers_of(items, own).len(),
        followers_of(items, own).len() <= 8 ==> f.extra == 0,
        forall|i: int|
            0 <= i < f.faces@.len() ==> (#[trigger] f.faces@[i]).name@ == name_of(
                members,
                followers_of(items, own)[i],
            ),
{
    lemma_read_item(items, n, items.len() as int);
    lemma_others(items[n].read_by@, own, 0, user);
    assert forall|i: int| 0 <= i < f.faces@.len() implies (#[trigger] f.faces@[i]).name@ == name_of(
        members,
        followers_of(items, own)[i],
    ) by {
        assert(is_face(f.faces@[i], members, followers_of(items, own)[i]));
    }
}

proof fn lemma_read_item(items: Seq<TimelineItem>, n: int, k: int)
    requires
        0 <= n < k <= items.len(),
        items[n].event_id is Some && items[n].read_by@.len() > 0,
        forall|j: int|
            n < j < items.len() ==> (#[trigger] items[j]).event_id is None
                || items[j].read_by@.len() == 0,
    ensures
        read_item(items, k) == Some(n),
    decreases k - n,
{
    if k > n + 1 {
        lemma_read_item(items, n, k - 1);
    }
}

/// A reaction's tooltip lists up to twelve names with commas between them, and
/// counts the others.
pub proof fn law_who_reacted(names: Seq<Seq<char>>, more: Seq<Seq<char>>, last: Seq<char>)
    requires
        0 < names.len() < 12,
    ensures
        names.len() == 1 ==> reactors_text(names) == names[0],
        reactors_text(names.push(last)) == reactors_text(names) + ", "@ + last,
        names.len() == 11 && more.len() > 0 ==> reactors_text(names.push(last) + more)
            == reactors_text(names.push(last)) + " and "@ + text::decimal(more.len()) + " more"@,
{
    let all = names.push(last);
    assert(all.drop_last() =~= names);
    if names.len() == 11 && more.len() > 0 {
        assert((all + more).take(12) =~= all);
    }
}

/// A member is filed by power: in a room without tags as administrator,
/// moderator or member, in one with tags under the first tag that the power
/// reaches.
pub proof fn law_members_are_filed_by_power(
    tags: Seq<PowerLevelTag>,
    level: i64,
    i: int,
)
    ensures
        tags.len() == 0 && level >= 100 ==> group_label(tags, group_of(tags, level)) == "Admin"@,
        tags.len() == 0 && 50 <= level < 100 ==> group_label(tags, group_of(tags, level))
            == "Moderator"@,
        tags.len() == 0 && level < 50 ==> group_label(tags, group_of(tags, level)) == "Member"@,
        0 <= i < tags.len() && level >= tags[i].level && (forall|j: int|
            0 <= j < i ==> level < (#[trigger] tags[j]).level) ==> group_label(
            tags,
            group_of(tags, level),
        ) == tags[i].name@,
        tags.len() > 0 && (forall|j: int|
            0 <= j < tags.len() ==> level < (#[trigger] tags[j]).level) ==> group_label(
            tags,
            group_of(tags, level),
        ) == "Member"@,
{
    if tags.len() > 0 {
        lemma_first_tag(tags, level, 0);
    }
}

proof fn lemma_first_tag(tags: Seq<PowerLevelTag>, level: i64, from: int)
    requires
        0 <= from <= tags.len(),
    ensures
        from <= tag_from(tags, level, from) <= tags.len(),
        forall|j: int|
            from <= j < tag_from(tags, level, from) ==> level < (#[trigger] tags[j]).level,
        tag_from(tags, level, from) < tags.len() ==> level >= tags[tag_from(
            tags,
            level,
            from,
        )].level,
    decreases tags.len() - from,
{
    if from < tags.len() && level < tags[from].level {
        lemma_first_tag(tags, level, from + 1);
    }
}

/// A sender whose power reaches a tag with a colour shows in that colour; any
/// other in one that depends on the user id alone.
pub proof fn law_the_colour_of_a_name(
    members: Seq<RoomMember>,
    other: Seq<RoomMember>,
    tags: Seq<PowerLevelTag>,
    sender: Seq<char>,
    m: int,
    i: int,
)
    ensures
        0 <= m < members.len() && members[m].user_id@ == sender && (forall|j: int|
            m < j < members.len() ==> (#[trigger] members[j]).user_id@ != sender) && 0 <= i
            < tags.len() && members[m].power_level >= tags[i].level && (forall|j: int|
            0 <= j < i ==> members[m].power_level < (#[trigger] tags[j]).level)
            && tags[i].color is Some && color::tag_color(tags[i].color->0@) is Some ==> name_color(
            members,
            tags,
            sender,
        ) == color::tag_color(tags[i].color->0@)->0,
        (forall|j: int| 0 <= j < members.len() ==> (#[trigger] members[j]).user_id@ != sender) && (
        forall|j: int| 0 <= j < other.len() ==> (#[trigger] other[j]).user_id@ != sender)
            ==> name_color(members, tags, sender) == name_color(other, Seq::empty(), sender),
        tags.len() == 0 ==> name_color(members, tags, sender) == name_color(
            Seq::empty(),
            tags,
            sender,
        ),
{
    lemma_member_before(members, sender, members.len() as int);
    lemma_member_before(other, sender, other.len() as int);
    lemma_member_before(Seq::empty(), sender, 0);
    if let Some(k) = member_at(members, sender) {
        lemma_first_tag(tags, members[k].power_level, 0);
    }
}

} // verus!
