//! Files on their way to the composer: what was read from disk or from the
//! clipboard becomes a message.

use vstd::prelude::*;

use crate::screens::timeline;
use crate::screens::timeline::composer;
use crate::update::tasks::Message;

verus! {

/// A path that was to be read: its file name, where it has one, and its
/// bytes, where they could be read. A folder cannot be.
pub struct ReadPath {
    pub name: Option<String>,
    pub bytes: Option<Vec<u8>>,
}

/// What the clipboard held.
pub enum Pasted {
    Nothing,
    Text(String),
    Image { filename: String, bytes: Vec<u8> },
    Files(Vec<ReadPath>),
}

/// The name of a file without one.
pub const UNNAMED: &'static str = "attachment";

/// The files of the first `n` paths that could be read, in order.
pub open spec fn readable(paths: Seq<ReadPath>, n: int) -> Seq<(Seq<char>, Seq<u8>)>
    decreases n,
{
    if n <= 0 {
        Seq::empty()
    } else {
        let before = readable(paths, n - 1);
        match paths[n - 1].bytes {
            Some(bytes) => before.push(
                (
                    match paths[n - 1].name {
                        Some(name) => name@,
                        None => UNNAMED@,
                    },
                    bytes@,
                ),
            ),
            None => before,
        }
    }
}

/// How many of the first `n` paths could not be read.
pub open spec fn unreadable(paths: Seq<ReadPath>, n: int) -> nat
    decreases n,
{
    if n <= 0 {
        0
    } else {
        unreadable(paths, n - 1) + if paths[n - 1].bytes is None {
            1nat
        } else {
            0nat
        }
    }
}

/// The names and the bytes of files.
pub open spec fn contents(files: Seq<(String, Vec<u8>)>) -> Seq<(Seq<char>, Seq<u8>)> {
    Seq::new(files.len(), |i: int| (files[i].0@, files[i].1@))
}

/// Whether a message hands these files to the room.
pub open spec fn hands_over(
    m: Message,
    room: String,
    files: Seq<(Seq<char>, Seq<u8>)>,
    missing: nat,
) -> bool {
    m matches Message::AttachmentsReadFor { room_id, files: f, failed } && room_id == room
        && contents(f@) == files && failed == missing
}

/// Reads what came of the paths: the files, and how many could not be read.
pub fn read_pasted_paths(paths: Vec<ReadPath>) -> (r: (Vec<(String, Vec<u8>)>, usize))
    ensures
        contents(r.0@) == readable(paths@, paths@.len() as int),
        r.1 == unreadable(paths@, paths@.len() as int),
{
    let mut paths = paths;
    let ghost all = paths@;
    assert(paths.len() == all.len());
    let mut failed: usize = 0;
    let mut files: Vec<(String, Vec<u8>)> = Vec::new();
    assert(contents(files@) =~= readable(all, 0));
    while paths.len() > 0
        invariant
            paths@.len() <= all.len() <= usize::MAX,
            forall|k: int|
                0 <= k < paths@.len() ==> #[trigger] paths@[k] == all[all.len() - paths@.len() + k],
            contents(files@) == readable(all, all.len() - paths@.len()),
            failed == unreadable(all, all.len() - paths@.len()),
            failed <= all.len() - paths@.len(),
        decreases paths@.len(),
    {
        let ghost done = all.len() - paths@.len();
        let ghost before = files@;
        assert(paths@[0] == all[done]);
        let path = paths.remove(0);
        match path.bytes {
            Some(bytes) => {
                let name = match path.name {
                    Some(name) => name,
                    None => UNNAMED.to_owned(),
                };
                files.push((name, bytes));
                assert(contents(files@) =~= contents(before).push((name@, bytes@)));
            },
            None => {
                failed = failed + 1;
            },
        }
    }
    (files, failed)
}

/// What a dropped path comes to: its file for the room, or one failure.
pub fn dropped(room_id: String, path: ReadPath) -> (r: Message)
    ensures
        hands_over(r, room_id, readable(seq![path], 1), unreadable(seq![path], 1)),
{
    let mut paths: Vec<ReadPath> = Vec::new();
    paths.push(path);
    assert(paths@ =~= seq![path]);
    let (files, failed) = read_pasted_paths(paths);
    Message::AttachmentsReadFor { room_id, files, failed }
}

/// What the file dialog came to. Cancelling it is a normal action, not an
/// error.
pub fn picked(room_id: String, files: Vec<(String, Vec<u8>)>) -> (r: Message)
    ensures
        files@.len() == 0 ==> r is Noop,
        files@.len() > 0 ==> r == (Message::AttachmentsReadFor { room_id, files, failed: 0 }),
{
    if files.len() == 0 {
        Message::Noop
    } else {
        Message::AttachmentsReadFor { room_id, files, failed: 0 }
    }
}

/// What the paths of the clipboard come to. With none of them, nothing
/// happens.
pub open spec fn paths_pasted(m: Message, room: String, paths: Seq<ReadPath>) -> bool {
    if paths.len() == 0 {
        m is Noop
    } else {
        hands_over(
            m,
            room,
            readable(paths, paths.len() as int),
            unreadable(paths, paths.len() as int),
        )
    }
}

/// Whether a message is what pasting comes to. The keyboard's paste leaves
/// text to the editor, which takes it by itself; the menu's paste inserts it.
pub open spec fn is_pasted(m: Message, room: String, p: Pasted, from_menu: bool) -> bool {
    match p {
        Pasted::Nothing => m is Noop,
        Pasted::Text(text) => if from_menu {
            m == Message::Timeline(timeline::Message::Composer(composer::Message::InsertText(text)))
        } else {
            m is Noop
        },
        Pasted::Image { filename, bytes } => hands_over(m, room, seq![(filename@, bytes@)], 0),
        Pasted::Files(paths) => paths_pasted(m, room, paths@),
    }
}

/// Every path is either read or counted as a failure.
proof fn lemma_every_path_counts(paths: Seq<ReadPath>, n: int)
    requires
        0 <= n <= paths.len(),
    ensures
        readable(paths, n).len() + unreadable(paths, n) == n,
    decreases n,
{
    if n > 0 {
        lemma_every_path_counts(paths, n - 1);
    }
}

/// What the clipboard's content comes to.
pub fn paste(room_id: String, pasted: Pasted, from_menu: bool) -> (r: Message)
    ensures
        is_pasted(r, room_id, pasted, from_menu),
{
    match pasted {
        Pasted::Nothing => Message::Noop,
        Pasted::Text(text) => if from_menu {
            Message::Timeline(timeline::Message::Composer(composer::Message::InsertText(text)))
        } else {
            Message::Noop
        },
        Pasted::Image { filename, bytes } => {
            let mut files: Vec<(String, Vec<u8>)> = Vec::new();
            files.push((filename, bytes));
            assert(contents(files@) =~= seq![(filename@, bytes@)]);
            Message::AttachmentsReadFor { room_id, files, failed: 0 }
        },
        Pasted::Files(paths) => {
            proof {
                lemma_every_path_counts(paths@, paths@.len() as int);
            }
            let (files, failed) = read_pasted_paths(paths);
            if files.len() == 0 && failed == 0 {
                assert(contents(files@).len() == 0);
                Message::Noop
            } else {
                assert(contents(files@).len() == files@.len());
                Message::AttachmentsReadFor { room_id, files, failed }
            }
        },
    }
}

// ---------------------------------------------------------------------------
// Laws.
// ---------------------------------------------------------------------------
/// No path is lost on the way: each of them arrives as a file or is counted
/// among those that could not be read.
pub proof fn law_every_path_is_accounted_for(paths: Seq<ReadPath>)
    ensures
        readable(paths, paths.len() as int).len() + unreadable(paths, paths.len() as int)
            == paths.len(),
{
    lemma_every_path_counts(paths, paths.len() as int);
}

/// What is pasted comes to what it is: an image goes to the room under its
/// name, files with their bytes, in order, and text only from the menu.
pub proof fn law_what_is_pasted(m: Message, room: String, p: Pasted, from_menu: bool)
    requires
        is_pasted(m, room, p, from_menu),
    ensures
        p is Nothing ==> m is Noop,
        p matches Pasted::Text(t) ==> !from_menu ==> m is Noop,
        p matches Pasted::Text(t) ==> from_menu ==> m == Message::Timeline(
            timeline::Message::Composer(composer::Message::InsertText(t)),
        ),
        p matches Pasted::Image { filename, bytes } ==> m is AttachmentsReadFor
            && m->AttachmentsReadFor_room_id@ == room@ && m->files@.len() == 1 && m->files@[0].0@
            == filename@ && m->files@[0].1@ == bytes@ && m->failed == 0,
        p matches Pasted::Files(paths) ==> paths@.len() == 1 && paths@[0].bytes is Some
            && paths@[0].name is Some ==> m is AttachmentsReadFor && m->AttachmentsReadFor_room_id@
            == room@ && m->files@.len() == 1 && m->files@[0].0@ == paths@[0].name->0@
            && m->files@[0].1@ == paths@[0].bytes->0@ && m->failed == 0,
        p matches Pasted::Files(paths) ==> paths@.len() == 1 && paths@[0].bytes is None ==> m
            is AttachmentsReadFor && m->files@.len() == 0 && m->failed == 1,
{
    reveal_with_fuel(readable, 2);
    reveal_with_fuel(unreadable, 2);
    match p {
        Pasted::Image { filename, bytes } => {
            let f = m->files@;
            assert(contents(f).len() == 1);
            assert(contents(f)[0] == (f[0].0@, f[0].1@));
        },
        Pasted::Files(paths) => {
            if paths@.len() == 1 {
                let f = m->files@;
                assert(contents(f).len() == f.len());
                if paths@[0].bytes is Some {
                    assert(contents(f)[0] == (f[0].0@, f[0].1@));
                }
            }
        },
        _ => {},
    }
}

} // verus!
