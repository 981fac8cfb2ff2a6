//! What a message's text is made of: plain text, custom emoji, unicode emoji
//! and links, and how it is laid out.

use vstd::prelude::*;

use crate::events::{CustomEmoji, EmojiPack};
use crate::text;

verus! {

// ---------------------------------------------------------------------------
// Links and emoji, as the outside tables know them.
// ---------------------------------------------------------------------------
/// The byte ranges of the URLs that `linkify` finds in a text.
pub uninterp spec fn found_links(s: Seq<char>) -> Seq<(usize, usize)>;

/// The fully qualified form of the emoji that `emojis` knows by a string.
pub uninterp spec fn known_emoji(s: Seq<char>) -> Option<Seq<char>>;

/// Byte ranges in order, apart, each between characters and not empty.
pub open spec fn ranges_fit(s: Seq<char>, rs: Seq<(usize, usize)>) -> bool {
    &&& forall|i: int|
        0 <= i < rs.len() ==> {
            &&& (#[trigger] rs[i]).0 < rs[i].1
            &&& text::boundary(s, rs[i].0 as int)
            &&& text::boundary(s, rs[i].1 as int)
        }
    &&& forall|i: int, j: int|
        0 <= i < j < rs.len() ==> (#[trigger] rs[i]).1 <= (#[trigger] rs[j]).0
}

/// The characters of a byte range.
pub open spec fn range_text(s: Seq<char>, r: (usize, usize)) -> Seq<char> {
    s.subrange(text::index_at(s, r.0 as int), text::index_at(s, r.1 as int))
}

/// `linkify::LinkFinder::links`, restricted to URLs, is a function of the
/// text. It scans forward and goes on behind each link it found, so the ranges
/// come in order and do not overlap; they are slices of the text; and a URL
/// reaches from its scheme past the `://` that the scan starts at.
#[verifier::external_body]
pub(crate) fn find_links(line: &str) -> (r: Vec<(usize, usize)>)
    ensures
        r@ == found_links(line@),
        ranges_fit(line@, r@),
        forall|i: int|
            0 <= i < r@.len() ==> text::occurs(range_text(line@, #[trigger] r@[i]), "://"@),
{
    let mut finder = linkify::LinkFinder::new();
    finder.kinds(&[linkify::LinkKind::Url]);
    finder.links(line).map(|link| (link.start(), link.end())).collect()
}

/// `emojis::get` looks a string up in a fixed table, and `as_str` is the entry
/// itself: the fully qualified form.
#[verifier::external_body]
pub(crate) fn get_emoji(s: &str) -> (r: Option<&'static str>)
    ensures
        match (r, known_emoji(s@)) {
            (Some(e), Some(k)) => e@ == k,
            (None, None) => true,
            _ => false,
        },
{
    emojis::get(s).map(|e| e.as_str())
}

// ---------------------------------------------------------------------------
// Custom emoji by shortcode.
// ---------------------------------------------------------------------------
/// Custom emoji by lowercased shortcode.
#[derive(Debug)]
pub struct ShortcodeIndex {
    pub entries: Vec<(String, CustomEmoji)>,
}

/// The first entry at or after `i` with the code.
pub open spec fn entry_from(entries: Seq<(String, CustomEmoji)>, code: Seq<char>, i: int) -> Option<
    CustomEmoji,
>
    decreases entries.len() - i,
{
    if i < 0 || i >= entries.len() {
        None
    } else if entries[i].0@ == code {
        Some(entries[i].1)
    } else {
        entry_from(entries, code, i + 1)
    }
}

impl ShortcodeIndex {
    /// The emoji with the lowercased code.
    pub open spec fn at(&self, code: Seq<char>) -> Option<CustomEmoji> {
        entry_from(self.entries@, code, 0)
    }

    /// The emoji with the code, whatever its case.
    pub open spec fn of(&self, code: Seq<char>) -> Option<CustomEmoji> {
        self.at(text::ascii_lowered(code))
    }

    /// No emoji.
    pub fn new() -> (r: Self)
        ensures
            r.entries@.len() == 0,
    {
        ShortcodeIndex { entries: Vec::new() }
    }

    /// The emoji with the lowercased code.
    pub fn get(&self, code: &str) -> (r: Option<&CustomEmoji>)
        ensures
            match (r, self.at(code@)) {
                (Some(e), Some(k)) => *e == k,
                (None, None) => true,
                _ => false,
            },
    {
        let mut i: usize = 0;
        while i < self.entries.len()
            invariant
                i <= self.entries@.len(),
                self.at(code@) == entry_from(self.entries@, code@, i as int),
            decreases self.entries@.len() - i,
        {
            if text::str_eq(self.entries[i].0.as_str(), code) {
                return Some(&self.entries[i].1);
            }
            i = i + 1;
        }
        None
    }
}

/// All emoji of the packs, in order.
pub open spec fn all_emojis(packs: Seq<EmojiPack>) -> Seq<CustomEmoji>
    decreases packs.len(),
{
    if packs.len() == 0 {
        Seq::empty()
    } else {
        all_emojis(packs.drop_last()) + packs.last().emojis@
    }
}

/// The first emoji at or after `i` with the lowercased code.
pub open spec fn emoji_from(es: Seq<CustomEmoji>, code: Seq<char>, i: int) -> Option<CustomEmoji>
    decreases es.len() - i,
{
    if i < 0 || i >= es.len() {
        None
    } else if text::ascii_lowered(es[i].shortcode@) == code {
        Some(es[i])
    } else {
        emoji_from(es, code, i + 1)
    }
}

/// Whether the index knows exactly the first emoji of each code.
pub open spec fn indexes(index: ShortcodeIndex, es: Seq<CustomEmoji>) -> bool {
    forall|code: Seq<char>| #[trigger] index.at(code) == emoji_from(es, code, 0)
}

proof fn lemma_entry_push(
    entries: Seq<(String, CustomEmoji)>,
    e: (String, CustomEmoji),
    code: Seq<char>,
    i: int,
)
    requires
        0 <= i <= entries.len(),
    ensures
        entry_from(entries.push(e), code, i) == match entry_from(entries, code, i) {
            Some(x) => Some(x),
            None => if e.0@ == code {
                Some(e.1)
            } else {
                None
            },
        },
    decreases entries.len() - i,
{
    reveal_with_fuel(entry_from, 2);
    if i < entries.len() {
        lemma_entry_push(entries, e, code, i + 1);
    }
}

proof fn lemma_emoji_push(es: Seq<CustomEmoji>, e: CustomEmoji, code: Seq<char>, i: int)
    requires
        0 <= i <= es.len(),
    ensures
        emoji_from(es.push(e), code, i) == match emoji_from(es, code, i) {
            Some(x) => Some(x),
            None => if text::ascii_lowered(e.shortcode@) == code {
                Some(e)
            } else {
                None
            },
        },
    decreases es.len() - i,
{
    reveal_with_fuel(emoji_from, 2);
    if i < es.len() {
        lemma_emoji_push(es, e, code, i + 1);
    }
}

/// Adds an emoji, unless its code is taken.
fn add_emoji(index: &mut ShortcodeIndex, emoji: &CustomEmoji, Ghost(es): Ghost<Seq<CustomEmoji>>)
    requires
        indexes(*old(index), es),
    ensures
        indexes(*final(index), es.push(*emoji)),
{
    let code = text::to_ascii_lowercase(emoji.shortcode.as_str());
    let ghost before = index.entries@;
    let ghost key = code@;
    proof {
        assert(index.at(key) == emoji_from(es, key, 0));
    }
    let known = index.get(code.as_str()).is_some();
    if !known {
        index.entries.push((code, emoji.copy()));
    }
    assert forall|c: Seq<char>| #[trigger] index.at(c) == emoji_from(es.push(*emoji), c, 0) by {
        lemma_emoji_push(es, *emoji, c, 0);
        assert(entry_from(before, c, 0) == old(index).at(c));
        if !known {
            lemma_entry_push(before, index.entries@.last(), c, 0);
            assert(index.entries@ =~= before.push(index.entries@.last()));
        }
    }
}

/// Lowercased shortcode to emoji; the first pack wins where codes collide.
pub fn build_shortcode_index(packs: &Vec<EmojiPack>) -> (r: ShortcodeIndex)
    ensures
        indexes(r, all_emojis(packs@)),
{
    let mut r = ShortcodeIndex::new();
    let mut p: usize = 0;
    assert(packs@.take(0) =~= Seq::<EmojiPack>::empty());
    while p < packs.len()
        invariant
            p <= packs@.len(),
            indexes(r, all_emojis(packs@.take(p as int))),
        decreases packs@.len() - p,
    {
        let emojis = &packs[p].emojis;
        let ghost front = all_emojis(packs@.take(p as int));
        let mut i: usize = 0;
        assert(front + emojis@.take(0) =~= front);
        while i < emojis.len()
            invariant
                i <= emojis@.len(),
                indexes(r, front + emojis@.take(i as int)),
            decreases emojis@.len() - i,
        {
            add_emoji(&mut r, &emojis[i], Ghost(front + emojis@.take(i as int)));
            assert((front + emojis@.take(i as int)).push(emojis@[i as int]) =~= front
                + emojis@.take(i + 1));
            i = i + 1;
        }
        proof {
            let next = packs@.take(p + 1);
            assert(next.drop_last() =~= packs@.take(p as int));
            assert(emojis@.take(i as int) =~= emojis@);
        }
        p = p + 1;
    }
    assert(packs@.take(p as int) =~= packs@);
    r
}

// ---------------------------------------------------------------------------
// Segments.
// ---------------------------------------------------------------------------
/// A piece of a message body.
#[derive(Debug)]
pub enum Segment {
    Text(String),
    /// A shortcode that a pack knows.
    Emoji(CustomEmoji),
    /// An emoji in its fully qualified form.
    UnicodeEmoji(String),
    Link(String),
}

/// A piece of a message body, by its characters.
pub enum Seg {
    Text(Seq<char>),
    Emoji(CustomEmoji),
    UnicodeEmoji(Seq<char>),
    Link(Seq<char>),
}

impl View for Segment {
    type V = Seg;

    open spec fn view(&self) -> Seg {
        match self {
            Segment::Text(s) => Seg::Text(s@),
            Segment::Emoji(e) => Seg::Emoji(*e),
            Segment::UnicodeEmoji(s) => Seg::UnicodeEmoji(s@),
            Segment::Link(s) => Seg::Link(s@),
        }
    }
}

/// The pieces of a list.
pub open spec fn segs(v: Seq<Segment>) -> Seq<Seg> {
    v.map_values(|s: Segment| s@)
}

/// How many characters the longest emoji sequence is looked for with.
pub const MAX_EMOJI_CHARS: usize = 8;

/// The longest emoji of at most `k` characters at index `i`: how long it is,
/// and its fully qualified form.
pub open spec fn prefix_within(s: Seq<char>, i: int, k: int) -> Option<(int, Seq<char>)>
    decreases k,
{
    if k <= 0 {
        None
    } else if i + k <= s.len() && known_emoji(s.subrange(i, i + k)) is Some {
        Some((k, known_emoji(s.subrange(i, i + k))->0))
    } else {
        prefix_within(s, i, k - 1)
    }
}

/// The longest emoji at each index.
pub open spec fn prefixes(s: Seq<char>) -> Seq<Option<(int, Seq<char>)>> {
    Seq::new(s.len(), |i: int| prefix_within(s, i, MAX_EMOJI_CHARS as int))
}

/// Whether each entry, where there is one, is a stretch of the text.
pub open spec fn prefixes_fit(s: Seq<char>, ps: Seq<Option<(int, Seq<char>)>>) -> bool {
    &&& ps.len() == s.len()
    &&& forall|i: int|
        0 <= i < ps.len() ==> ((#[trigger] ps[i]) matches Some((k, _)) ==> 0 < k && i + k
            <= s.len())
}

/// The pieces from index `i` on, where plain text began at `start`.
pub open spec fn emoji_split(
    s: Seq<char>,
    ps: Seq<Option<(int, Seq<char>)>>,
    start: int,
    i: int,
) -> Seq<Seg>
    decreases s.len() - i,
{
    if i < 0 || i >= s.len() {
        if 0 <= start < s.len() {
            seq![Seg::Text(s.skip(start))]
        } else {
            Seq::empty()
        }
    } else {
        match ps[i] {
            Some((k, e)) => if 0 < k <= s.len() - i {
                (if i > start {
                    seq![Seg::Text(s.subrange(start, i))]
                } else {
                    Seq::empty()
                }) + (seq![Seg::UnicodeEmoji(e)] + emoji_split(s, ps, i + k, i + k))
            } else {
                emoji_split(s, ps, start, i + 1)
            },
            None => emoji_split(s, ps, start, i + 1),
        }
    }
}

/// The pieces of a text without shortcodes or links. No emoji is plain ASCII.
pub open spec fn plain_segs(s: Seq<char>) -> Seq<Seg> {
    if text::ascii_only(s) {
        seq![Seg::Text(s)]
    } else {
        emoji_split(s, prefixes(s), 0, 0)
    }
}

/// Whether the character may stand in a shortcode.
pub open spec fn shortcode_char(c: char) -> bool {
    ('a' <= c <= 'z') || ('A' <= c <= 'Z') || ('0' <= c <= '9') || c == '_' || c == '-' || c == '+'
}

/// Whether the text may be a shortcode.
pub open spec fn shortcode_like(s: Seq<char>) -> bool {
    0 < s.len() <= 64 && forall|i: int| 0 <= i < s.len() ==> shortcode_char(#[trigger] s[i])
}

/// The emoji of a code between colons, where there is one.
pub open spec fn coded_emoji(code: Seq<char>, index: ShortcodeIndex) -> Option<CustomEmoji> {
    if shortcode_like(code) {
        index.of(code)
    } else {
        None
    }
}

/// The pieces of what is left from `start` on, without a code.
pub open spec fn rest_segs(s: Seq<char>, start: int) -> Seq<Seg> {
    if 0 <= start < s.len() {
        plain_segs(s.skip(start))
    } else {
        Seq::empty()
    }
}

/// The pieces of a text without links, where plain text began at `start` and
/// the next colon is looked for from `from` on. A colon that closes nothing
/// may open the next code.
pub open spec fn code_split(
    s: Seq<char>,
    index: ShortcodeIndex,
    start: int,
    from: int,
) -> Seq<Seg>
    decreases s.len() - from,
{
    let open = text::find_from(s, text::is_char(':'), from);
    let close = text::find_from(s, text::is_char(':'), open + 1);
    if from < 0 || open < from || open >= s.len() || close <= open || close >= s.len() {
        rest_segs(s, start)
    } else {
        match coded_emoji(s.subrange(open + 1, close), index) {
            Some(e) => (if open > start {
                plain_segs(s.subrange(start, open))
            } else {
                Seq::empty()
            }) + (seq![Seg::Emoji(e)] + code_split(s, index, close + 1, close + 1)),
            None => code_split(s, index, start, close),
        }
    }
}

/// The pieces of a text without links.
pub open spec fn code_segs(s: Seq<char>, index: ShortcodeIndex) -> Seq<Seg> {
    code_split(s, index, 0, 0)
}

/// The pieces of a line from its link with index `k` on, where the text
/// before it begins at `cursor`.
pub open spec fn link_split(
    s: Seq<char>,
    links: Seq<(usize, usize)>,
    index: ShortcodeIndex,
    k: int,
    cursor: int,
) -> Seq<Seg>
    decreases links.len() - k,
{
    if k < 0 || k >= links.len() {
        if 0 <= cursor < s.len() {
            code_segs(s.skip(cursor), index)
        } else {
            Seq::empty()
        }
    } else {
        let a = text::index_at(s, links[k].0 as int);
        let b = text::index_at(s, links[k].1 as int);
        (if a > cursor {
            code_segs(s.subrange(cursor, a), index)
        } else {
            Seq::empty()
        }) + (seq![Seg::Link(s.subrange(a, b))] + link_split(s, links, index, k + 1, b))
    }
}

/// The pieces of a line whose links are known.
pub open spec fn line_segs(
    s: Seq<char>,
    links: Seq<(usize, usize)>,
    index: ShortcodeIndex,
) -> Seq<Seg> {
    link_split(s, links, index, 0, 0)
}

// ---------------------------------------------------------------------------
// Tokenizing.
// ---------------------------------------------------------------------------
/// What was found at an index, by its characters.
pub open spec fn found_at(o: Option<(usize, String)>) -> Option<(int, Seq<char>)> {
    match o {
        Some((k, s)) => Some((k as int, s@)),
        None => None,
    }
}

/// A list of what was found, by its characters.
pub open spec fn founds(v: Seq<Option<(usize, String)>>) -> Seq<Option<(int, Seq<char>)>> {
    v.map_values(|o: Option<(usize, String)>| found_at(o))
}

/// The longest emoji at an index: longest first, so that a sequence's first
/// character alone is never mistaken for the whole thing.
fn emoji_prefix(s: &str, n: usize, i: usize) -> (r: Option<(usize, String)>)
    requires
        n == s@.len(),
        i < n,
    ensures
        found_at(r) == prefix_within(s@, i as int, MAX_EMOJI_CHARS as int),
        r matches Some((k, _)) ==> 0 < k && i + k <= n,
{
    let mut k: usize = MAX_EMOJI_CHARS;
    while k > 0
        invariant
            k <= MAX_EMOJI_CHARS,
            n == s@.len(),
            i < n,
            prefix_within(s@, i as int, MAX_EMOJI_CHARS as int) == prefix_within(
                s@,
                i as int,
                k as int,
            ),
        decreases k,
    {
        if k <= n - i {
            let piece = s.substring_char(i, i + k);
            if let Some(e) = get_emoji(piece) {
                return Some((k, e.to_owned()));
            }
        }
        k = k - 1;
    }
    None
}

/// The longest emoji at each index of a text.
fn emoji_prefixes(s: &str) -> (r: Vec<Option<(usize, String)>>)
    ensures
        founds(r@) == prefixes(s@),
        prefixes_fit(s@, founds(r@)),
{
    let n: usize = s.unicode_len();
    let mut r: Vec<Option<(usize, String)>> = Vec::new();
    let mut i: usize = 0;
    while i < n
        invariant
            n == s@.len(),
            i <= n,
            r@.len() == i,
            forall|k: int|
                0 <= k < i ==> found_at(#[trigger] r@[k]) == prefix_within(
                    s@,
                    k,
                    MAX_EMOJI_CHARS as int,
                ) && (r@[k] matches Some((w, _)) ==> 0 < w && k + w <= n),
        decreases n - i,
    {
        r.push(emoji_prefix(s, n, i));
        i = i + 1;
    }
    assert(founds(r@) =~= prefixes(s@));
    assert forall|k: int| 0 <= k < founds(r@).len() implies ((#[trigger] founds(r@)[k]) matches Some(
        (w, _),
    ) ==> 0 < w && k + w <= s@.len()) by {
        assert(founds(r@)[k] == found_at(r@[k]));
    }
    r
}

/// Adds a piece.
fn push_seg(out: &mut Vec<Segment>, s: Segment)
    ensures
        segs(final(out)@) == segs(old(out)@).push(s@),
{
    let ghost before = segs(out@);
    let ghost x = s@;
    out.push(s);
    assert(segs(out@) =~= before.push(x));
}

/// Splits a text on the emoji found at its indices, adding the pieces.
pub fn split_emoji(s: &str, found: &Vec<Option<(usize, String)>>, out: &mut Vec<Segment>)
    requires
        prefixes_fit(s@, founds(found@)),
    ensures
        segs(final(out)@) == segs(old(out)@) + emoji_split(s@, founds(found@), 0, 0),
{
    let n: usize = s.unicode_len();
    let ghost ps = founds(found@);
    let ghost all = segs(out@) + emoji_split(s@, ps, 0, 0);
    let mut start: usize = 0;
    let mut i: usize = 0;
    while i < n
        invariant
            n == s@.len(),
            ps == founds(found@),
            prefixes_fit(s@, ps),
            start <= i <= n,
            all == segs(out@) + emoji_split(s@, ps, start as int, i as int),
        decreases n - i,
    {
        assert(ps[i as int] == found_at(found@[i as int]));
        match &found[i] {
            Some((k, e)) => {
                let ghost before = segs(out@);
                let ghost tail = emoji_split(s@, ps, i + *k, i + *k);
                let ghost front = if i > start {
                    seq![Seg::Text(s@.subrange(start as int, i as int))]
                } else {
                    Seq::empty()
                };
                let ghost one = seq![Seg::UnicodeEmoji(e@)];
                if i > start {
                    let piece = s.substring_char(start, i);
                    push_seg(out, Segment::Text(piece.to_owned()));
                }
                push_seg(out, Segment::UnicodeEmoji(e.clone()));
                assert(segs(out@) =~= before + front + one);
                assert(before + (front + (one + tail)) =~= before + front + one + tail);
                i = i + *k;
                start = i;
            },
            None => {
                i = i + 1;
            },
        }
    }
    if start < n {
        let ghost before = segs(out@);
        let piece = s.substring_char(start, n);
        assert(piece@ =~= s@.skip(start as int));
        push_seg(out, Segment::Text(piece.to_owned()));
        assert(before + seq![Seg::Text(s@.skip(start as int))] =~= segs(out@));
    } else {
        assert(segs(out@) =~= all);
    }
}

/// Splits a text on real unicode emoji, adding the pieces. Plain ASCII is one
/// piece.
pub fn tokenize_unicode_emoji_into(s: &str, out: &mut Vec<Segment>)
    ensures
        segs(final(out)@) == segs(old(out)@) + plain_segs(s@),
{
    if text::is_ascii_only(s) {
        let ghost before = segs(out@);
        push_seg(out, Segment::Text(s.to_owned()));
        assert(segs(out@) =~= before + seq![Seg::Text(s@)]);
        return;
    }
    let found = emoji_prefixes(s);
    split_emoji(s, &found, out);
}

/// Whether the character may stand in a shortcode.
fn is_shortcode_char(c: char) -> (r: bool)
    ensures
        r == shortcode_char(c),
{
    ('a' <= c && c <= 'z') || ('A' <= c && c <= 'Z') || ('0' <= c && c <= '9') || c == '_' || c
        == '-' || c == '+'
}

/// Whether the text may be a shortcode.
fn looks_like_shortcode(code: &str) -> (r: bool)
    ensures
        r == shortcode_like(code@),
{
    let v = text::chars(code);
    if v.len() == 0 || v.len() > 64 {
        return false;
    }
    let mut i: usize = 0;
    while i < v.len()
        invariant
            v@ == code@,
            i <= v@.len(),
            forall|k: int| 0 <= k < i ==> shortcode_char(#[trigger] code@[k]),
        decreases v@.len() - i,
    {
        if !is_shortcode_char(v[i]) {
            assert(!shortcode_char(code@[i as int]));
            return false;
        }
        i = i + 1;
    }
    true
}

/// The emoji of a code between colons.
fn lookup_code(code: &str, index: &ShortcodeIndex) -> (r: Option<CustomEmoji>)
    ensures
        r == coded_emoji(code@, *index),
{
    if !looks_like_shortcode(code) {
        return None;
    }
    match index.get(text::to_ascii_lowercase(code).as_str()) {
        Some(e) => Some(e.copy()),
        None => None,
    }
}

/// Splits a text on `:shortcode:` tokens that a pack knows, whatever their
/// case, adding the pieces.
pub fn tokenize_custom_emoji_into(s: &str, index: &ShortcodeIndex, out: &mut Vec<Segment>)
    ensures
        segs(final(out)@) == segs(old(out)@) + code_segs(s@, *index),
{
    let v = text::chars(s);
    let n: usize = v.len();
    let ghost all = segs(out@) + code_segs(s@, *index);
    let mut start: usize = 0;
    let mut from: usize = 0;
    while from < n
        invariant_except_break
            v@ == s@,
            n == v@.len(),
            start <= from <= n,
            all == segs(out@) + code_split(s@, *index, start as int, from as int),
        ensures
            v@ == s@,
            n == v@.len(),
            start <= n,
            all == segs(out@) + rest_segs(s@, start as int),
        decreases n - from,
    {
        let open: usize = text::find_char(&v, ':', from);
        if open >= n {
            break;
        }
        let close: usize = text::find_char(&v, ':', open + 1);
        if close >= n {
            break;
        }
        let code = s.substring_char(open + 1, close);
        match lookup_code(code, index) {
            Some(e) => {
                let ghost before = segs(out@);
                let ghost tail = code_split(s@, *index, close + 1, close + 1);
                let ghost front = if open > start {
                    plain_segs(s@.subrange(start as int, open as int))
                } else {
                    Seq::empty()
                };
                let ghost one = seq![Seg::Emoji(e)];
                if open > start {
                    tokenize_unicode_emoji_into(s.substring_char(start, open), out);
                }
                push_seg(out, Segment::Emoji(e));
                assert(segs(out@) =~= before + front + one);
                assert(before + (front + (one + tail)) =~= before + front + one + tail);
                start = close + 1;
                from = close + 1;
            },
            None => {
                from = close;
            },
        }
        if from >= n {
            assert(code_split(s@, *index, start as int, from as int) == rest_segs(
                s@,
                start as int,
            ));
        }
    }
    if start < n {
        let rest = s.substring_char(start, n);
        assert(rest@ =~= s@.skip(start as int));
        tokenize_unicode_emoji_into(rest, out);
    } else {
        assert(segs(out@) =~= all);
    }
}

/// Splits a line whose links are known into its pieces. Links are carved out
/// first, so that a colon in a URL never opens a shortcode.
pub fn tokenize_with_links(
    line: &str,
    links: &Vec<(usize, usize)>,
    index: &ShortcodeIndex,
) -> (r: Vec<Segment>)
    requires
        ranges_fit(line@, links@),
    ensures
        segs(r@) == line_segs(line@, links@, *index),
{
    let v = text::chars(line);
    let n: usize = v.len();
    let mut out: Vec<Segment> = Vec::new();
    let ghost all = line_segs(line@, links@, *index);
    let mut cursor: usize = 0;
    let mut k: usize = 0;
    assert(segs(out@) =~= Seq::<Seg>::empty());
    assert(all =~= segs(out@) + all);
    while k < links.len()
        invariant
            v@ == line@,
            n == v@.len(),
            ranges_fit(line@, links@),
            k <= links@.len(),
            cursor <= n,
            k > 0 ==> text::is_index(line@, links@[k - 1].1 as int, cursor as int),
            k == 0 ==> cursor == 0,
            all == segs(out@) + link_split(line@, links@, *index, k as int, cursor as int),
        decreases links@.len() - k,
    {
        let (from, to) = links[k];
        let ghost s = line@;
        proof {
            assert(links@[k as int] == (from, to));
            assert(text::boundary(s, from as int));
            assert(text::boundary(s, to as int));
        }
        match (text::char_index(line, &v, from), text::char_index(line, &v, to)) {
            (Some(a), Some(b)) => {
                proof {
                    if b <= a {
                        text::lemma_byte_at_monotone(s, b as int, a as int);
                    }
                    if k > 0 && a < cursor {
                        assert(links@[k - 1].1 <= links@[k as int].0);
                        text::lemma_byte_at_monotone(s, a as int, cursor as int);
                    }
                }
                let ghost before = segs(out@);
                let ghost tail = link_split(s, links@, *index, k + 1, b as int);
                let ghost front = if a > cursor {
                    code_segs(s.subrange(cursor as int, a as int), *index)
                } else {
                    Seq::empty()
                };
                let ghost one = seq![Seg::Link(s.subrange(a as int, b as int))];
                if a > cursor {
                    tokenize_custom_emoji_into(line.substring_char(cursor, a), index, &mut out);
                }
                push_seg(&mut out, Segment::Link(line.substring_char(a, b).to_owned()));
                assert(segs(out@) =~= before + front + one);
                assert(before + (front + (one + tail)) =~= before + front + one + tail);
                cursor = b;
            },
            _ => {},
        }
        k = k + 1;
    }
    if cursor < n {
        let rest = line.substring_char(cursor, n);
        assert(rest@ =~= line@.skip(cursor as int));
        tokenize_custom_emoji_into(rest, index, &mut out);
    } else {
        assert(segs(out@) =~= all);
    }
    out
}

/// Splits a line into text, custom emoji, unicode emoji and links.
pub fn tokenize_line(line: &str, index: &ShortcodeIndex) -> (r: Vec<Segment>)
    ensures
        segs(r@) == line_segs(line@, found_links(line@), *index),
{
    let links = find_links(line);
    tokenize_with_links(line, &links, index)
}

/// The first URL of a text whose links are known.
pub open spec fn first_of(s: Seq<char>, links: Seq<(usize, usize)>) -> Option<Seq<char>> {
    if links.len() > 0 {
        Some(range_text(s, links[0]))
    } else {
        None
    }
}

/// The first URL of a text: none without a `://`.
pub open spec fn first_url(s: Seq<char>) -> Option<Seq<char>> {
    if text::occurs(s, "://"@) {
        first_of(s, found_links(s))
    } else {
        None
    }
}

/// The first URL of a text whose links are known.
pub fn first_link(s: &str, links: &Vec<(usize, usize)>) -> (r: Option<String>)
    requires
        ranges_fit(s@, links@),
    ensures
        text::opt_view(r) == first_of(s@, links@),
{
    if links.len() == 0 {
        return None;
    }
    let (from, to) = links[0];
    let v = text::chars(s);
    proof {
        assert(links@[0] == (from, to));
        assert(text::boundary(s@, from as int));
        assert(text::boundary(s@, to as int));
    }
    match (text::char_index(s, &v, from), text::char_index(s, &v, to)) {
        (Some(a), Some(b)) => {
            proof {
                if b <= a {
                    text::lemma_byte_at_monotone(s@, b as int, a as int);
                }
            }
            Some(s.substring_char(a, b).to_owned())
        },
        _ => None,
    }
}

/// The first URL of a text: the one a preview card is asked for.
pub fn first_url_in(s: &str) -> (r: Option<String>)
    ensures
        text::opt_view(r) == first_url(s@),
{
    // A URL has a "://": most bodies need no scan.
    if !text::contains_str(s, "://") {
        return None;
    }
    let links = find_links(s);
    first_link(s, &links)
}

/// The emoji found from index `i` on, one behind the other.
pub open spec fn emoji_run(ps: Seq<Option<(int, Seq<char>)>>, i: int) -> Seq<Seq<char>>
    decreases ps.len() - i,
{
    if i < 0 || i >= ps.len() {
        Seq::empty()
    } else {
        match ps[i] {
            Some((k, e)) => if 0 < k <= ps.len() - i {
                seq![e] + emoji_run(ps, i + k)
            } else {
                emoji_run(ps, i + 1)
            },
            None => emoji_run(ps, i + 1),
        }
    }
}

/// The emoji of a text.
pub open spec fn emojis_of(s: Seq<char>) -> Seq<Seq<char>> {
    if text::ascii_only(s) {
        Seq::empty()
    } else {
        emoji_run(prefixes(s), 0)
    }
}

/// The emoji found at the indices of a text, one behind the other.
pub fn collect_emoji(found: &Vec<Option<(usize, String)>>) -> (r: Vec<String>)
    requires
        forall|i: int|
            0 <= i < found@.len() ==> ((#[trigger] found@[i]) matches Some((k, _)) ==> 0 < k && i
                + k <= found@.len()),
    ensures
        text::views(r@) == emoji_run(founds(found@), 0),
{
    let mut r: Vec<String> = Vec::new();
    let ghost ps = founds(found@);
    let ghost all = emoji_run(ps, 0);
    let mut i: usize = 0;
    assert(text::views(r@) =~= Seq::<Seq<char>>::empty());
    assert(all =~= text::views(r@) + all);
    while i < found.len()
        invariant
            i <= found@.len(),
            ps == founds(found@),
            forall|j: int|
                0 <= j < found@.len() ==> ((#[trigger] found@[j]) matches Some((k, _)) ==> 0 < k
                    && j + k <= found@.len()),
            all == text::views(r@) + emoji_run(ps, i as int),
        decreases found@.len() - i,
    {
        assert(ps[i as int] == found_at(found@[i as int]));
        match &found[i] {
            Some((k, e)) => {
                let ghost before = text::views(r@);
                let ghost tail = emoji_run(ps, i + *k);
                r.push(e.clone());
                assert(text::views(r@) =~= before.push(e@));
                assert(before + (seq![e@] + tail) =~= before.push(e@) + tail);
                i = i + *k;
            },
            None => {
                i = i + 1;
            },
        }
    }
    assert(all =~= text::views(r@));
    r
}

/// Every unicode emoji of a text, in its fully qualified form.
pub fn unicode_emojis_in(s: &str) -> (r: Vec<String>)
    ensures
        text::views(r@) == emojis_of(s@),
{
    if text::is_ascii_only(s) {
        let r: Vec<String> = Vec::new();
        assert(text::views(r@) =~= Seq::<Seq<char>>::empty());
        return r;
    }
    let found = emoji_prefixes(s);
    assert forall|i: int| 0 <= i < found@.len() implies ((#[trigger] found@[i]) matches Some((k, _))
        ==> 0 < k && i + k <= found@.len()) by {
        assert(founds(found@)[i] == found_at(found@[i]));
    }
    collect_emoji(&found)
}

// ---------------------------------------------------------------------------
// Laying a body out.
// ---------------------------------------------------------------------------
/// How many emoji stand in a row of an emoji-only message.
pub const EMOJI_PER_ROW: usize = 12;

/// A line of a message body.
#[derive(Debug)]
pub enum BodyLine {
    /// Plain text, which wraps.
    Text(String),
    /// Text, emoji and links, side by side.
    Pieces(Vec<Segment>),
}

/// How a message body is laid out.
#[derive(Debug)]
pub enum Body {
    /// Nothing but text.
    Plain(String),
    /// Nothing but emoji: shown large, in rows.
    EmojiRows(Vec<Vec<Segment>>),
    Lines(Vec<BodyLine>),
}

/// Whether the piece is an emoji.
pub open spec fn is_emoji(g: Seg) -> bool {
    g is Emoji || g is UnicodeEmoji
}

/// Whether the piece fits an emoji-only message.
pub open spec fn emoji_like(g: Seg) -> bool {
    match g {
        Seg::Text(t) => text::trimmed(t).len() == 0,
        Seg::Link(_) => false,
        _ => true,
    }
}

/// Whether every piece is plain text.
pub open spec fn all_text(gs: Seq<Seg>) -> bool {
    forall|i: int| 0 <= i < gs.len() ==> (#[trigger] gs[i]) is Text
}

/// Whether every piece fits an emoji-only message.
pub open spec fn all_emoji_like(gs: Seq<Seg>) -> bool {
    forall|i: int| 0 <= i < gs.len() ==> emoji_like(#[trigger] gs[i])
}

/// The pieces of all lines, one line behind the other.
pub open spec fn flat_segs(lines: Seq<Seq<Seg>>) -> Seq<Seg>
    decreases lines.len(),
{
    if lines.len() == 0 {
        Seq::empty()
    } else {
        flat_segs(lines.drop_last()) + lines.last()
    }
}

/// The emoji among the pieces.
pub open spec fn glyphs(gs: Seq<Seg>) -> Seq<Seg>
    decreases gs.len(),
{
    if gs.len() == 0 {
        Seq::empty()
    } else if is_emoji(gs.last()) {
        glyphs(gs.drop_last()).push(gs.last())
    } else {
        glyphs(gs.drop_last())
    }
}

/// The row with index `i` of emoji, a fixed number to a row.
pub open spec fn row_of(gs: Seq<Seg>, i: int) -> Seq<Seg> {
    let a = i * EMOJI_PER_ROW;
    let b = if a + EMOJI_PER_ROW <= gs.len() {
        a + EMOJI_PER_ROW
    } else {
        gs.len() as int
    };
    gs.subrange(a, b)
}

/// How many rows some emoji take.
pub open spec fn row_count(n: int) -> int {
    (n + EMOJI_PER_ROW - 1) / EMOJI_PER_ROW as int
}

/// The text of plain pieces, one behind the other.
pub open spec fn text_of(gs: Seq<Seg>) -> Seq<char>
    decreases gs.len(),
{
    if gs.len() == 0 {
        Seq::empty()
    } else {
        text_of(gs.drop_last()) + match gs.last() {
            Seg::Text(t) => t,
            _ => Seq::empty(),
        }
    }
}

/// Whether this is how a line is shown.
pub open spec fn is_line(l: BodyLine, gs: Seq<Seg>) -> bool {
    if all_text(gs) {
        l matches BodyLine::Text(t) && t@ == text_of(gs)
    } else {
        l matches BodyLine::Pieces(v) && segs(v@) == gs
    }
}

/// Whether this is how a body with these lines of pieces is laid out.
pub open spec fn laid_out(b: Body, body: Seq<char>, lines: Seq<Seq<Seg>>) -> bool {
    let all = flat_segs(lines);
    if all_text(all) {
        b matches Body::Plain(t) && t@ == body
    } else if all_emoji_like(all) {
        b matches Body::EmojiRows(rows) && rows@.len() == row_count(glyphs(all).len() as int) && forall|
            i: int,
        |
            0 <= i < rows@.len() ==> segs((#[trigger] rows@[i])@) == row_of(glyphs(all), i)
    } else {
        b matches Body::Lines(ls) && ls@.len() == lines.len() && forall|i: int|
            0 <= i < ls@.len() ==> is_line(#[trigger] ls@[i], lines[i])
    }
}

/// The pieces of each line of a body.
pub open spec fn body_segs(body: Seq<char>, index: ShortcodeIndex) -> Seq<Seq<Seg>> {
    text::lines_from(body, 0).map_values(
        |l: Seq<char>| line_segs(l, found_links(l), index),
    )
}

/// Whether a body can hold nothing but text: links and shortcodes have a
/// colon, and emoji are not ASCII.
pub open spec fn surely_plain(body: Seq<char>) -> bool {
    text::ascii_only(body) && !body.contains(':')
}

/// Whether this is how a body is laid out.
pub open spec fn is_body(b: Body, body: Seq<char>, index: ShortcodeIndex) -> bool {
    if surely_plain(body) {
        b matches Body::Plain(t) && t@ == body
    } else {
        laid_out(b, body, body_segs(body, index))
    }
}

/// The pieces of each of some lines.
pub open spec fn seg_lines(lines: Seq<Vec<Segment>>) -> Seq<Seq<Seg>> {
    lines.map_values(|l: Vec<Segment>| segs(l@))
}

impl Segment {
    /// The same piece.
    fn copy(&self) -> (r: Self)
        ensures
            r@ == self@,
    {
        match self {
            Segment::Text(s) => Segment::Text(s.clone()),
            Segment::Emoji(e) => Segment::Emoji(e.copy()),
            Segment::UnicodeEmoji(s) => Segment::UnicodeEmoji(s.clone()),
            Segment::Link(s) => Segment::Link(s.clone()),
        }
    }

    /// Whether the piece is plain text.
    fn is_text(&self) -> (r: bool)
        ensures
            r == (self@ is Text),
    {
        match self {
            Segment::Text(_) => true,
            _ => false,
        }
    }

    /// Whether the piece is an emoji.
    fn is_glyph(&self) -> (r: bool)
        ensures
            r == is_emoji(self@),
    {
        match self {
            Segment::Emoji(_) => true,
            Segment::UnicodeEmoji(_) => true,
            _ => false,
        }
    }

    /// Whether the piece fits an emoji-only message.
    fn fits_emoji(&self) -> (r: bool)
        ensures
            r == emoji_like(self@),
    {
        match self {
            Segment::Text(t) => text::trim(t.as_str()).unicode_len() == 0,
            Segment::Link(_) => false,
            _ => true,
        }
    }
}

/// Whether every piece of a line is plain text.
fn line_is_text(line: &Vec<Segment>) -> (r: bool)
    ensures
        r == all_text(segs(line@)),
{
    let mut i: usize = 0;
    while i < line.len()
        invariant
            i <= line@.len(),
            forall|k: int| 0 <= k < i ==> (#[trigger] segs(line@)[k]) is Text,
        decreases line@.len() - i,
    {
        assert(segs(line@)[i as int] == line@[i as int]@);
        if !line[i].is_text() {
            return false;
        }
        i = i + 1;
    }
    true
}

/// All pieces, one line behind the other.
fn flatten(lines: &Vec<Vec<Segment>>) -> (r: Vec<Segment>)
    ensures
        segs(r@) == flat_segs(seg_lines(lines@)),
{
    let mut r: Vec<Segment> = Vec::new();
    let ghost all = seg_lines(lines@);
    let mut i: usize = 0;
    assert(segs(r@) =~= Seq::<Seg>::empty());
    assert(all.take(0) =~= Seq::<Seq<Seg>>::empty());
    while i < lines.len()
        invariant
            i <= lines@.len(),
            all == seg_lines(lines@),
            segs(r@) == flat_segs(all.take(i as int)),
        decreases lines@.len() - i,
    {
        let line = &lines[i];
        let ghost front = segs(r@);
        let mut j: usize = 0;
        assert(front + segs(line@).take(0) =~= front);
        while j < line.len()
            invariant
                j <= line@.len(),
                segs(r@) == front + segs(line@).take(j as int),
            decreases line@.len() - j,
        {
            push_seg(&mut r, line[j].copy());
            assert((front + segs(line@).take(j as int)).push(line@[j as int]@) =~= front + segs(
                line@,
            ).take(j + 1));
            j = j + 1;
        }
        proof {
            let next = all.take(i + 1);
            assert(next.drop_last() =~= all.take(i as int));
            assert(next.last() == segs(line@));
            assert(segs(line@).take(j as int) =~= segs(line@));
        }
        i = i + 1;
    }
    assert(all.take(i as int) =~= all);
    r
}

/// Whether every piece fits an emoji-only message.
fn all_fit_emoji(v: &Vec<Segment>) -> (r: bool)
    ensures
        r == all_emoji_like(segs(v@)),
{
    let mut i: usize = 0;
    while i < v.len()
        invariant
            i <= v@.len(),
            forall|k: int| 0 <= k < i ==> emoji_like(#[trigger] segs(v@)[k]),
        decreases v@.len() - i,
    {
        assert(segs(v@)[i as int] == v@[i as int]@);
        if !v[i].fits_emoji() {
            return false;
        }
        i = i + 1;
    }
    true
}

/// The emoji among the pieces.
fn pick_glyphs(v: &Vec<Segment>) -> (r: Vec<Segment>)
    ensures
        segs(r@) == glyphs(segs(v@)),
{
    let mut r: Vec<Segment> = Vec::new();
    let ghost all = segs(v@);
    let mut i: usize = 0;
    assert(segs(r@) =~= Seq::<Seg>::empty());
    assert(all.take(0) =~= Seq::<Seg>::empty());
    while i < v.len()
        invariant
            i <= v@.len(),
            all == segs(v@),
            segs(r@) == glyphs(all.take(i as int)),
        decreases v@.len() - i,
    {
        proof {
            let next = all.take(i + 1);
            assert(next.drop_last() =~= all.take(i as int));
            assert(next.last() == v@[i as int]@);
        }
        if v[i].is_glyph() {
            push_seg(&mut r, v[i].copy());
        }
        i = i + 1;
    }
    assert(all.take(i as int) =~= all);
    r
}

/// Emoji in rows.
fn rows_of(v: &Vec<Segment>) -> (r: Vec<Vec<Segment>>)
    ensures
        r@.len() == row_count(v@.len() as int),
        forall|i: int|
            0 <= i < r@.len() ==> segs((#[trigger] r@[i])@) == row_of(segs(v@), i),
{
    let n: usize = v.len();
    let mut rows: Vec<Vec<Segment>> = Vec::new();
    let ghost all = segs(v@);
    let mut a: usize = 0;
    while a < n
        invariant
            n == v@.len(),
            all == segs(v@),
            a <= n,
            a == rows@.len() * EMOJI_PER_ROW || (a == n && rows@.len() == row_count(n as int)),
            a < n ==> a == rows@.len() * EMOJI_PER_ROW,
            forall|i: int|
                0 <= i < rows@.len() ==> segs((#[trigger] rows@[i])@) == row_of(all, i),
        decreases n - a,
    {
        let b: usize = if n - a > EMOJI_PER_ROW {
            a + EMOJI_PER_ROW
        } else {
            n
        };
        let mut row: Vec<Segment> = Vec::new();
        let mut j: usize = a;
        assert(segs(row@) =~= all.subrange(a as int, a as int));
        while j < b
            invariant
                n == v@.len(),
                all == segs(v@),
                a <= j <= b <= n,
                segs(row@) == all.subrange(a as int, j as int),
            decreases b - j,
        {
            push_seg(&mut row, v[j].copy());
            assert(all.subrange(a as int, j as int).push(v@[j as int]@) =~= all.subrange(
                a as int,
                j + 1,
            ));
            j = j + 1;
        }
        let ghost k = rows@.len() as int;
        proof {
            assert(row_of(all, k) == all.subrange(a as int, b as int));
        }
        rows.push(row);
        a = b;
    }
    rows
}

/// The text of plain pieces, one behind the other.
fn join_text(line: &Vec<Segment>) -> (r: String)
    ensures
        r@ == text_of(segs(line@)),
{
    let mut r = String::new();
    let ghost all = segs(line@);
    let mut i: usize = 0;
    assert(all.take(0) =~= Seq::<Seg>::empty());
    while i < line.len()
        invariant
            i <= line@.len(),
            all == segs(line@),
            r@ == text_of(all.take(i as int)),
        decreases line@.len() - i,
    {
        proof {
            let next = all.take(i + 1);
            assert(next.drop_last() =~= all.take(i as int));
            assert(next.last() == line@[i as int]@);
        }
        let ghost before = r@;
        match &line[i] {
            Segment::Text(t) => {
                r.append(t.as_str());
            },
            _ => {
                assert(before + Seq::<char>::empty() =~= before);
            },
        }
        i = i + 1;
    }
    assert(all.take(i as int) =~= all);
    r
}

/// The same pieces.
fn copy_pieces(line: &Vec<Segment>) -> (r: Vec<Segment>)
    ensures
        segs(r@) == segs(line@),
{
    let mut r: Vec<Segment> = Vec::new();
    let ghost all = segs(line@);
    let mut i: usize = 0;
    assert(segs(r@) =~= all.take(0));
    while i < line.len()
        invariant
            i <= line@.len(),
            all == segs(line@),
            segs(r@) == all.take(i as int),
        decreases line@.len() - i,
    {
        push_seg(&mut r, line[i].copy());
        assert(all.take(i as int).push(line@[i as int]@) =~= all.take(i + 1));
        i = i + 1;
    }
    assert(all.take(i as int) =~= all);
    r
}

/// Lays a body out whose lines are split into pieces. Emoji-only messages
/// show large; a line with emoji or links shows its pieces side by side, a
/// plain one wraps.
pub fn lay_out(body: &str, lines: &Vec<Vec<Segment>>) -> (r: Body)
    ensures
        laid_out(r, body@, seg_lines(lines@)),
{
    let all = flatten(lines);
    if line_is_text(&all) {
        return Body::Plain(body.to_owned());
    }
    if all_fit_emoji(&all) {
        let shown = pick_glyphs(&all);
        assert(segs(shown@).len() == shown@.len());
        return Body::EmojiRows(rows_of(&shown));
    }
    let ghost gs = seg_lines(lines@);
    let mut r: Vec<BodyLine> = Vec::new();
    let mut i: usize = 0;
    while i < lines.len()
        invariant
            i <= lines@.len(),
            gs == seg_lines(lines@),
            r@.len() == i,
            forall|k: int| 0 <= k < i ==> is_line(#[trigger] r@[k], gs[k]),
        decreases lines@.len() - i,
    {
        assert(gs[i as int] == segs(lines@[i as int]@));
        if line_is_text(&lines[i]) {
            r.push(BodyLine::Text(join_text(&lines[i])));
        } else {
            r.push(BodyLine::Pieces(copy_pieces(&lines[i])));
        }
        i = i + 1;
    }
    Body::Lines(r)
}

/// Lays a message body out.
pub fn render_text_body(body: &str, index: &ShortcodeIndex) -> (r: Body)
    ensures
        is_body(r, body@, *index),
{
    let v = text::chars(body);
    if text::is_ascii_only(body) && !text::contains_char(&v, ':') {
        return Body::Plain(body.to_owned());
    }
    let lines = text::split_lines(body);
    let mut split: Vec<Vec<Segment>> = Vec::new();
    let mut i: usize = 0;
    while i < lines.len()
        invariant
            i <= lines@.len(),
            split@.len() == i,
            forall|k: int|
                0 <= k < i ==> segs((#[trigger] split@[k])@) == line_segs(
                    lines@[k]@,
                    found_links(lines@[k]@),
                    *index,
                ),
        decreases lines@.len() - i,
    {
        split.push(tokenize_line(lines[i].as_str(), index));
        i = i + 1;
    }
    assert(seg_lines(split@) =~= body_segs(body@, *index)) by {
        assert forall|k: int| 0 <= k < split@.len() implies seg_lines(split@)[k] == body_segs(
            body@,
            *index,
        )[k] by {
            assert(text::views(lines@)[k] == lines@[k]@);
            assert(segs(split@[k]@) == line_segs(lines@[k]@, found_links(lines@[k]@), *index));
        }
    }
    lay_out(body, &split)
}

// ---------------------------------------------------------------------------
// Reactions.
// ---------------------------------------------------------------------------
/// What a reaction pill shows.
#[derive(Debug)]
pub enum ReactionVisual {
    /// The image behind a URL.
    Image(String),
    /// The key itself, as an emoji or as text.
    Glyph(String),
}

/// A key without the colons around it.
pub open spec fn bare_code(s: Seq<char>) -> Seq<char> {
    let a = text::find_from(s, text::not_char(':'), 0);
    let b = text::end_before(s, text::not_char(':'), s.len() as int);
    if a < b {
        s.subrange(a, b)
    } else {
        Seq::empty()
    }
}

/// Whether the key of a reaction is a media URL.
pub open spec fn is_mxc(key: Seq<char>) -> bool {
    text::starts(key, "mxc://"@)
}

/// Whether this is what a reaction pill shows: the image of a media URL, the
/// image of a known shortcode, or the key itself.
pub open spec fn shows_reaction(v: ReactionVisual, key: Seq<char>, index: ShortcodeIndex) -> bool {
    if is_mxc(key) {
        v matches ReactionVisual::Image(url) && url@ == key
    } else {
        match index.of(bare_code(key)) {
            Some(e) => v matches ReactionVisual::Image(url) && url@ == e.mxc_url@,
            None => v matches ReactionVisual::Glyph(g) && g@ == key,
        }
    }
}

/// A key without the colons around it.
pub fn trim_colons(key: &str) -> (r: &str)
    ensures
        r@ == bare_code(key@),
{
    let v = text::chars(key);
    let n: usize = v.len();
    let a: usize = text::find_not_char(&v, ':', 0);
    let mut b: usize = n;
    while b > 0 && v[b - 1] == ':'
        invariant
            v@ == key@,
            n == v@.len(),
            b <= n,
            text::end_before(key@, text::not_char(':'), n as int) == text::end_before(
                key@,
                text::not_char(':'),
                b as int,
            ),
        decreases b,
    {
        b = b - 1;
    }
    if a < b {
        key.substring_char(a, b)
    } else {
        let r = key.substring_char(0, 0);
        assert(r@ =~= Seq::<char>::empty());
        r
    }
}

/// Whether the key of a reaction is a media URL.
pub fn is_media_key(key: &str) -> (r: bool)
    ensures
        r == is_mxc(key@),
{
    text::starts_with(key, "mxc://")
}

/// What a reaction pill shows. Reaction keys are opaque strings: some clients
/// use the media URL of a custom emoji, some its shortcode.
pub fn resolve_reaction_visual(key: &str, index: &ShortcodeIndex) -> (r: ReactionVisual)
    ensures
        shows_reaction(r, key@, *index),
{
    if is_media_key(key) {
        return ReactionVisual::Image(key.to_owned());
    }
    let code = text::to_ascii_lowercase(trim_colons(key));
    match index.get(code.as_str()) {
        Some(e) => ReactionVisual::Image(e.mxc_url.clone()),
        None => ReactionVisual::Glyph(key.to_owned()),
    }
}

// ---------------------------------------------------------------------------
// Laws.
// ---------------------------------------------------------------------------
/// A line without emoji or links reads as it was written: its pieces, one
/// behind the other, are the line.
pub proof fn law_plain_lines_join_back(
    s: Seq<char>,
    links: Seq<(usize, usize)>,
    index: ShortcodeIndex,
)
    requires
        all_text(line_segs(s, links, index)),
    ensures
        text_of(line_segs(s, links, index)) == s,
{
    let gs = line_segs(s, links, index);
    if links.len() > 0 {
        let a = text::index_at(s, links[0].0 as int);
        let b = text::index_at(s, links[0].1 as int);
        let front = if a > 0 {
            code_segs(s.subrange(0, a), index)
        } else {
            Seq::empty()
        };
        let tail = seq![Seg::Link(s.subrange(a, b))] + link_split(s, links, index, 1, b);
        assert(gs == front + tail);
        assert(gs[front.len() as int] == tail[0]);
        assert(gs[front.len() as int] is Text);
    } else if s.len() > 0 {
        assert(s.skip(0) =~= s);
        lemma_code_split_plain(s, index, 0);
    } else {
        assert(gs =~= Seq::<Seg>::empty());
        assert(text_of(gs) =~= s);
    }
}

proof fn lemma_one_text(s: Seq<char>)
    ensures
        text_of(seq![Seg::Text(s)]) == s,
{
    reveal_with_fuel(text_of, 2);
    let one = seq![Seg::Text(s)];
    assert(one.drop_last() =~= Seq::<Seg>::empty());
    assert(text_of(one) =~= s);
}

proof fn lemma_code_split_plain(s: Seq<char>, index: ShortcodeIndex, from: int)
    requires
        s.len() > 0,
        0 <= from,
        all_text(code_split(s, index, 0, from)),
    ensures
        text_of(code_split(s, index, 0, from)) == s,
    decreases s.len() - from,
{
    let open = text::find_from(s, text::is_char(':'), from);
    let close = text::find_from(s, text::is_char(':'), open + 1);
    if open < from || open >= s.len() || close <= open || close >= s.len() {
        assert(s.skip(0) =~= s);
        lemma_plain_segs(s);
    } else {
        match coded_emoji(s.subrange(open + 1, close), index) {
            Some(e) => {
                let front = if open > 0 {
                    plain_segs(s.subrange(0, open))
                } else {
                    Seq::empty()
                };
                let tail = seq![Seg::Emoji(e)] + code_split(s, index, close + 1, close + 1);
                let gs = front + tail;
                assert(gs[front.len() as int] == tail[0]);
                assert(gs[front.len() as int] is Text);
            },
            None => {
                lemma_code_split_plain(s, index, close);
            },
        }
    }
}

proof fn lemma_plain_segs(s: Seq<char>)
    requires
        s.len() > 0,
        all_text(plain_segs(s)),
    ensures
        text_of(plain_segs(s)) == s,
{
    lemma_one_text(s);
    if !text::ascii_only(s) {
        lemma_emoji_split_plain(s, prefixes(s), 0);
    }
}

proof fn lemma_emoji_split_plain(s: Seq<char>, ps: Seq<Option<(int, Seq<char>)>>, i: int)
    requires
        s.len() > 0,
        0 <= i,
        all_text(emoji_split(s, ps, 0, i)),
    ensures
        emoji_split(s, ps, 0, i) == seq![Seg::Text(s)],
    decreases s.len() - i,
{
    if i >= s.len() {
        assert(s.skip(0) =~= s);
    } else {
        match ps[i] {
            Some((k, e)) if 0 < k <= s.len() - i => {
                let front = if i > 0 {
                    seq![Seg::Text(s.subrange(0, i))]
                } else {
                    Seq::empty()
                };
                let tail = seq![Seg::UnicodeEmoji(e)] + emoji_split(s, ps, i + k, i + k);
                let gs = front + tail;
                assert(gs[front.len() as int] == tail[0]);
                assert(gs[front.len() as int] is Text);
            },
            _ => {
                lemma_emoji_split_plain(s, ps, i + 1);
            },
        }
    }
}

/// The first pack wins where codes collide: a code of the first pack stands
/// for that pack's emoji, whatever the others hold.
pub proof fn law_the_first_pack_wins(
    packs: Seq<EmojiPack>,
    index: ShortcodeIndex,
    code: Seq<char>,
)
    requires
        packs.len() > 0,
        indexes(index, all_emojis(packs)),
        emoji_from(packs[0].emojis@, code, 0) is Some,
    ensures
        index.at(code) == emoji_from(packs[0].emojis@, code, 0),
{
    assert(index.at(code) == emoji_from(all_emojis(packs), code, 0));
    lemma_first_pack(packs, code);
}

proof fn lemma_first_pack(packs: Seq<EmojiPack>, code: Seq<char>)
    requires
        packs.len() > 0,
        emoji_from(packs[0].emojis@, code, 0) is Some,
    ensures
        emoji_from(all_emojis(packs), code, 0) == emoji_from(packs[0].emojis@, code, 0),
    decreases packs.len(),
{
    let front = packs.drop_last();
    if packs.len() == 1 {
        reveal_with_fuel(all_emojis, 2);
        assert(all_emojis(packs) =~= packs[0].emojis@);
    } else {
        lemma_first_pack(front, code);
        lemma_emoji_append(all_emojis(front), packs.last().emojis@, code, 0);
    }
}

proof fn lemma_emoji_append(
    a: Seq<CustomEmoji>,
    b: Seq<CustomEmoji>,
    code: Seq<char>,
    i: int,
)
    requires
        0 <= i <= a.len(),
        emoji_from(a, code, i) is Some,
    ensures
        emoji_from(a + b, code, i) == emoji_from(a, code, i),
    decreases a.len() - i,
{
    if i < a.len() && text::ascii_lowered(a[i].shortcode@) != code {
        lemma_emoji_append(a, b, code, i + 1);
    }
}

/// The emoji of a text are the emoji among its pieces, in order.
pub proof fn law_emoji_and_pieces_agree(s: Seq<char>)
    ensures
        glyphs(plain_segs(s)) == emojis_of(s).map_values(|e: Seq<char>| Seg::UnicodeEmoji(e)),
{
    let wrap = |e: Seq<char>| Seg::UnicodeEmoji(e);
    if text::ascii_only(s) {
        reveal_with_fuel(glyphs, 2);
        assert(seq![Seg::Text(s)].drop_last() =~= Seq::<Seg>::empty());
        assert(glyphs(plain_segs(s)) =~= emojis_of(s).map_values(wrap));
    } else {
        lemma_split_glyphs(s, prefixes(s), 0, 0);
    }
}

proof fn lemma_glyphs_concat(a: Seq<Seg>, b: Seq<Seg>)
    ensures
        glyphs(a + b) == glyphs(a) + glyphs(b),
    decreases b.len(),
{
    if b.len() == 0 {
        assert(a + b =~= a);
        assert(glyphs(a) + glyphs(b) =~= glyphs(a));
    } else {
        assert((a + b).drop_last() =~= a + b.drop_last());
        assert((a + b).last() == b.last());
        lemma_glyphs_concat(a, b.drop_last());
        assert((glyphs(a) + glyphs(b.drop_last())).push(b.last()) =~= glyphs(a) + glyphs(
            b.drop_last(),
        ).push(b.last()));
    }
}

proof fn lemma_split_glyphs(
    s: Seq<char>,
    ps: Seq<Option<(int, Seq<char>)>>,
    start: int,
    i: int,
)
    requires
        ps.len() == s.len(),
        0 <= start <= i,
    ensures
        glyphs(emoji_split(s, ps, start, i)) == emoji_run(ps, i).map_values(
            |e: Seq<char>| Seg::UnicodeEmoji(e),
        ),
    decreases s.len() - i,
{
    reveal_with_fuel(glyphs, 2);
    let wrap = |e: Seq<char>| Seg::UnicodeEmoji(e);
    if i >= s.len() {
        if start < s.len() {
            assert(seq![Seg::Text(s.skip(start))].drop_last() =~= Seq::<Seg>::empty());
        }
        assert(glyphs(emoji_split(s, ps, start, i)) =~= emoji_run(ps, i).map_values(wrap));
    } else {
        match ps[i] {
            Some((k, e)) if 0 < k <= s.len() - i => {
                let front = if i > start {
                    seq![Seg::Text(s.subrange(start, i))]
                } else {
                    Seq::empty()
                };
                let one = seq![Seg::UnicodeEmoji(e)];
                let tail = emoji_split(s, ps, i + k, i + k);
                lemma_split_glyphs(s, ps, i + k, i + k);
                lemma_glyphs_concat(front, one + tail);
                lemma_glyphs_concat(one, tail);
                if i > start {
                    assert(front.drop_last() =~= Seq::<Seg>::empty());
                }
                assert(one.drop_last() =~= Seq::<Seg>::empty());
                assert(glyphs(front) =~= Seq::<Seg>::empty());
                assert(glyphs(one) =~= one);
                assert(glyphs(emoji_split(s, ps, start, i)) =~= emoji_run(ps, i).map_values(wrap));
            },
            _ => {
                lemma_split_glyphs(s, ps, start, i + 1);
            },
        }
    }
}

/// Whether the piece stands for these characters of the line: text and links
/// for themselves, an emoji for what it is known by, a custom emoji for its
/// code between colons.
pub open spec fn stands_for(g: Seg, t: Seq<char>, index: ShortcodeIndex) -> bool {
    match g {
        Seg::Text(x) => x == t,
        Seg::Link(url) => url == t,
        Seg::UnicodeEmoji(e) => known_emoji(t) == Some(e),
        Seg::Emoji(e) => {
            &&& t.len() > 2
            &&& t[0] == ':'
            &&& t[t.len() - 1] == ':'
            &&& index.of(t.subrange(1, t.len() - 1)) == Some(e)
        },
    }
}

/// Whether the piece stands for what the line has from `a` to `b`.
pub open spec fn piece_of(s: Seq<char>, g: Seg, a: int, b: int, index: ShortcodeIndex) -> bool {
    0 <= a < b <= s.len() && stands_for(g, s.subrange(a, b), index)
}

/// Whether the line, cut at these places, falls into the stretches that the
/// pieces stand for, one behind the other and none of them empty.
pub open spec fn divides(
    cuts: Seq<int>,
    s: Seq<char>,
    gs: Seq<Seg>,
    index: ShortcodeIndex,
) -> bool {
    &&& cuts.len() == gs.len() + 1
    &&& cuts[0] == 0
    &&& cuts[gs.len() as int] == s.len()
    &&& forall|i: int|
        0 <= i < gs.len() ==> piece_of(s, #[trigger] gs[i], cuts[i], cuts[i + 1], index)
}

proof fn lemma_divides_nothing(index: ShortcodeIndex)
    ensures
        divides(seq![0int], Seq::<char>::empty(), Seq::<Seg>::empty(), index),
{
}

proof fn lemma_divides_one(s: Seq<char>, g: Seg, index: ShortcodeIndex)
    requires
        s.len() > 0,
        stands_for(g, s, index),
    ensures
        divides(seq![0int, s.len() as int], s, seq![g], index),
{
    assert(s.subrange(0, s.len() as int) =~= s);
}

/// Two lines one behind the other fall into the pieces of both.
proof fn lemma_divides_both(
    cx: Seq<int>,
    x: Seq<char>,
    gx: Seq<Seg>,
    cy: Seq<int>,
    y: Seq<char>,
    gy: Seq<Seg>,
    index: ShortcodeIndex,
) -> (cuts: Seq<int>)
    requires
        divides(cx, x, gx, index),
        divides(cy, y, gy, index),
    ensures
        divides(cuts, x + y, gx + gy, index),
{
    let n = gx.len() as int;
    let m = x.len() as int;
    let cuts = Seq::new(
        (gx.len() + gy.len() + 1) as nat,
        |i: int|
            if i < n {
                cx[i]
            } else {
                m + cy[i - n]
            },
    );
    let s = x + y;
    let gs = gx + gy;
    assert forall|i: int| 0 <= i < gs.len() implies piece_of(
        s,
        #[trigger] gs[i],
        cuts[i],
        cuts[i + 1],
        index,
    ) by {
        if i < n {
            assert(gs[i] == gx[i]);
            assert(piece_of(x, gx[i], cx[i], cx[i + 1], index));
            assert(cuts[i] == cx[i] && cuts[i + 1] == cx[i + 1]);
            assert(s.subrange(cuts[i], cuts[i + 1]) =~= x.subrange(cx[i], cx[i + 1]));
        } else {
            let j = i - n;
            assert(gs[i] == gy[j]);
            assert(piece_of(y, gy[j], cy[j], cy[j + 1], index));
            assert(cuts[i] == m + cy[j] && cuts[i + 1] == m + cy[j + 1]);
            assert(s.subrange(cuts[i], cuts[i + 1]) =~= y.subrange(cy[j], cy[j + 1]));
        }
    }
    cuts
}

/// Whether no known emoji starts at the index.
pub open spec fn emojiless(s: Seq<char>, i: int) -> bool {
    forall|j: int|
        i < j <= s.len() && j <= i + 8 ==> known_emoji(#[trigger] s.subrange(i, j)) is None
}

/// Whether the piece is what stands in the text from `a` to `b`: the longest
/// emoji there, or text in which no emoji starts.
pub open spec fn plain_piece(s: Seq<char>, g: Seg, a: int, b: int) -> bool {
    &&& 0 <= a < b <= s.len()
    &&& match g {
        Seg::Text(t) => t == s.subrange(a, b) && forall|i: int|
            a <= i < b ==> #[trigger] emojiless(s, i),
        Seg::UnicodeEmoji(e) => {
            &&& b <= a + 8
            &&& known_emoji(s.subrange(a, b)) == Some(e)
            &&& forall|j: int|
                b < j <= s.len() && j <= a + 8 ==> known_emoji(#[trigger] s.subrange(a, j)) is None
        },
        _ => false,
    }
}

/// Whether the text from `start` on, cut at these places, falls into these
/// pieces, and no text follows on text.
pub open spec fn plainly(cuts: Seq<int>, s: Seq<char>, gs: Seq<Seg>, start: int) -> bool {
    &&& cuts.len() == gs.len() + 1
    &&& cuts[0] == start
    &&& cuts[gs.len() as int] == s.len()
    &&& forall|i: int|
        0 <= i < gs.len() ==> plain_piece(s, #[trigger] gs[i], cuts[i], cuts[i + 1])
    &&& forall|i: int|
        0 < i < gs.len() && (#[trigger] gs[i]) is Text ==> !(gs[i - 1] is Text)
}

proof fn lemma_prefix(s: Seq<char>, i: int, k: int)
    requires
        0 <= i < s.len(),
        0 <= k,
    ensures
        match prefix_within(s, i, k) {
            Some((n, e)) => {
                &&& 0 < n <= k
                &&& i + n <= s.len()
                &&& known_emoji(s.subrange(i, i + n)) == Some(e)
                &&& forall|j: int|
                    i + n < j <= s.len() && j <= i + k ==> known_emoji(#[trigger] s.subrange(i, j))
                        is None
            },
            None => forall|j: int|
                i < j <= s.len() && j <= i + k ==> known_emoji(#[trigger] s.subrange(i, j)) is None,
        },
    decreases k,
{
    if k > 0 {
        if !(i + k <= s.len() && known_emoji(s.subrange(i, i + k)) is Some) {
            lemma_prefix(s, i, k - 1);
        }
    }
}

proof fn lemma_plainly_cons(cuts: Seq<int>, s: Seq<char>, gs: Seq<Seg>, g: Seg, a: int, b: int)
    requires
        plainly(cuts, s, gs, b),
        plain_piece(s, g, a, b),
        g is Text && gs.len() > 0 ==> !(gs[0] is Text),
    ensures
        plainly(seq![a] + cuts, s, seq![g] + gs, a),
{
    let c = seq![a] + cuts;
    let all = seq![g] + gs;
    assert forall|i: int| 0 <= i < all.len() implies plain_piece(
        s,
        #[trigger] all[i],
        c[i],
        c[i + 1],
    ) by {
        if i > 0 {
            assert(all[i] == gs[i - 1]);
            assert(c[i] == cuts[i - 1] && c[i + 1] == cuts[i]);
        }
    }
    assert forall|i: int| 0 < i < all.len() && (#[trigger] all[i]) is Text implies !(all[i
        - 1] is Text) by {
        assert(all[i] == gs[i - 1]);
        if i > 1 {
            assert(all[i - 1] == gs[i - 2]);
        }
    }
}

proof fn lemma_emoji_split(s: Seq<char>, start: int, i: int) -> (cuts: Seq<int>)
    requires
        0 <= start <= i <= s.len(),
        forall|j: int| start <= j < i ==> #[trigger] emojiless(s, j),
    ensures
        plainly(cuts, s, emoji_split(s, prefixes(s), start, i), start),
    decreases s.len() - i,
{
    let gs = emoji_split(s, prefixes(s), start, i);
    if i >= s.len() {
        if start < s.len() {
            assert(s.skip(start) =~= s.subrange(start, s.len() as int));
            assert(plain_piece(s, gs[0], start, s.len() as int));
            seq![start, s.len() as int]
        } else {
            seq![start]
        }
    } else {
        lemma_prefix(s, i, 8);
        assert(prefixes(s)[i] == prefix_within(s, i, 8));
        match prefixes(s)[i] {
            Some((k, e)) => {
                let rest = emoji_split(s, prefixes(s), i + k, i + k);
                let c = lemma_emoji_split(s, i + k, i + k);
                lemma_plainly_cons(c, s, rest, Seg::UnicodeEmoji(e), i, i + k);
                let c1 = seq![i] + c;
                let gs1 = seq![Seg::UnicodeEmoji(e)] + rest;
                if i > start {
                    lemma_plainly_cons(c1, s, gs1, Seg::Text(s.subrange(start, i)), start, i);
                    seq![start] + c1
                } else {
                    assert(gs =~= gs1);
                    c1
                }
            },
            None => {
                assert(emojiless(s, i));
                lemma_emoji_split(s, start, i + 1)
            },
        }
    }
}

/// The emoji of a text are found longest first and from left to right; what
/// stands between them stays text, in one piece, and no emoji starts in it.
pub proof fn law_every_emoji_is_found(s: Seq<char>)
    requires
        !text::ascii_only(s),
    ensures
        exists|cuts: Seq<int>| plainly(cuts, s, plain_segs(s), 0),
{
    let cuts = lemma_emoji_split(s, 0, 0);
    assert(plainly(cuts, s, plain_segs(s), 0));
}

/// Plain ASCII is text.
pub proof fn law_ascii_is_text(s: Seq<char>, index: ShortcodeIndex)
    requires
        s.len() > 0,
        forall|i: int| 0 <= i < s.len() ==> (#[trigger] s[i]) as u32 <= 127 && s[i] != ':',
    ensures
        line_segs(s, Seq::empty(), index) == seq![Seg::Text(s)],
{
    assert(s.skip(0) =~= s);
    text::lemma_find_from(s, text::is_char(':'), 0);
    assert(text::ascii_only(s));
}

proof fn lemma_plain_divides(s: Seq<char>, index: ShortcodeIndex) -> (cuts: Seq<int>)
    requires
        s.len() > 0,
    ensures
        divides(cuts, s, plain_segs(s), index),
{
    if text::ascii_only(s) {
        lemma_divides_one(s, Seg::Text(s), index);
        seq![0int, s.len() as int]
    } else {
        let cuts = lemma_emoji_split(s, 0, 0);
        let gs = plain_segs(s);
        assert forall|i: int| 0 <= i < gs.len() implies piece_of(
            s,
            #[trigger] gs[i],
            cuts[i],
            cuts[i + 1],
            index,
        ) by {
            assert(plain_piece(s, gs[i], cuts[i], cuts[i + 1]));
        }
        assert(divides(cuts, s, gs, index));
        cuts
    }
}

proof fn lemma_code_divides(
    s: Seq<char>,
    index: ShortcodeIndex,
    start: int,
    from: int,
) -> (cuts: Seq<int>)
    requires
        0 <= start <= from,
        start <= s.len(),
    ensures
        divides(cuts, s.skip(start), code_split(s, index, start, from), index),
    decreases s.len() - from,
{
    let open = text::find_from(s, text::is_char(':'), from);
    let close = text::find_from(s, text::is_char(':'), open + 1);
    if from <= s.len() {
        text::lemma_find_from(s, text::is_char(':'), from);
    }
    if open < from || open >= s.len() || close <= open || close >= s.len() {
        if start < s.len() {
            lemma_plain_divides(s.skip(start), index)
        } else {
            lemma_divides_nothing(index);
            assert(s.skip(start) =~= Seq::<char>::empty());
            seq![0int]
        }
    } else {
        text::lemma_find_from(s, text::is_char(':'), open + 1);
        let code = s.subrange(open + 1, close);
        match coded_emoji(code, index) {
            Some(e) => {
                let here = s.subrange(open, close + 1);
                assert(here.subrange(1, here.len() - 1) =~= code);
                lemma_divides_one(here, Seg::Emoji(e), index);
                let c1 = lemma_code_divides(s, index, close + 1, close + 1);
                let rest = code_split(s, index, close + 1, close + 1);
                let c2 = lemma_divides_both(
                    seq![0int, here.len() as int],
                    here,
                    seq![Seg::Emoji(e)],
                    c1,
                    s.skip(close + 1),
                    rest,
                    index,
                );
                let tail = seq![Seg::Emoji(e)] + rest;
                assert(here + s.skip(close + 1) =~= s.skip(open));
                if open > start {
                    let front = s.subrange(start, open);
                    let c0 = lemma_plain_divides(front, index);
                    assert(front + s.skip(open) =~= s.skip(start));
                    lemma_divides_both(
                        c0,
                        front,
                        plain_segs(front),
                        c2,
                        s.skip(open),
                        tail,
                        index,
                    )
                } else {
                    assert(code_split(s, index, start, from) =~= tail);
                    c2
                }
            },
            None => lemma_code_divides(s, index, start, close),
        }
    }
}

/// The characters of the links of a line are in order.
proof fn lemma_links_in_order(s: Seq<char>, links: Seq<(usize, usize)>, k: int)
    requires
        ranges_fit(s, links),
        0 <= k < links.len(),
    ensures
        0 <= text::index_at(s, links[k].0 as int) < text::index_at(s, links[k].1 as int)
            <= s.len(),
        k + 1 < links.len() ==> text::index_at(s, links[k].1 as int) <= text::index_at(
            s,
            links[k + 1].0 as int,
        ),
{
    let a = text::index_at(s, links[k].0 as int);
    let b = text::index_at(s, links[k].1 as int);
    assert(text::is_index(s, links[k].0 as int, a));
    assert(text::is_index(s, links[k].1 as int, b));
    if b <= a {
        text::lemma_byte_at_monotone(s, b, a);
    }
    if k + 1 < links.len() {
        let c = text::index_at(s, links[k + 1].0 as int);
        assert(links[k].1 <= links[k + 1].0);
        assert(text::is_index(s, links[k + 1].0 as int, c));
        if c < b {
            text::lemma_byte_at_monotone(s, c, b);
        }
    }
}

proof fn lemma_link_divides(
    s: Seq<char>,
    links: Seq<(usize, usize)>,
    index: ShortcodeIndex,
    k: int,
    cursor: int,
) -> (cuts: Seq<int>)
    requires
        ranges_fit(s, links),
        0 <= k <= links.len(),
        0 <= cursor <= s.len(),
        k < links.len() ==> cursor <= text::index_at(s, links[k].0 as int),
    ensures
        divides(cuts, s.skip(cursor), link_split(s, links, index, k, cursor), index),
    decreases links.len() - k,
{
    if k >= links.len() {
        if cursor < s.len() {
            let rest = s.skip(cursor);
            assert(rest.skip(0) =~= rest);
            lemma_code_divides(rest, index, 0, 0)
        } else {
            lemma_divides_nothing(index);
            assert(s.skip(cursor) =~= Seq::<char>::empty());
            seq![0int]
        }
    } else {
        let a = text::index_at(s, links[k].0 as int);
        let b = text::index_at(s, links[k].1 as int);
        lemma_links_in_order(s, links, k);
        let url = s.subrange(a, b);
        let rest = link_split(s, links, index, k + 1, b);
        lemma_divides_one(url, Seg::Link(url), index);
        let c1 = lemma_link_divides(s, links, index, k + 1, b);
        let c2 = lemma_divides_both(
            seq![0int, url.len() as int],
            url,
            seq![Seg::Link(url)],
            c1,
            s.skip(b),
            rest,
            index,
        );
        assert(url + s.skip(b) =~= s.skip(a));
        let tail = seq![Seg::Link(url)] + rest;
        if a > cursor {
            let front = s.subrange(cursor, a);
            assert(front.skip(0) =~= front);
            let c0 = lemma_code_divides(front, index, 0, 0);
            assert(front + s.skip(a) =~= s.skip(cursor));
            lemma_divides_both(
                c0,
                front,
                code_segs(front, index),
                c2,
                s.skip(a),
                tail,
                index,
            )
        } else {
            assert(link_split(s, links, index, k, cursor) =~= tail);
            c2
        }
    }
}

/// Nothing of a line is lost and nothing is added: its pieces stand for its
/// characters, from the first to the last, in order and without a gap.
pub proof fn law_nothing_of_a_line_is_lost(
    s: Seq<char>,
    links: Seq<(usize, usize)>,
    index: ShortcodeIndex,
    gs: Seq<Segment>,
)
    requires
        ranges_fit(s, links),
        segs(gs) == line_segs(s, links, index),
    ensures
        exists|cuts: Seq<int>| divides(cuts, s, segs(gs), index),
{
    if links.len() > 0 {
        lemma_links_in_order(s, links, 0);
    }
    assert(s.skip(0) =~= s);
    let cuts = lemma_link_divides(s, links, index, 0, 0);
    assert(divides(cuts, s, segs(gs), index));
}

/// What the pieces stand for, one behind the other, is the line, however one
/// spells each of them out.
pub proof fn law_the_sources_of_the_pieces_join_to_the_line(
    cuts: Seq<int>,
    s: Seq<char>,
    gs: Seq<Seg>,
    index: ShortcodeIndex,
)
    requires
        divides(cuts, s, gs, index),
    ensures
        Seq::new(gs.len(), |i: int| s.subrange(cuts[i], cuts[i + 1])).flatten() == s,
{
    lemma_cuts_join(cuts, s, gs, index, gs.len() as int);
    let parts = Seq::new(gs.len(), |i: int| s.subrange(cuts[i], cuts[i + 1]));
    assert(parts.take(gs.len() as int) =~= parts);
    assert(s.take(s.len() as int) =~= s);
}

proof fn lemma_cuts_join(
    cuts: Seq<int>,
    s: Seq<char>,
    gs: Seq<Seg>,
    index: ShortcodeIndex,
    n: int,
)
    requires
        divides(cuts, s, gs, index),
        0 <= n <= gs.len(),
    ensures
        Seq::new(gs.len(), |i: int| s.subrange(cuts[i], cuts[i + 1])).take(n).flatten() == s.take(
            cuts[n],
        ),
    decreases n,
{
    let parts = Seq::new(gs.len(), |i: int| s.subrange(cuts[i], cuts[i + 1]));
    if n == 0 {
        assert(parts.take(0).flatten() =~= s.take(0));
    } else {
        lemma_cuts_join(cuts, s, gs, index, n - 1);
        assert(parts.take(n).drop_last() =~= parts.take(n - 1));
        parts.take(n).lemma_flatten_and_flatten_alt_are_equivalent();
        parts.take(n - 1).lemma_flatten_and_flatten_alt_are_equivalent();
        assert(piece_of(s, gs[n - 1], cuts[n - 1], cuts[n], index));
        assert(s.take(cuts[n - 1]) + s.subrange(cuts[n - 1], cuts[n]) =~= s.take(cuts[n]));
    }
}

/// Where the text between two links begins and ends: before the first link at
/// the line's start, behind the last at its end.
pub open spec fn gap_before(s: Seq<char>, links: Seq<(usize, usize)>, k: int) -> Seq<char> {
    s.subrange(
        if k <= 0 {
            0
        } else {
            text::index_at(s, links[k - 1].1 as int)
        },
        if k >= links.len() {
            s.len() as int
        } else {
            text::index_at(s, links[k].0 as int)
        },
    )
}

/// Whether the piece at `i` is this link of the line.
pub open spec fn is_link_at(gs: Seq<Seg>, i: int, s: Seq<char>, link: (usize, usize)) -> bool {
    0 <= i < gs.len() && gs[i] == Seg::Link(
        s.subrange(text::index_at(s, link.0 as int), text::index_at(s, link.1 as int)),
    )
}

/// Whether the pieces from `from` to `to` are those of the characters.
pub open spec fn are_pieces_of(
    gs: Seq<Seg>,
    from: int,
    to: int,
    gap: Seq<char>,
    index: ShortcodeIndex,
) -> bool {
    0 <= from <= to <= gs.len() && gs.subrange(from, to) == line_segs(gap, Seq::empty(), index)
}

/// Whether the links are the pieces at these places, and what lies before,
/// between and behind those are the pieces of what the line has there.
pub open spec fn links_stand(
    at: Seq<int>,
    s: Seq<char>,
    links: Seq<(usize, usize)>,
    index: ShortcodeIndex,
    gs: Seq<Seg>,
) -> bool {
    &&& at.len() == links.len()
    &&& forall|k: int| 0 <= k < links.len() ==> is_link_at(gs, #[trigger] at[k], s, links[k])
    &&& forall|k: int|
        0 <= k <= links.len() ==> are_pieces_of(
            gs,
            if k == 0 {
                0
            } else {
                at[k - 1] + 1
            },
            if k == links.len() {
                gs.len() as int
            } else {
                at[k]
            },
            #[trigger] gap_before(s, links, k),
            index,
        )
}

proof fn lemma_code_segs(s: Seq<char>, index: ShortcodeIndex)
    ensures
        line_segs(s, Seq::empty(), index) == code_segs(s, index),
{
    assert(s.skip(0) =~= s);
}

/// The pieces from link `k` on, whatever stands before them.
proof fn lemma_links_stand(
    s: Seq<char>,
    links: Seq<(usize, usize)>,
    index: ShortcodeIndex,
    k: int,
    front: Seq<Seg>,
    at: Seq<int>,
    gs: Seq<Seg>,
) -> (r: Seq<int>)
    requires
        ranges_fit(s, links),
        0 <= k <= links.len(),
        at.len() == k,
        gs == front + link_split(
            s,
            links,
            index,
            k,
            if k == 0 {
                0
            } else {
                text::index_at(s, links[k - 1].1 as int)
            },
        ),
        if k == 0 {
            front.len() == 0
        } else {
            front.len() == at[k - 1] + 1
        },
        forall|j: int| 0 <= j < k ==> is_link_at(front, #[trigger] at[j], s, links[j]),
        forall|j: int|
            0 <= j < k ==> are_pieces_of(
                front,
                if j == 0 {
                    0
                } else {
                    at[j - 1] + 1
                },
                at[j],
                #[trigger] gap_before(s, links, j),
                index,
            ),
    ensures
        links_stand(r, s, links, index, gs),
    decreases links.len() - k,
{
    let cursor = if k == 0 {
        0
    } else {
        text::index_at(s, links[k - 1].1 as int)
    };
    if k > 0 {
        lemma_links_in_order(s, links, k - 1);
    }
    let gap = gap_before(s, links, k);
    lemma_code_segs(gap, index);
    let mid = line_segs(gap, Seq::empty(), index);
    let n = front.len() as int;
    if gap.len() == 0 {
        assert(mid =~= Seq::<Seg>::empty());
    }
    if k >= links.len() {
        assert(s.skip(cursor) =~= gap);
        assert(gs =~= front + mid);
        assert(gs.subrange(n, gs.len() as int) =~= mid);
        assert forall|j: int| 0 <= j < links.len() implies is_link_at(
            gs,
            #[trigger] at[j],
            s,
            links[j],
        ) by {
            assert(is_link_at(front, at[j], s, links[j]));
        }
        assert forall|j: int| 0 <= j <= links.len() implies are_pieces_of(
            gs,
            if j == 0 {
                0
            } else {
                at[j - 1] + 1
            },
            if j == links.len() {
                gs.len() as int
            } else {
                at[j]
            },
            #[trigger] gap_before(s, links, j),
            index,
        ) by {
            if j < k {
                let from = if j == 0 {
                    0
                } else {
                    at[j - 1] + 1
                };
                assert(are_pieces_of(front, from, at[j], gap_before(s, links, j), index));
                assert(gs.subrange(from, at[j]) =~= front.subrange(from, at[j]));
            }
        }
        at
    } else {
        lemma_links_in_order(s, links, k);
        let a = text::index_at(s, links[k].0 as int);
        let b = text::index_at(s, links[k].1 as int);
        let g = Seg::Link(s.subrange(a, b));
        let front1 = front + mid + seq![g];
        let at1 = at.push(n + mid.len());
        assert(gs =~= front1 + link_split(s, links, index, k + 1, b));
        assert forall|j: int| 0 <= j < k + 1 implies is_link_at(
            front1,
            #[trigger] at1[j],
            s,
            links[j],
        ) by {
            if j < k {
                assert(is_link_at(front, at[j], s, links[j]));
            }
        }
        assert forall|j: int| 0 <= j < k + 1 implies are_pieces_of(
            front1,
            if j == 0 {
                0
            } else {
                at1[j - 1] + 1
            },
            at1[j],
            #[trigger] gap_before(s, links, j),
            index,
        ) by {
            let from = if j == 0 {
                0
            } else {
                at1[j - 1] + 1
            };
            if j < k {
                assert(are_pieces_of(front, from, at[j], gap_before(s, links, j), index));
                assert(front1.subrange(from, at1[j]) =~= front.subrange(from, at[j]));
            } else {
                assert(front1.subrange(from, at1[j]) =~= mid);
            }
        }
        lemma_links_stand(s, links, index, k + 1, front1, at1, gs)
    }
}

/// Each link of a line is a piece of its own, in order, and the pieces before,
/// between and behind the links are those of the characters that stand there.
pub proof fn law_links_stand_in_their_places(
    s: Seq<char>,
    links: Seq<(usize, usize)>,
    index: ShortcodeIndex,
    gs: Seq<Segment>,
)
    requires
        ranges_fit(s, links),
        segs(gs) == line_segs(s, links, index),
    ensures
        exists|at: Seq<int>| links_stand(at, s, links, index, segs(gs)),
{
    let empty = Seq::<Seg>::empty();
    assert(segs(gs) =~= empty + line_segs(s, links, index));
    let at = lemma_links_stand(s, links, index, 0, empty, Seq::empty(), segs(gs));
    assert(links_stand(at, s, links, index, segs(gs)));
}

/// Whether no two colons hold a code between them that the index knows.
pub open spec fn codeless(s: Seq<char>, index: ShortcodeIndex) -> bool {
    forall|i: int, j: int|
        0 <= i < j < s.len() && (#[trigger] s[i]) == ':' && (#[trigger] s[j]) == ':' ==> !(
        shortcode_like(s.subrange(i + 1, j)) && index.of(s.subrange(i + 1, j)) is Some)
}

proof fn lemma_codeless(s: Seq<char>, index: ShortcodeIndex, start: int, from: int)
    requires
        0 <= start <= from,
        codeless(s, index),
    ensures
        code_split(s, index, start, from) == rest_segs(s, start),
    decreases s.len() - from,
{
    let open = text::find_from(s, text::is_char(':'), from);
    let close = text::find_from(s, text::is_char(':'), open + 1);
    if from <= s.len() {
        text::lemma_find_from(s, text::is_char(':'), from);
    }
    if !(open < from || open >= s.len() || close <= open || close >= s.len()) {
        text::lemma_find_from(s, text::is_char(':'), open + 1);
        assert(s[open] == ':' && s[close] == ':');
        lemma_codeless(s, index, start, close);
    }
}

/// Text without a known code has only text and emoji in it.
pub proof fn law_text_without_codes(s: Seq<char>, index: ShortcodeIndex)
    requires
        s.len() > 0,
        codeless(s, index),
    ensures
        line_segs(s, Seq::empty(), index) == plain_segs(s),
{
    lemma_code_segs(s, index);
    lemma_codeless(s, index, 0, 0);
    assert(s.skip(0) =~= s);
}

proof fn lemma_find_shift(s: Seq<char>, d: int, from: int)
    requires
        0 <= d <= from,
        d <= s.len(),
    ensures
        text::find_from(s, text::is_char(':'), from) == text::find_from(
            s.skip(d),
            text::is_char(':'),
            from - d,
        ) + d,
    decreases s.len() - from,
{
    if from < s.len() {
        assert(s.skip(d)[from - d] == s[from]);
        if s[from] != ':' {
            lemma_find_shift(s, d, from + 1);
        }
    }
}

proof fn lemma_code_shift(s: Seq<char>, index: ShortcodeIndex, d: int, start: int, from: int)
    requires
        0 <= d <= start <= from,
        d <= s.len(),
    ensures
        code_split(s, index, start, from) == code_split(s.skip(d), index, start - d, from - d),
    decreases s.len() - from,
{
    let t = s.skip(d);
    let open = text::find_from(s, text::is_char(':'), from);
    let close = text::find_from(s, text::is_char(':'), open + 1);
    lemma_find_shift(s, d, from);
    if from <= s.len() {
        text::lemma_find_from(s, text::is_char(':'), from);
    }
    if start < s.len() {
        assert(s.skip(start) =~= t.skip(start - d));
    }
    if from <= open < s.len() {
        lemma_find_shift(s, d, open + 1);
        text::lemma_find_from(s, text::is_char(':'), open + 1);
        if open < close < s.len() {
            assert(s.subrange(open + 1, close) =~= t.subrange(open + 1 - d, close - d));
            if start < open {
                assert(s.subrange(start, open) =~= t.subrange(start - d, open - d));
            }
            lemma_code_shift(s, index, d, close + 1, close + 1);
            lemma_code_shift(s, index, d, start, close);
        }
    }
}

proof fn lemma_code_here(
    x: Seq<char>,
    code: Seq<char>,
    y: Seq<char>,
    index: ShortcodeIndex,
    from: int,
)
    requires
        shortcode_like(code),
        index.of(code) is Some,
        0 <= from <= x.len(),
        text::find_from(x + seq![':'] + code + seq![':'] + y, text::is_char(':'), from) == x.len(),
    ensures
        code_split(x + seq![':'] + code + seq![':'] + y, index, 0, from) == rest_segs(x, 0) + seq![
            Seg::Emoji(index.of(code)->0),
        ] + code_segs(y, index),
{
    let s = x + seq![':'] + code + seq![':'] + y;
    let p = text::is_char(':');
    let n = x.len() as int;
    let m = n + 1 + code.len();
    let e = Seg::Emoji(index.of(code)->0);
    assert(s[n] == ':' && s[m] == ':');
    assert forall|j: int| n + 1 <= j < m implies !p(#[trigger] s[j]) by {
        assert(s[j] == code[j - n - 1]);
        assert(shortcode_char(code[j - n - 1]));
    }
    text::lemma_find_from_is(s, p, n + 1, m);
    assert(s.subrange(n + 1, m) =~= code);
    lemma_code_shift(s, index, m + 1, m + 1, m + 1);
    assert(s.skip(m + 1) =~= y);
    let rest = code_segs(y, index);
    assert(code_split(s, index, m + 1, m + 1) == rest);
    let front = rest_segs(x, 0);
    if n > 0 {
        assert(s.subrange(0, n) =~= x);
        assert(x.skip(0) =~= x);
    }
    assert(code_split(s, index, 0, from) == front + (seq![e] + rest));
    assert(front + (seq![e] + rest) =~= front + seq![e] + rest);
}

proof fn lemma_first_code(
    x: Seq<char>,
    code: Seq<char>,
    y: Seq<char>,
    index: ShortcodeIndex,
    from: int,
)
    requires
        codeless(x.push(':'), index),
        shortcode_like(code),
        index.of(code) is Some,
        0 <= from <= x.len(),
    ensures
        code_split(x + seq![':'] + code + seq![':'] + y, index, 0, from) == rest_segs(x, 0) + seq![
            Seg::Emoji(index.of(code)->0),
        ] + code_segs(y, index),
    decreases x.len() - from,
{
    let s = x + seq![':'] + code + seq![':'] + y;
    let p = text::is_char(':');
    let n = x.len() as int;
    assert(s[n] == ':');
    let open = text::find_from(s, p, from);
    text::lemma_find_from(s, p, from);
    assert(open <= n) by {
        if open > n {
            assert(!p(s[n]));
        }
    }
    if open == n {
        lemma_code_here(x, code, y, index, from);
    } else {
        let close = text::find_from(s, p, open + 1);
        text::lemma_find_from(s, p, open + 1);
        assert(close <= n) by {
            if close > n {
                assert(!p(s[n]));
            }
        }
        let w = x.push(':');
        assert(w[open] == ':' && w[close] == ':');
        assert(s.subrange(open + 1, close) =~= w.subrange(open + 1, close));
        lemma_first_code(x, code, y, index, close);
        assert(code_split(s, index, 0, from) == code_split(s, index, 0, close));
    }
}

/// The first known code between colons is its emoji, and what stands before
/// and behind it has the pieces that it has by itself.
pub proof fn law_a_known_code_is_its_emoji(
    x: Seq<char>,
    code: Seq<char>,
    y: Seq<char>,
    index: ShortcodeIndex,
)
    requires
        codeless(x.push(':'), index),
        shortcode_like(code),
        index.of(code) is Some,
    ensures
        line_segs(x + seq![':'] + code + seq![':'] + y, Seq::empty(), index) == line_segs(
            x,
            Seq::empty(),
            index,
        ) + seq![Seg::Emoji(index.of(code)->0)] + line_segs(y, Seq::empty(), index),
{
    lemma_first_code(x, code, y, index, 0);
    lemma_code_segs(x + seq![':'] + code + seq![':'] + y, index);
    lemma_code_segs(x, index);
    lemma_code_segs(y, index);
    assert(codeless(x, index)) by {
        let w = x.push(':');
        assert forall|i: int, j: int|
            0 <= i < j < x.len() && (#[trigger] x[i]) == ':' && (#[trigger] x[j]) == ':' implies !(
        shortcode_like(x.subrange(i + 1, j)) && index.of(x.subrange(i + 1, j)) is Some) by {
            assert(w[i] == ':' && w[j] == ':');
            assert(w.subrange(i + 1, j) =~= x.subrange(i + 1, j));
        }
    }
    lemma_codeless(x, index, 0, 0);
}

proof fn lemma_flat_segs(lines: Seq<Seq<Seg>>)
    ensures
        forall|i: int, j: int|
            0 <= i < lines.len() && 0 <= j < lines[i].len() ==> flat_segs(lines).contains(
                #[trigger] lines[i][j],
            ),
        forall|g: Seg| #[trigger]
            flat_segs(lines).contains(g) ==> exists|i: int, j: int|
                0 <= i < lines.len() && 0 <= j < lines[i].len() && #[trigger] lines[i][j] == g,
    decreases lines.len(),
{
    if lines.len() > 0 {
        let front = lines.drop_last();
        lemma_flat_segs(front);
        let all = flat_segs(lines);
        let a = flat_segs(front);
        assert(all == a + lines.last());
        assert forall|i: int, j: int|
            0 <= i < lines.len() && 0 <= j < lines[i].len() implies all.contains(
            #[trigger] lines[i][j],
        ) by {
            if i < front.len() {
                assert(front[i][j] == lines[i][j]);
                let k = choose|k: int| 0 <= k < a.len() && a[k] == lines[i][j];
                assert(all[k] == lines[i][j]);
            } else {
                assert(all[a.len() + j] == lines[i][j]);
            }
        }
        assert forall|g: Seg| #[trigger] all.contains(g) implies exists|i: int, j: int|
            0 <= i < lines.len() && 0 <= j < lines[i].len() && #[trigger] lines[i][j] == g by {
            let k = choose|k: int| 0 <= k < all.len() && all[k] == g;
            if k < a.len() {
                assert(a[k] == g);
                assert(a.contains(g));
                let (i, j) = choose|i: int, j: int|
                    0 <= i < front.len() && 0 <= j < front[i].len() && #[trigger] front[i][j] == g;
                assert(lines[i][j] == g);
            } else {
                let i = lines.len() - 1;
                assert(lines[i][k - a.len()] == g);
            }
        }
    }
}

proof fn lemma_glyphs_filter(gs: Seq<Seg>)
    ensures
        glyphs(gs) == gs.filter(|g: Seg| g is Emoji || g is UnicodeEmoji),
    decreases gs.len(),
{
    reveal(Seq::filter);
    if gs.len() > 0 {
        lemma_glyphs_filter(gs.drop_last());
    }
}

/// The pieces of each line of a body.
pub open spec fn pieces_in(body: Seq<char>, index: ShortcodeIndex, i: int) -> Seq<Seg> {
    line_segs(text::lines_from(body, 0)[i], found_links(text::lines_from(body, 0)[i]), index)
}

/// Whether some piece of some line of a body is such.
pub open spec fn some_piece(
    body: Seq<char>,
    index: ShortcodeIndex,
    such: spec_fn(Seg) -> bool,
) -> bool {
    exists|i: int, j: int|
        0 <= i < text::lines_from(body, 0).len() && 0 <= j < pieces_in(body, index, i).len()
            && such(#[trigger] pieces_in(body, index, i)[j])
}

proof fn lemma_some_piece(body: Seq<char>, index: ShortcodeIndex, such: spec_fn(Seg) -> bool)
    ensures
        some_piece(body, index, such) == exists|k: int|
            0 <= k < flat_segs(body_segs(body, index)).len() && such(
                #[trigger] flat_segs(body_segs(body, index))[k],
            ),
{
    let lines = body_segs(body, index);
    let all = flat_segs(lines);
    lemma_flat_segs(lines);
    if some_piece(body, index, such) {
        let (i, j) = choose|i: int, j: int|
            0 <= i < text::lines_from(body, 0).len() && 0 <= j < pieces_in(body, index, i).len()
                && such(#[trigger] pieces_in(body, index, i)[j]);
        assert(lines[i] == pieces_in(body, index, i));
        assert(all.contains(lines[i][j]));
        let k = choose|k: int| 0 <= k < all.len() && all[k] == lines[i][j];
        assert(such(all[k]));
    }
    if exists|k: int| 0 <= k < all.len() && such(#[trigger] all[k]) {
        let k = choose|k: int| 0 <= k < all.len() && such(#[trigger] all[k]);
        assert(all.contains(all[k]));
        let (i, j) = choose|i: int, j: int|
            0 <= i < lines.len() && 0 <= j < lines[i].len() && #[trigger] lines[i][j] == all[k];
        assert(lines[i] == pieces_in(body, index, i));
        assert(such(pieces_in(body, index, i)[j]));
    }
}

/// A body with nothing but text in it is shown as it was written; one with
/// nothing but emoji and blanks is shown as rows of emoji; any other is shown
/// line by line.
pub proof fn law_how_a_body_is_shown(b: Body, body: Seq<char>, index: ShortcodeIndex)
    requires
        is_body(b, body, index),
    ensures
        b matches Body::Plain(t) ==> t@ == body,
        !(b is Plain) ==> some_piece(body, index, |g: Seg| !(g is Text)),
        !surely_plain(body) && b is Plain ==> !some_piece(body, index, |g: Seg| !(g is Text)),
        b is EmojiRows ==> !some_piece(body, index, |g: Seg| g is Link) && !some_piece(
            body,
            index,
            |g: Seg| g matches Seg::Text(t) && text::trimmed(t).len() > 0,
        ),
        b is Lines ==> some_piece(
            body,
            index,
            |g: Seg|
                g is Link || (g matches Seg::Text(t) && text::trimmed(t).len() > 0),
        ),
{
    let odd = |g: Seg| !(g is Text);
    let link = |g: Seg| g is Link;
    let words = |g: Seg| g matches Seg::Text(t) && text::trimmed(t).len() > 0;
    let other = |g: Seg|
        g is Link || (g matches Seg::Text(t) && text::trimmed(t).len() > 0);
    lemma_some_piece(body, index, odd);
    lemma_some_piece(body, index, link);
    lemma_some_piece(body, index, words);
    lemma_some_piece(body, index, other);
    if !surely_plain(body) {
        let all = flat_segs(body_segs(body, index));
        if !all_text(all) {
            let k = choose|k: int| 0 <= k < all.len() && !((#[trigger] all[k]) is Text);
            assert(odd(all[k]));
            if all_emoji_like(all) {
                assert forall|k: int| 0 <= k < all.len() implies !link(#[trigger] all[k]) && !words(
                    all[k],
                ) by {
                    assert(emoji_like(all[k]));
                }
            } else {
                let k = choose|k: int| 0 <= k < all.len() && !emoji_like(#[trigger] all[k]);
                assert(other(all[k]));
            }
        }
    }
}

/// In rows of emoji every emoji of the body has its place, in order, twelve to
/// a row; no row is empty.
pub proof fn law_emoji_stand_twelve_to_a_row(
    rows: Vec<Vec<Segment>>,
    body: Seq<char>,
    index: ShortcodeIndex,
    n: int,
)
    requires
        is_body(Body::EmojiRows(rows), body, index),
        0 <= n < flat_segs(body_segs(body, index)).filter(
            |g: Seg| g is Emoji || g is UnicodeEmoji,
        ).len(),
    ensures
        n / 12 < rows@.len(),
        n % 12 < rows@[n / 12]@.len() <= 12,
        rows@[n / 12]@[n % 12]@ == flat_segs(body_segs(body, index)).filter(
            |g: Seg| g is Emoji || g is UnicodeEmoji,
        )[n],
{
    let all = flat_segs(body_segs(body, index));
    lemma_glyphs_filter(all);
    let es = glyphs(all);
    let i = n / 12;
    assert(i < row_count(es.len() as int)) by {
        assert(n / 12 < (es.len() + 11) / 12) by (nonlinear_arith)
            requires
                0 <= n < es.len(),
        ;
    }
    assert(segs(rows@[i]@) == row_of(es, i));
    assert(segs(rows@[i]@).len() == rows@[i]@.len());
    assert(n == 12 * i + n % 12);
    assert(segs(rows@[i]@)[n % 12] == es[n]);
}

/// Shown line by line, each line is there: as it was written where it is only
/// text, and else in the pieces that it falls into.
pub proof fn law_every_line_is_shown(
    ls: Vec<BodyLine>,
    body: Seq<char>,
    index: ShortcodeIndex,
    i: int,
)
    requires
        is_body(Body::Lines(ls), body, index),
        0 <= i < text::lines_from(body, 0).len(),
        ranges_fit(text::lines_from(body, 0)[i], found_links(text::lines_from(body, 0)[i])),
    ensures
        ls@.len() == text::lines_from(body, 0).len(),
        match ls@[i] {
            BodyLine::Text(t) => t@ == text::lines_from(body, 0)[i],
            BodyLine::Pieces(v) => exists|cuts: Seq<int>|
                divides(cuts, text::lines_from(body, 0)[i], segs(v@), index),
        },
{
    let line = text::lines_from(body, 0)[i];
    let lines = body_segs(body, index);
    assert(lines[i] == line_segs(line, found_links(line), index));
    assert(is_line(ls@[i], lines[i]));
    match ls@[i] {
        BodyLine::Text(t) => {
            law_plain_lines_join_back(line, found_links(line), index);
        },
        BodyLine::Pieces(v) => {
            law_nothing_of_a_line_is_lost(line, found_links(line), index, v@);
        },
    }
}

/// A code is known exactly where some pack has an emoji with it, letter case
/// aside, and it then stands for the first such emoji of the packs.
pub proof fn law_a_code_stands_for_its_first_emoji(
    packs: Seq<EmojiPack>,
    index: ShortcodeIndex,
    code: Seq<char>,
)
    requires
        indexes(index, all_emojis(packs)),
    ensures
        match index.of(code) {
            Some(e) => exists|p: int, i: int|
                {
                    &&& 0 <= p < packs.len()
                    &&& 0 <= i < packs[p].emojis@.len()
                    &&& #[trigger] packs[p].emojis@[i] == e
                    &&& text::ascii_lowered(e.shortcode@) == text::ascii_lowered(code)
                    &&& forall|q: int, j: int|
                        0 <= q < packs.len() && 0 <= j < packs[q].emojis@.len()
                            && text::ascii_lowered((#[trigger] packs[q].emojis@[j]).shortcode@)
                            == text::ascii_lowered(code) ==> p < q || (p == q && i <= j)
                },
            None => forall|q: int, j: int|
                0 <= q < packs.len() && 0 <= j < packs[q].emojis@.len() ==> text::ascii_lowered(
                    (#[trigger] packs[q].emojis@[j]).shortcode@,
                ) != text::ascii_lowered(code),
        },
{
    let key = text::ascii_lowered(code);
    assert(index.at(key) == emoji_from(all_emojis(packs), key, 0));
    lemma_first_emoji(packs, key);
}

proof fn lemma_emoji_append_none(
    a: Seq<CustomEmoji>,
    b: Seq<CustomEmoji>,
    code: Seq<char>,
    i: int,
)
    requires
        0 <= i <= a.len(),
        emoji_from(a, code, i) is None,
    ensures
        emoji_from(a + b, code, i) == emoji_from(b, code, 0),
    decreases a.len() - i,
{
    if i < a.len() {
        assert((a + b)[i] == a[i]);
        lemma_emoji_append_none(a, b, code, i + 1);
    } else {
        lemma_emoji_behind(a, b, code, 0);
    }
}

proof fn lemma_emoji_behind(a: Seq<CustomEmoji>, b: Seq<CustomEmoji>, code: Seq<char>, j: int)
    requires
        0 <= j <= b.len(),
    ensures
        emoji_from(a + b, code, a.len() + j) == emoji_from(b, code, j),
    decreases b.len() - j,
{
    if j < b.len() {
        assert((a + b)[a.len() + j] == b[j]);
        lemma_emoji_behind(a, b, code, j + 1);
    }
}

proof fn lemma_emoji_from(es: Seq<CustomEmoji>, code: Seq<char>, i: int)
    requires
        0 <= i <= es.len(),
    ensures
        match emoji_from(es, code, i) {
            Some(e) => exists|k: int|
                {
                    &&& i <= k < es.len()
                    &&& #[trigger] es[k] == e
                    &&& text::ascii_lowered(e.shortcode@) == code
                    &&& forall|j: int|
                        i <= j < k ==> text::ascii_lowered((#[trigger] es[j]).shortcode@) != code
                },
            None => forall|j: int|
                i <= j < es.len() ==> text::ascii_lowered((#[trigger] es[j]).shortcode@) != code,
        },
    decreases es.len() - i,
{
    if i < es.len() {
        lemma_emoji_from(es, code, i + 1);
        if text::ascii_lowered(es[i].shortcode@) == code {
            assert(es[i] == es[i]);
        }
    }
}

proof fn lemma_first_emoji(packs: Seq<EmojiPack>, code: Seq<char>)
    ensures
        match emoji_from(all_emojis(packs), code, 0) {
            Some(e) => exists|p: int, i: int|
                {
                    &&& 0 <= p < packs.len()
                    &&& 0 <= i < packs[p].emojis@.len()
                    &&& #[trigger] packs[p].emojis@[i] == e
                    &&& text::ascii_lowered(e.shortcode@) == code
                    &&& forall|q: int, j: int|
                        0 <= q < packs.len() && 0 <= j < packs[q].emojis@.len()
                            && text::ascii_lowered((#[trigger] packs[q].emojis@[j]).shortcode@)
                            == code ==> p < q || (p == q && i <= j)
                },
            None => forall|q: int, j: int|
                0 <= q < packs.len() && 0 <= j < packs[q].emojis@.len() ==> text::ascii_lowered(
                    (#[trigger] packs[q].emojis@[j]).shortcode@,
                ) != code,
        },
    decreases packs.len(),
{
    if packs.len() > 0 {
        let front = packs.drop_last();
        let last = packs.last().emojis@;
        let n = packs.len() - 1;
        lemma_first_emoji(front, code);
        assert forall|q: int, j: int|
            0 <= q < n && 0 <= j < packs[q].emojis@.len() implies #[trigger] packs[q].emojis@[j]
            == front[q].emojis@[j] by {}
        match emoji_from(all_emojis(front), code, 0) {
            Some(e) => {
                lemma_emoji_append(all_emojis(front), last, code, 0);
                let (p, i) = choose|p: int, i: int|
                    {
                        &&& 0 <= p < front.len()
                        &&& 0 <= i < front[p].emojis@.len()
                        &&& #[trigger] front[p].emojis@[i] == e
                        &&& text::ascii_lowered(e.shortcode@) == code
                        &&& forall|q: int, j: int|
                            0 <= q < front.len() && 0 <= j < front[q].emojis@.len()
                                && text::ascii_lowered((#[trigger] front[q].emojis@[j]).shortcode@)
                                == code ==> p < q || (p == q && i <= j)
                    };
                assert(packs[p].emojis@[i] == e);
            },
            None => {
                lemma_emoji_append_none(all_emojis(front), last, code, 0);
                lemma_emoji_from(last, code, 0);
                if let Some(e) = emoji_from(last, code, 0) {
                    let i = choose|k: int|
                        {
                            &&& 0 <= k < last.len()
                            &&& #[trigger] last[k] == e
                            &&& text::ascii_lowered(e.shortcode@) == code
                            &&& forall|j: int|
                                0 <= j < k ==> text::ascii_lowered((#[trigger] last[j]).shortcode@)
                                    != code
                        };
                    assert(packs[n].emojis@[i] == e);
                }
            },
        }
    }
}

/// A reaction whose key is a media URL shows that image; one whose key is a
/// known code, between colons or not, shows that emoji's image; any other
/// shows its key.
pub proof fn law_what_a_reaction_shows(v: ReactionVisual, key: Seq<char>, index: ShortcodeIndex)
    requires
        shows_reaction(v, key, index),
    ensures
        forall|rest: Seq<char>|
            key == #[trigger] ("mxc://"@ + rest) ==> (v matches ReactionVisual::Image(url) && url@
                == key),
        forall|code: Seq<char>|
            key == #[trigger] (seq![':'] + code + seq![':']) && shortcode_like(code) && index.of(
                code,
            ) is Some ==> (v matches ReactionVisual::Image(url) && url@ == index.of(
                code,
            )->0.mxc_url@),
        shortcode_like(key) && index.of(key) is Some ==> (v matches ReactionVisual::Image(url)
            && url@ == index.of(key)->0.mxc_url@),
        v matches ReactionVisual::Glyph(g) ==> g@ == key,
{
    reveal_strlit("mxc://");
    let p = text::not_char(':');
    assert forall|rest: Seq<char>| key == #[trigger] ("mxc://"@ + rest) implies (v matches
        ReactionVisual::Image(url) && url@ == key) by {
        assert(key.take("mxc://"@.len() as int) =~= "mxc://"@);
        assert(key.subrange(0, 6) =~= "mxc://"@);
    }
    assert forall|code: Seq<char>|
        key == #[trigger] (seq![':'] + code + seq![':']) && shortcode_like(code) && index.of(
            code,
        ) is Some implies (v matches ReactionVisual::Image(url) && url@ == index.of(
        code,
    )->0.mxc_url@) by {
        let n = key.len() as int;
        assert(key[0] == ':' && key[n - 1] == ':');
        assert(key[1] == code[0]);
        assert(key[n - 2] == code[code.len() - 1]);
        assert(shortcode_char(code[0]) && shortcode_char(code[code.len() - 1]));
        assert(key[0] != "mxc://"@[0]);
        text::lemma_find_from_is(key, p, 0, 1);
        assert(text::end_before(key, p, n) == n - 1) by {
            reveal_with_fuel(text::end_before, 3);
        }
        assert(key.subrange(1, n - 1) =~= code);
    }
    if shortcode_like(key) && index.of(key) is Some {
        let n = key.len() as int;
        assert(shortcode_char(key[0]) && shortcode_char(key[n - 1]));
        text::lemma_find_from_is(key, p, 0, 0);
        assert(text::end_before(key, p, n) == n) by {
            reveal_with_fuel(text::end_before, 2);
        }
        assert(key.subrange(0, n) =~= key);
        if is_mxc(key) {
            assert(key[3] == ':');
            assert(shortcode_char(key[3]));
        }
    }
}

/// The first URL of a text is the first of its links, where there is one.
pub proof fn law_the_first_link_is_previewed(
    s: Seq<char>,
    links: Seq<(usize, usize)>,
    r: Option<String>,
    before: Seq<char>,
    url: Seq<char>,
    behind: Seq<char>,
)
    requires
        text::opt_view(r) == first_of(s, links),
        links.len() > 0,
        s == before + url + behind,
        links[0].0 == text::byte_len(before),
        links[0].1 == text::byte_len(before + url),
    ensures
        r matches Some(u) && u@ == url,
{
    let a = before.len() as int;
    let b = a + url.len();
    assert(s.take(a) =~= before);
    assert(s.take(b) =~= before + url);
    assert(text::is_index(s, links[0].0 as int, a));
    assert(text::is_index(s, links[0].1 as int, b));
    text::lemma_index_unique(s, links[0].0 as int, a, a);
    text::lemma_index_unique(s, links[0].1 as int, b, b);
    assert(s.subrange(a, b) =~= url);
}

} // verus!
