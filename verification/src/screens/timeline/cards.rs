//! What the cards under a message show: link previews, tweets, store pages
//! and videos.

use vstd::prelude::*;

use crate::events::{EmbedVideo, TimelineItemContent, UrlPreview};
use crate::floats;
use crate::links;
use crate::screens::timeline::{InlineVideo, Message};
use crate::steam::SteamAppData;
use crate::text;
use crate::tweets;
use crate::tweets::TweetData;

verus! {

// ---------------------------------------------------------------------------
// Tweets told from a plain link preview.
// ---------------------------------------------------------------------------
/// A tweet reconstructed from a plain link preview.
#[derive(Debug)]
pub struct TweetPreview {
    pub author: String,
    pub handle_line: Option<String>,
    pub text: String,
}

/// The host of a link, up to the path or the query.
pub open spec fn link_host(url: Seq<char>) -> Option<Seq<char>> {
    match links::after_scheme(url) {
        Some(rest) => Some(
            links::host_name(rest.take(text::find_from(rest, host_end(), 0))),
        ),
        None => None,
    }
}

/// The predicate "ends a host".
pub open spec fn host_end() -> spec_fn(char) -> bool {
    |c: char| c == '/' || c == '?'
}

/// Whether a plain preview of this host shows a tweet.
pub open spec fn preview_host(host: Seq<char>) -> bool {
    ||| host == "x.com"@
    ||| host == "twitter.com"@
    ||| host == "fxtwitter.com"@
    ||| host == "vxtwitter.com"@
    ||| host == "fixupx.com"@
}

/// A character, exotic spaces turned into plain ones.
pub open spec fn plain_space(c: char) -> char {
    if c == '\u{a0}' || c == '\u{202f}' || c == '\u{2009}' || c == '\u{2007}' {
        ' '
    } else {
        c
    }
}

/// A text, exotic spaces turned into plain ones.
pub open spec fn with_plain_spaces(s: Seq<char>) -> Seq<char> {
    s.map_values(|c: char| plain_space(c))
}

/// A text without trailing white space.
pub open spec fn trimmed_end(s: Seq<char>) -> Seq<char> {
    s.take(text::end_before(s, text::non_spaces(), s.len() as int))
}

/// The last index at or before `i` where `(@` stands.
pub open spec fn handle_at(s: Seq<char>, i: int) -> Option<int>
    decreases i + 1,
{
    if i < 0 {
        None
    } else if i + 1 < s.len() && s[i] == '(' && s[i + 1] == '@' {
        Some(i)
    } else {
        handle_at(s, i - 1)
    }
}

/// Whether a spaced-out dash stands at the index; a line feed counts as the
/// leading space.
pub open spec fn dash_at(s: Seq<char>, i: int) -> bool {
    &&& 0 <= i
    &&& i + 2 < s.len()
    &&& s[i] == ' ' || s[i] == '\n'
    &&& s[i + 1] == '—' || s[i + 1] == '–' || s[i + 1] == '―' || s[i + 1] == '-'
    &&& s[i + 2] == ' '
}

/// The last index at or before `i` where a spaced-out dash stands.
pub open spec fn last_dash(s: Seq<char>, i: int) -> Option<int>
    decreases i + 1,
{
    if i < 0 {
        None
    } else if dash_at(s, i) {
        Some(i)
    } else {
        last_dash(s, i - 1)
    }
}

/// Whether a word is the short link of a tweet's media.
pub open spec fn media_shortlink(w: Seq<char>) -> bool {
    let bare = if text::starts(w, "https://"@) {
        w.skip(8)
    } else {
        w
    };
    text::starts(bare, "t.co/"@) || text::starts(bare, "pic.twitter.com/"@) || text::starts(
        bare,
        "pic.x.com/"@,
    )
}

/// Where a text that ends at `n` ends without the short links behind it.
pub open spec fn links_stripped(s: Seq<char>, n: int) -> int
    decreases n,
    via links_stripped_decreases
{
    let w = text::end_before(s, text::spaces(), n);
    if n <= 0 || !media_shortlink(s.subrange(w, n)) {
        n
    } else if w <= 0 {
        0
    } else {
        links_stripped(s, text::end_before(s, text::non_spaces(), w - 1))
    }
}

#[via_fn]
proof fn links_stripped_decreases(s: Seq<char>, n: int) {
    if n > 0 {
        lemma_end_before_range(s, text::spaces(), n);
        let w = text::end_before(s, text::spaces(), n);
        lemma_end_before_range(s, text::non_spaces(), w - 1);
    }
}

proof fn lemma_end_before_range(s: Seq<char>, p: spec_fn(char) -> bool, i: int)
    ensures
        0 <= text::end_before(s, p, i),
        i >= 0 ==> text::end_before(s, p, i) <= i,
        i < 0 ==> text::end_before(s, p, i) == 0,
    decreases i,
{
    if i > 0 && !p(s[i - 1]) {
        lemma_end_before_range(s, p, i - 1);
    }
}

/// A text without trailing white space and the media short links there: noise
/// once the media shows.
pub open spec fn without_shortlinks(s: Seq<char>) -> Seq<char> {
    s.take(links_stripped(s, text::end_before(s, text::non_spaces(), s.len() as int)))
}

/// The author line of a tweet's description: the text's end, the author, the
/// handle and what follows it.
pub struct Attribution {
    pub text: Seq<char>,
    pub author: Seq<char>,
    pub handle: Seq<char>,
    pub date: Seq<char>,
}

/// The attribution that a description ends with: `text — author (@handle)
/// date`.
pub open spec fn attribution(d: Seq<char>) -> Option<Attribution> {
    match handle_at(d, d.len() - 1) {
        None => None,
        Some(at) => {
            let close = text::find_from(d, text::is_char(')'), at);
            let head = trimmed_end(d.take(at));
            if close >= d.len() {
                None
            } else {
                match last_dash(head, head.len() - 1) {
                    None => None,
                    Some(k) => Some(
                        Attribution {
                            text: without_shortlinks(text::trimmed(head.take(k))),
                            author: text::trimmed(head.skip(k + 3)),
                            handle: text::trimmed(d.subrange(at + 2, close)),
                            date: text::trimmed(d.skip(close + 1)),
                        },
                    ),
                }
            }
        },
    }
}

/// The handle line of an attribution.
pub open spec fn handle_text(a: Attribution) -> Seq<char> {
    if a.date.len() == 0 {
        seq!['@'] + a.handle
    } else {
        seq!['@'] + a.handle + " · "@ + a.date
    }
}

/// Whether this is the tweet that a preview of a tweet link shows.
pub open spec fn is_tweet_preview(t: TweetPreview, title: Option<String>, d: Seq<char>) -> bool {
    match attribution(d) {
        Some(a) => {
            &&& t.author@ == a.author
            &&& text::opt_view(t.handle_line) == Some(handle_text(a))
            &&& t.text@ == a.text
        },
        None => {
            &&& t.author@ == match title {
                Some(s) => s@,
                None => "X"@,
            }
            &&& t.handle_line is None
            &&& t.text@ == without_shortlinks(text::trimmed(d))
        },
    }
}

/// Whether a preview shows a tweet: by its host, and with a description.
pub open spec fn shows_tweet(p: UrlPreview) -> bool {
    &&& link_host(p.url@) matches Some(h) && preview_host(h)
    &&& p.description is Some
}

/// The host of a link.
fn host_of(url: &str) -> (r: Option<String>)
    ensures
        text::opt_view(r) == link_host(url@),
{
    let rest = match links::strip_scheme(url) {
        Some(rest) => rest,
        None => {
            return None;
        },
    };
    let v = text::chars(rest);
    let mut end: usize = 0;
    while end < v.len() && v[end] != '/' && v[end] != '?'
        invariant
            v@ == rest@,
            end <= v@.len(),
            text::find_from(rest@, host_end(), 0) == text::find_from(rest@, host_end(), end as int),
        decreases v@.len() - end,
    {
        end = end + 1;
    }
    let host = rest.substring_char(0, end);
    assert(host@ =~= rest@.take(end as int));
    Some(links::normal_host(host))
}

/// A text, exotic spaces turned into plain ones.
fn plain_spaces(s: &str) -> (r: String)
    ensures
        r@ == with_plain_spaces(s@),
{
    let v = text::chars(s);
    let mut r = String::new();
    let mut i: usize = 0;
    while i < v.len()
        invariant
            v@ == s@,
            i <= v@.len(),
            r@ == with_plain_spaces(s@).take(i as int),
        decreases v@.len() - i,
    {
        let c: char = v[i];
        r.push(
            if c == '\u{a0}' || c == '\u{202f}' || c == '\u{2009}' || c == '\u{2007}' {
                ' '
            } else {
                c
            },
        );
        i = i + 1;
        assert(r@ =~= with_plain_spaces(s@).take(i as int));
    }
    assert(r@ =~= with_plain_spaces(s@));
    r
}

/// Where a text ends without trailing white space.
fn end_without_space(v: &Vec<char>, n: usize) -> (r: usize)
    requires
        n <= v@.len(),
    ensures
        r == text::end_before(v@, text::non_spaces(), n as int),
        r <= n,
{
    let mut i: usize = n;
    while i > 0 && text::is_white_space(v[i - 1])
        invariant
            i <= n <= v@.len(),
            text::end_before(v@, text::non_spaces(), n as int) == text::end_before(
                v@,
                text::non_spaces(),
                i as int,
            ),
        decreases i,
    {
        i = i - 1;
    }
    i
}

/// Whether a word is the short link of a tweet's media.
fn is_media_shortlink(word: &str) -> (r: bool)
    ensures
        r == media_shortlink(word@),
{
    let n: usize = word.unicode_len();
    proof {
        reveal_strlit("https://");
    }
    let bare = if text::starts_with(word, "https://") {
        word.substring_char(8, n)
    } else {
        word
    };
    proof {
        if text::starts(word@, "https://"@) {
            assert(bare@ =~= word@.skip(8));
        }
    }
    text::starts_with(bare, "t.co/") || text::starts_with(bare, "pic.twitter.com/")
        || text::starts_with(bare, "pic.x.com/")
}

/// A text without trailing white space and the media short links there.
pub fn strip_trailing_tco(s: &str) -> (r: &str)
    ensures
        r@ == without_shortlinks(s@),
{
    let v = text::chars(s);
    let first: usize = end_without_space(&v, v.len());
    let mut n: usize = first;
    while n > 0
        invariant_except_break
            v@ == s@,
            n <= v@.len(),
            links_stripped(s@, first as int) == links_stripped(s@, n as int),
        ensures
            n <= v@.len(),
            n == links_stripped(s@, first as int),
        decreases n,
    {
        let w: usize = text::end_before_space(&v, n);
        let last = s.substring_char(w, n);
        if !is_media_shortlink(last) {
            break;
        }
        if w == 0 {
            n = 0;
            break;
        }
        n = end_without_space(&v, w - 1);
    }
    let r = s.substring_char(0, n);
    assert(r@ =~= without_shortlinks(s@));
    r
}

/// Where `(@` stands last.
fn find_handle(v: &Vec<char>) -> (r: Option<usize>)
    ensures
        match (r, handle_at(v@, v@.len() - 1)) {
            (Some(i), Some(k)) => i == k && i + 1 < v@.len() && v@[i as int] == '(' && v@[i + 1]
                == '@',
            (None, None) => true,
            _ => false,
        },
{
    let mut n: usize = v.len();
    let total: usize = n;
    while n > 0
        invariant
            total == v@.len(),
            n <= total,
            handle_at(v@, v@.len() - 1) == handle_at(v@, n - 1),
        decreases n,
    {
        let i: usize = n - 1;
        if n < total && v[i] == '(' && v[n] == '@' {
            return Some(i);
        }
        n = n - 1;
    }
    None
}

/// Where a spaced-out dash stands last.
fn find_dash(v: &Vec<char>) -> (r: Option<usize>)
    ensures
        match (r, last_dash(v@, v@.len() - 1)) {
            (Some(i), Some(k)) => i == k && i + 2 < v@.len(),
            (None, None) => true,
            _ => false,
        },
{
    let mut n: usize = v.len();
    let total: usize = n;
    while n > 0
        invariant
            total == v@.len(),
            n <= total,
            last_dash(v@, v@.len() - 1) == last_dash(v@, n - 1),
        decreases n,
    {
        let i: usize = n - 1;
        if total - i > 2 && (v[i] == ' ' || v[i] == '\n') && (v[i + 1] == '—' || v[i + 1] == '–'
            || v[i + 1] == '―' || v[i + 1] == '-') && v[i + 2] == ' ' {
            return Some(i);
        }
        n = n - 1;
    }
    None
}

/// The tweet that a description attributes, where its ending parses.
fn attributed(d: &str) -> (r: Option<TweetPreview>)
    ensures
        match (r, attribution(d@)) {
            (Some(t), Some(a)) => t.author@ == a.author && text::opt_view(t.handle_line)
                == Some(handle_text(a)) && t.text@ == a.text,
            (None, None) => true,
            _ => false,
        },
{
    let v = text::chars(d);
    let n: usize = v.len();
    let at: usize = match find_handle(&v) {
        Some(at) => at,
        None => {
            return None;
        },
    };
    let close: usize = text::find_char(&v, ')', at);
    if close >= n {
        return None;
    }
    proof {
        text::lemma_find_from(d@, text::is_char(')'), at as int);
        assert(text::is_char(')')(d@[close as int]));
    }
    let front = d.substring_char(0, at);
    let fv = text::chars(front);
    assert(front@ =~= d@.take(at as int));
    let head = front.substring_char(0, end_without_space(&fv, fv.len()));
    assert(head@ =~= trimmed_end(d@.take(at as int)));
    let hv = text::chars(head);
    let hn: usize = hv.len();
    let k: usize = match find_dash(&hv) {
        Some(k) => k,
        None => {
            return None;
        },
    };
    let handle = text::trim(d.substring_char(at + 2, close));
    let date = text::trim(d.substring_char(close + 1, n));
    assert(d@.subrange(close + 1, n as int) =~= d@.skip(close + 1));
    let author = text::trim(head.substring_char(k + 3, hn));
    assert(head@.subrange(k + 3, hn as int) =~= head@.skip(k + 3));
    let body = strip_trailing_tco(text::trim(head.substring_char(0, k)));
    assert(head@.subrange(0, k as int) =~= head@.take(k as int));
    let mut line = String::new();
    line.push('@');
    line.append(handle);
    if date.unicode_len() > 0 {
        line.append(" · ");
        line.append(date);
    }
    let ghost a = attribution(d@)->0;
    assert(line@ =~= handle_text(a));
    Some(
        TweetPreview { author: author.to_owned(), handle_line: Some(line), text: body.to_owned() },
    )
}

/// The tweet that a plain link preview shows, for the hosts that serve tweets.
/// The description holds the text, the author and the handle; where its
/// ending does not parse, the title is the author and all of it the text.
pub fn tweet_from_preview(preview: &UrlPreview) -> (r: Option<TweetPreview>)
    ensures
        match r {
            Some(t) => shows_tweet(*preview) && is_tweet_preview(
                t,
                preview.title,
                with_plain_spaces(preview.description->0@),
            ),
            None => !shows_tweet(*preview),
        },
{
    let host = match host_of(preview.url.as_str()) {
        Some(host) => host,
        None => {
            return None;
        },
    };
    let h = host.as_str();
    if !(text::str_eq(h, "x.com") || text::str_eq(h, "twitter.com") || text::str_eq(
        h,
        "fxtwitter.com",
    ) || text::str_eq(h, "vxtwitter.com") || text::str_eq(h, "fixupx.com")) {
        return None;
    }
    let description = match &preview.description {
        Some(d) => plain_spaces(d.as_str()),
        None => {
            return None;
        },
    };
    match attributed(description.as_str()) {
        Some(t) => Some(t),
        None => {
            let author = match &preview.title {
                Some(s) => s.clone(),
                None => "X".to_owned(),
            };
            let body = strip_trailing_tco(text::trim(description.as_str()));
            Some(TweetPreview { author, handle_line: None, text: body.to_owned() })
        },
    }
}

/// What a tweet's preview image is: a square of modest size is the author's
/// avatar, anything else the attached photo. Unknown dimensions count as an
/// avatar, so that a profile picture never shows huge.
pub fn is_avatar(preview: &UrlPreview) -> (r: bool)
    ensures
        r == avatar_like(*preview),
{
    match (preview.image_width, preview.image_height) {
        (Some(w), Some(h)) => w == h && w <= 500,
        _ => true,
    }
}

// ---------------------------------------------------------------------------
// Plain previews.
// ---------------------------------------------------------------------------
/// How much of a description a plain preview shows.
pub const PREVIEW_DESCRIPTION: usize = 180;

/// What a plain preview shows of a description: one line, cut.
pub fn preview_description(description: &str) -> (r: String)
    ensures
        r@ == text::cut_to(text::flattened(description@), PREVIEW_DESCRIPTION as int),
{
    text::cut(text::flatten_lines(description).as_str(), PREVIEW_DESCRIPTION)
}

/// The card of a homeserver's preview.
#[derive(Debug)]
pub enum PreviewCard {
    /// A tweet, with the author's avatar or its photo.
    Tweet { tweet: TweetPreview, avatar: Option<String>, photo: Option<String> },
    Plain {
        site: Option<String>,
        title: Option<String>,
        description: Option<String>,
        image: Option<String>,
    },
}

/// Whether a tweet's preview image is the author's avatar.
pub open spec fn avatar_like(p: UrlPreview) -> bool {
    match (p.image_width, p.image_height) {
        (Some(w), Some(h)) => w == h && w <= 500,
        _ => true,
    }
}

/// Whether this is the card of a preview.
pub open spec fn is_preview_card(c: PreviewCard, p: UrlPreview) -> bool {
    if shows_tweet(p) {
        c matches PreviewCard::Tweet { tweet, avatar, photo } && is_tweet_preview(
            tweet,
            p.title,
            with_plain_spaces(p.description->0@),
        ) && avatar == (if avatar_like(p) {
            p.image_mxc
        } else {
            None
        }) && photo == (if avatar_like(p) {
            None
        } else {
            p.image_mxc
        })
    } else {
        c matches PreviewCard::Plain { site, title, description, image } && site == p.site_name
            && title == p.title && text::opt_view(description) == (match p.description {
            Some(d) => Some(text::cut_to(text::flattened(d@), PREVIEW_DESCRIPTION as int)),
            None => None,
        }) && image == p.image_mxc
    }
}

/// The card of a homeserver's preview: a tweet shows as one.
pub fn preview_card(preview: &UrlPreview) -> (r: PreviewCard)
    ensures
        is_preview_card(r, *preview),
{
    match tweet_from_preview(preview) {
        Some(tweet) => {
            let image = text::clone_opt(&preview.image_mxc);
            if is_avatar(preview) {
                PreviewCard::Tweet { tweet, avatar: image, photo: None }
            } else {
                PreviewCard::Tweet { tweet, avatar: None, photo: image }
            }
        },
        None => PreviewCard::Plain {
            site: text::clone_opt(&preview.site_name),
            title: text::clone_opt(&preview.title),
            description: match &preview.description {
                Some(d) => Some(preview_description(d.as_str())),
                None => None,
            },
            image: text::clone_opt(&preview.image_mxc),
        },
    }
}

/// Which card a message's first link gets.
#[derive(Debug, Clone, Copy, PartialEq, Eq, Structural)]
pub enum CardKind {
    Video,
    Tweet,
    Steam,
    Preview,
    Nothing,
}

/// Whether a preview has anything to show.
pub open spec fn worth_showing(p: UrlPreview) -> bool {
    p.title is Some || p.description is Some || p.image_mxc is Some
}

/// Which card a link gets, by what is known of it.
pub open spec fn kind_of(is_video: bool, is_tweet: bool, is_app: bool, has_preview: bool) -> CardKind {
    if is_video {
        CardKind::Video
    } else if is_tweet {
        CardKind::Tweet
    } else if is_app {
        CardKind::Steam
    } else if has_preview {
        CardKind::Preview
    } else {
        CardKind::Nothing
    }
}

/// Which card a message's first link gets: a playable one for a video, a rich
/// one for a tweet or a store page, the plain preview otherwise.
pub fn card_for(
    is_video: bool,
    tweet: Option<&TweetData>,
    app: Option<&SteamAppData>,
    preview: Option<&UrlPreview>,
) -> (r: CardKind)
    ensures
        r == kind_of(
            is_video,
            tweet is Some,
            app is Some,
            preview matches Some(p) && worth_showing(*p),
        ),
{
    if is_video {
        return CardKind::Video;
    }
    if tweet.is_some() {
        return CardKind::Tweet;
    }
    if app.is_some() {
        return CardKind::Steam;
    }
    match preview {
        Some(p) => if p.title.is_some() || p.description.is_some() || p.image_mxc.is_some() {
            CardKind::Preview
        } else {
            CardKind::Nothing
        },
        None => CardKind::Nothing,
    }
}

// ---------------------------------------------------------------------------
// Videos.
// ---------------------------------------------------------------------------
/// A video's card.
#[derive(Debug)]
pub enum VideoCard {
    /// This message's video is playing: why it could not start, if it did
    /// not, and where to watch it then.
    Player { title: String, error: Option<String>, watch_url: String },
    /// A still to click on, with the preview's image, and what a click asks
    /// for. A message without an event id cannot play yet.
    Still { title: String, thumbnail: Option<String>, play: Option<Message> },
}

/// The title that a preview or the file gives a video.
pub open spec fn video_title(video: EmbedVideo, preview: Option<UrlPreview>) -> Option<String> {
    match preview {
        Some(p) => if p.title is Some {
            p.title
        } else {
            video.file_name
        },
        None => video.file_name,
    }
}

/// A title, or the platform's name.
pub open spec fn title_or_platform(title: Option<String>, video: EmbedVideo) -> Seq<char> {
    match title {
        Some(t) => t@,
        None => video.platform@,
    }
}

/// Whether the message's video is the one that plays.
pub open spec fn plays_here(
    inline: Option<InlineVideo>,
    event_id: Option<String>,
    video: EmbedVideo,
) -> bool {
    &&& inline matches Some(iv) && text::opt_view(event_id) == Some(iv.event_id@)
    &&& inline->0.video.platform@ == video.platform@
    &&& inline->0.video.id@ == video.id@
}

/// Whether this is the card of a message's video.
pub open spec fn is_video_card(
    r: VideoCard,
    video: EmbedVideo,
    preview: Option<UrlPreview>,
    event_id: Option<String>,
    inline: Option<InlineVideo>,
) -> bool {
    if plays_here(inline, event_id, video) {
        r matches VideoCard::Player { title, error, watch_url } && title@ == title_or_platform(
            inline->0.title,
            inline->0.video,
        ) && error == inline->0.error && watch_url == inline->0.video.watch_url
    } else {
        r matches VideoCard::Still { title, thumbnail, play } && title@ == title_or_platform(
            video_title(video, preview),
            video,
        ) && thumbnail == (match preview {
            Some(p) => p.image_mxc,
            None => None,
        }) && play == match event_id {
            Some(id) => Some(
                Message::PlayVideo {
                    event_id: id,
                    video: video,
                    title: video_title(video, preview),
                },
            ),
            None => None,
        }
    }
}

/// The card of a message's video. The video is compared too: the message may
/// have been edited to another link while it played.
pub fn embed_video_card(
    video: &EmbedVideo,
    preview: &Option<UrlPreview>,
    event_id: &Option<String>,
    inline: &Option<InlineVideo>,
) -> (r: VideoCard)
    ensures
        is_video_card(r, *video, *preview, *event_id, *inline),
{
    if let Some(iv) = inline {
        if let Some(id) = event_id {
            if text::str_eq(id.as_str(), iv.event_id.as_str()) && iv.video.same(video) {
                let title = match &iv.title {
                    Some(t) => t.clone(),
                    None => iv.video.platform.clone(),
                };
                return VideoCard::Player {
                    title,
                    error: text::clone_opt(&iv.error),
                    watch_url: iv.video.watch_url.clone(),
                };
            }
        }
    }
    let from_preview = match preview {
        Some(p) => text::clone_opt(&p.title),
        None => None,
    };
    let found = match from_preview {
        Some(t) => Some(t),
        None => text::clone_opt(&video.file_name),
    };
    let title = match &found {
        Some(t) => t.clone(),
        None => video.platform.clone(),
    };
    let play = match event_id {
        Some(id) => Some(
            Message::PlayVideo { event_id: id.clone(), video: video.copy(), title: found },
        ),
        None => None,
    };
    let thumbnail = match preview {
        Some(p) => text::clone_opt(&p.image_mxc),
        None => None,
    };
    VideoCard::Still { title, thumbnail, play }
}

// ---------------------------------------------------------------------------
// Rich tweets.
// ---------------------------------------------------------------------------
/// The line under a tweet: its time, then its views.
pub open spec fn footer_of(time: Option<String>, views: Option<u64>) -> Seq<char> {
    let t = match time {
        Some(s) => s@,
        None => Seq::empty(),
    };
    match views {
        Some(n) => (if t.len() > 0 {
            t + " · "@
        } else {
            t
        }) + floats::count_label(n as nat) + " Views"@,
        None => t,
    }
}

/// The line under a tweet: its time, as formatted for the reader's time zone,
/// then its views. Empty where nothing is known.
pub fn tweet_footer(time: &Option<String>, views: Option<u64>) -> (r: String)
    ensures
        r@ == footer_of(*time, views),
{
    let mut r = match time {
        Some(s) => s.clone(),
        None => String::new(),
    };
    if let Some(n) = views {
        if r.as_str().unicode_len() > 0 {
            r.append(" · ");
        }
        r.append(floats::compact_count(n).as_str());
        r.append(" Views");
    }
    assert(r@ =~= footer_of(*time, views));
    r
}

/// A count behind its glyph.
pub open spec fn stat(glyph: Seq<char>, n: Option<u64>) -> Seq<Seq<char>> {
    match n {
        Some(k) => seq![glyph + floats::count_label(k as nat)],
        None => Seq::empty(),
    }
}

/// Some texts, three spaces apart.
pub open spec fn spaced(parts: Seq<Seq<char>>) -> Seq<char>
    decreases parts.len(),
{
    if parts.len() == 0 {
        Seq::empty()
    } else if parts.len() == 1 {
        parts[0]
    } else {
        spaced(parts.drop_last()) + "   "@ + parts.last()
    }
}

/// The counts under a tweet: replies, reposts, likes, where known.
pub open spec fn stats_of(t: TweetData) -> Seq<Seq<char>> {
    stat("💬 "@, t.replies) + stat("🔁 "@, t.retweets) + stat("❤️ "@, t.likes)
}

/// Adds a count behind its glyph to a line.
fn push_stat(
    line: &mut String,
    glyph: &str,
    n: Option<u64>,
    Ghost(parts): Ghost<Seq<Seq<char>>>,
)
    requires
        old(line)@ == spaced(parts),
        forall|i: int| 0 <= i < parts.len() ==> (#[trigger] parts[i]).len() > 0,
        glyph@.len() > 0,
    ensures
        final(line)@ == spaced(parts + stat(glyph@, n)),
        forall|i: int|
            0 <= i < (parts + stat(glyph@, n)).len() ==> (#[trigger] (parts + stat(
                glyph@,
                n,
            ))[i]).len() > 0,
{
    let ghost all = parts + stat(glyph@, n);
    match n {
        Some(k) => {
            let label = floats::compact_count(k);
            let ghost before = line@;
            proof {
                lemma_spaced_empty(parts);
                let one = glyph@ + floats::count_label(k as nat);
                assert(all =~= parts.push(one));
                assert(all.drop_last() =~= parts);
                assert(all.last() == one);
            }
            if line.as_str().unicode_len() > 0 {
                line.append("   ");
            }
            line.append(glyph);
            line.append(label.as_str());
            proof {
                let one = glyph@ + floats::count_label(k as nat);
                if parts.len() == 0 {
                    assert(line@ =~= one);
                    assert(all.len() == 1 && all[0] == one);
                } else {
                    assert(line@ =~= spaced(parts) + "   "@ + one);
                }
            }
        },
        None => {
            assert(all =~= parts);
        },
    }
}

/// A line of texts is empty only without any.
proof fn lemma_spaced_empty(parts: Seq<Seq<char>>)
    requires
        forall|i: int| 0 <= i < parts.len() ==> (#[trigger] parts[i]).len() > 0,
    ensures
        spaced(parts).len() == 0 <==> parts.len() == 0,
{
    if parts.len() > 0 {
        assert(parts[parts.len() - 1].len() > 0);
    }
}

/// The counts under a tweet, in one line; empty where none is known.
pub fn tweet_stats(t: &TweetData) -> (r: String)
    ensures
        r@ == spaced(stats_of(*t)),
{
    let mut r = String::new();
    let ghost none = Seq::<Seq<char>>::empty();
    proof {
        reveal_strlit("💬 ");
        reveal_strlit("🔁 ");
        reveal_strlit("❤️ ");
    }
    push_stat(&mut r, "💬 ", t.replies, Ghost(none));
    push_stat(&mut r, "🔁 ", t.retweets, Ghost(none + stat("💬 "@, t.replies)));
    push_stat(
        &mut r,
        "❤️ ",
        t.likes,
        Ghost(none + stat("💬 "@, t.replies) + stat("🔁 "@, t.retweets)),
    );
    assert(none + stat("💬 "@, t.replies) + stat("🔁 "@, t.retweets) + stat("❤️ "@, t.likes)
        =~= stats_of(*t));
    r
}

/// A row of a tweet's photos: two beside each other, a single photo wide.
#[derive(Debug)]
pub struct PhotoRow {
    pub urls: Vec<String>,
    pub wide: bool,
}

/// What a tweet's card shows.
#[derive(Debug)]
pub struct TweetView {
    pub name: String,
    pub verified: bool,
    pub handle: String,
    pub avatar_url: Option<String>,
    pub text: String,
    pub photos: Vec<PhotoRow>,
    pub stills: Vec<String>,
    /// The quoted tweet, which has neither footer nor counts.
    pub quote: Option<Box<TweetView>>,
    pub footer: Option<String>,
    pub stats: Option<String>,
}

/// The photos of the row with index `i`.
pub open spec fn photo_row(photos: Seq<Seq<char>>, i: int) -> Seq<Seq<char>> {
    photos.subrange(
        2 * i,
        if 2 * i + 2 <= photos.len() {
            2 * i + 2
        } else {
            photos.len() as int
        },
    )
}

/// Whether these are the rows of some photos.
pub open spec fn are_rows(rows: Seq<PhotoRow>, photos: Seq<Seq<char>>) -> bool {
    &&& rows.len() == (photos.len() + 1) / 2
    &&& forall|i: int|
        0 <= i < rows.len() ==> text::views((#[trigger] rows[i]).urls@) == photo_row(photos, i)
            && rows[i].wide == (photos.len() == 1)
}

/// Whether this is what the card of a tweet shows.
pub open spec fn is_tweet_view(
    v: TweetView,
    t: TweetData,
    time: Option<String>,
    is_quote: bool,
) -> bool
    decreases t,
{
    &&& v.name@ == t.author.name@
    &&& v.verified == t.author.verified()
    &&& v.handle@ == seq!['@'] + t.author.screen_name@
    &&& v.avatar_url == t.author.avatar_url
    &&& v.text@ == t.text@
    &&& are_rows(v.photos@, t.photos_of())
    &&& text::views(v.stills@) == t.stills_of()
    &&& match (v.quote, t.quote) {
        (Some(a), Some(b)) => is_tweet_view(*a, *b, None, true),
        (None, None) => true,
        _ => false,
    }
    &&& text::opt_view(v.footer) == if is_quote || footer_of(time, t.views).len() == 0 {
        None
    } else {
        Some(footer_of(time, t.views))
    }
    &&& text::opt_view(v.stats) == if is_quote || stats_of(t).len() == 0 {
        None
    } else {
        Some(spaced(stats_of(t)))
    }
}

/// Some string slices, as strings of their own.
fn owned(v: &Vec<&str>, from: usize, to: usize) -> (r: Vec<String>)
    requires
        from <= to <= v@.len(),
    ensures
        text::views(r@) == tweets::slices(v@).subrange(from as int, to as int),
{
    let mut r: Vec<String> = Vec::new();
    let mut i: usize = from;
    while i < to
        invariant
            from <= i <= to <= v@.len(),
            r@.len() == i - from,
            forall|k: int| 0 <= k < r@.len() ==> (#[trigger] r@[k])@ == v@[k + from]@,
        decreases to - i,
    {
        r.push(v[i].to_owned());
        i = i + 1;
    }
    assert(text::views(r@) =~= tweets::slices(v@).subrange(from as int, to as int));
    r
}

/// The rows of some photos.
fn photo_rows(photos: &Vec<&str>) -> (r: Vec<PhotoRow>)
    ensures
        are_rows(r@, tweets::slices(photos@)),
{
    let n: usize = photos.len();
    let ghost all = tweets::slices(photos@);
    let mut r: Vec<PhotoRow> = Vec::new();
    let mut a: usize = 0;
    while a < n
        invariant
            n == photos@.len(),
            all == tweets::slices(photos@),
            a <= n,
            a < n ==> a == 2 * r@.len(),
            a == n ==> r@.len() == (n + 1) / 2,
            forall|i: int|
                0 <= i < r@.len() ==> text::views((#[trigger] r@[i]).urls@) == photo_row(all, i)
                    && r@[i].wide == (n == 1),
        decreases n - a,
    {
        let b: usize = if n - a >= 2 {
            a + 2
        } else {
            n
        };
        let urls = owned(photos, a, b);
        let ghost k = r@.len() as int;
        assert(photo_row(all, k) == all.subrange(a as int, b as int));
        r.push(PhotoRow { urls, wide: n == 1 });
        a = b;
    }
    r
}

/// What a tweet's card shows. The footer and the counts show on the tweet
/// itself, not on one that it quotes.
pub fn tweet_body(t: &TweetData, time: &Option<String>, is_quote: bool) -> (r: TweetView)
    ensures
        is_tweet_view(r, *t, *time, is_quote),
    decreases t,
{
    let photos = t.photo_urls();
    let stills = t.video_thumbnail_urls();
    let quote = match &t.quote {
        Some(q) => Some(Box::new(tweet_body(&**q, &None, true))),
        None => None,
    };
    let footer = tweet_footer(time, t.views);
    let stats = tweet_stats(t);
    proof {
        assert(tweets::slices(stills@).subrange(0, stills@.len() as int) =~= tweets::slices(
            stills@,
        ));
        assert forall|i: int| 0 <= i < stats_of(*t).len() implies (#[trigger] stats_of(
            *t,
        )[i]).len() > 0 by {
            reveal_strlit("💬 ");
            reveal_strlit("🔁 ");
            reveal_strlit("❤️ ");
        }
        lemma_spaced_empty(stats_of(*t));
    }
    let mut handle = String::new();
    handle.push('@');
    handle.append(t.author.screen_name.as_str());
    assert(handle@ =~= seq!['@'] + t.author.screen_name@);
    TweetView {
        name: t.author.name.clone(),
        verified: t.author.is_verified(),
        handle,
        avatar_url: text::clone_opt(&t.author.avatar_url),
        text: t.text.clone(),
        photos: photo_rows(&photos),
        stills: owned(&stills, 0, stills.len()),
        quote,
        footer: if is_quote || footer.as_str().unicode_len() == 0 {
            None
        } else {
            Some(footer)
        },
        stats: if is_quote || stats.as_str().unicode_len() == 0 {
            None
        } else {
            Some(stats)
        },
    }
}

// ---------------------------------------------------------------------------
// Store pages.
// ---------------------------------------------------------------------------
/// How much of its description a store card shows.
pub const STORE_DESCRIPTION: usize = 220;

/// What stands before the button of a store card.
#[derive(Debug)]
pub enum PriceLine {
    Nothing,
    Price(String),
    Free(&'static str),
    Coming(String),
}

/// What a store card shows.
#[derive(Debug)]
pub struct SteamCard {
    pub title: String,
    /// The capsule art.
    pub art: Option<String>,
    pub description: Option<String>,
    pub platforms: Option<String>,
    /// The discount badge.
    pub badge: Option<String>,
    /// The struck-through price before the discount.
    pub struck: Option<String>,
    pub price: PriceLine,
    pub button: &'static str,
}

/// The names of the platforms, in order.
pub open spec fn platform_names(windows: bool, mac: bool, linux: bool) -> Seq<Seq<char>> {
    (if windows {
        seq!["Windows"@]
    } else {
        Seq::empty()
    }) + (if mac {
        seq!["macOS"@]
    } else {
        Seq::empty()
    }) + (if linux {
        seq!["Linux"@]
    } else {
        Seq::empty()
    })
}

/// Some names with a middle dot between them.
pub open spec fn dotted(names: Seq<Seq<char>>) -> Seq<char>
    decreases names.len(),
{
    if names.len() == 0 {
        Seq::empty()
    } else if names.len() == 1 {
        names[0]
    } else {
        dotted(names.drop_last()) + " · "@ + names.last()
    }
}

/// The platform line of a store card.
pub open spec fn platform_line(d: SteamAppData) -> Option<Seq<char>> {
    match d.platforms {
        Some(p) => if p.windows || p.mac || p.linux {
            Some(dotted(platform_names(p.windows, p.mac, p.linux)))
        } else {
            None
        },
        None => None,
    }
}

/// The price line of a store card.
pub open spec fn is_price_line(l: PriceLine, d: SteamAppData) -> bool {
    match d.price_overview {
        Some(p) => l matches PriceLine::Price(s) && s@ == p.final_formatted@,
        None => if d.is_free {
            l matches PriceLine::Free(s) && s@ == "Free To Play"@
        } else {
            match d.release_date {
                Some(r) => if r.coming_soon && r.date@.len() > 0 {
                    l matches PriceLine::Coming(s) && s@ == "Coming "@ + r.date@
                } else {
                    l is Nothing
                },
                None => l is Nothing,
            }
        },
    }
}

/// Whether this is what the card of an app shows.
pub open spec fn is_steam_card(c: SteamCard, d: SteamAppData) -> bool {
    &&& c.title@ == "Buy "@ + d.name@
    &&& c.art == d.header_image
    &&& text::opt_view(c.description) == match d.short_description {
        Some(s) => Some(text::cut_to(text::flattened(s@), STORE_DESCRIPTION as int)),
        None => None,
    }
    &&& text::opt_view(c.platforms) == platform_line(d)
    &&& text::opt_view(c.badge) == match d.price_overview {
        Some(p) => if p.discount_percent > 0 {
            Some(seq!['-'] + text::decimal(p.discount_percent as nat) + seq!['%'])
        } else {
            None
        },
        None => None,
    }
    &&& text::opt_view(c.struck) == match d.price_overview {
        Some(p) => if p.discount_percent > 0 && p.initial_formatted@.len() > 0 {
            Some(p.initial_formatted@)
        } else {
            None
        },
        None => None,
    }
    &&& is_price_line(c.price, d)
    &&& c.button@ == if d.price_overview is Some {
        "Buy on Steam"@
    } else if d.is_free {
        "Play on Steam"@
    } else {
        "View on Steam"@
    }
}

/// The platform line of a store card.
fn platforms_of(d: &SteamAppData) -> (r: Option<String>)
    ensures
        text::opt_view(r) == platform_line(*d),
{
    proof {
        reveal_with_fuel(dotted, 4);
    }
    match &d.platforms {
        Some(p) => {
            let ghost names = platform_names(p.windows, p.mac, p.linux);
            let mut r = String::new();
            let mut any = false;
            if p.windows {
                r.append("Windows");
                any = true;
            }
            if p.mac {
                if any {
                    r.append(" · ");
                }
                r.append("macOS");
                any = true;
            }
            if p.linux {
                if any {
                    r.append(" · ");
                }
                r.append("Linux");
                any = true;
            }
            proof {
                if names.len() == 1 {
                    assert(r@ =~= names[0]);
                } else if names.len() == 2 {
                    assert(names.drop_last() =~= seq![names[0]]);
                    assert(r@ =~= names[0] + " · "@ + names[1]);
                } else if names.len() == 3 {
                    assert(names.drop_last() =~= seq![names[0], names[1]]);
                    assert(names.drop_last().drop_last() =~= seq![names[0]]);
                    assert(r@ =~= names[0] + " · "@ + names[1] + " · "@ + names[2]);
                }
            }
            if any {
                Some(r)
            } else {
                None
            }
        },
        None => None,
    }
}

/// What the card of a store page shows: the art, the description, the
/// platforms, and the price with its discount, or what takes its place.
pub fn steam_card(d: &SteamAppData) -> (r: SteamCard)
    ensures
        is_steam_card(r, *d),
{
    let description = match &d.short_description {
        Some(s) => Some(text::cut(text::flatten_lines(s.as_str()).as_str(), STORE_DESCRIPTION)),
        None => None,
    };
    let mut badge: Option<String> = None;
    let mut struck: Option<String> = None;
    let mut price = PriceLine::Nothing;
    let mut button: &'static str = "View on Steam";
    if let Some(p) = &d.price_overview {
        button = "Buy on Steam";
        if p.discount_percent > 0 {
            let mut b = String::new();
            b.push('-');
            b.append(text::decimal_string(p.discount_percent as u64).as_str());
            b.push('%');
            assert(b@ =~= seq!['-'] + text::decimal(p.discount_percent as nat) + seq!['%']);
            badge = Some(b);
            if p.initial_formatted.as_str().unicode_len() > 0 {
                struck = Some(p.initial_formatted.clone());
            }
        }
        price = PriceLine::Price(p.final_formatted.clone());
    } else if d.is_free {
        button = "Play on Steam";
        price = PriceLine::Free("Free To Play");
    } else if let Some(r) = &d.release_date {
        if r.coming_soon && r.date.as_str().unicode_len() > 0 {
            price = PriceLine::Coming(text::join2("Coming ", r.date.as_str()));
        }
    }
    SteamCard {
        title: text::join2("Buy ", d.name.as_str()),
        art: text::clone_opt(&d.header_image),
        description,
        platforms: platforms_of(d),
        badge,
        struck,
        price,
        button,
    }
}

// ---------------------------------------------------------------------------
// Quoting a message.
// ---------------------------------------------------------------------------
/// How much of a message its quote shows.
pub const SNIPPET: usize = 90;

/// The one-line summary of a message.
pub open spec fn snippet_of(c: TimelineItemContent) -> Seq<char> {
    match c {
        TimelineItemContent::Text(b) => text::cut_to(text::flattened(b@), SNIPPET as int),
        TimelineItemContent::Emote(b) => text::cut_to(text::flattened(b@), SNIPPET as int),
        TimelineItemContent::Image { caption, .. } => match caption {
            Some(s) => "[image: "@ + s@ + "]"@,
            None => "[image]"@,
        },
        TimelineItemContent::Sticker { .. } => "[sticker]"@,
        TimelineItemContent::File { filename, .. } => "[file: "@ + filename@ + "]"@,
        TimelineItemContent::Redacted => "(message removed)"@,
        TimelineItemContent::MembershipChange(d) => d@,
        TimelineItemContent::DateDivider(_) => Seq::empty(),
        TimelineItemContent::NewMessagesDivider => Seq::empty(),
    }
}

/// The one-line summary of a message, for quoting it in the composer.
pub fn ui_snippet(content: &TimelineItemContent) -> (r: String)
    ensures
        r@ == snippet_of(*content),
{
    match content {
        TimelineItemContent::Text(b) => {
            text::cut(text::flatten_lines(b.as_str()).as_str(), SNIPPET)
        },
        TimelineItemContent::Emote(b) => {
            text::cut(text::flatten_lines(b.as_str()).as_str(), SNIPPET)
        },
        TimelineItemContent::Image { caption, .. } => match caption {
            Some(s) => text::join3("[image: ", s.as_str(), "]"),
            None => "[image]".to_owned(),
        },
        TimelineItemContent::Sticker { .. } => "[sticker]".to_owned(),
        TimelineItemContent::File { filename, .. } => {
            text::join3("[file: ", filename.as_str(), "]")
        },
        TimelineItemContent::Redacted => "(message removed)".to_owned(),
        TimelineItemContent::MembershipChange(d) => d.clone(),
        TimelineItemContent::DateDivider(_) => String::new(),
        TimelineItemContent::NewMessagesDivider => String::new(),
    }
}

// ---------------------------------------------------------------------------
// Laws.
// ---------------------------------------------------------------------------
/// Whether a text neither begins nor ends with white space.
pub open spec fn firm(s: Seq<char>) -> bool {
    s.len() > 0 && !text::white_space(s[0]) && !text::white_space(s[s.len() - 1])
}

proof fn lemma_firm(s: Seq<char>)
    requires
        firm(s),
    ensures
        text::trimmed(s) == s,
{
    let none = Seq::<char>::empty();
    text::law_trimming_takes_white_space_off(none, s, none);
    assert(none + s + none =~= s);
}

proof fn lemma_end_is(s: Seq<char>, p: spec_fn(char) -> bool, i: int, k: int)
    requires
        0 <= k <= i <= s.len(),
        forall|j: int| k <= j < i ==> !p(#[trigger] s[j]),
        k > 0 ==> p(s[k - 1]),
    ensures
        text::end_before(s, p, i) == k,
    decreases i,
{
    if i > k {
        assert(!p(s[i - 1]));
        lemma_end_is(s, p, i - 1, k);
    }
}

/// A text whose last word is no short link of media stays as it is.
pub proof fn law_text_without_short_links_stays(front: Seq<char>, word: Seq<char>)
    requires
        front.len() > 0 ==> text::white_space(front[front.len() - 1]),
        word.len() > 0,
        forall|i: int| 0 <= i < word.len() ==> !text::white_space(#[trigger] word[i]),
        !media_shortlink(word),
    ensures
        without_shortlinks(front + word) == front + word,
{
    let s = front + word;
    let n = s.len() as int;
    let k = front.len() as int;
    assert(s[n - 1] == word[word.len() - 1]);
    assert(text::non_spaces()(s[n - 1]));
    lemma_end_is(s, text::non_spaces(), n, n);
    assert forall|j: int| k <= j < n implies !text::spaces()(#[trigger] s[j]) by {
        assert(s[j] == word[j - k]);
    }
    if k > 0 {
        assert(s[k - 1] == front[k - 1]);
    }
    lemma_end_is(s, text::spaces(), n, k);
    assert(s.subrange(k, n) =~= word);
    assert(s.take(n) =~= s);
}

proof fn lemma_end_prefix(s: Seq<char>, t: Seq<char>, p: spec_fn(char) -> bool, i: int)
    requires
        i <= s.len(),
    ensures
        text::end_before(s + t, p, i) == text::end_before(s, p, i),
    decreases i,
{
    if i > 0 {
        assert((s + t)[i - 1] == s[i - 1]);
        lemma_end_prefix(s, t, p, i - 1);
    }
}

proof fn lemma_stripped_prefix(s: Seq<char>, t: Seq<char>, n: int)
    requires
        0 <= n <= s.len(),
    ensures
        links_stripped(s + t, n) == links_stripped(s, n),
        links_stripped(s, n) <= n,
        0 <= links_stripped(s, n),
    decreases n,
{
    if n > 0 {
        lemma_end_prefix(s, t, text::spaces(), n);
        lemma_end_before_range(s, text::spaces(), n);
        let w = text::end_before(s, text::spaces(), n);
        assert((s + t).subrange(w, n) =~= s.subrange(w, n));
        if w > 0 {
            lemma_end_prefix(s, t, text::non_spaces(), w - 1);
            lemma_end_before_range(s, text::non_spaces(), w - 1);
            lemma_stripped_prefix(s, t, text::end_before(s, text::non_spaces(), w - 1));
        }
    }
}

/// Short links of media behind a text go, one by one, with the white space
/// before them.
pub proof fn law_short_links_go(text_before: Seq<char>, gap: char, link: Seq<char>)
    requires
        text::white_space(gap),
        link.len() > 0,
        forall|i: int| 0 <= i < link.len() ==> !text::white_space(#[trigger] link[i]),
        media_shortlink(link),
    ensures
        without_shortlinks(text_before + seq![gap] + link) == without_shortlinks(text_before),
        without_shortlinks(link) == Seq::<char>::empty(),
{
    let s = text_before + seq![gap] + link;
    let n = s.len() as int;
    let m = text_before.len() as int;
    let k = m + 1;
    assert(s[n - 1] == link[link.len() - 1]);
    assert(text::non_spaces()(s[n - 1]));
    lemma_end_is(s, text::non_spaces(), n, n);
    assert forall|j: int| k <= j < n implies !text::spaces()(#[trigger] s[j]) by {
        assert(s[j] == link[j - k]);
    }
    assert(s[k - 1] == gap);
    lemma_end_is(s, text::spaces(), n, k);
    assert(s.subrange(k, n) =~= link);
    let e = text::end_before(text_before, text::non_spaces(), m);
    let rest = seq![gap] + link;
    assert(s =~= text_before + rest);
    lemma_end_prefix(text_before, rest, text::non_spaces(), m);
    lemma_end_before_range(text_before, text::non_spaces(), m);
    lemma_stripped_prefix(text_before, rest, e);
    let c = links_stripped(text_before, e);
    assert(s.take(c) =~= text_before.take(c));
    let l = link.len() as int;
    assert(text::non_spaces()(link[l - 1]));
    lemma_end_is(link, text::non_spaces(), l, l);
    assert forall|j: int| 0 <= j < l implies !text::spaces()(#[trigger] link[j]) by {}
    lemma_end_is(link, text::spaces(), l, 0);
    assert(link.subrange(0, l) =~= link);
    assert(link.take(0) =~= Seq::<char>::empty());
}

proof fn lemma_handle_at(d: Seq<char>, at: int, i: int)
    requires
        0 <= at <= i < d.len(),
        at + 1 < d.len(),
        d[at] == '(' && d[at + 1] == '@',
        forall|j: int| at < j < d.len() ==> #[trigger] d[j] != '(',
    ensures
        handle_at(d, i) == Some(at),
    decreases i,
{
    if i > at {
        assert(d[i] != '(');
        lemma_handle_at(d, at, i - 1);
    }
}

proof fn lemma_last_dash(s: Seq<char>, k: int, i: int)
    requires
        0 <= k <= i < s.len(),
        dash_at(s, k),
        forall|j: int|
            k + 1 < j < s.len() ==> #[trigger] s[j] != '—' && s[j] != '–' && s[j] != '―' && s[j]
                != '-',
    ensures
        last_dash(s, i) == Some(k),
    decreases i,
{
    if i > k {
        if i + 2 < s.len() {
            assert(s[i + 1] != '—');
        }
        assert(!dash_at(s, i));
        lemma_last_dash(s, k, i - 1);
    }
}

/// A description that ends in `— author (@handle) date` shows as a tweet by
/// that author, with the handle and the date on one line, and the text is what
/// stands before the dash.
pub proof fn law_a_described_tweet_is_read(
    t: TweetPreview,
    title: Option<String>,
    body: Seq<char>,
    dash: char,
    author: Seq<char>,
    handle: Seq<char>,
    tail: Seq<char>,
)
    requires
        firm(body),
        without_shortlinks(body) == body,
        dash == '—' || dash == '–' || dash == '―' || dash == '-',
        firm(author),
        forall|j: int|
            0 <= j < author.len() ==> #[trigger] author[j] != '—' && author[j] != '–' && author[j]
                != '―' && author[j] != '-',
        firm(handle),
        !handle.contains('(') && !handle.contains(')'),
        !tail.contains('('),
        is_tweet_preview(
            t,
            title,
            body + seq![' ', dash, ' '] + author + seq![' ', '(', '@'] + handle + seq![')'] + tail,
        ),
    ensures
        t.author@ == author,
        t.text@ == body,
        t.handle_line is Some,
        text::trimmed(tail).len() == 0 ==> t.handle_line->0@ == seq!['@'] + handle,
        text::trimmed(tail).len() > 0 ==> t.handle_line->0@ == seq!['@'] + handle + " · "@
            + text::trimmed(tail),
{
    let lead = body + seq![' ', dash, ' '] + author;
    let d = lead + seq![' ', '(', '@'] + handle + seq![')'] + tail;
    let n = lead.len() as int;
    let at = n + 1;
    let h = at + 2;
    let close = h + handle.len();
    assert(d[at] == '(' && d[at + 1] == '@');
    assert forall|j: int| at < j < d.len() implies #[trigger] d[j] != '(' by {
        if h <= j < close {
            assert(d[j] == handle[j - h]);
            assert(handle.contains(handle[j - h]));
        } else if j > close {
            assert(d[j] == tail[j - close - 1]);
            assert(tail.contains(tail[j - close - 1]));
        }
    }
    lemma_handle_at(d, at, d.len() - 1);
    let p = text::is_char(')');
    assert forall|j: int| at <= j < close implies !p(#[trigger] d[j]) by {
        if j >= h {
            assert(d[j] == handle[j - h]);
            assert(handle.contains(handle[j - h]));
        }
    }
    assert(d[close] == ')');
    text::lemma_find_from_is(d, p, at, close);
    let front = d.take(at);
    assert(front =~= lead + seq![' ']);
    assert(front[n] == ' ');
    assert(front[n - 1] == author[author.len() - 1]);
    assert(!text::non_spaces()(front[n])) by {
        assert(text::white_space(' '));
    }
    assert(text::non_spaces()(front[n - 1]));
    lemma_end_is(front, text::non_spaces(), at, n);
    let head = trimmed_end(front);
    assert(head =~= lead);
    let k = body.len() as int;
    assert(head[k] == ' ' && head[k + 1] == dash && head[k + 2] == ' ');
    assert forall|j: int| k + 1 < j < head.len() implies #[trigger] head[j] != '—' && head[j] != '–'
        && head[j] != '―' && head[j] != '-' by {
        if j > k + 2 {
            assert(head[j] == author[j - k - 3]);
        }
    }
    lemma_last_dash(head, k, head.len() - 1);
    assert(head.take(k) =~= body);
    assert(head.skip(k + 3) =~= author);
    assert(d.subrange(h, close) =~= handle);
    assert(d.skip(close + 1) =~= tail);
    lemma_firm(body);
    lemma_firm(author);
    lemma_firm(handle);
}

/// The card of a store page says what the store says: the price, struck
/// through with its discount where there is one; that it is free, or when it
/// comes; and the platforms.
pub proof fn law_what_a_store_card_says(c: SteamCard, d: SteamAppData)
    requires
        is_steam_card(c, d),
    ensures
        c.title@ == "Buy "@ + d.name@,
        c.art == d.header_image,
        d.price_overview matches Some(p) ==> c.price is Price && c.price->Price_0@
            == p.final_formatted@ && c.button@ == "Buy on Steam"@,
        d.price_overview matches Some(p) ==> p.discount_percent > 0 ==> c.badge is Some
            && c.badge->0@ == seq!['-'] + text::decimal(p.discount_percent as nat) + seq!['%'],
        d.price_overview matches Some(p) ==> p.discount_percent > 0 && p.initial_formatted@.len()
            > 0 ==> c.struck is Some && c.struck->0@ == p.initial_formatted@,
        d.price_overview matches Some(p) ==> p.discount_percent == 0 ==> c.badge is None && c.struck
            is None,
        d.price_overview is None && d.is_free ==> c.price is Free && c.button@ == "Play on Steam"@,
        d.price_overview is None && !d.is_free ==> c.button@ == "View on Steam"@ && !(c.price
            is Free) && !(c.price is Price),
        d.price_overview is None && !d.is_free ==> (d.release_date matches Some(r)
            ==> r.coming_soon && r.date@.len() > 0 ==> c.price is Coming && c.price->Coming_0@
            == "Coming "@ + r.date@),
        d.platforms matches Some(p) ==> p.windows && !p.mac && !p.linux ==> c.platforms is Some
            && c.platforms->0@ == "Windows"@,
        d.platforms matches Some(p) ==> !p.windows && p.mac && !p.linux ==> c.platforms is Some
            && c.platforms->0@ == "macOS"@,
        d.platforms matches Some(p) ==> !p.windows && !p.mac && p.linux ==> c.platforms is Some
            && c.platforms->0@ == "Linux"@,
        d.platforms matches Some(p) ==> p.windows && p.mac && p.linux ==> c.platforms is Some
            && c.platforms->0@ == "Windows"@ + " · "@ + "macOS"@ + " · "@ + "Linux"@,
        d.short_description matches Some(s) ==> c.description is Some && c.description->0@
            == text::cut_to(text::flattened(s@), 220),
{
    if let Some(p) = d.platforms {
        let names = platform_names(p.windows, p.mac, p.linux);
        reveal_with_fuel(dotted, 4);
        if p.windows && p.mac && p.linux {
            assert(names =~= seq!["Windows"@, "macOS"@, "Linux"@]);
            assert(names.drop_last() =~= seq!["Windows"@, "macOS"@]);
            assert(names.drop_last().drop_last() =~= seq!["Windows"@]);
        } else if p.windows && !p.mac && !p.linux {
            assert(names =~= seq!["Windows"@]);
        } else if !p.windows && p.mac && !p.linux {
            assert(names =~= seq!["macOS"@]);
        } else if !p.windows && !p.mac && p.linux {
            assert(names =~= seq!["Linux"@]);
        }
    }
}

/// The card of a tweet says what the tweet says: who wrote it, what, with
/// which photos, two to a row, and how it was received.
pub proof fn law_what_a_tweet_card_says(
    v: TweetView,
    t: TweetData,
    time: Option<String>,
    is_quote: bool,
    n: int,
)
    requires
        is_tweet_view(v, t, time, is_quote),
    ensures
        v.name@ == t.author.name@,
        v.handle@ == seq!['@'] + t.author.screen_name@,
        v.text@ == t.text@,
        v.avatar_url == t.author.avatar_url,
        v.verified == (t.author.verification matches Some(x) && x.verified),
        t.media matches Some(m) ==> 0 <= n < m.photos@.len() ==> n / 2 < v.photos@.len() && n % 2
            < v.photos@[n / 2].urls@.len() && v.photos@[n / 2].urls@[n % 2]@ == m.photos@[n].url@,
        (v.quote is Some) == (t.quote is Some),
        v.quote matches Some(q) ==> q.text@ == t.quote->0.text@ && q.name@ == t.quote->0.author.name@,
        is_quote ==> v.footer is None && v.stats is None,
        !is_quote && time is Some && time->0@.len() > 0 && t.views is None ==> v.footer is Some
            && v.footer->0@ == time->0@,
        !is_quote && time is None && t.views is Some ==> v.footer is Some && v.footer->0@
            == floats::count_label(t.views->0 as nat) + " Views"@,
        !is_quote && t.replies is Some && t.retweets is None && t.likes is None ==> v.stats is Some
            && v.stats->0@ == "💬 "@ + floats::count_label(t.replies->0 as nat),
        !is_quote && t.likes is Some && t.retweets is None && t.replies is None ==> v.stats is Some
            && v.stats->0@ == "❤️ "@ + floats::count_label(t.likes->0 as nat),
{
    reveal_with_fuel(is_tweet_view, 2);
    reveal_with_fuel(spaced, 2);
    if let Some(m) = t.media {
        if 0 <= n < m.photos@.len() {
            let i = n / 2;
            let photos = t.photos_of();
            assert(i < (photos.len() + 1) / 2);
            let row = v.photos@[i].urls@;
            assert(text::views(row) == photo_row(photos, i));
            assert(text::views(row).len() == row.len());
            assert(text::views(row)[n % 2] == row[n % 2]@);
            assert(photo_row(photos, i)[n % 2] == photos[n]);
        }
    }
    if !is_quote && time is None && t.views is Some {
        let l = floats::count_label(t.views->0 as nat) + " Views"@;
        reveal_strlit(" Views");
        assert(Seq::<char>::empty() + floats::count_label(t.views->0 as nat) + " Views"@ =~= l);
        assert(l.len() > 0);
    }
    if t.replies is Some && t.retweets is None && t.likes is None {
        let one = "💬 "@ + floats::count_label(t.replies->0 as nat);
        assert(stats_of(t) =~= seq![one]);
    }
    if t.likes is Some && t.retweets is None && t.replies is None {
        let one = "❤️ "@ + floats::count_label(t.likes->0 as nat);
        assert(stats_of(t) =~= seq![one]);
    }
}

/// A quote of a message in the composer says what the message holds.
pub proof fn law_what_a_quote_says(c: TimelineItemContent)
    ensures
        c matches TimelineItemContent::Text(b) ==> snippet_of(c) == text::cut_to(
            text::flattened(b@),
            90,
        ),
        c matches TimelineItemContent::Emote(b) ==> snippet_of(c) == text::cut_to(
            text::flattened(b@),
            90,
        ),
        c matches TimelineItemContent::Image { caption: Some(s), .. } ==> snippet_of(c)
            == "[image: "@ + s@ + "]"@,
        c matches TimelineItemContent::Image { caption: None, .. } ==> snippet_of(c) == "[image]"@,
        c matches TimelineItemContent::File { filename, .. } ==> snippet_of(c) == "[file: "@
            + filename@ + "]"@,
        c is Sticker ==> snippet_of(c) == "[sticker]"@,
        c is Redacted ==> snippet_of(c) == "(message removed)"@,
        c matches TimelineItemContent::MembershipChange(s) ==> snippet_of(c) == s@,
{
}

/// A plain preview shows what the homeserver found, and a preview on a host
/// that serves tweets shows as one, with the image as the author's avatar
/// where it is small and square.
pub proof fn law_what_a_preview_shows(c: PreviewCard, p: UrlPreview)
    requires
        is_preview_card(c, p),
    ensures
        c matches PreviewCard::Plain { site, title, description, image } ==> site == p.site_name
            && title == p.title && image == p.image_mxc && (p.description matches Some(d)
            ==> description is Some && description->0@ == text::cut_to(text::flattened(d@), 180)),
        p.description is None ==> c is Plain,
        c matches PreviewCard::Tweet { tweet, avatar, photo } ==> {
            &&& p.image_width is Some && p.image_height is Some && p.image_width->0
                != p.image_height->0 ==> photo == p.image_mxc && avatar is None
            &&& p.image_width is Some && p.image_height is Some && p.image_width->0
                == p.image_height->0 && p.image_width->0 <= 500 ==> avatar == p.image_mxc && photo
                is None
        },
{
}

/// Which card a link gets: a video before a tweet before a store page before a
/// plain preview.
pub proof fn law_which_card_a_link_gets(video: bool, tweet: bool, app: bool, preview: bool)
    ensures
        (kind_of(video, tweet, app, preview) is Video) == video,
        (kind_of(video, tweet, app, preview) is Tweet) == (!video && tweet),
        (kind_of(video, tweet, app, preview) is Steam) == (!video && !tweet && app),
        (kind_of(video, tweet, app, preview) is Preview) == (!video && !tweet && !app && preview),
{
}

/// The card of a video plays that video in that message, and the one that
/// plays shows its own title, its own error and its own page.
pub proof fn law_what_a_video_card_does(
    r: VideoCard,
    video: EmbedVideo,
    preview: Option<UrlPreview>,
    event_id: Option<String>,
    inline: Option<InlineVideo>,
)
    requires
        is_video_card(r, video, preview, event_id, inline),
    ensures
        inline is None ==> r is Still,
        r matches VideoCard::Still { title, thumbnail, play } ==> {
            &&& (play is Some) == (event_id is Some)
            &&& play matches Some(m) ==> m is PlayVideo && m->PlayVideo_event_id == event_id->0
                && m->PlayVideo_video == video
            &&& preview matches Some(p) ==> thumbnail == p.image_mxc
            &&& preview matches Some(p) ==> p.title matches Some(t) ==> title@ == t@
            &&& preview is None && video.file_name is None ==> title@ == video.platform@
        },
        r matches VideoCard::Player { title, error, watch_url } ==> inline is Some && event_id
            is Some && inline->0.event_id@ == event_id->0@ && error == inline->0.error && watch_url
            == inline->0.video.watch_url,
{
}

} // verus!
