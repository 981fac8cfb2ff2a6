//! Rich tweet previews: which links are tweets, where their data is fetched,
//! and what an answer of that service means.

use vstd::prelude::*;

use crate::links;
use crate::text;

verus! {

/// Whether an author is verified.
#[derive(Debug)]
pub struct TweetVerification {
    pub verified: bool,
}

/// The author of a tweet.
#[derive(Debug)]
pub struct TweetAuthor {
    pub name: String,
    pub screen_name: String,
    pub avatar_url: Option<String>,
    pub verification: Option<TweetVerification>,
}

/// A photo of a tweet.
#[derive(Debug)]
pub struct TweetPhoto {
    pub url: String,
}

/// A video of a tweet.
#[derive(Debug)]
pub struct TweetVideo {
    pub thumbnail_url: Option<String>,
}

/// The media of a tweet.
#[derive(Debug)]
pub struct TweetMedia {
    pub photos: Vec<TweetPhoto>,
    pub videos: Vec<TweetVideo>,
}

/// A tweet, possibly with the tweet it quotes.
#[derive(Debug)]
pub struct TweetData {
    pub text: String,
    pub author: TweetAuthor,
    pub replies: Option<u64>,
    pub retweets: Option<u64>,
    pub likes: Option<u64>,
    pub views: Option<u64>,
    pub created_timestamp: Option<i64>,
    pub media: Option<TweetMedia>,
    pub quote: Option<Box<TweetData>>,
}

/// What the service answers.
#[derive(Debug)]
pub struct ApiResponse {
    pub code: u32,
    pub tweet: Option<TweetData>,
}

impl TweetAuthor {
    /// Whether the author carries the verified mark.
    pub open spec fn verified(&self) -> bool {
        self.verification matches Some(v) && v.verified
    }

    /// Whether the author carries the verified mark.
    pub fn is_verified(&self) -> (r: bool)
        ensures
            r == self.verified(),
    {
        match &self.verification {
            Some(v) => v.verified,
            None => false,
        }
    }
}

/// The thumbnails from `i` on.
pub open spec fn thumbnails_from(videos: Seq<TweetVideo>, i: int) -> Seq<Seq<char>>
    decreases videos.len() - i,
{
    if i < 0 || i >= videos.len() {
        Seq::empty()
    } else {
        match videos[i].thumbnail_url {
            Some(u) => seq![u@] + thumbnails_from(videos, i + 1),
            None => thumbnails_from(videos, i + 1),
        }
    }
}

/// The characters of each string slice.
pub open spec fn slices(v: Seq<&str>) -> Seq<Seq<char>> {
    v.map_values(|s: &str| s@)
}

impl TweetData {
    /// The photos.
    pub open spec fn photos_of(&self) -> Seq<Seq<char>> {
        match self.media {
            Some(m) => m.photos@.map_values(|p: TweetPhoto| p.url@),
            None => Seq::empty(),
        }
    }

    /// The stills of the videos that have one.
    pub open spec fn stills_of(&self) -> Seq<Seq<char>> {
        match self.media {
            Some(m) => thumbnails_from(m.videos@, 0),
            None => Seq::empty(),
        }
    }

    /// The images of the tweet itself: avatar, photos, stills.
    pub open spec fn own_images(&self) -> Seq<Seq<char>> {
        (match self.author.avatar_url {
            Some(a) => seq![a@],
            None => Seq::empty(),
        }) + self.photos_of() + self.stills_of()
    }

    /// The images of the tweet and of the tweets it quotes.
    pub open spec fn images_of(&self) -> Seq<Seq<char>>
        decreases self,
    {
        self.own_images() + match self.quote {
            Some(q) => q.images_of(),
            None => Seq::empty(),
        }
    }

    /// The photos.
    pub fn photo_urls(&self) -> (r: Vec<&str>)
        ensures
            slices(r@) == self.photos_of(),
    {
        let mut r: Vec<&str> = Vec::new();
        if let Some(m) = &self.media {
            let mut i: usize = 0;
            while i < m.photos.len()
                invariant
                    i <= m.photos@.len(),
                    r@.len() == i,
                    forall|k: int| 0 <= k < i ==> (#[trigger] r@[k])@ == m.photos@[k].url@,
                decreases m.photos@.len() - i,
            {
                r.push(m.photos[i].url.as_str());
                i = i + 1;
            }
        }
        assert(slices(r@) =~= self.photos_of());
        r
    }

    /// The stills of the videos that have one.
    pub fn video_thumbnail_urls(&self) -> (r: Vec<&str>)
        ensures
            slices(r@) == self.stills_of(),
    {
        let mut r: Vec<&str> = Vec::new();
        assert(slices(r@) =~= Seq::<Seq<char>>::empty());
        if let Some(m) = &self.media {
            let ghost all = thumbnails_from(m.videos@, 0);
            let mut i: usize = 0;
            assert(all =~= slices(r@) + all);
            while i < m.videos.len()
                invariant
                    i <= m.videos@.len(),
                    all == slices(r@) + thumbnails_from(m.videos@, i as int),
                decreases m.videos@.len() - i,
            {
                if let Some(u) = &m.videos[i].thumbnail_url {
                    let ghost before = slices(r@);
                    let ghost rest = thumbnails_from(m.videos@, i + 1);
                    r.push(u.as_str());
                    assert(slices(r@) =~= before.push(u@));
                    assert(before + (seq![u@] + rest) =~= before.push(u@) + rest);
                }
                i = i + 1;
            }
            assert(slices(r@) =~= all);
        }
        r
    }

    /// Every remote image this tweet needs on screen: avatar, photos, video
    /// stills, and the same for a quoted tweet.
    pub fn all_image_urls(&self) -> (r: Vec<String>)
        ensures
            text::views(r@) == self.images_of(),
        decreases self,
    {
        let mut urls: Vec<String> = Vec::new();
        assert(text::views(urls@) =~= Seq::<Seq<char>>::empty());
        if let Some(avatar) = &self.author.avatar_url {
            urls.push(avatar.clone());
            assert(text::views(urls@) =~= seq![avatar@]);
        }
        let photos = self.photo_urls();
        push_all(&mut urls, &photos);
        let stills = self.video_thumbnail_urls();
        push_all(&mut urls, &stills);
        assert(text::views(urls@) =~= self.own_images());
        if let Some(quote) = &self.quote {
            let ghost before = text::views(urls@);
            let mut quoted = (**quote).all_image_urls();
            let ghost more = text::views(quoted@);
            urls.append(&mut quoted);
            assert(text::views(urls@) =~= before + more);
        } else {
            assert(text::views(urls@) =~= self.images_of());
        }
        urls
    }
}

/// Adds each string slice to the list.
fn push_all(urls: &mut Vec<String>, more: &Vec<&str>)
    ensures
        text::views(final(urls)@) == text::views(old(urls)@) + slices(more@),
{
    let ghost before = text::views(urls@);
    let mut i: usize = 0;
    assert(before =~= before + slices(more@).take(0));
    while i < more.len()
        invariant
            i <= more@.len(),
            text::views(urls@) == before + slices(more@).take(i as int),
        decreases more@.len() - i,
    {
        let ghost mid = text::views(urls@);
        urls.push(more[i].to_owned());
        proof {
            assert(text::views(urls@) =~= mid.push(more@[i as int]@));
            assert(slices(more@).take(i + 1) =~= slices(more@).take(i as int).push(
                more@[i as int]@,
            ));
            assert(before + slices(more@).take(i as int).push(more@[i as int]@) =~= mid.push(
                more@[i as int]@,
            ));
        }
        i = i + 1;
    }
    assert(slices(more@).take(i as int) =~= slices(more@));
}

// ---------------------------------------------------------------------------
// Tweet links.
// ---------------------------------------------------------------------------
/// Whether the host serves tweets under `/status/{id}`.
pub open spec fn tweet_host(host: Seq<char>) -> bool {
    ||| host == "x.com"@
    ||| host == "twitter.com"@
    ||| host == "mobile.twitter.com"@
    ||| host == "mobile.x.com"@
    ||| host == "fxtwitter.com"@
    ||| host == "vxtwitter.com"@
    ||| host == "fixupx.com"@
    ||| host == "xcancel.com"@
}

/// Whether the host serves tweets.
pub fn is_tweet_host(host: &str) -> (r: bool)
    ensures
        r == tweet_host(host@),
{
    text::str_eq(host, "x.com") || text::str_eq(host, "twitter.com") || text::str_eq(
        host,
        "mobile.twitter.com",
    ) || text::str_eq(host, "mobile.x.com") || text::str_eq(host, "fxtwitter.com")
        || text::str_eq(host, "vxtwitter.com") || text::str_eq(host, "fixupx.com")
        || text::str_eq(host, "xcancel.com")
}

/// The predicate "is no digit".
pub open spec fn non_digits() -> spec_fn(char) -> bool {
    |c: char| !text::ascii_digit(c)
}

/// The digits a text begins with.
pub open spec fn leading_digits(s: Seq<char>) -> Seq<char> {
    s.take(text::find_from(s, non_digits(), 0))
}

/// The id of a tweet link: the digits behind the first segment `status`.
pub open spec fn tweet_id(url: Seq<char>) -> Option<Seq<char>> {
    match links::parts(url) {
        Some((host, segs)) => if tweet_host(host) {
            match links::behind(segs, "status"@) {
                Some(s) => if leading_digits(s).len() > 0 {
                    Some(leading_digits(s))
                } else {
                    None
                },
                None => None,
            }
        } else {
            None
        },
        None => None,
    }
}

/// Where the data of a tweet link is fetched.
pub open spec fn tweet_endpoint(url: Seq<char>) -> Option<Seq<char>> {
    match tweet_id(url) {
        Some(id) => Some("https://api.fxtwitter.com/status/"@ + id),
        None => None,
    }
}

/// Where the data of a tweet link is fetched; nothing when the URL is no
/// `/status/{id}` link on a host that serves tweets.
pub fn tweet_api_url(url: &str) -> (r: Option<String>)
    ensures
        text::opt_view(r) == tweet_endpoint(url@),
{
    let (host, segs) = match links::split_url(url) {
        Some(parts) => parts,
        None => {
            return None;
        },
    };
    if !is_tweet_host(host.as_str()) {
        return None;
    }
    let s = match links::segment_behind(&segs, "status") {
        Some(s) => s.as_str(),
        None => {
            return None;
        },
    };
    let v = text::chars(s);
    let mut n: usize = 0;
    while n < v.len() && text::is_ascii_digit(v[n])
        invariant
            v@ == s@,
            n <= v@.len(),
            text::find_from(s@, non_digits(), 0) == text::find_from(s@, non_digits(), n as int),
        decreases v@.len() - n,
    {
        n = n + 1;
    }
    if n == 0 {
        return None;
    }
    let id = s.substring_char(0, n);
    assert(id@ =~= leading_digits(s@));
    Some(text::join2("https://api.fxtwitter.com/status/", id))
}

/// What an answer of the service comes to: the tweet of a successful answer
/// that has one.
pub fn tweet_of(response: ApiResponse) -> (r: Result<TweetData, String>)
    ensures
        match r {
            Ok(t) => response.code == 200 && response.tweet == Some(t),
            Err(e) => if response.code != 200 {
                e@ == "fxtwitter returned code "@ + text::decimal(response.code as nat)
            } else {
                response.tweet is None && e@ == "fxtwitter response missing tweet body"@
            },
        },
{
    if response.code != 200 {
        let code = text::decimal_string(response.code as u64);
        return Err(text::join2("fxtwitter returned code ", code.as_str()));
    }
    match response.tweet {
        Some(t) => Ok(t),
        None => Err("fxtwitter response missing tweet body".to_owned()),
    }
}

// ---------------------------------------------------------------------------
// Laws.
// ---------------------------------------------------------------------------
/// A link `…/status/{id}` on any of the hosts that serve tweets, with or
/// without `www.` and in any letter case, is asked about by its id, whatever
/// follows the digits.
pub proof fn law_a_status_link_is_a_tweet(
    scheme: Seq<char>,
    www: bool,
    host: Seq<char>,
    segs: Seq<Seq<char>>,
    tail: Seq<char>,
    i: int,
    id: Seq<char>,
    more: Seq<char>,
    r: Option<String>,
)
    requires
        !scheme.contains(':'),
        !host.contains('/'),
        ({
            let h = text::ascii_lowered(host);
            ||| h == "x.com"@
            ||| h == "twitter.com"@
            ||| h == "mobile.twitter.com"@
            ||| h == "mobile.x.com"@
            ||| h == "fxtwitter.com"@
            ||| h == "vxtwitter.com"@
            ||| h == "fixupx.com"@
            ||| h == "xcancel.com"@
        }),
        forall|j: int| 0 <= j < segs.len() ==> links::is_segment(#[trigger] segs[j]),
        links::is_tail(tail),
        0 <= i,
        i + 1 < segs.len(),
        segs[i] == "status"@,
        forall|j: int| 0 <= j < i ==> segs[j] != "status"@,
        segs[i + 1] == id + more,
        id.len() > 0,
        forall|k: int| 0 <= k < id.len() ==> '0' <= (#[trigger] id[k]) <= '9',
        more.len() > 0 ==> !('0' <= more[0] <= '9'),
        text::opt_view(r) == tweet_endpoint(
            links::written(
                scheme,
                if www {
                    "www."@ + host
                } else {
                    host
                },
                segs,
                tail,
            ),
        ),
    ensures
        r matches Some(u) && u@ == "https://api.fxtwitter.com/status/"@ + id,
{
    let full = if www {
        "www."@ + host
    } else {
        host
    };
    lemma_bare_host(host, www);
    links::law_a_url_falls_into_host_and_segments(scheme, full, segs, tail);
    links::law_the_segment_behind_a_word(segs, "status"@, i);
    let s = id + more;
    assert forall|k: int| 0 <= k < id.len() implies !non_digits()(#[trigger] s[k]) by {
        assert(s[k] == id[k]);
    }
    if more.len() > 0 {
        assert(s[id.len() as int] == more[0]);
    }
    text::lemma_find_from_is(s, non_digits(), 0, id.len() as int);
    assert(s.take(id.len() as int) =~= id);
}

/// A host whose lower case does not begin with `www.` stays as it is, but for
/// its letter case, with a `www.` in front of it or not.
proof fn lemma_bare_host(host: Seq<char>, www: bool)
    requires
        !host.contains('/'),
        tweet_host(text::ascii_lowered(host)),
    ensures
        ({
            let full = if www {
                "www."@ + host
            } else {
                host
            };
            links::host_name(full) == text::ascii_lowered(host) && !full.contains('/')
        }),
{
    links::law_www_and_case_do_not_count(host);
    reveal_strlit("www.");
    reveal_strlit("x.com");
    reveal_strlit("twitter.com");
    reveal_strlit("mobile.twitter.com");
    reveal_strlit("mobile.x.com");
    reveal_strlit("fxtwitter.com");
    reveal_strlit("vxtwitter.com");
    reveal_strlit("fixupx.com");
    reveal_strlit("xcancel.com");
    if host.len() >= 4 && host.take(4) == "www."@ {
        let low = text::ascii_lowered(host);
        assert(host.take(4)[0] == host[0]);
        assert(low[0] == text::ascii_lower(host[0]));
        assert(low[0] == 'w');
    }
    let long = "www."@ + host;
    if long.contains('/') {
        let k = choose|k: int| 0 <= k < long.len() && long[k] == '/';
        assert(k >= 4);
        assert(host[k - 4] == '/');
    }
}

/// A link elsewhere, and one without a `status` in its path or without a
/// number behind it, is no tweet.
pub proof fn law_other_links_are_no_tweets(
    scheme: Seq<char>,
    host: Seq<char>,
    segs: Seq<Seq<char>>,
    tail: Seq<char>,
    r: Option<String>,
)
    requires
        !scheme.contains(':'),
        !host.contains('/'),
        !(host.len() >= 4 && host.take(4) == "www."@),
        forall|j: int| 0 <= j < segs.len() ==> links::is_segment(#[trigger] segs[j]),
        links::is_tail(tail),
        text::opt_view(r) == tweet_endpoint(links::written(scheme, host, segs, tail)),
        ({
            let h = text::ascii_lowered(host);
            ||| !segs.contains("status"@)
            ||| h != "x.com"@ && h != "twitter.com"@ && h != "mobile.twitter.com"@ && h
                != "mobile.x.com"@ && h != "fxtwitter.com"@ && h != "vxtwitter.com"@ && h
                != "fixupx.com"@ && h != "xcancel.com"@
        }),
    ensures
        r is None,
{
    links::law_www_and_case_do_not_count(host);
    links::law_a_url_falls_into_host_and_segments(scheme, host, segs, tail);
    if !segs.contains("status"@) {
        links::law_nothing_is_behind_a_missing_word(segs, "status"@);
    }
}

/// The images of a tweet are all there: the author's picture, each photo, each
/// still, and all of those of the tweet that it quotes; and there are no
/// others.
pub proof fn law_every_image_of_a_tweet_is_wanted(t: TweetData, r: Seq<String>, url: Seq<char>)
    requires
        text::views(r) == t.images_of(),
    ensures
        text::views(r).contains(url) == {
            ||| t.author.avatar_url matches Some(a) && a@ == url
            ||| t.media matches Some(m) && exists|k: int|
                0 <= k < m.photos@.len() && (#[trigger] m.photos@[k]).url@ == url
            ||| t.media matches Some(m) && exists|k: int|
                #![trigger m.videos@[k]]
                0 <= k < m.videos@.len() && (m.videos@[k].thumbnail_url matches Some(u) && u@
                    == url)
            ||| t.quote matches Some(q) && q.images_of().contains(url)
        },
{
    let own = t.own_images();
    let avatar = match t.author.avatar_url {
        Some(a) => seq![a@],
        None => Seq::empty(),
    };
    let photos = t.photos_of();
    let stills = t.stills_of();
    let more = match t.quote {
        Some(q) => q.images_of(),
        None => Seq::empty(),
    };
    let all = t.images_of();
    assert(all == avatar + photos + stills + more);
    lemma_contains_either(avatar + photos + stills, more, url);
    lemma_contains_either(avatar + photos, stills, url);
    lemma_contains_either(avatar, photos, url);
    if let Some(a) = t.author.avatar_url {
        assert(avatar[0] == a@);
    }
    if let Some(m) = t.media {
        if photos.contains(url) {
            let k = choose|k: int| 0 <= k < photos.len() && photos[k] == url;
            assert(m.photos@[k].url@ == url);
        }
        if exists|k: int| 0 <= k < m.photos@.len() && (#[trigger] m.photos@[k]).url@ == url {
            let k = choose|k: int| 0 <= k < m.photos@.len() && (#[trigger] m.photos@[k]).url@ == url;
            assert(photos[k] == url);
        }
        lemma_thumbnails(m.videos@, 0, url);
    }
}

proof fn lemma_contains_either(a: Seq<Seq<char>>, b: Seq<Seq<char>>, x: Seq<char>)
    ensures
        (a + b).contains(x) == (a.contains(x) || b.contains(x)),
{
    let c = a + b;
    if c.contains(x) {
        let k = choose|k: int| 0 <= k < c.len() && c[k] == x;
        if k < a.len() {
            assert(a[k] == x);
        } else {
            assert(b[k - a.len()] == x);
        }
    }
    if a.contains(x) {
        let k = choose|k: int| 0 <= k < a.len() && a[k] == x;
        assert(c[k] == x);
    }
    if b.contains(x) {
        let k = choose|k: int| 0 <= k < b.len() && b[k] == x;
        assert(c[a.len() + k] == x);
    }
}

proof fn lemma_thumbnails(videos: Seq<TweetVideo>, i: int, url: Seq<char>)
    requires
        0 <= i,
    ensures
        thumbnails_from(videos, i).contains(url) == exists|k: int|
            #![trigger videos[k]]
            i <= k < videos.len() && (videos[k].thumbnail_url matches Some(u) && u@ == url),
    decreases videos.len() - i,
{
    if i < videos.len() {
        lemma_thumbnails(videos, i + 1, url);
        let rest = thumbnails_from(videos, i + 1);
        if let Some(u) = videos[i].thumbnail_url {
            lemma_contains_either(seq![u@], rest, url);
            assert(seq![u@][0] == u@);
        }
    }
}

} // verus!
