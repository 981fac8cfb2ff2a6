//! The previews of links: which were asked for, and what came of it. Each link
//! is asked for once.

use vstd::prelude::*;

use crate::events::{TimelineItem, TimelineItemContent, UrlPreview};
use crate::screens::timeline::body;
use crate::steam;
use crate::steam::SteamAppData;
use crate::string_map::StringMap;
use crate::text;
use crate::tweets;
use crate::tweets::TweetData;

verus! {

/// The previews by link. A link without a preview was asked for, and has none
/// or not yet.
#[derive(Debug)]
pub struct Previews {
    /// From the homeserver.
    pub links: StringMap<Option<UrlPreview>>,
    pub tweets: StringMap<Option<TweetData>>,
    pub apps: StringMap<Option<SteamAppData>>,
}

/// The previews, as maps.
#[verifier::ext_equal]
pub struct PreviewMaps {
    pub links: Map<Seq<char>, Option<UrlPreview>>,
    pub tweets: Map<Seq<char>, Option<TweetData>>,
    pub apps: Map<Seq<char>, Option<SteamAppData>>,
}

impl View for Previews {
    type V = PreviewMaps;

    open spec fn view(&self) -> PreviewMaps {
        PreviewMaps { links: self.links@, tweets: self.tweets@, apps: self.apps@ }
    }
}

impl Previews {
    /// No previews.
    pub fn new() -> (r: Self)
        ensures
            r@ == (PreviewMaps { links: Map::empty(), tweets: Map::empty(), apps: Map::empty() }),
    {
        Previews { links: StringMap::new(), tweets: StringMap::new(), apps: StringMap::new() }
    }
}

impl Default for Previews {
    fn default() -> (r: Self)
        ensures
            r@ == (PreviewMaps { links: Map::empty(), tweets: Map::empty(), apps: Map::empty() }),
    {
        Self::new()
    }
}

/// A preview that is to be fetched.
#[derive(Debug)]
pub enum Ask {
    Tweet { url: String, api_url: String },
    Steam { url: String, api_url: String },
    Link { url: String },
}

/// Whether this asks for a link's preview: where its host has an API of its
/// own, there, and from the homeserver otherwise.
pub open spec fn asks_for(a: Ask, link: Seq<char>) -> bool {
    match (tweets::tweet_endpoint(link), steam::app_endpoint(link)) {
        (Some(api), _) => a matches Ask::Tweet { url, api_url } && url@ == link && api_url@ == api,
        (None, Some(api)) => a matches Ask::Steam { url, api_url } && url@ == link && api_url@
            == api,
        (None, None) => a matches Ask::Link { url } && url@ == link,
    }
}

/// Whether a link was asked for.
pub open spec fn asked(p: PreviewMaps, link: Seq<char>) -> bool {
    if tweets::tweet_endpoint(link) is Some {
        p.tweets.contains_key(link)
    } else if steam::app_endpoint(link) is Some {
        p.apps.contains_key(link)
    } else {
        p.links.contains_key(link)
    }
}

/// The previews once a link was asked for.
pub open spec fn marked(p: PreviewMaps, link: Seq<char>) -> PreviewMaps {
    if asked(p, link) {
        p
    } else if tweets::tweet_endpoint(link) is Some {
        PreviewMaps { tweets: p.tweets.insert(link, None), ..p }
    } else if steam::app_endpoint(link) is Some {
        PreviewMaps { apps: p.apps.insert(link, None), ..p }
    } else {
        PreviewMaps { links: p.links.insert(link, None), ..p }
    }
}

/// The previews once the first `n` links were asked for.
pub open spec fn all_marked(p: PreviewMaps, links: Seq<Option<Seq<char>>>, n: int) -> PreviewMaps
    decreases n,
{
    if n <= 0 {
        p
    } else {
        let before = all_marked(p, links, n - 1);
        match links[n - 1] {
            Some(l) => marked(before, l),
            None => before,
        }
    }
}

/// Those of the first `n` links that are to be asked for: each once, in order.
pub open spec fn to_ask(p: PreviewMaps, links: Seq<Option<Seq<char>>>, n: int) -> Seq<Seq<char>>
    decreases n,
{
    if n <= 0 {
        Seq::empty()
    } else {
        let before = to_ask(p, links, n - 1);
        match links[n - 1] {
            Some(l) => if asked(all_marked(p, links, n - 1), l) {
                before
            } else {
                before.push(l)
            },
            None => before,
        }
    }
}

/// The texts of some optional strings.
pub open spec fn opt_views(v: Seq<Option<String>>) -> Seq<Option<Seq<char>>> {
    v.map_values(|o: Option<String>| text::opt_view(o))
}

/// The first link of an item: only text has one.
pub open spec fn item_link(item: TimelineItem) -> Option<Seq<char>> {
    match item.content {
        TimelineItemContent::Text(b) => body::first_url(b@),
        _ => None,
    }
}

/// The first link of each item.
pub open spec fn item_links(items: Seq<TimelineItem>) -> Seq<Option<Seq<char>>> {
    items.map_values(|i: TimelineItem| item_link(i))
}

/// The first link of each item.
pub fn first_links(items: &Vec<TimelineItem>) -> (r: Vec<Option<String>>)
    ensures
        opt_views(r@) == item_links(items@),
{
    let mut r: Vec<Option<String>> = Vec::new();
    let mut i: usize = 0;
    while i < items.len()
        invariant
            i <= items@.len(),
            r@.len() == i,
            forall|k: int|
                0 <= k < i ==> text::opt_view(#[trigger] r@[k]) == item_link(items@[k]),
        decreases items@.len() - i,
    {
        let link = match &items[i].content {
            TimelineItemContent::Text(b) => body::first_url_in(b.as_str()),
            _ => None,
        };
        r.push(link);
        i = i + 1;
    }
    assert(opt_views(r@) =~= item_links(items@));
    r
}

/// Asks for a link, where it was not asked for.
fn ask(previews: &mut Previews, link: &String) -> (r: Option<Ask>)
    ensures
        final(previews)@ == marked(old(previews)@, link@),
        match r {
            Some(a) => !asked(old(previews)@, link@) && asks_for(a, link@),
            None => asked(old(previews)@, link@),
        },
{
    if let Some(api_url) = tweets::tweet_api_url(link.as_str()) {
        if previews.tweets.contains_key(link.as_str()) {
            return None;
        }
        previews.tweets.insert(link.clone(), None);
        return Some(Ask::Tweet { url: link.clone(), api_url });
    }
    if let Some(api_url) = steam::steam_api_url(link.as_str()) {
        if previews.apps.contains_key(link.as_str()) {
            return None;
        }
        previews.apps.insert(link.clone(), None);
        return Some(Ask::Steam { url: link.clone(), api_url });
    }
    if previews.links.contains_key(link.as_str()) {
        return None;
    }
    previews.links.insert(link.clone(), None);
    Some(Ask::Link { url: link.clone() })
}

/// Whether these ask for some links, one for one.
pub open spec fn ask_for_all(r: Seq<Ask>, links: Seq<Seq<char>>) -> bool {
    &&& r.len() == links.len()
    &&& forall|k: int| 0 <= k < r.len() ==> asks_for(#[trigger] r[k], links[k])
}

/// Asks for the links of a timeline that were not asked for. Where previews
/// are switched off nothing is asked, nor marked: a later change of mind finds
/// the links as they were.
pub fn request_url_previews(
    previews: &mut Previews,
    links: &Vec<Option<String>>,
    enabled: bool,
) -> (r: Vec<Ask>)
    ensures
        !enabled ==> r@.len() == 0 && *final(previews) == *old(previews),
        enabled ==> final(previews)@ == all_marked(
            old(previews)@,
            opt_views(links@),
            links@.len() as int,
        ) && ask_for_all(r@, to_ask(old(previews)@, opt_views(links@), links@.len() as int)),
{
    let mut r: Vec<Ask> = Vec::new();
    if !enabled {
        return r;
    }
    let ghost all = opt_views(links@);
    let mut i: usize = 0;
    while i < links.len()
        invariant
            i <= links@.len(),
            all == opt_views(links@),
            previews@ == all_marked(old(previews)@, all, i as int),
            ask_for_all(r@, to_ask(old(previews)@, all, i as int)),
        decreases links@.len() - i,
    {
        assert(all[i as int] == text::opt_view(links@[i as int]));
        if let Some(link) = &links[i] {
            let ghost made = r@;
            let ghost before = to_ask(old(previews)@, all, i as int);
            if let Some(a) = ask(previews, link) {
                r.push(a);
                proof {
                    let now = to_ask(old(previews)@, all, i + 1);
                    assert(now == before.push(link@));
                    assert forall|k: int| 0 <= k < r@.len() implies asks_for(
                        #[trigger] r@[k],
                        now[k],
                    ) by {
                        if k < made.len() {
                            assert(r@[k] == made[k]);
                        }
                    }
                }
            }
        }
        i = i + 1;
    }
    r
}

/// What a lookup that failed leaves: the homeserver is asked instead, once.
pub open spec fn fallen_back(p: PreviewMaps, url: Seq<char>) -> PreviewMaps {
    if p.links.contains_key(url) {
        p
    } else {
        PreviewMaps { links: p.links.insert(url, None), ..p }
    }
}

/// Falls back to the homeserver's preview; says whether it is to be asked.
pub fn fall_back(previews: &mut Previews, url: &String) -> (r: bool)
    ensures
        final(previews)@ == fallen_back(old(previews)@, url@),
        r == !old(previews)@.links.contains_key(url@),
{
    if previews.links.contains_key(url.as_str()) {
        return false;
    }
    previews.links.insert(url.clone(), None);
    true
}

// ---------------------------------------------------------------------------
// Laws.
// ---------------------------------------------------------------------------
/// Each link is asked for once: the same timeline again asks for nothing.
pub proof fn law_links_are_asked_for_once(p: PreviewMaps, links: Seq<Option<Seq<char>>>)
    ensures
        to_ask(all_marked(p, links, links.len() as int), links, links.len() as int).len() == 0,
{
    let n = links.len() as int;
    lemma_settled(all_marked(p, links, n), p, links, n);
}

/// Once marked, a link stays marked.
proof fn lemma_marks_last(p: PreviewMaps, links: Seq<Option<Seq<char>>>, m: int, n: int, l: Seq<char>)
    requires
        0 <= m <= n,
        asked(all_marked(p, links, m), l),
    ensures
        asked(all_marked(p, links, n), l),
    decreases n - m,
{
    if m < n {
        lemma_marks_last(p, links, m, n - 1, l);
    }
}

/// Where every link was asked for, asking changes nothing.
proof fn lemma_settled(q: PreviewMaps, p: PreviewMaps, links: Seq<Option<Seq<char>>>, k: int)
    requires
        q == all_marked(p, links, links.len() as int),
        k <= links.len(),
    ensures
        to_ask(q, links, k).len() == 0,
        all_marked(q, links, k) == q,
    decreases k,
{
    if k > 0 {
        lemma_settled(q, p, links, k - 1);
        match links[k - 1] {
            Some(l) => {
                assert(asked(marked(all_marked(p, links, k - 1), l), l));
                assert(asked(all_marked(p, links, k), l));
                lemma_marks_last(p, links, k, links.len() as int, l);
            },
            None => {},
        }
    }
}

proof fn lemma_asked_then(
    p: PreviewMaps,
    links: Seq<Option<Seq<char>>>,
    n: int,
    i: int,
    l: Seq<char>,
)
    requires
        0 <= i < n <= links.len(),
        links[i] == Some(l),
        !asked(p, l),
    ensures
        to_ask(p, links, n).contains(l),
    decreases n,
{
    let before = to_ask(p, links, n - 1);
    let all = to_ask(p, links, n);
    if exists|j: int| 0 <= j < n - 1 && links[j] == Some(l) {
        let j = choose|j: int| 0 <= j < n - 1 && links[j] == Some(l);
        lemma_asked_then(p, links, n - 1, j, l);
        let k = choose|k: int| 0 <= k < before.len() && before[k] == l;
        assert(all[k] == l);
    } else {
        lemma_not_marked(p, links, n - 1, l);
        assert(i == n - 1);
        assert(all[before.len() as int] == l);
    }
}

proof fn lemma_not_marked(p: PreviewMaps, links: Seq<Option<Seq<char>>>, n: int, l: Seq<char>)
    requires
        0 <= n <= links.len(),
        !asked(p, l),
        forall|j: int| 0 <= j < n ==> links[j] != Some(l),
    ensures
        !asked(all_marked(p, links, n), l),
    decreases n,
{
    if n > 0 {
        lemma_not_marked(p, links, n - 1, l);
        assert(links[n - 1] != Some(l));
    }
}

/// A link that was not asked for is asked for: of the service for tweets where
/// it is a tweet, of the store where it is a store page, and of the homeserver
/// otherwise, and always about that link.
pub proof fn law_a_new_link_is_asked_for(
    p: PreviewMaps,
    links: Seq<Option<Seq<char>>>,
    r: Seq<Ask>,
    i: int,
    l: Seq<char>,
)
    requires
        ask_for_all(r, to_ask(p, links, links.len() as int)),
        0 <= i < links.len(),
        links[i] == Some(l),
        !p.tweets.contains_key(l) && !p.apps.contains_key(l) && !p.links.contains_key(l),
    ensures
        exists|k: int|
            #![trigger r[k]]
            0 <= k < r.len() && match (tweets::tweet_endpoint(l), steam::app_endpoint(l)) {
                (Some(api), _) => r[k] is Tweet && r[k]->Tweet_url@ == l && r[k]->Tweet_api_url@
                    == api,
                (None, Some(api)) => r[k] is Steam && r[k]->Steam_url@ == l && r[k]->Steam_api_url@
                    == api,
                (None, None) => r[k] is Link && r[k]->Link_url@ == l,
            },
{
    let wanted = to_ask(p, links, links.len() as int);
    lemma_asked_then(p, links, links.len() as int, i, l);
    let k = choose|k: int| 0 <= k < wanted.len() && wanted[k] == l;
    assert(asks_for(r[k], wanted[k]));
}

/// Only text has a link that is previewed, and it is the first URL of it.
pub proof fn law_whose_link_is_previewed(item: TimelineItem)
    ensures
        !(item.content is Text) ==> item_link(item) is None,
        item.content matches TimelineItemContent::Text(b) ==> item_link(item) == if text::occurs(
            b@,
            "://"@,
        ) {
            body::first_of(b@, body::found_links(b@))
        } else {
            None
        },
{
}

} // verus!
