//! Rich store previews: which links are store pages of Steam, where their
//! data is fetched, and what an answer of the store means.

use vstd::prelude::*;

use crate::links;
use crate::text;

verus! {

/// The platforms that an app runs on.
#[derive(Debug)]
pub struct SteamPlatforms {
    pub windows: bool,
    pub mac: bool,
    pub linux: bool,
}

/// The price of an app.
#[derive(Debug)]
pub struct SteamPrice {
    pub discount_percent: u32,
    /// The price before the discount, formatted; empty without one.
    pub initial_formatted: String,
    pub final_formatted: String,
}

/// The release of an app.
#[derive(Debug)]
pub struct SteamReleaseDate {
    pub coming_soon: bool,
    pub date: String,
}

/// An app of the store.
#[derive(Debug)]
pub struct SteamAppData {
    pub name: String,
    pub short_description: Option<String>,
    pub header_image: Option<String>,
    pub is_free: bool,
    pub platforms: Option<SteamPlatforms>,
    pub price_overview: Option<SteamPrice>,
    pub release_date: Option<SteamReleaseDate>,
}

/// What the store answers for one app.
#[derive(Debug)]
pub struct ApiEntry {
    pub success: bool,
    pub data: Option<SteamAppData>,
}

/// The path segment that names an app, by host.
pub open spec fn app_segment(host: Seq<char>, segs: Seq<Seq<char>>) -> Option<Seq<char>> {
    if host == "store.steampowered.com"@ {
        links::behind(segs, "app"@)
    } else if host == "s.team"@ {
        if segs.len() > 1 && segs[0] == "a"@ {
            Some(segs[1])
        } else {
            None
        }
    } else {
        None
    }
}

/// Whether a text is a number.
pub open spec fn all_digits(s: Seq<char>) -> bool {
    s.len() > 0 && forall|i: int| 0 <= i < s.len() ==> text::ascii_digit(#[trigger] s[i])
}

/// Where the data of a store link is fetched.
pub open spec fn app_endpoint(url: Seq<char>) -> Option<Seq<char>> {
    match links::parts(url) {
        Some((host, segs)) => match app_segment(host, segs) {
            Some(id) => if all_digits(id) {
                Some("https://store.steampowered.com/api/appdetails?appids="@ + id)
            } else {
                None
            },
            None => None,
        },
        None => None,
    }
}

/// Whether a text is a number.
fn is_number(s: &str) -> (r: bool)
    ensures
        r == all_digits(s@),
{
    let v = text::chars(s);
    if v.len() == 0 {
        return false;
    }
    let mut i: usize = 0;
    while i < v.len()
        invariant
            v@ == s@,
            i <= v@.len(),
            forall|k: int| 0 <= k < i ==> text::ascii_digit(#[trigger] s@[k]),
        decreases v@.len() - i,
    {
        if !text::is_ascii_digit(v[i]) {
            assert(!text::ascii_digit(s@[i as int]));
            return false;
        }
        i = i + 1;
    }
    true
}

/// Where the data of a store link is fetched; nothing when the URL is no
/// `/app/{id}` page of the store, nor one of its short links.
pub fn steam_api_url(url: &str) -> (r: Option<String>)
    ensures
        text::opt_view(r) == app_endpoint(url@),
{
    let (host, segs) = match links::split_url(url) {
        Some(parts) => parts,
        None => {
            return None;
        },
    };
    let ghost all = text::views(segs@);
    let id: &String = if text::str_eq(host.as_str(), "store.steampowered.com") {
        match links::segment_behind(&segs, "app") {
            Some(s) => s,
            None => {
                return None;
            },
        }
    } else if text::str_eq(host.as_str(), "s.team") {
        if segs.len() < 2 {
            return None;
        }
        assert(all[0] == segs@[0]@);
        assert(all[1] == segs@[1]@);
        if !text::str_eq(segs[0].as_str(), "a") {
            return None;
        }
        &segs[1]
    } else {
        return None;
    };
    if !is_number(id.as_str()) {
        return None;
    }
    Some(
        text::join2("https://store.steampowered.com/api/appdetails?appids=", id.as_str()),
    )
}

/// What an answer of the store comes to: the data of its entry, where that
/// reports success and has any. `entry` is the answer's only entry.
pub fn app_of(entry: Option<ApiEntry>) -> (r: Result<SteamAppData, String>)
    ensures
        match r {
            Ok(d) => entry matches Some(e) && e.success && e.data == Some(d),
            Err(why) => match entry {
                None => why@ == "empty appdetails response"@,
                Some(e) => if !e.success {
                    why@
                        == "appdetails reported success=false (unknown or region-locked app)"@
                } else {
                    e.data is None && why@ == "appdetails response missing data body"@
                },
            },
        },
{
    match entry {
        None => Err("empty appdetails response".to_owned()),
        Some(e) => {
            if !e.success {
                return Err(
                    "appdetails reported success=false (unknown or region-locked app)".to_owned(),
                );
            }
            match e.data {
                Some(d) => Ok(d),
                None => Err("appdetails response missing data body".to_owned()),
            }
        },
    }
}

// ---------------------------------------------------------------------------
// Laws.
// ---------------------------------------------------------------------------
/// A store page `…/app/{id}`, and a short link `…/a/{id}`, is asked about by
/// its number, whatever else the path holds.
pub proof fn law_a_store_page_is_asked_about(
    scheme: Seq<char>,
    host: Seq<char>,
    segs: Seq<Seq<char>>,
    tail: Seq<char>,
    i: int,
    r: Option<String>,
)
    requires
        !scheme.contains(':'),
        !host.contains('/'),
        forall|j: int| 0 <= j < segs.len() ==> links::is_segment(#[trigger] segs[j]),
        links::is_tail(tail),
        0 <= i,
        i + 1 < segs.len(),
        ({
            ||| text::ascii_lowered(host) == "store.steampowered.com"@ && segs[i] == "app"@ && forall|
                j: int,
            |
                0 <= j < i ==> segs[j] != "app"@
            ||| text::ascii_lowered(host) == "s.team"@ && i == 0 && segs[0] == "a"@
        }),
        forall|k: int| 0 <= k < segs[i + 1].len() ==> '0' <= (#[trigger] segs[i + 1][k]) <= '9',
        text::opt_view(r) == app_endpoint(links::written(scheme, host, segs, tail)),
    ensures
        r matches Some(u) && u@ == "https://store.steampowered.com/api/appdetails?appids="@ + segs[i
            + 1],
{
    links::law_www_and_case_do_not_count(host);
    lemma_no_www(host);
    links::law_a_url_falls_into_host_and_segments(scheme, host, segs, tail);
    reveal_strlit("store.steampowered.com");
    reveal_strlit("s.team");
    assert("store.steampowered.com"@.len() != "s.team"@.len());
    if text::ascii_lowered(host) == "store.steampowered.com"@ {
        links::law_the_segment_behind_a_word(segs, "app"@, i);
    } else {
        assert(text::ascii_lowered(host).len() == 6);
    }
    assert(links::is_segment(segs[i + 1]));
}

proof fn lemma_no_www(host: Seq<char>)
    requires
        text::ascii_lowered(host) == "store.steampowered.com"@ || text::ascii_lowered(host)
            == "s.team"@,
    ensures
        !(host.len() >= 4 && host.take(4) == "www."@),
{
    reveal_strlit("www.");
    reveal_strlit("store.steampowered.com");
    reveal_strlit("s.team");
    if host.len() >= 4 && host.take(4) == "www."@ {
        let low = text::ascii_lowered(host);
        assert(host.take(4)[0] == host[0]);
        assert(low[0] == text::ascii_lower(host[0]));
        assert(low[0] == 'w');
    }
}

/// A link elsewhere is no store page, nor is a page of the store without an
/// `app` in its path, nor one whose app is no number.
pub proof fn law_other_links_are_no_store_pages(
    scheme: Seq<char>,
    host: Seq<char>,
    segs: Seq<Seq<char>>,
    tail: Seq<char>,
    r: Option<String>,
)
    requires
        !scheme.contains(':'),
        !host.contains('/'),
        !(host.len() >= 4 && host.take(4) == "www."@),
        forall|j: int| 0 <= j < segs.len() ==> links::is_segment(#[trigger] segs[j]),
        links::is_tail(tail),
        text::opt_view(r) == app_endpoint(links::written(scheme, host, segs, tail)),
        ({
            let h = text::ascii_lowered(host);
            ||| h != "store.steampowered.com"@ && h != "s.team"@
            ||| h == "store.steampowered.com"@ && !segs.contains("app"@)
            ||| forall|j: int| 0 <= j < segs.len() ==> exists|k: int|
                0 <= k < (#[trigger] segs[j]).len() && !('0' <= #[trigger] segs[j][k] <= '9')
        }),
    ensures
        r is None,
{
    links::law_www_and_case_do_not_count(host);
    links::law_a_url_falls_into_host_and_segments(scheme, host, segs, tail);
    reveal_strlit("store.steampowered.com");
    reveal_strlit("s.team");
    let h = text::ascii_lowered(host);
    if h == "store.steampowered.com"@ && !segs.contains("app"@) {
        links::law_nothing_is_behind_a_missing_word(segs, "app"@);
    }
    if let Some(id) = app_segment(h, segs) {
        if h == "store.steampowered.com"@ {
            links::lemma_behind(segs, "app"@);
        }
        assert(segs.contains(id));
        let j = choose|j: int| 0 <= j < segs.len() && segs[j] == id;
        if all_digits(id) && forall|j: int| 0 <= j < segs.len() ==> exists|k: int|
            0 <= k < (#[trigger] segs[j]).len() && !('0' <= #[trigger] segs[j][k] <= '9') {
            let k = choose|k: int| 0 <= k < segs[j].len() && !('0' <= #[trigger] segs[j][k] <= '9');
            assert(text::ascii_digit(id[k]));
        }
    }
}

} // verus!
