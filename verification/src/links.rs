//! Taking a URL apart: host and path.

use vstd::prelude::*;

use crate::text;

verus! {

/// What follows the first `://`.
pub open spec fn after_scheme(url: Seq<char>) -> Option<Seq<char>> {
    match text::find_seq(url, "://"@, 0) {
        Some(k) => Some(url.skip(k + 3)),
        None => None,
    }
}

/// A host without any number of leading `www.`.
pub open spec fn without_www(host: Seq<char>) -> Seq<char>
    decreases host.len(),
{
    if host.len() >= 4 && text::starts(host, "www."@) {
        without_www(host.skip(4))
    } else {
        host
    }
}

/// A host without leading `www.`, in ASCII lower case.
pub open spec fn host_name(host: Seq<char>) -> Seq<char> {
    text::ascii_lowered(without_www(host))
}

/// The predicate "ends a path".
pub open spec fn path_end() -> spec_fn(char) -> bool {
    |c: char| c == '?' || c == '#'
}

/// The non-empty segments of a path, up to the query or the fragment.
pub open spec fn segments(path: Seq<char>) -> Seq<Seq<char>> {
    text::pieces(
        path.take(text::find_from(path, path_end(), 0)),
        text::is_char('/'),
    )
}

/// The host and the path segments of a URL: none without a scheme or without
/// a slash behind the host.
pub open spec fn parts(url: Seq<char>) -> Option<(Seq<char>, Seq<Seq<char>>)> {
    match after_scheme(url) {
        Some(rest) => {
            let k = text::find_from(rest, text::is_char('/'), 0);
            if k < rest.len() {
                Some((host_name(rest.take(k)), segments(rest.skip(k + 1))))
            } else {
                None
            }
        },
        None => None,
    }
}

/// The first segment at or after `i` that is this word.
pub open spec fn segment_from(segs: Seq<Seq<char>>, w: Seq<char>, i: int) -> Option<int>
    decreases segs.len() - i,
{
    if i < 0 || i >= segs.len() {
        None
    } else if segs[i] == w {
        Some(i)
    } else {
        segment_from(segs, w, i + 1)
    }
}

/// The segment behind the first one that is this word.
pub open spec fn behind(segs: Seq<Seq<char>>, w: Seq<char>) -> Option<Seq<char>> {
    match segment_from(segs, w, 0) {
        Some(i) => if i + 1 < segs.len() {
            Some(segs[i + 1])
        } else {
            None
        },
        None => None,
    }
}

/// What follows the first `://`.
pub fn strip_scheme(url: &str) -> (r: Option<&str>)
    ensures
        match (r, after_scheme(url@)) {
            (Some(s), Some(t)) => s@ == t,
            (None, None) => true,
            _ => false,
        },
{
    let v = text::chars(url);
    let t = text::chars("://");
    let n: usize = v.len();
    proof {
        reveal_strlit("://");
    }
    match text::position_of(&v, &t, 0) {
        Some(k) => {
            let r = url.substring_char(k + 3, n);
            assert(r@ =~= url@.skip(k + 3));
            Some(r)
        },
        None => None,
    }
}

/// A host without leading `www.`, in ASCII lower case.
pub fn normal_host(host: &str) -> (r: String)
    ensures
        r@ == host_name(host@),
{
    let n: usize = host.unicode_len();
    let mut i: usize = 0;
    assert(host@.skip(0) =~= host@);
    while n - i >= 4 && text::starts_with(host.substring_char(i, n), "www.")
        invariant
            n == host@.len(),
            i <= n,
            without_www(host@) == without_www(host@.skip(i as int)),
        decreases n - i,
    {
        proof {
            assert(host@.subrange(i as int, n as int) =~= host@.skip(i as int));
            assert(host@.skip(i as int).skip(4) =~= host@.skip(i + 4));
        }
        i = i + 4;
    }
    let bare = host.substring_char(i, n);
    assert(bare@ =~= host@.skip(i as int));
    text::to_ascii_lowercase(bare)
}

/// The non-empty segments of a path, up to the query or the fragment.
pub fn path_segments(path: &str) -> (r: Vec<String>)
    ensures
        text::views(r@) == segments(path@),
{
    let v = text::chars(path);
    let mut end: usize = 0;
    while end < v.len() && v[end] != '?' && v[end] != '#'
        invariant
            v@ == path@,
            end <= v@.len(),
            text::find_from(path@, path_end(), 0) == text::find_from(path@, path_end(), end as int),
        decreases v@.len() - end,
    {
        end = end + 1;
    }
    let plain = text::chars(path.substring_char(0, end));
    assert(plain@ =~= path@.take(end as int));
    text::char_pieces(&plain, '/')
}

/// The host and the path segments of a URL.
pub fn split_url(url: &str) -> (r: Option<(String, Vec<String>)>)
    ensures
        match (r, parts(url@)) {
            (Some((h, p)), Some((host, segs))) => h@ == host && text::views(p@) == segs,
            (None, None) => true,
            _ => false,
        },
{
    let rest = match strip_scheme(url) {
        Some(rest) => rest,
        None => {
            return None;
        },
    };
    let v = text::chars(rest);
    let n: usize = v.len();
    let k: usize = text::find_char(&v, '/', 0);
    if k >= n {
        return None;
    }
    let host = rest.substring_char(0, k);
    let path = rest.substring_char(k + 1, n);
    assert(host@ =~= rest@.take(k as int));
    assert(path@ =~= rest@.skip(k + 1));
    Some((normal_host(host), path_segments(path)))
}

/// The segment behind the first one that is this word.
pub fn segment_behind<'a>(segs: &'a Vec<String>, w: &str) -> (r: Option<&'a String>)
    ensures
        match (r, behind(text::views(segs@), w@)) {
            (Some(s), Some(t)) => s@ == t,
            (None, None) => true,
            _ => false,
        },
{
    let ghost all = text::views(segs@);
    let n: usize = segs.len();
    let mut i: usize = 0;
    while i < n
        invariant
            all == text::views(segs@),
            n == segs@.len(),
            i <= n,
            segment_from(all, w@, 0) == segment_from(all, w@, i as int),
        decreases n - i,
    {
        assert(all[i as int] == segs@[i as int]@);
        if text::str_eq(segs[i].as_str(), w) {
            if i + 1 < n {
                assert(all[i + 1] == segs@[i + 1]@);
                return Some(&segs[i + 1]);
            }
            return None;
        }
        i = i + 1;
    }
    None
}

// ---------------------------------------------------------------------------
// Laws.
// ---------------------------------------------------------------------------
/// Some segments with a slash between each two.
pub open spec fn slashed(segs: Seq<Seq<char>>) -> Seq<char>
    decreases segs.len(),
{
    if segs.len() == 0 {
        Seq::empty()
    } else if segs.len() == 1 {
        segs[0]
    } else {
        segs[0] + seq!['/'] + slashed(segs.skip(1))
    }
}

/// Whether a text can be a segment of a path.
pub open spec fn is_segment(s: Seq<char>) -> bool {
    s.len() > 0 && !s.contains('/') && !s.contains('?') && !s.contains('#')
}

/// Whether a text is a query, a fragment or nothing.
pub open spec fn is_tail(s: Seq<char>) -> bool {
    s.len() > 0 ==> s[0] == '?' || s[0] == '#'
}

/// A URL as it is written: a scheme, a host, a path and what follows it.
pub open spec fn written(
    scheme: Seq<char>,
    host: Seq<char>,
    segs: Seq<Seq<char>>,
    tail: Seq<char>,
) -> Seq<char> {
    scheme + "://"@ + host + seq!['/'] + slashed(segs) + tail
}

proof fn lemma_slashed(segs: Seq<Seq<char>>)
    requires
        forall|i: int| 0 <= i < segs.len() ==> is_segment(#[trigger] segs[i]),
    ensures
        text::pieces(slashed(segs), text::is_char('/')) == segs,
        !slashed(segs).contains('?'),
        !slashed(segs).contains('#'),
    decreases segs.len(),
{
    let sep = text::is_char('/');
    if segs.len() == 0 {
        assert(text::pieces(slashed(segs), sep) =~= segs);
    } else {
        let first = segs[0];
        assert(is_segment(first));
        assert forall|k: int| 0 <= k < first.len() implies !sep(#[trigger] first[k]) by {
            assert(first.contains(first[k]));
        }
        if segs.len() == 1 {
            text::law_a_text_without_separators_is_one_piece(first, sep);
            assert(segs =~= seq![first]);
        } else {
            let more = segs.skip(1);
            assert forall|i: int| 0 <= i < more.len() implies is_segment(#[trigger] more[i]) by {
                assert(more[i] == segs[i + 1]);
            }
            lemma_slashed(more);
            text::law_a_separator_ends_a_piece(first, '/', slashed(more), sep);
            assert(segs =~= seq![first] + more);
            let all = slashed(segs);
            assert forall|c: char| c == '?' || c == '#' implies !all.contains(c) by {
                if all.contains(c) {
                    let k = choose|k: int| 0 <= k < all.len() && all[k] == c;
                    if k < first.len() {
                        assert(first[k] == c);
                    } else if k > first.len() {
                        assert(slashed(more)[k - first.len() - 1] == c);
                    }
                }
            }
        }
    }
}

/// A URL falls into its host, without `www.` and in lower case, and the
/// segments of its path, whatever query or fragment follows.
pub proof fn law_a_url_falls_into_host_and_segments(
    scheme: Seq<char>,
    host: Seq<char>,
    segs: Seq<Seq<char>>,
    tail: Seq<char>,
)
    requires
        !scheme.contains(':'),
        !host.contains('/'),
        forall|i: int| 0 <= i < segs.len() ==> is_segment(#[trigger] segs[i]),
        is_tail(tail),
    ensures
        parts(written(scheme, host, segs, tail)) == Some((host_name(host), segs)),
{
    let url = written(scheme, host, segs, tail);
    let mark = "://"@;
    reveal_strlit("://");
    let n = scheme.len() as int;
    let path = slashed(segs);
    let rest = host + seq!['/'] + path + tail;
    assert(url =~= scheme + mark + rest);
    assert(url.subrange(n, n + 3) =~= mark);
    assert(text::occurs_at(url, mark, n));
    assert forall|k: int| 0 <= k < n implies !text::occurs_at(url, mark, k) by {
        if text::occurs_at(url, mark, k) {
            assert(url.subrange(k, k + 3)[0] == url[k]);
            assert(url[k] == scheme[k]);
            assert(scheme.contains(':'));
        }
    }
    text::lemma_find_seq(url, mark, 0);
    assert(text::find_seq(url, mark, 0) == Some(n));
    assert(url.skip(n + 3) =~= rest);
    let slash = text::is_char('/');
    let h = host.len() as int;
    assert(rest[h] == '/');
    assert forall|j: int| 0 <= j < h implies !slash(#[trigger] rest[j]) by {
        assert(rest[j] == host[j]);
        assert(host.contains(host[j]));
    }
    text::lemma_find_from_is(rest, slash, 0, h);
    assert(rest.take(h) =~= host);
    let left = path + tail;
    assert(rest.skip(h + 1) =~= left);
    lemma_slashed(segs);
    let end = path.len() as int;
    assert forall|j: int| 0 <= j < end implies !path_end()(#[trigger] left[j]) by {
        assert(left[j] == path[j]);
        assert(path.contains(path[j]));
    }
    if tail.len() > 0 {
        assert(left[end] == tail[0]);
    }
    text::lemma_find_from_is(left, path_end(), 0, end);
    assert(left.take(end) =~= path);
}

/// A leading `www.` does not count, nor does letter case.
pub proof fn law_www_and_case_do_not_count(host: Seq<char>)
    ensures
        host_name("www."@ + host) == host_name(host),
        !(host.len() >= 4 && host.take(4) == "www."@) ==> host_name(host) == text::ascii_lowered(
            host,
        ),
{
    reveal_strlit("www.");
    let long = "www."@ + host;
    assert(long.subrange(0, 4) =~= "www."@);
    assert(text::starts(long, "www."@));
    assert(long.skip(4) =~= host);
    assert(host.len() >= 4 ==> host.take(4) =~= host.subrange(0, 4));
}

/// The segment behind a word is the one that follows on its first occurrence.
pub proof fn law_the_segment_behind_a_word(segs: Seq<Seq<char>>, w: Seq<char>, i: int)
    requires
        0 <= i < segs.len(),
        segs[i] == w,
        forall|j: int| 0 <= j < i ==> segs[j] != w,
    ensures
        i + 1 < segs.len() ==> behind(segs, w) == Some(segs[i + 1]),
        i + 1 == segs.len() ==> behind(segs, w) is None,
{
    lemma_segment_from(segs, w, i, 0);
}

proof fn lemma_segment_from(segs: Seq<Seq<char>>, w: Seq<char>, i: int, k: int)
    requires
        0 <= k <= i < segs.len(),
        segs[i] == w,
        forall|j: int| 0 <= j < i ==> segs[j] != w,
    ensures
        segment_from(segs, w, k) == Some(i),
    decreases i - k,
{
    if k < i {
        lemma_segment_from(segs, w, i, k + 1);
    }
}

proof fn lemma_no_segment(segs: Seq<Seq<char>>, w: Seq<char>, k: int)
    requires
        0 <= k,
        !segs.contains(w),
    ensures
        segment_from(segs, w, k) is None,
    decreases segs.len() - k,
{
    if k < segs.len() {
        assert(segs.contains(segs[k]));
        lemma_no_segment(segs, w, k + 1);
    }
}

/// Without the word there is no segment behind it.
pub proof fn law_nothing_is_behind_a_missing_word(segs: Seq<Seq<char>>, w: Seq<char>)
    requires
        !segs.contains(w),
    ensures
        behind(segs, w) is None,
{
    lemma_no_segment(segs, w, 0);
}

/// What is behind a word is one of the segments.
pub proof fn lemma_behind(segs: Seq<Seq<char>>, w: Seq<char>)
    ensures
        behind(segs, w) matches Some(s) ==> segs.contains(s),
{
    lemma_segment_range(segs, w, 0);
}

proof fn lemma_segment_range(segs: Seq<Seq<char>>, w: Seq<char>, k: int)
    requires
        0 <= k,
    ensures
        segment_from(segs, w, k) matches Some(i) ==> k <= i < segs.len(),
    decreases segs.len() - k,
{
    if k < segs.len() {
        lemma_segment_range(segs, w, k + 1);
    }
}

} // verus!
