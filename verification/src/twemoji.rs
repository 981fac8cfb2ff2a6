//! Where the image of a unicode emoji is found.

use vstd::prelude::*;

use crate::text;

verus! {

/// The zero-width joiner.
pub const ZWJ: char = '\u{200d}';

/// The emoji variation selector.
pub const VARIATION: char = '\u{fe0f}';

/// The characters from `i` on that a file name spells out: the variation
/// selector only in sequences with a joiner.
pub open spec fn spelled_from(s: Seq<char>, has_zwj: bool, i: int) -> Seq<char>
    decreases s.len() - i,
{
    if i < 0 || i >= s.len() {
        Seq::empty()
    } else if has_zwj || s[i] != VARIATION {
        seq![s[i]] + spelled_from(s, has_zwj, i + 1)
    } else {
        spelled_from(s, has_zwj, i + 1)
    }
}

/// The code points of some characters, in lowercase hex, joined by hyphens.
pub open spec fn hex_list(s: Seq<char>) -> Seq<char>
    decreases s.len(),
{
    if s.len() == 0 {
        Seq::empty()
    } else if s.len() == 1 {
        text::numeral(s[0] as u32 as nat, 16)
    } else {
        hex_list(s.drop_last()) + seq!['-'] + text::numeral(s.last() as u32 as nat, 16)
    }
}

/// The file name of an emoji's image, without its extension.
pub open spec fn file_stem(emoji: Seq<char>) -> Seq<char> {
    hex_list(spelled_from(emoji, emoji.contains(ZWJ), 0))
}

/// The file name of an emoji's image, without its extension: lowercase hex
/// code points joined by hyphens. The variation selector is left out only
/// where the sequence has no zero-width joiner.
pub fn codepoints(emoji: &str) -> (r: String)
    ensures
        r@ == file_stem(emoji@),
{
    let v = text::chars(emoji);
    let has_zwj = text::contains_char(&v, ZWJ);
    let ghost all = spelled_from(emoji@, has_zwj, 0);
    let ghost mut done = Seq::<char>::empty();
    let mut r = String::new();
    let mut first = true;
    let mut i: usize = 0;
    assert(all =~= done + all);
    while i < v.len()
        invariant
            v@ == emoji@,
            i <= v@.len(),
            has_zwj == emoji@.contains(ZWJ),
            all == done + spelled_from(emoji@, has_zwj, i as int),
            r@ == hex_list(done),
            first == (done.len() == 0),
        decreases v@.len() - i,
    {
        let c: char = v[i];
        if has_zwj || c != VARIATION {
            if !first {
                r.push('-');
            }
            let ghost before = r@;
            text::push_numeral(&mut r, c as u32 as u64, 16);
            proof {
                let rest = spelled_from(emoji@, has_zwj, i + 1);
                let next = done.push(c);
                assert(done + (seq![c] + rest) =~= next + rest);
                assert(next.drop_last() =~= done);
                if done.len() == 0 {
                    assert(r@ =~= text::numeral(c as u32 as nat, 16));
                } else {
                    assert(r@ =~= hex_list(done) + seq!['-'] + text::numeral(c as u32 as nat, 16));
                }
                done = next;
            }
            first = false;
        }
        i = i + 1;
    }
    assert(all =~= done);
    r
}

/// Where the image with this file name is served.
pub fn cdn_url(codepoints: &str) -> (r: String)
    ensures
        r@ == "https://cdn.jsdelivr.net/gh/jdecked/twemoji@latest/assets/svg/"@ + codepoints@
            + ".svg"@,
{
    text::join3(
        "https://cdn.jsdelivr.net/gh/jdecked/twemoji@latest/assets/svg/",
        codepoints,
        ".svg",
    )
}

/// The name of the file that an emoji's image is cached in.
pub fn cache_name(emoji: &str) -> (r: String)
    ensures
        r@ == file_stem(emoji@) + ".svg"@,
{
    text::join2(codepoints(emoji).as_str(), ".svg")
}

/// A joiner keeps every character of a sequence in its file name; without one
/// no variation selector is spelled out.
pub proof fn law_variation_selectors(s: Seq<char>)
    ensures
        spelled_from(s, true, 0) == s,
        !spelled_from(s, false, 0).contains(VARIATION),
{
    lemma_spelled(s, 0);
    assert(s.skip(0) =~= s);
}

proof fn lemma_spelled(s: Seq<char>, i: int)
    requires
        0 <= i <= s.len(),
    ensures
        spelled_from(s, true, i) == s.skip(i),
        !spelled_from(s, false, i).contains(VARIATION),
    decreases s.len() - i,
{
    if i < s.len() {
        lemma_spelled(s, i + 1);
        assert(s.skip(i) =~= seq![s[i]] + s.skip(i + 1));
        let rest = spelled_from(s, false, i + 1);
        if s[i] != VARIATION {
            let all = seq![s[i]] + rest;
            if all.contains(VARIATION) {
                let k = choose|k: int| 0 <= k < all.len() && all[k] == VARIATION;
                assert(rest[k - 1] == VARIATION);
            }
        }
    }
}

/// The name of an emoji's image lists the code points of its characters in
/// hex, a hyphen between each two.
pub proof fn law_the_name_of_an_image(s: Seq<char>, c: char)
    ensures
        s.len() > 0 ==> hex_list(s.push(c)) == hex_list(s) + seq!['-'] + text::numeral(
            c as u32 as nat,
            16,
        ),
        hex_list(seq![c]) == text::numeral(c as u32 as nat, 16),
        c != VARIATION && c != ZWJ ==> file_stem(seq![c]) == text::numeral(c as u32 as nat, 16),
        c != VARIATION && c != ZWJ ==> file_stem(seq![c, VARIATION]) == text::numeral(
            c as u32 as nat,
            16,
        ),
{
    assert(s.push(c).drop_last() =~= s);
    let one = seq![c];
    let two = seq![c, VARIATION];
    if c != VARIATION && c != ZWJ {
        assert(!one.contains(ZWJ));
        assert(!two.contains(ZWJ));
        reveal_with_fuel(spelled_from, 4);
        assert(spelled_from(one, false, 0) =~= one);
        assert(spelled_from(two, false, 0) =~= one);
    }
}

} // verus!
