//! Marking misspelled words inside the composer.
//!
//! Nothing here talks to the speller. The composer decides which words are
//! misspelled and hands the verdicts down as [`Settings`]; this module finds
//! the words of a line and says which byte ranges to mark.
//!
//! Words are matched by text, not by range, so the same typo repeated is
//! flagged in every position and there is no line bookkeeping to drift out of
//! sync with the buffer.

use std::ops::Range;
use vstd::prelude::*;

use crate::text;
use crate::word_set::WordSet;

verus! {

/// One white-space delimited token of a line, plus the alphanumeric core the
/// speller actually sees.
///
/// Skip decisions ([`is_checkable`]) need the full token to recognise a URL or
/// a mention, while a replacement must land on the core alone so that
/// `"helo,"` keeps its comma.
#[derive(Debug, PartialEq, Eq)]
pub struct Word<'a> {
    /// Byte range of `core` within the line it came from.
    pub range: Range<usize>,
    /// Byte range of `raw` within that same line.
    pub raw_range: Range<usize>,
    /// The token trimmed to its outermost alphanumeric characters.
    pub core: &'a str,
    /// The raw white-space delimited token.
    pub raw: &'a str,
}

impl<'a> Clone for Word<'a> {
    fn clone(&self) -> (r: Self)
        ensures
            r == *self,
    {
        Word {
            range: Range { start: self.range.start, end: self.range.end },
            raw_range: Range { start: self.raw_range.start, end: self.raw_range.end },
            core: self.core,
            raw: self.raw,
        }
    }
}

// ---------------------------------------------------------------------------
// The model.
// ---------------------------------------------------------------------------
/// A word by the indices of its characters: `[raw.0, raw.1)` is the token,
/// `[core.0, core.1)` its alphanumeric core.
pub struct Token {
    pub core: (int, int),
    pub raw: (int, int),
}

/// The predicate "is a letter or a number".
pub open spec fn alnum() -> spec_fn(char) -> bool {
    |c: char| text::alphanumeric(c)
}

/// Whether `s[a..b]` holds a letter or a number.
pub open spec fn has_core(s: Seq<char>, r: (int, int)) -> bool {
    text::find_from(s, alnum(), r.0) < r.1
}

/// The token that a piece of the line makes.
pub open spec fn token(s: Seq<char>, r: (int, int)) -> Token {
    Token {
        core: (text::find_from(s, alnum(), r.0), text::end_before(s, alnum(), r.1)),
        raw: r,
    }
}

/// The tokens of the pieces that have a core, in order.
pub open spec fn tokens_of(s: Seq<char>, rs: Seq<(int, int)>) -> Seq<Token>
    decreases rs.len(),
{
    if rs.len() == 0 {
        Seq::empty()
    } else if has_core(s, rs.last()) {
        tokens_of(s, rs.drop_last()).push(token(s, rs.last()))
    } else {
        tokens_of(s, rs.drop_last())
    }
}

/// The words of a line, in order.
pub open spec fn tokens(s: Seq<char>) -> Seq<Token> {
    tokens_of(s, text::runs(s, text::spaces(), 0))
}

impl Token {
    /// The characters of the core.
    pub open spec fn core_of(self, s: Seq<char>) -> Seq<char> {
        s.subrange(self.core.0, self.core.1)
    }

    /// The characters of the whole token.
    pub open spec fn raw_of(self, s: Seq<char>) -> Seq<char> {
        s.subrange(self.raw.0, self.raw.1)
    }

    /// The core lies in the token, the token in the line, and the core begins
    /// and ends with a letter or a number.
    pub open spec fn fits(self, s: Seq<char>) -> bool {
        &&& 0 <= self.raw.0 <= self.core.0 < self.core.1 <= self.raw.1 <= s.len()
        &&& text::alphanumeric(s[self.core.0])
        &&& text::alphanumeric(s[self.core.1 - 1])
        &&& forall|k: int|
            self.raw.0 <= k < self.raw.1 && text::alphanumeric(#[trigger] s[k]) ==> self.core.0 <= k
                < self.core.1
    }
}

impl<'a> Word<'a> {
    /// Whether this is the word that the token stands for.
    pub open spec fn is(self, s: Seq<char>, t: Token) -> bool {
        &&& self.range.start == text::byte_at(s, t.core.0)
        &&& self.range.end == text::byte_at(s, t.core.1)
        &&& self.raw_range.start == text::byte_at(s, t.raw.0)
        &&& self.raw_range.end == text::byte_at(s, t.raw.1)
        &&& self.core@ == t.core_of(s)
        &&& self.raw@ == t.raw_of(s)
    }
}

/// The core of a piece is well placed.
pub proof fn lemma_token_fits(s: Seq<char>, r: (int, int))
    requires
        0 <= r.0 < r.1 <= s.len(),
        has_core(s, r),
    ensures
        token(s, r).fits(s),
{
    text::lemma_find_from(s, alnum(), r.0);
    text::lemma_end_before(s, alnum(), r.1);
    let a = text::find_from(s, alnum(), r.0);
    let b = text::end_before(s, alnum(), r.1);
    assert(alnum()(s[a]));
    if b <= a {
        assert(!alnum()(s[a]));
    }
    assert(alnum()(s[b - 1]));
    assert forall|k: int| r.0 <= k < r.1 && text::alphanumeric(#[trigger] s[k]) implies a <= k
        < b by {
        if k < a {
            assert(!alnum()(s[k]));
        }
        if b <= k {
            assert(!alnum()(s[k]));
        }
    }
}

/// Tokens of a list of pieces keep their pieces' places and order.
proof fn lemma_tokens_of(s: Seq<char>, rs: Seq<(int, int)>)
    requires
        forall|k: int| 0 <= k < rs.len() ==> 0 <= (#[trigger] rs[k]).0 < rs[k].1 <= s.len(),
        forall|j: int, k: int| 0 <= j < k < rs.len() ==> (#[trigger] rs[j]).1 < (#[trigger] rs[k]).0,
    ensures
        forall|k: int| 0 <= k < tokens_of(s, rs).len() ==> (#[trigger] tokens_of(s, rs)[k]).fits(s),
        forall|k: int|
            0 <= k < tokens_of(s, rs).len() ==> rs.contains((#[trigger] tokens_of(s, rs)[k]).raw),
        forall|j: int, k: int|
            0 <= j < k < tokens_of(s, rs).len() ==> (#[trigger] tokens_of(s, rs)[j]).raw.1
                < (#[trigger] tokens_of(s, rs)[k]).raw.0,
    decreases rs.len(),
{
    if rs.len() > 0 {
        let front = rs.drop_last();
        lemma_tokens_of(s, front);
        let ts = tokens_of(s, front);
        let all = tokens_of(s, rs);
        assert forall|k: int| 0 <= k < ts.len() implies rs.contains((#[trigger] ts[k]).raw) by {
            let i = choose|i: int| 0 <= i < front.len() && front[i] == ts[k].raw;
            assert(rs[i] == ts[k].raw);
        }
        if has_core(s, rs.last()) {
            lemma_token_fits(s, rs.last());
            assert(rs[rs.len() - 1] == rs.last());
            assert forall|j: int| 0 <= j < ts.len() implies (#[trigger] ts[j]).raw.1
                < rs.last().0 by {
                let i = choose|i: int| 0 <= i < front.len() && front[i] == ts[j].raw;
                assert(rs[i].1 < rs[rs.len() - 1].0);
            }
            assert forall|k: int| 0 <= k < all.len() implies (#[trigger] all[k]).fits(s) && rs.contains(
                all[k].raw,
            ) by {
                if k < ts.len() {
                    assert(all[k] == ts[k]);
                }
            }
            assert forall|j: int, k: int| 0 <= j < k < all.len() implies (#[trigger] all[j]).raw.1
                < (#[trigger] all[k]).raw.0 by {
                assert(all[j] == ts[j]);
                if k < ts.len() {
                    assert(all[k] == ts[k]);
                }
            }
        }
    }
}

/// Every word fits its line, and the words come in order without touching.
pub proof fn law_words_are_ordered_and_disjoint(s: Seq<char>)
    ensures
        forall|k: int| 0 <= k < tokens(s).len() ==> (#[trigger] tokens(s)[k]).fits(s),
        forall|j: int, k: int|
            0 <= j < k < tokens(s).len() ==> (#[trigger] tokens(s)[j]).raw.1 < (#[trigger] tokens(
                s,
            )[k]).raw.0,
        forall|k: int, i: int|
            0 <= k < tokens(s).len() && (#[trigger] tokens(s)[k]).raw.0 <= i < tokens(s)[k].raw.1
                ==> !text::white_space(#[trigger] s[i]),
{
    let rs = text::runs(s, text::spaces(), 0);
    text::lemma_runs(s, text::spaces(), 0);
    assert forall|k: int| 0 <= k < rs.len() implies 0 <= (#[trigger] rs[k]).0 < rs[k].1
        <= s.len() by {
        assert(text::piece_ok(s, text::spaces(), rs[k]));
    }
    lemma_tokens_of(s, rs);
    assert forall|k: int, i: int|
        0 <= k < tokens(s).len() && (#[trigger] tokens(s)[k]).raw.0 <= i < tokens(
            s,
        )[k].raw.1 implies !text::white_space(#[trigger] s[i]) by {
        let j = choose|j: int| 0 <= j < rs.len() && rs[j] == tokens(s)[k].raw;
        assert(text::piece_ok(s, text::spaces(), rs[j]));
        assert(!text::spaces()(s[i]));
    }
}

/// The byte ranges of words follow each other as the words do.
pub proof fn law_word_bytes_are_ordered(s: Seq<char>, j: int, k: int)
    requires
        0 <= j < k < tokens(s).len(),
    ensures
        text::byte_at(s, tokens(s)[j].raw.1) < text::byte_at(s, tokens(s)[k].raw.0),
        text::byte_at(s, tokens(s)[j].core.1) < text::byte_at(s, tokens(s)[k].core.0),
{
    law_words_are_ordered_and_disjoint(s);
    let x = tokens(s)[j];
    let y = tokens(s)[k];
    assert(x.fits(s) && y.fits(s));
    text::lemma_byte_at_monotone(s, x.raw.1, y.raw.0);
    text::lemma_byte_at_monotone(s, x.core.1, x.raw.1);
    text::lemma_byte_at_monotone(s, y.raw.0, y.core.0);
}

// ---------------------------------------------------------------------------
// Finding words.
// ---------------------------------------------------------------------------
/// The first letter or number of `v[from..to]`, or `to`.
fn find_alnum(v: &Vec<char>, from: usize, to: usize) -> (r: usize)
    requires
        from <= to <= v@.len(),
    ensures
        from <= r <= to,
        r < to <==> text::find_from(v@, alnum(), from as int) < to,
        r < to ==> r == text::find_from(v@, alnum(), from as int),
{
    let mut i: usize = from;
    while i < to && !v[i].is_alphanumeric()
        invariant
            from <= i <= to <= v@.len(),
            text::find_from(v@, alnum(), from as int) == text::find_from(v@, alnum(), i as int),
        decreases to - i,
    {
        i = i + 1;
    }
    proof {
        text::lemma_find_from(v@, alnum(), i as int);
    }
    i
}

/// The end of the last letter or number of `v[..to]`, or 0.
fn end_alnum(v: &Vec<char>, to: usize) -> (r: usize)
    requires
        to <= v@.len(),
    ensures
        r == text::end_before(v@, alnum(), to as int),
        r <= to,
{
    let mut i: usize = to;
    while i > 0 && !v[i - 1].is_alphanumeric()
        invariant
            i <= to <= v@.len(),
            text::end_before(v@, alnum(), to as int) == text::end_before(v@, alnum(), i as int),
        decreases i,
    {
        i = i - 1;
    }
    i
}

impl<'a> Word<'a> {
    /// Trims the token at `raw` to its alphanumeric core. `None` for a token
    /// with no alphanumeric character at all (bare punctuation, an emoji).
    fn new(line: &'a str, v: &Vec<char>, raw: (usize, usize)) -> (r: Option<Self>)
        requires
            v@ == line@,
            raw.0 < raw.1 <= v@.len(),
        ensures
            match r {
                Some(w) => has_core(line@, (raw.0 as int, raw.1 as int)) && w.is(
                    line@,
                    token(line@, (raw.0 as int, raw.1 as int)),
                ),
                None => !has_core(line@, (raw.0 as int, raw.1 as int)),
            },
    {
        let (from, to) = raw;
        let core_start: usize = find_alnum(v, from, to);
        if core_start >= to {
            return None;
        }
        let core_end: usize = end_alnum(v, to);
        proof {
            lemma_token_fits(line@, (from as int, to as int));
        }
        Some(
            Word {
                range: Range {
                    start: text::byte_offset(line, v, core_start),
                    end: text::byte_offset(line, v, core_end),
                },
                raw_range: Range {
                    start: text::byte_offset(line, v, from),
                    end: text::byte_offset(line, v, to),
                },
                core: line.substring_char(core_start, core_end),
                raw: line.substring_char(from, to),
            },
        )
    }
}

/// Whether the list holds exactly the words of the line, in order.
pub open spec fn are_words(ws: Seq<Word<'_>>, s: Seq<char>) -> bool {
    &&& ws.len() == tokens(s).len()
    &&& forall|k: int| 0 <= k < ws.len() ==> (#[trigger] ws[k]).is(s, tokens(s)[k])
}

/// Every word in `line`, in order, with byte ranges into `line`.
///
/// Splits on white space only: the speller does its own word breaking, and
/// splitting on punctuation here would tear "don't" and "e.g." apart before it
/// ever saw them. Tokens with no alphanumeric core are skipped.
pub fn words<'a>(line: &'a str) -> (r: Vec<Word<'a>>)
    ensures
        are_words(r@, line@),
{
    let v = text::chars(line);
    let rs = text::space_runs(&v);
    let ghost all = text::runs(line@, text::spaces(), 0);
    let mut out: Vec<Word<'a>> = Vec::new();
    let mut i: usize = 0;
    while i < rs.len()
        invariant
            v@ == line@,
            all == text::runs(line@, text::spaces(), 0),
            rs@.len() == all.len(),
            forall|k: int|
                0 <= k < rs@.len() ==> (#[trigger] rs@[k]).0 == all[k].0 && rs@[k].1 == all[k].1
                    && rs@[k].0 < rs@[k].1 <= v@.len(),
            i <= rs@.len(),
            out@.len() == tokens_of(line@, all.take(i as int)).len(),
            forall|k: int|
                0 <= k < out@.len() ==> (#[trigger] out@[k]).is(
                    line@,
                    tokens_of(line@, all.take(i as int))[k],
                ),
        decreases rs@.len() - i,
    {
        assert(all.take(i + 1).drop_last() =~= all.take(i as int));
        assert(all.take(i + 1).last() == all[i as int]);
        assert(rs@[i as int].0 == all[i as int].0);
        assert(all[i as int] == (rs@[i as int].0 as int, rs@[i as int].1 as int));
        if let Some(word) = Word::new(line, &v, rs[i]) {
            out.push(word);
        }
        i = i + 1;
    }
    assert(all.take(all.len() as int) =~= all);
    out
}

// ---------------------------------------------------------------------------
// Which tokens are prose.
// ---------------------------------------------------------------------------
/// The letters of a token, in order.
pub open spec fn letters(s: Seq<char>) -> Seq<char>
    decreases s.len(),
{
    if s.len() == 0 {
        Seq::empty()
    } else if text::alphabetic(s.last()) {
        letters(s.drop_last()).push(s.last())
    } else {
        letters(s.drop_last())
    }
}

/// Ordinary prose: at least two letters; no mention, shortcode, URL, path or
/// identifier; no digit; and no capital behind the first letter.
pub open spec fn checkable(raw: Seq<char>) -> bool {
    let l = letters(raw);
    &&& l.len() >= 2
    &&& !raw.contains('@')
    &&& raw[0] != ':'
    &&& !raw.contains('/')
    &&& !raw.contains('\\')
    &&& !raw.contains('_')
    &&& !text::starts(raw, "www."@)
    &&& forall|k: int| 0 <= k < raw.len() ==> !text::numeric(#[trigger] raw[k])
    &&& forall|k: int| 1 <= k < l.len() ==> !text::uppercase(#[trigger] l[k])
}

/// Letters come out of the token.
proof fn lemma_letters_len(s: Seq<char>)
    ensures
        letters(s).len() <= s.len(),
    decreases s.len(),
{
    if s.len() > 0 {
        lemma_letters_len(s.drop_last());
    }
}

/// The letters of a token, in order.
fn letters_of(v: &Vec<char>) -> (r: Vec<char>)
    ensures
        r@ == letters(v@),
{
    let mut r: Vec<char> = Vec::new();
    let mut i: usize = 0;
    assert(v@.take(0) =~= Seq::<char>::empty());
    while i < v.len()
        invariant
            i <= v@.len(),
            r@ == letters(v@.take(i as int)),
        decreases v@.len() - i,
    {
        assert(v@.take(i + 1).drop_last() =~= v@.take(i as int));
        assert(v@.take(i + 1).last() == v@[i as int]);
        if v[i].is_alphabetic() {
            r.push(v[i]);
        }
        i = i + 1;
    }
    assert(v@.take(v@.len() as int) =~= v@);
    r
}

/// Whether a number stands among the characters.
fn any_numeric(v: &Vec<char>) -> (r: bool)
    ensures
        r == exists|k: int| 0 <= k < v@.len() && text::numeric(#[trigger] v@[k]),
{
    let mut i: usize = 0;
    while i < v.len()
        invariant
            i <= v@.len(),
            forall|k: int| 0 <= k < i ==> !text::numeric(#[trigger] v@[k]),
        decreases v@.len() - i,
    {
        if v[i].is_numeric() {
            return true;
        }
        i = i + 1;
    }
    false
}

/// Whether a capital stands among `v[from..]`.
fn any_upper(v: &Vec<char>, from: usize) -> (r: bool)
    ensures
        r == exists|k: int| from <= k < v@.len() && text::uppercase(#[trigger] v@[k]),
{
    let mut i: usize = from;
    while i < v.len()
        invariant
            from <= i,
            forall|k: int| from <= k < i && k < v@.len() ==> !text::uppercase(#[trigger] v@[k]),
        decreases v@.len() - i,
    {
        if v[i].is_uppercase() {
            return true;
        }
        i = i + 1;
    }
    false
}

/// Whether a raw token is ordinary prose worth spell-checking: filters out
/// what chat is full of and a dictionary would wrongly flag (mentions, emoji
/// shortcodes, URLs and paths, code-like identifiers, acronyms, and anything
/// carrying a digit).
pub fn is_checkable(raw: &str) -> (r: bool)
    ensures
        r == checkable(raw@),
{
    let v = text::chars(raw);
    let l = letters_of(&v);
    // Needs at least two letters to be a word worth checking.
    if l.len() < 2 {
        return false;
    }
    proof {
        lemma_letters_len(v@);
    }
    // Mentions and emoji shortcodes.
    if text::contains_char(&v, '@') || v[0] == ':' {
        return false;
    }
    // URLs, paths, snake_case identifiers.
    if text::contains_char(&v, '/') || text::contains_char(&v, '\\') || text::contains_char(
        &v,
        '_',
    ) || text::starts_with(raw, "www.") {
        return false;
    }
    // Versions, ids: anything with a digit.
    if any_numeric(&v) {
        return false;
    }
    // A capital behind the first letter marks an acronym or an identifier; a
    // plain capitalised word is fine.
    let internal_upper = any_upper(&l, 1);
    assert(!internal_upper ==> !text::uppercase(l@[1]));
    !internal_upper
}

// ---------------------------------------------------------------------------
// The highlighter.
// ---------------------------------------------------------------------------
/// The misspelled words to mark, as the composer last computed them.
///
/// The renderer re-runs the whole highlighter whenever settings compare
/// unequal, so equality is the monotonic `revision` alone. The composer bumps
/// `revision` only when the set actually changes.
#[derive(Debug, Clone, Default)]
pub struct Settings {
    pub revision: u64,
    pub misspelled: WordSet,
}

impl PartialEq for Settings {
    fn eq(&self, other: &Self) -> (r: bool) {
        self.revision == other.revision
    }
}

impl vstd::std_specs::cmp::PartialEqSpecImpl for Settings {
    open spec fn obeys_eq_spec() -> bool {
        true
    }

    open spec fn eq_spec(&self, other: &Self) -> bool {
        self.revision == other.revision
    }
}

impl Settings {
    /// No marks, at revision 0.
    pub fn new() -> (r: Self)
        ensures
            r.revision == 0,
            r.misspelled@ == Set::<Seq<char>>::empty(),
    {
        Settings { revision: 0, misspelled: WordSet::new() }
    }

    /// The same settings again.
    pub fn copy(&self) -> (r: Self)
        ensures
            r.revision == self.revision,
            r.misspelled@ == self.misspelled@,
    {
        Settings { revision: self.revision, misspelled: self.misspelled.copy() }
    }
}

/// Marks the words in [`Settings::misspelled`] wherever they appear.
#[derive(Debug)]
pub struct Highlighter {
    settings: Settings,
    current_line: usize,
}

/// Whether a word is to be marked.
pub open spec fn marked(s: Seq<char>, t: Token, misspelled: Set<Seq<char>>) -> bool {
    checkable(t.raw_of(s)) && misspelled.contains(t.core_of(s))
}

/// The byte ranges of the marked words among the first tokens, in order.
pub open spec fn marks_of(
    s: Seq<char>,
    ts: Seq<Token>,
    misspelled: Set<Seq<char>>,
) -> Seq<(nat, nat)>
    decreases ts.len(),
{
    if ts.len() == 0 {
        Seq::empty()
    } else if marked(s, ts.last(), misspelled) {
        marks_of(s, ts.drop_last(), misspelled).push(
            (text::byte_at(s, ts.last().core.0), text::byte_at(s, ts.last().core.1)),
        )
    } else {
        marks_of(s, ts.drop_last(), misspelled)
    }
}

/// The byte ranges to mark in a line.
pub open spec fn marks(s: Seq<char>, misspelled: Set<Seq<char>>) -> Seq<(nat, nat)> {
    marks_of(s, tokens(s), misspelled)
}

/// Whether the ranges are the given ones.
pub open spec fn ranges_are(rs: Seq<Range<usize>>, ms: Seq<(nat, nat)>) -> bool {
    &&& rs.len() == ms.len()
    &&& forall|k: int| 0 <= k < rs.len() ==> (#[trigger] rs[k]).start == ms[k].0 && rs[k].end == ms[k].1
}

impl Highlighter {
    /// The words it marks.
    pub closed spec fn misspelled(&self) -> Set<Seq<char>> {
        self.settings.misspelled@
    }

    /// The revision it was last given.
    pub closed spec fn revision(&self) -> u64 {
        self.settings.revision
    }

    /// The index of the next line.
    pub closed spec fn line(&self) -> usize {
        self.current_line
    }

    /// A highlighter at the first line.
    pub fn new(settings: &Settings) -> (r: Self)
        ensures
            r.misspelled() == settings.misspelled@,
            r.revision() == settings.revision,
            r.line() == 0,
    {
        Highlighter { settings: settings.copy(), current_line: 0 }
    }

    /// Takes new settings and starts over at the first line.
    pub fn update(&mut self, new_settings: &Settings)
        ensures
            final(self).misspelled() == new_settings.misspelled@,
            final(self).revision() == new_settings.revision,
            final(self).line() == 0,
    {
        self.settings = new_settings.copy();
        self.current_line = 0;
    }

    /// Moves to another line.
    pub fn change_line(&mut self, line: usize)
        ensures
            final(self).misspelled() == old(self).misspelled(),
            final(self).revision() == old(self).revision(),
            final(self).line() == line,
    {
        self.current_line = line;
    }

    /// The byte ranges to mark in the next line.
    pub fn highlight_line(&mut self, line: &str) -> (r: Vec<Range<usize>>)
        requires
            old(self).line() < usize::MAX,
        ensures
            ranges_are(r@, marks(line@, old(self).misspelled())),
            final(self).misspelled() == old(self).misspelled(),
            final(self).revision() == old(self).revision(),
            final(self).line() == old(self).line() + 1,
    {
        self.current_line = self.current_line + 1;
        let mut out: Vec<Range<usize>> = Vec::new();
        // A clean draft should not tokenise anything at all.
        if self.settings.misspelled.is_empty() {
            proof {
                lemma_no_marks(line@, tokens(line@));
            }
            return out;
        }
        let ws = words(line);
        let ghost ts = tokens(line@);
        let ghost set = self.settings.misspelled@;
        let mut i: usize = 0;
        while i < ws.len()
            invariant
                are_words(ws@, line@),
                ts == tokens(line@),
                set == self.settings.misspelled@,
                i <= ws@.len(),
                ranges_are(out@, marks_of(line@, ts.take(i as int), set)),
            decreases ws@.len() - i,
        {
            assert(ts.take(i + 1).drop_last() =~= ts.take(i as int));
            assert(ts.take(i + 1).last() == ts[i as int]);
            assert(ws@[i as int].is(line@, ts[i as int]));
            let word = &ws[i];
            if is_checkable(word.raw) && self.settings.misspelled.contains(word.core) {
                out.push(Range { start: word.range.start, end: word.range.end });
            }
            i = i + 1;
        }
        assert(ts.take(ts.len() as int) =~= ts);
        out
    }

    /// The index of the next line.
    pub fn current_line(&self) -> (r: usize)
        ensures
            r == self.line(),
    {
        self.current_line
    }
}

/// Nothing misspelled, nothing marked.
proof fn lemma_no_marks(s: Seq<char>, ts: Seq<Token>)
    ensures
        marks_of(s, ts, Set::empty()).len() == 0,
    decreases ts.len(),
{
    if ts.len() > 0 {
        lemma_no_marks(s, ts.drop_last());
    }
}

/// Whether a word of a line is this: a stretch without white space, with white
/// space or an end of the line on either side of it, which is cut to its
/// outermost letters and numbers.
pub open spec fn stands_as_word(s: Seq<char>, raw: (int, int), core: (int, int)) -> bool {
    &&& 0 <= raw.0 <= core.0 < core.1 <= raw.1 <= s.len()
    &&& forall|k: int| raw.0 <= k < raw.1 ==> !text::white_space(#[trigger] s[k])
    &&& raw.0 > 0 ==> text::white_space(s[raw.0 - 1])
    &&& raw.1 < s.len() ==> text::white_space(s[raw.1])
    &&& text::alphabetic(s[core.0]) || text::numeric(s[core.0])
    &&& text::alphabetic(s[core.1 - 1]) || text::numeric(s[core.1 - 1])
    &&& forall|k: int|
        raw.0 <= k < core.0 || core.1 <= k < raw.1 ==> !text::alphabetic(#[trigger] s[k])
            && !text::numeric(s[k])
}

/// Every stretch without white space is a run.
proof fn lemma_runs_complete(s: Seq<char>, i: int, r: (int, int))
    requires
        0 <= i <= r.0,
        text::piece_ok(s, text::spaces(), r),
    ensures
        text::runs(s, text::spaces(), i).contains(r),
    decreases s.len() - i,
{
    let sep = text::spaces();
    let a = text::find_from(s, text::negated(sep), i);
    text::lemma_find_from(s, text::negated(sep), i);
    if a > r.0 {
        assert(!text::negated(sep)(s[r.0]));
        assert(!sep(s[r.0]));
    }
    let b = text::find_from(s, sep, a);
    text::lemma_find_from(s, sep, a);
    assert(text::negated(sep)(s[a]));
    let rest = text::runs(s, sep, b);
    let all = text::runs(s, sep, i);
    assert(all == seq![(a, b)] + rest);
    if a == r.0 {
        text::lemma_find_from_is(s, sep, a, r.1);
        assert(all[0] == r);
    } else {
        if r.0 - 1 < b {
            assert(!sep(s[r.0 - 1]));
        }
        lemma_runs_complete(s, b, r);
        let k = choose|k: int| 0 <= k < rest.len() && rest[k] == r;
        assert(all[k + 1] == r);
    }
}

/// Every run with a letter or a number in it gives a token.
proof fn lemma_tokens_complete(s: Seq<char>, rs: Seq<(int, int)>, r: (int, int))
    requires
        rs.contains(r),
        has_core(s, r),
    ensures
        tokens_of(s, rs).contains(token(s, r)),
    decreases rs.len(),
{
    let ts = tokens_of(s, rs);
    if rs.last() == r {
        assert(ts[ts.len() - 1] == token(s, r));
    } else {
        let front = rs.drop_last();
        let k = choose|k: int| 0 <= k < rs.len() && rs[k] == r;
        assert(front[k] == r);
        lemma_tokens_complete(s, front, r);
        let fs = tokens_of(s, front);
        let j = choose|j: int| 0 <= j < fs.len() && fs[j] == token(s, r);
        assert(ts[j] == token(s, r));
    }
}

/// The words of a line are exactly the stretches between white space that hold
/// a letter or a number, and the core of each runs from the first of these to
/// the last: punctuation around a word is no part of it.
pub proof fn law_words_are_what_stands_between_spaces(
    s: Seq<char>,
    raw: (int, int),
    core: (int, int),
)
    ensures
        tokens(s).contains(Token { core, raw }) <==> stands_as_word(s, raw, core),
{
    let t = Token { core, raw };
    let rs = text::runs(s, text::spaces(), 0);
    if stands_as_word(s, raw, core) {
        assert(text::piece_ok(s, text::spaces(), raw)) by {
            assert forall|k: int| raw.0 <= k < raw.1 implies !text::spaces()(#[trigger] s[k]) by {}
        }
        lemma_runs_complete(s, 0, raw);
        assert forall|k: int| raw.0 <= k < core.0 implies !alnum()(#[trigger] s[k]) by {}
        text::lemma_find_from_is(s, alnum(), raw.0, core.0);
        text::lemma_end_before(s, alnum(), raw.1);
        let e = text::end_before(s, alnum(), raw.1);
        if e < core.1 {
            assert(!alnum()(s[core.1 - 1]));
        }
        if e > core.1 {
            assert(alnum()(s[e - 1]));
        }
        assert(token(s, raw) == t);
        lemma_tokens_complete(s, rs, raw);
    }
    if tokens(s).contains(t) {
        let k = choose|k: int| 0 <= k < tokens(s).len() && tokens(s)[k] == t;
        text::lemma_runs(s, text::spaces(), 0);
        assert forall|k: int| 0 <= k < rs.len() implies 0 <= (#[trigger] rs[k]).0 < rs[k].1
            <= s.len() by {
            assert(text::piece_ok(s, text::spaces(), rs[k]));
        }
        lemma_tokens_of(s, rs);
        assert(tokens(s)[k].fits(s));
        let j = choose|j: int| 0 <= j < rs.len() && rs[j] == t.raw;
        assert(text::piece_ok(s, text::spaces(), rs[j]));
        assert forall|k: int| raw.0 <= k < raw.1 implies !text::white_space(#[trigger] s[k]) by {
            assert(!text::spaces()(s[k]));
        }
        assert forall|k: int| raw.0 <= k < core.0 || core.1 <= k < raw.1 implies !text::alphabetic(
            #[trigger] s[k],
        ) && !text::numeric(s[k]) by {
            if text::alphanumeric(s[k]) {
                assert(core.0 <= k < core.1);
            }
        }
    }
}

/// What is checked: a token with two letters or more and no capital behind the
/// first of them, which holds none of the characters that mark a mention, a
/// path or an identifier, and no digit, and begins neither like a shortcode
/// nor like a web address. Any other punctuation is fine.
pub proof fn law_prose_is_checked(raw: Seq<char>)
    ensures
        checkable(raw) <==> {
            let l = raw.filter(|c: char| text::alphabetic(c));
            &&& l.len() >= 2
            &&& forall|k: int| 1 <= k < l.len() ==> !text::uppercase(#[trigger] l[k])
            &&& forall|k: int|
                0 <= k < raw.len() ==> (#[trigger] raw[k]) != '@' && raw[k] != '/' && raw[k] != '\\'
                    && raw[k] != '_' && !text::numeric(raw[k])
            &&& raw[0] != ':'
            &&& !(raw.len() >= 4 && raw.take(4) == "www."@)
        },
{
    lemma_letters_filter(raw);
    reveal_strlit("www.");
    assert("www."@.len() == 4);
    if raw.len() >= 4 {
        assert(raw.subrange(0, 4) =~= raw.take(4));
    }
    if checkable(raw) {
        assert forall|k: int| 0 <= k < raw.len() implies (#[trigger] raw[k]) != '@' && raw[k] != '/'
            && raw[k] != '\\' && raw[k] != '_' && !text::numeric(raw[k]) by {
            assert(raw.contains(raw[k]));
        }
    }
}

/// The letters of a text are the alphabetic ones among its characters.
proof fn lemma_letters_filter(s: Seq<char>)
    ensures
        letters(s) == s.filter(|c: char| text::alphabetic(c)),
    decreases s.len(),
{
    reveal(Seq::filter);
    if s.len() > 0 {
        lemma_letters_filter(s.drop_last());
    }
}

/// A misspelled word is marked wherever it stands as prose, and nothing else
/// is: a range is marked exactly when it is the core of such a word.
pub proof fn law_marks_are_the_flagged_words(s: Seq<char>, misspelled: Set<Seq<char>>, r: (nat, nat))
    ensures
        marks(s, misspelled).contains(r) <==> exists|k: int|
            0 <= k < tokens(s).len() && marked(s, #[trigger] tokens(s)[k], misspelled) && r == (
                text::byte_at(s, tokens(s)[k].core.0),
                text::byte_at(s, tokens(s)[k].core.1),
            ),
{
    lemma_marks_of(s, tokens(s), misspelled, r);
}

proof fn lemma_marks_of(s: Seq<char>, ts: Seq<Token>, misspelled: Set<Seq<char>>, r: (nat, nat))
    ensures
        marks_of(s, ts, misspelled).contains(r) <==> exists|k: int|
            0 <= k < ts.len() && marked(s, #[trigger] ts[k], misspelled) && r == (
                text::byte_at(s, ts[k].core.0),
                text::byte_at(s, ts[k].core.1),
            ),
    decreases ts.len(),
{
    if ts.len() > 0 {
        let front = ts.drop_last();
        lemma_marks_of(s, front, misspelled, r);
        let before = marks_of(s, front, misspelled);
        let after = marks_of(s, ts, misspelled);
        let here = (text::byte_at(s, ts.last().core.0), text::byte_at(s, ts.last().core.1));
        if before.contains(r) {
            let k = choose|k: int|
                0 <= k < front.len() && marked(s, #[trigger] front[k], misspelled) && r == (
                    text::byte_at(s, front[k].core.0),
                    text::byte_at(s, front[k].core.1),
                );
            assert(ts[k] == front[k]);
            let m = choose|m: int| 0 <= m < before.len() && before[m] == r;
            assert(after[m] == r);
        }
        if marked(s, ts.last(), misspelled) {
            assert(after =~= before.push(here));
            if r == here {
                assert(after[before.len() as int] == r);
                assert(ts[ts.len() - 1] == ts.last());
            }
        }
        if after.contains(r) && !before.contains(r) {
            let m = choose|m: int| 0 <= m < after.len() && after[m] == r;
            assert(m == before.len());
            assert(ts[ts.len() - 1] == ts.last());
        }
        if exists|k: int|
            0 <= k < ts.len() && marked(s, #[trigger] ts[k], misspelled) && r == (
                text::byte_at(s, ts[k].core.0),
                text::byte_at(s, ts[k].core.1),
            ) {
            let k = choose|k: int|
                0 <= k < ts.len() && marked(s, #[trigger] ts[k], misspelled) && r == (
                    text::byte_at(s, ts[k].core.0),
                    text::byte_at(s, ts[k].core.1),
                );
            if k < front.len() {
                assert(front[k] == ts[k]);
            }
        }
    }
}

} // verus!
