//! Spell-check state of the composer: which words are marked, what the
//! suggestion bar offers, and how an autocorrect is taken back.
//!
//! The speller is a service of the operating system, handed in as two
//! functions: `errors` reports the first error of a word, `guesses` the
//! alternatives it offers. Nothing is presumed of either; what is stated here
//! holds of whatever they answer.

use std::ops::Range;
use vstd::prelude::*;

use crate::spellcheck;
use crate::spellcheck::{Analysis, SpellError};
use crate::spellcheck_config::SpellcheckConfig;
use crate::spellcheck_highlight;
use crate::spellcheck_highlight::{Settings, Token, Word};
use crate::text;
use crate::word_set::WordSet;

verus! {

/// How many word verdicts to remember before dropping the lot. The cache is a
/// latency trick, not a store.
pub const VERDICT_CACHE_CAP: usize = 512;

/// A misspelled word the suggestion bar is offering fixes for.
#[derive(Debug)]
pub struct Flagged {
    /// Byte range of the word within the draft.
    pub range: Range<usize>,
    pub word: String,
    pub suggestions: Vec<String>,
}

/// How to take an autocorrect back.
#[derive(Debug)]
pub struct Revert {
    /// Byte range the correction occupies in the draft autocorrect left.
    pub range: Range<usize>,
    /// The word autocorrect put there: checked before undoing, so that a draft
    /// edited out from under it is never corrupted.
    pub corrected: String,
    /// The word the user actually typed, to put back.
    pub original: String,
}

/// Spell-check state for the composer, recomputed on every edit.
#[derive(Debug)]
pub struct SpellState {
    /// The flagged word the suggestion bar targets, if any.
    pub flagged: Option<Flagged>,
    /// Which words to mark inside the editor.
    pub highlight: Settings,
    /// Set for exactly one edit after an autocorrect: if the next edit is the
    /// Backspace that would delete the space just added, the original word is
    /// restored instead.
    pub pending_revert: Option<Revert>,
    /// Remembered verdicts, by word.
    pub verdicts: Vec<(String, bool)>,
    /// The bar's last suggestion list, so that parking the caret next to a
    /// typo does not ask the speller again on every keystroke.
    pub flag_memo: Option<(String, Vec<String>)>,
    /// Words the user has un-corrected. Autocorrect leaves these alone for the
    /// rest of the draft; the suggestion bar keeps offering their fixes.
    pub rejected: WordSet,
}

// ---------------------------------------------------------------------------
// Words and the caret.
// ---------------------------------------------------------------------------
/// The first token at or after `i` that ends at the byte offset.
pub open spec fn first_ending_at(s: Seq<char>, ts: Seq<Token>, cursor: int, i: int) -> Option<Token>
    decreases ts.len() - i,
{
    if i < 0 || i >= ts.len() {
        None
    } else if text::byte_at(s, ts[i].raw.1) == cursor {
        Some(ts[i])
    } else {
        first_ending_at(s, ts, cursor, i + 1)
    }
}

/// The word at whose trailing edge the caret stands.
pub open spec fn typed_token(s: Seq<char>, cursor: int) -> Option<Token> {
    first_ending_at(s, spellcheck_highlight::tokens(s), cursor, 0)
}

/// How many tokens from `i` on satisfy `p` in a row.
pub open spec fn leading(ts: Seq<Token>, p: spec_fn(Token) -> bool, i: int) -> int
    decreases ts.len() - i,
{
    if i < 0 || i >= ts.len() || !p(ts[i]) {
        i
    } else {
        leading(ts, p, i + 1)
    }
}

/// The last of the leading tokens that satisfy `p`.
pub open spec fn last_leading(ts: Seq<Token>, p: spec_fn(Token) -> bool) -> Option<Token> {
    let n = leading(ts, p, 0);
    if n > 0 {
        Some(ts[n - 1])
    } else {
        None
    }
}

/// The word the caret has just finished: the last one that ends before it.
pub open spec fn finished_token(s: Seq<char>, cursor: int) -> Option<Token> {
    last_leading(
        spellcheck_highlight::tokens(s),
        |t: Token| text::byte_at(s, t.raw.1) < cursor,
    )
}

/// The word the caret is in or has just left: the last one that does not
/// start behind it.
pub open spec fn target_token(s: Seq<char>, cursor: int) -> Option<Token> {
    last_leading(
        spellcheck_highlight::tokens(s),
        |t: Token| text::byte_at(s, t.raw.0) <= cursor,
    )
}

/// Whether an optional word is the one an optional token stands for.
pub open spec fn word_is(w: Option<Word<'_>>, s: Seq<char>, t: Option<Token>) -> bool {
    match (w, t) {
        (Some(w), Some(t)) => w.is(s, t),
        (None, None) => true,
        _ => false,
    }
}

/// The leading tokens run up to the first one without the property.
pub proof fn lemma_leading(ts: Seq<Token>, p: spec_fn(Token) -> bool, i: int)
    requires
        0 <= i <= ts.len(),
    ensures
        i <= leading(ts, p, i) <= ts.len(),
        forall|k: int| i <= k < leading(ts, p, i) ==> p(#[trigger] ts[k]),
        leading(ts, p, i) < ts.len() ==> !p(ts[leading(ts, p, i)]),
    decreases ts.len() - i,
{
    if i < ts.len() && p(ts[i]) {
        lemma_leading(ts, p, i + 1);
    }
}

/// The word the caret is at the trailing edge of: the one being typed right
/// now. Clicking into the middle of a finished typo leaves it marked.
pub fn word_being_typed<'a>(body: &'a str, cursor: usize) -> (r: Option<Word<'a>>)
    ensures
        word_is(r, body@, typed_token(body@, cursor as int)),
{
    let ws = spellcheck_highlight::words(body);
    let ghost ts = spellcheck_highlight::tokens(body@);
    let mut i: usize = 0;
    while i < ws.len()
        invariant
            spellcheck_highlight::are_words(ws@, body@),
            ts == spellcheck_highlight::tokens(body@),
            i <= ws@.len(),
            typed_token(body@, cursor as int) == first_ending_at(
                body@,
                ts,
                cursor as int,
                i as int,
            ),
        decreases ws@.len() - i,
    {
        assert(ws@[i as int].is(body@, ts[i as int]));
        if ws[i].raw_range.end == cursor {
            return Some(ws[i].clone());
        }
        i = i + 1;
    }
    None
}

/// The word the caret has just finished. A caret at a word's trailing edge
/// means it is still being typed, so nothing is finished there.
pub fn word_before_cursor<'a>(body: &'a str, cursor: usize) -> (r: Option<Word<'a>>)
    ensures
        word_is(r, body@, finished_token(body@, cursor as int)),
{
    let ws = spellcheck_highlight::words(body);
    let ghost ts = spellcheck_highlight::tokens(body@);
    let ghost p = |t: Token| text::byte_at(body@, t.raw.1) < cursor;
    let mut i: usize = 0;
    while i < ws.len() && ws[i].raw_range.end < cursor
        invariant
            spellcheck_highlight::are_words(ws@, body@),
            ts == spellcheck_highlight::tokens(body@),
            p == (|t: Token| text::byte_at(body@, t.raw.1) < cursor),
            i <= ws@.len(),
            leading(ts, p, 0) == leading(ts, p, i as int),
        decreases ws@.len() - i,
    {
        assert(ws@[i as int].is(body@, ts[i as int]));
        i = i + 1;
    }
    proof {
        if i < ws@.len() {
            assert(ws@[i as int].is(body@, ts[i as int]));
        }
        assert(leading(ts, p, 0) == i);
        assert(p =~= (|t: Token| text::byte_at(body@, t.raw.1) < cursor as int));
    }
    if i > 0 {
        assert(ws@[i - 1].is(body@, ts[i - 1]));
        Some(ws[i - 1].clone())
    } else {
        None
    }
}

/// The word the suggestion bar should offer fixes for: the one the caret is
/// in, or the one it just left.
pub fn flag_target<'a>(body: &'a str, cursor: usize) -> (r: Option<Word<'a>>)
    ensures
        word_is(r, body@, target_token(body@, cursor as int)),
{
    let ws = spellcheck_highlight::words(body);
    let ghost ts = spellcheck_highlight::tokens(body@);
    let ghost p = |t: Token| text::byte_at(body@, t.raw.0) <= cursor;
    let mut i: usize = 0;
    while i < ws.len() && ws[i].raw_range.start <= cursor
        invariant
            spellcheck_highlight::are_words(ws@, body@),
            ts == spellcheck_highlight::tokens(body@),
            p == (|t: Token| text::byte_at(body@, t.raw.0) <= cursor),
            i <= ws@.len(),
            leading(ts, p, 0) == leading(ts, p, i as int),
        decreases ws@.len() - i,
    {
        assert(ws@[i as int].is(body@, ts[i as int]));
        i = i + 1;
    }
    proof {
        if i < ws@.len() {
            assert(ws@[i as int].is(body@, ts[i as int]));
        }
        assert(leading(ts, p, 0) == i);
        assert(p =~= (|t: Token| text::byte_at(body@, t.raw.0) <= cursor as int));
    }
    if i > 0 {
        assert(ws@[i - 1].is(body@, ts[i - 1]));
        Some(ws[i - 1].clone())
    } else {
        None
    }
}

/// Words that start lowercase: a leading capital usually marks a name or a
/// sentence start, which autocorrect should not touch.
pub open spec fn lower_start(w: Seq<char>) -> bool {
    w.len() > 0 && text::lowercase(w[0])
}

/// Whether the word starts with a lowercase letter.
pub fn starts_lowercase(word: &str) -> (r: bool)
    ensures
        r == lower_start(word@),
{
    let v = text::chars(word);
    v.len() > 0 && v[0].is_lowercase()
}

/// Chat slang that a dictionary does not know and nobody wants corrected: a
/// speller offers "goanna" for "gonna" and "urn" for "ur".
pub open spec fn slang(w: Seq<char>) -> bool {
    w == "gonna"@ || w == "ur"@
}

/// Whether the word is chat slang.
pub fn is_chat_slang(word: &str) -> (r: bool)
    ensures
        r == slang(word@),
{
    text::str_eq(word, "gonna") || text::str_eq(word, "ur")
}

// ---------------------------------------------------------------------------
// Taking an autocorrect back.
// ---------------------------------------------------------------------------
/// Whether the bytes `[a, b)` of `s` are exactly the word `w`.
pub open spec fn slice_is(s: Seq<char>, a: int, b: int, w: Seq<char>) -> bool {
    &&& a <= b
    &&& text::boundary(s, a)
    &&& text::boundary(s, b)
    &&& s.subrange(text::index_at(s, a), text::index_at(s, b)) == w
}

/// The character bounds of the byte range, where its bytes are the word.
pub fn find_slice(s: &str, range: &Range<usize>, w: &str) -> (r: Option<(usize, usize)>)
    ensures
        match r {
            Some((a, b)) => {
                &&& slice_is(s@, range.start as int, range.end as int, w@)
                &&& a == text::index_at(s@, range.start as int)
                &&& b == text::index_at(s@, range.end as int)
                &&& a <= b <= s@.len()
                &&& text::is_index(s@, range.start as int, a as int)
                &&& text::is_index(s@, range.end as int, b as int)
            },
            None => !slice_is(s@, range.start as int, range.end as int, w@),
        },
{
    if range.start > range.end {
        return None;
    }
    let v = text::chars(s);
    match (text::char_index(s, &v, range.start), text::char_index(s, &v, range.end)) {
        (Some(a), Some(b)) => {
            proof {
                if b < a {
                    text::lemma_byte_at_monotone(s@, b as int, a as int);
                }
            }
            if text::str_eq(s.substring_char(a, b), w) {
                Some((a, b))
            } else {
                None
            }
        },
        _ => None,
    }
}

/// The draft and caret after undoing: the caret must stand exactly behind the
/// correction, and the correction must still be there.
pub open spec fn undone(
    r: Revert,
    body: Seq<char>,
    cursor: int,
) -> Option<(Seq<char>, int)> {
    let a = r.range.start as int;
    let b = r.range.end as int;
    if cursor == b && slice_is(body, a, b, r.corrected@) {
        Some(
            (
                text::spliced(
                    body,
                    text::index_at(body, a),
                    text::index_at(body, b),
                    r.original@,
                ),
                a + text::byte_len(r.original@),
            ),
        )
    } else {
        None
    }
}

impl Revert {
    /// The draft and caret to restore when the Backspace that just ran was the
    /// one that undoes the autocorrect.
    pub fn undo(&self, body: &str, cursor: usize) -> (r: Option<(String, usize)>)
        ensures
            match (r, undone(*self, body@, cursor as int)) {
                (Some((s, c)), Some((s2, c2))) => s@ == s2 && c == c2 && text::boundary(
                    s@,
                    c as int,
                ),
                (None, None) => true,
                _ => false,
            },
    {
        if cursor != self.range.end {
            return None;
        }
        match find_slice(body, &self.range, self.corrected.as_str()) {
            Some((a, b)) => {
                let restored = text::splice(body, a, b, self.original.as_str());
                let total: usize = text::byte_length(restored.as_str());
                let extra: usize = text::byte_length(self.original.as_str());
                proof {
                    text::lemma_spliced_offset(body@, a as int, b as int, self.original@);
                    text::lemma_byte_at_monotone(
                        restored@,
                        a + self.original@.len(),
                        restored@.len() as int,
                    );
                }
                Some((restored, self.range.start + extra))
            },
            None => None,
        }
    }
}

// ---------------------------------------------------------------------------
// Asking the speller.
// ---------------------------------------------------------------------------
/// Whether an error report means "misspelled".
pub open spec fn flags(w: Seq<char>, e: Option<SpellError>) -> bool {
    w.len() > 0 && e is Some && spellcheck::counts(w, e->0)
}

/// Whether the speller, asked about `w`, may have answered "misspelled" (or
/// not, for `b` false).
pub open spec fn answers<E: Fn(&str) -> Option<SpellError>>(
    errors: E,
    w: Seq<char>,
    b: bool,
) -> bool {
    exists|q: &str, e: Option<SpellError>|
        q@ == w && #[trigger] call_ensures(errors, (q,), e) && b == flags(w, e)
}

/// Whether the speller, asked about `w`, may have given this verdict.
pub open spec fn analysed<E: Fn(&str) -> Option<SpellError>, G: Fn(&str) -> Vec<String>>(
    errors: E,
    guesses: G,
    w: Seq<char>,
    a: Analysis,
) -> bool {
    exists|q: &str, e: Option<SpellError>|
        q@ == w && #[trigger] call_ensures(errors, (q,), e) && if flags(w, e) {
            exists|g: Vec<String>| #[trigger]
                call_ensures(guesses, (q,), g) && spellcheck::is_analysis(
                    w,
                    e,
                    text::views(g@),
                    a,
                )
        } else {
            spellcheck::is_analysis(w, e, Seq::empty(), a)
        }
}

/// Asks the speller for its verdict; the guesses, which are the expensive
/// part, only when the word is flagged.
pub fn ask<E: Fn(&str) -> Option<SpellError>, G: Fn(&str) -> Vec<String>>(
    word: &str,
    errors: &E,
    guesses: &G,
) -> (r: Analysis)
    requires
        forall|q: &str| call_requires(*errors, (q,)),
        forall|q: &str| call_requires(*guesses, (q,)),
    ensures
        analysed(*errors, *guesses, word@, r),
{
    let e = errors(word);
    let ghost report = e;
    match spellcheck::whole_word_error(word, e) {
        Some(verdict) => {
            if word.is_empty() {
                return Analysis::default();
            }
            let g = guesses(word);
            let ghost offered = g;
            let suggestions = spellcheck::suggestions_with(&verdict.replacement, g);
            let r = Analysis { misspelled: true, replacement: verdict.replacement, suggestions };
            assert(call_ensures(*guesses, (word,), offered));
            assert(spellcheck::is_analysis(word@, report, text::views(offered@), r));
            r
        },
        None => Analysis::default(),
    }
}

/// The remembered verdict on a word.
pub open spec fn lookup(entries: Seq<(String, bool)>, w: Seq<char>) -> Option<bool>
    decreases entries.len(),
{
    if entries.len() == 0 {
        None
    } else {
        match lookup(entries.drop_last(), w) {
            Some(b) => Some(b),
            None => if entries.last().0@ == w {
                Some(entries.last().1)
            } else {
                None
            },
        }
    }
}

/// What one more entry adds.
proof fn lemma_lookup_push(entries: Seq<(String, bool)>, e: (String, bool), w: Seq<char>)
    ensures
        lookup(entries.push(e), w) == match lookup(entries, w) {
            Some(b) => Some(b),
            None => if e.0@ == w {
                Some(e.1)
            } else {
                None
            },
        },
{
    assert(entries.push(e).drop_last() =~= entries);
}

/// A verdict found among the first entries stands.
proof fn lemma_lookup_take(entries: Seq<(String, bool)>, i: int, w: Seq<char>)
    requires
        0 <= i <= entries.len(),
    ensures
        lookup(entries.take(i), w) is Some ==> lookup(entries, w) == lookup(entries.take(i), w),
    decreases entries.len() - i,
{
    if i < entries.len() {
        lemma_lookup_take(entries, i + 1, w);
        assert(entries.take(i + 1).drop_last() =~= entries.take(i));
    } else {
        assert(entries.take(i) =~= entries);
    }
}

/// Finds the remembered verdict on a word.
fn find_verdict(entries: &Vec<(String, bool)>, word: &str) -> (r: Option<bool>)
    ensures
        r == lookup(entries@, word@),
{
    let mut i: usize = 0;
    assert(entries@.take(0) =~= Seq::<(String, bool)>::empty());
    while i < entries.len()
        invariant
            i <= entries@.len(),
            lookup(entries@.take(i as int), word@) is None,
        decreases entries@.len() - i,
    {
        proof {
            assert(entries@.take(i + 1).drop_last() =~= entries@.take(i as int));
            lemma_lookup_take(entries@, i + 1, word@);
        }
        if text::str_eq(entries[i].0.as_str(), word) {
            return Some(entries[i].1);
        }
        i = i + 1;
    }
    assert(entries@.take(i as int) =~= entries@);
    None
}

/// What is kept of the memory when a word is added: nothing of a full one.
pub open spec fn kept_verdicts(entries: Seq<(String, bool)>) -> Seq<(String, bool)> {
    if entries.len() >= VERDICT_CACHE_CAP {
        Seq::empty()
    } else {
        entries
    }
}

/// Whether `after` is the memory with the verdict `b` on `w` added.
pub open spec fn remembers(
    before: Seq<(String, bool)>,
    after: Seq<(String, bool)>,
    w: Seq<char>,
    b: bool,
) -> bool {
    &&& after.len() > 0
    &&& after.drop_last() == kept_verdicts(before)
    &&& after.last().0@ == w
    &&& after.last().1 == b
}

/// What one verdict does to the memory: the word's verdict is known
/// afterwards, nothing else is new, and while there is room nothing is lost.
proof fn lemma_verdict_step(
    start: Seq<(String, bool)>,
    mid: Seq<(String, bool)>,
    end: Seq<(String, bool)>,
    w: Seq<char>,
    b: bool,
)
    requires
        match lookup(mid, w) {
            Some(c) => b == c && end == mid,
            None => remembers(mid, end, w, b),
        },
    ensures
        end.len() <= mid.len() + 1,
        forall|v: Seq<char>|
            (#[trigger] lookup(end, v)) is Some ==> lookup(mid, v) == lookup(end, v) || (v == w
                && lookup(end, v) == Some(b)),
        mid.len() < VERDICT_CACHE_CAP ==> forall|v: Seq<char>|
            (#[trigger] lookup(mid, v)) is Some ==> lookup(end, v) == lookup(mid, v),
{
    if lookup(mid, w) is None {
        let kept = kept_verdicts(mid);
        let entry = end.last();
        assert(end =~= kept.push(entry));
        assert forall|v: Seq<char>| (#[trigger] lookup(end, v)) is Some implies lookup(mid, v)
            == lookup(end, v) || (v == w && lookup(end, v) == Some(b)) by {
            lemma_lookup_push(kept, entry, v);
        }
        if mid.len() < VERDICT_CACHE_CAP {
            assert forall|v: Seq<char>| (#[trigger] lookup(mid, v)) is Some implies lookup(end, v)
                == lookup(mid, v) by {
                lemma_lookup_push(mid, entry, v);
            }
        }
    }
}

// ---------------------------------------------------------------------------
// The state.
// ---------------------------------------------------------------------------
/// Whether a word of the draft is to be checked: prose, no slang, and not the
/// one still being typed (nor an identical word elsewhere).
pub open spec fn to_check(s: Seq<char>, cursor: int, t: Token) -> bool {
    &&& spellcheck_highlight::checkable(t.raw_of(s))
    &&& !slang(t.core_of(s))
    &&& match typed_token(s, cursor) {
        Some(u) => u.core_of(s) != t.core_of(s),
        None => true,
    }
}

/// Whether `w` occurs in the draft as a word to check.
pub open spec fn candidate(s: Seq<char>, cursor: int, w: Seq<char>) -> bool {
    exists|k: int|
        0 <= k < spellcheck_highlight::tokens(s).len() && to_check(
            s,
            cursor,
            #[trigger] spellcheck_highlight::tokens(s)[k],
        ) && spellcheck_highlight::tokens(s)[k].core_of(s) == w
}

/// Whether `b` may be the verdict used for `w`: the remembered one, or the
/// speller's answer. While the memory has room for the whole draft, a
/// remembered verdict stands.
pub open spec fn settled<E: Fn(&str) -> Option<SpellError>>(
    verdicts: Seq<(String, bool)>,
    words: nat,
    errors: E,
    w: Seq<char>,
    b: bool,
) -> bool {
    &&& lookup(verdicts, w) == Some(b) || answers(errors, w, b)
    &&& verdicts.len() + words <= VERDICT_CACHE_CAP && lookup(verdicts, w) is Some ==> lookup(
        verdicts,
        w,
    ) == Some(b)
}

/// Whether `marks` are marks that a check of the draft may come to: words to
/// check with a verdict "misspelled", and every word to check without a mark
/// has a verdict "fine".
pub open spec fn checked_marks<E: Fn(&str) -> Option<SpellError>>(
    s: Seq<char>,
    cursor: int,
    verdicts: Seq<(String, bool)>,
    errors: E,
    marks: Set<Seq<char>>,
) -> bool {
    let n = spellcheck_highlight::tokens(s).len();
    &&& forall|w: Seq<char>| #[trigger]
        marks.contains(w) ==> candidate(s, cursor, w) && settled(verdicts, n, errors, w, true)
    &&& forall|w: Seq<char>|
        candidate(s, cursor, w) && !#[trigger] marks.contains(w) ==> settled(
            verdicts,
            n,
            errors,
            w,
            false,
        )
}

/// Whether what is remembered after a check is in order: every verdict was
/// remembered before or is the speller's answer, and while the memory has room
/// for the whole draft nothing is forgotten.
pub open spec fn remembered<E: Fn(&str) -> Option<SpellError>>(
    before: Seq<(String, bool)>,
    after: Seq<(String, bool)>,
    words: nat,
    errors: E,
) -> bool {
    &&& forall|w: Seq<char>|
        (#[trigger] lookup(after, w)) is Some ==> lookup(before, w) == lookup(after, w) || answers(
            errors,
            w,
            lookup(after, w)->0,
        )
    &&& before.len() + words <= VERDICT_CACHE_CAP ==> forall|w: Seq<char>|
        (#[trigger] lookup(before, w)) is Some ==> lookup(after, w) == lookup(before, w)
}

/// Whether these are the suggestions shown for `w`: the remembered ones, or
/// what the speller offers now.
pub open spec fn offered_for<E: Fn(&str) -> Option<SpellError>, G: Fn(&str) -> Vec<String>>(
    memo: Option<(String, Vec<String>)>,
    errors: E,
    guesses: G,
    w: Seq<char>,
    suggestions: Seq<Seq<char>>,
) -> bool {
    match memo {
        Some(m) if m.0@ == w => suggestions == text::views(m.1@),
        _ => exists|a: Analysis| #[trigger]
            analysed(errors, guesses, w, a) && suggestions == text::views(a.suggestions@),
    }
}

/// Whether the bar shows the fixes for the token, remembering them.
pub open spec fn bar_offers<E: Fn(&str) -> Option<SpellError>, G: Fn(&str) -> Vec<String>>(
    before: SpellState,
    after: SpellState,
    s: Seq<char>,
    t: Token,
    errors: E,
    guesses: G,
) -> bool {
    after.flag_memo matches Some(m) && m.0@ == t.core_of(s) && offered_for(
        before.flag_memo,
        errors,
        guesses,
        t.core_of(s),
        text::views(m.1@),
    ) && if m.1@.len() == 0 {
        after.flagged is None
    } else {
        after.flagged matches Some(f) && f.range.start == text::byte_at(s, t.core.0) && f.range.end
            == text::byte_at(s, t.core.1) && f.word@ == t.core_of(s) && f.suggestions@ == m.1@
    }
}

/// The revision after the marks became `marks`: one more where they changed.
pub open spec fn next_revision(h: Settings, marks: Set<Seq<char>>) -> u64 {
    if h.misspelled@ == marks {
        h.revision
    } else if h.revision == u64::MAX {
        0
    } else {
        (h.revision + 1) as u64
    }
}

/// What a check of the draft leaves behind.
pub open spec fn recomputed<E: Fn(&str) -> Option<SpellError>, G: Fn(&str) -> Vec<String>>(
    before: SpellState,
    after: SpellState,
    s: Seq<char>,
    cursor: int,
    cfg: SpellcheckConfig,
    errors: E,
    guesses: G,
) -> bool {
    let marks = after.highlight.misspelled@;
    &&& after.pending_revert == before.pending_revert
    &&& after.rejected == before.rejected
    &&& after.highlight.revision == next_revision(before.highlight, marks)
    &&& !cfg.enabled ==> {
        &&& marks == Set::<Seq<char>>::empty()
        &&& after.flagged is None
        &&& after.verdicts == before.verdicts
        &&& after.flag_memo == before.flag_memo
    }
    &&& cfg.enabled ==> {
        &&& checked_marks(s, cursor, before.verdicts@, errors, marks)
        &&& remembered(
            before.verdicts@,
            after.verdicts@,
            spellcheck_highlight::tokens(s).len(),
            errors,
        )
        &&& match target_token(s, cursor) {
            Some(t) if marks.contains(t.core_of(s)) => bar_offers(
                before,
                after,
                s,
                t,
                errors,
                guesses,
            ),
            _ => after.flagged is None && after.flag_memo == before.flag_memo,
        }
    }
}

impl SpellState {
    /// Nothing marked, nothing remembered.
    pub fn new() -> (r: Self)
        ensures
            r.blank(),
            r.highlight.revision == 0,
    {
        SpellState {
            flagged: None,
            highlight: Settings::new(),
            pending_revert: None,
            verdicts: Vec::new(),
            flag_memo: None,
            rejected: WordSet::new(),
        }
    }

    /// Whether nothing is marked or remembered.
    pub open spec fn blank(&self) -> bool {
        &&& self.flagged is None
        &&& self.highlight.misspelled@ == Set::<Seq<char>>::empty()
        &&& self.pending_revert is None
        &&& self.verdicts@.len() == 0
        &&& self.flag_memo is None
        &&& self.rejected@ == Set::<Seq<char>>::empty()
    }

    /// Whether the speller flags the word, remembered where possible.
    fn verdict<E: Fn(&str) -> Option<SpellError>>(&mut self, word: &str, errors: &E) -> (r: bool)
        requires
            forall|q: &str| call_requires(*errors, (q,)),
        ensures
            match lookup(old(self).verdicts@, word@) {
                Some(b) => r == b && *final(self) == *old(self),
                None => {
                    &&& answers(*errors, word@, r)
                    &&& *final(self) == (SpellState {
                        verdicts: final(self).verdicts,
                        ..*old(self)
                    })
                    &&& remembers(old(self).verdicts@, final(self).verdicts@, word@, r)
                },
            },
    {
        if let Some(known) = find_verdict(&self.verdicts, word) {
            return known;
        }
        if self.verdicts.len() >= VERDICT_CACHE_CAP {
            self.verdicts = Vec::new();
        }
        let e = errors(word);
        let ghost report = e;
        let verdict = spellcheck::is_misspelled(word, e);
        assert(call_ensures(*errors, (word,), report));
        self.verdicts.push((word.to_owned(), verdict));
        assert(self.verdicts@.drop_last() =~= kept_verdicts(old(self).verdicts@));
        verdict
    }

    /// Swaps in a new set of marks, bumping the revision only when it actually
    /// changed: that revision is the whole of the highlighter's equality check.
    pub fn set_misspelled(&mut self, misspelled: WordSet)
        ensures
            final(self).highlight.misspelled@ == misspelled@,
            final(self).highlight.revision == next_revision(old(self).highlight, misspelled@),
            *final(self) == (SpellState { highlight: final(self).highlight, ..*old(self) }),
    {
        if self.highlight.misspelled.same(&misspelled) {
            return;
        }
        self.highlight.revision = if self.highlight.revision == u64::MAX {
            0
        } else {
            self.highlight.revision + 1
        };
        self.highlight.misspelled = misspelled;
    }

    /// Drops what is remembered of words, as the personal dictionary just changed,
    /// which can flip the answer for any word.
    pub fn forget_verdicts(&mut self)
        ensures
            final(self).verdicts@.len() == 0,
            final(self).flag_memo is None,
            *final(self) == (SpellState {
                verdicts: final(self).verdicts,
                flag_memo: final(self).flag_memo,
                ..*old(self)
            }),
    {
        self.verdicts = Vec::new();
        self.flag_memo = None;
    }

    /// Clears everything for a fresh draft. The highlighter revision survives:
    /// a rewound one could be mistaken for the state already on screen.
    pub fn reset(&mut self)
        ensures
            final(self).blank(),
            final(self).highlight.revision == old(self).highlight.revision,
    {
        let revision: u64 = self.highlight.revision;
        *self = SpellState::new();
        self.highlight.revision = revision;
    }

    /// Re-checks every word in `body` and refreshes both the marks and the
    /// suggestion bar. `cursor` is the caret's byte offset into `body`. Clears
    /// everything when spell check is turned off.
    pub fn recompute<E: Fn(&str) -> Option<SpellError>, G: Fn(&str) -> Vec<String>>(
        &mut self,
        body: &str,
        cursor: usize,
        cfg: &SpellcheckConfig,
        errors: &E,
        guesses: &G,
    )
        requires
            forall|q: &str| call_requires(*errors, (q,)),
            forall|q: &str| call_requires(*guesses, (q,)),
        ensures
            recomputed(
                *old(self),
                *final(self),
                body@,
                cursor as int,
                *cfg,
                *errors,
                *guesses,
            ),
    {
        self.flagged = None;
        if !cfg.enabled {
            self.set_misspelled(WordSet::new());
            return;
        }
        let marks = self.check_words(body, cursor, errors);
        let ghost before_marks = *self;
        self.set_misspelled(marks);
        // The bar targets the flagged word the caret is in or has just left,
        // so clicking into a marked word offers its fixes.
        let target = match flag_target(body, cursor) {
            Some(t) => t,
            None => {
                return;
            },
        };
        if !self.highlight.misspelled.contains(target.core) {
            return;
        }
        let known = match &self.flag_memo {
            Some(m) => text::str_eq(m.0.as_str(), target.core),
            None => false,
        };
        let suggestions = if known {
            match &self.flag_memo {
                Some(m) => text::clone_strings(&m.1),
                None => Vec::new(),
            }
        } else {
            let a = ask(target.core, errors, guesses);
            assert(analysed(*errors, *guesses, target.core@, a));
            let suggestions = text::clone_strings(&a.suggestions);
            self.flag_memo = Some((target.core.to_owned(), a.suggestions));
            suggestions
        };
        if suggestions.len() > 0 {
            self.flagged = Some(
                Flagged {
                    range: Range { start: target.range.start, end: target.range.end },
                    word: target.core.to_owned(),
                    suggestions,
                },
            );
        }
    }

    /// The misspelled words of the draft, each asked about once.
    fn check_words<E: Fn(&str) -> Option<SpellError>>(
        &mut self,
        body: &str,
        cursor: usize,
        errors: &E,
    ) -> (marks: WordSet)
        requires
            forall|q: &str| call_requires(*errors, (q,)),
        ensures
            *final(self) == (SpellState { verdicts: final(self).verdicts, ..*old(self) }),
            checked_marks(body@, cursor as int, old(self).verdicts@, *errors, marks@),
            remembered(
                old(self).verdicts@,
                final(self).verdicts@,
                spellcheck_highlight::tokens(body@).len(),
                *errors,
            ),
    {
        let ghost start = *self;
        let ghost s = body@;
        let ghost ts = spellcheck_highlight::tokens(s);
        let ghost n = ts.len();
        let in_progress = word_being_typed(body, cursor);
        let ws = spellcheck_highlight::words(body);
        let mut marks = WordSet::new();
        let mut i: usize = 0;
        while i < ws.len()
            invariant
                s == body@,
                ts == spellcheck_highlight::tokens(s),
                n == ts.len(),
                spellcheck_highlight::are_words(ws@, s),
                word_is(in_progress, s, typed_token(s, cursor as int)),
                forall|q: &str| call_requires(*errors, (q,)),
                i <= ws@.len(),
                *self == (SpellState { verdicts: self.verdicts, ..start }),
                start.verdicts@.len() + n <= VERDICT_CACHE_CAP ==> self.verdicts@.len()
                    <= start.verdicts@.len() + i && forall|w: Seq<char>|
                    (#[trigger] lookup(start.verdicts@, w)) is Some ==> lookup(self.verdicts@, w)
                        == lookup(start.verdicts@, w),
                forall|w: Seq<char>, b: bool|
                    #![trigger lookup(self.verdicts@, w), answers(*errors, w, b)]
                    lookup(self.verdicts@, w) == Some(b) ==> lookup(start.verdicts@, w) == Some(b)
                        || answers(*errors, w, b),
                forall|w: Seq<char>| #[trigger]
                    marks@.contains(w) ==> candidate(s, cursor as int, w) && settled(
                        start.verdicts@,
                        n,
                        *errors,
                        w,
                        true,
                    ),
                forall|k: int|
                    0 <= k < i && to_check(s, cursor as int, #[trigger] ts[k]) && !marks@.contains(
                        ts[k].core_of(s),
                    ) ==> settled(start.verdicts@, n, *errors, ts[k].core_of(s), false),
            decreases ws@.len() - i,
        {
            let word = &ws[i];
            let ghost w = ts[i as int].core_of(s);
            assert(ws@[i as int].is(s, ts[i as int]));
            let in_use = match &in_progress {
                Some(u) => text::str_eq(u.core, word.core),
                None => false,
            };
            if spellcheck_highlight::is_checkable(word.raw) && !is_chat_slang(word.core) && !in_use
                && !marks.contains(word.core) {
                assert(to_check(s, cursor as int, ts[i as int]));
                let ghost mid = self.verdicts@;
                let flagged = self.verdict(word.core, errors);
                proof {
                    assert(answers(*errors, w, flagged) || lookup(mid, w) == Some(flagged));
                    if lookup(mid, w) == Some(flagged) {
                        assert(lookup(start.verdicts@, w) == Some(flagged) || answers(
                            *errors,
                            w,
                            flagged,
                        ));
                    }
                    lemma_verdict_step(start.verdicts@, mid, self.verdicts@, w, flagged);
                    assert(settled(start.verdicts@, n, *errors, w, flagged));
                }
                if flagged {
                    marks.insert(word.core.to_owned());
                }
            }
            i = i + 1;
        }
        proof {
            assert forall|w: Seq<char>|
                candidate(s, cursor as int, w) && !#[trigger] marks@.contains(w) implies settled(
                start.verdicts@,
                n,
                *errors,
                w,
                false,
            ) by {
                let k = choose|k: int|
                    0 <= k < ts.len() && to_check(s, cursor as int, #[trigger] ts[k])
                        && ts[k].core_of(s) == w;
                assert(ts[k].core_of(s) == w);
            }
        }
        marks
    }
}

// ---------------------------------------------------------------------------
// Laws.
// ---------------------------------------------------------------------------
/// The leading tokens are counted up to the first one without the property.
proof fn lemma_leading_is(ts: Seq<Token>, p: spec_fn(Token) -> bool, i: int, n: int)
    requires
        0 <= i <= n <= ts.len(),
        forall|k: int| i <= k < n ==> p(#[trigger] ts[k]),
        n < ts.len() ==> !p(ts[n]),
    ensures
        leading(ts, p, i) == n,
    decreases n - i,
{
    if i < n {
        assert(p(ts[i]));
        lemma_leading_is(ts, p, i + 1, n);
    }
}

/// The place of a word among the words of a draft.
proof fn lemma_place(s: Seq<char>, raw: (int, int), core: (int, int)) -> (j: int)
    requires
        spellcheck_highlight::stands_as_word(s, raw, core),
    ensures
        0 <= j < spellcheck_highlight::tokens(s).len(),
        spellcheck_highlight::tokens(s)[j] == (Token { core, raw }),
{
    spellcheck_highlight::law_words_are_what_stands_between_spaces(s, raw, core);
    let ts = spellcheck_highlight::tokens(s);
    choose|j: int| 0 <= j < ts.len() && ts[j] == (Token { core, raw })
}

/// Every token is a word.
proof fn lemma_is_word(s: Seq<char>, k: int)
    requires
        0 <= k < spellcheck_highlight::tokens(s).len(),
    ensures
        spellcheck_highlight::stands_as_word(
            s,
            spellcheck_highlight::tokens(s)[k].raw,
            spellcheck_highlight::tokens(s)[k].core,
        ),
{
    let ts = spellcheck_highlight::tokens(s);
    let x = ts[k];
    assert(ts.contains(Token { core: x.core, raw: x.raw })) by {
        assert(ts[k] == (Token { core: x.core, raw: x.raw }));
    }
    spellcheck_highlight::law_words_are_what_stands_between_spaces(s, x.raw, x.core);
}

/// Offsets are in the order of the characters.
proof fn lemma_offsets(s: Seq<char>, i: int, j: int)
    requires
        0 <= i <= s.len(),
        0 <= j <= s.len(),
    ensures
        text::byte_at(s, i) < text::byte_at(s, j) <==> i < j,
        text::byte_at(s, i) == text::byte_at(s, j) <==> i == j,
{
    if i < j {
        text::lemma_byte_at_monotone(s, i, j);
    }
    if j < i {
        text::lemma_byte_at_monotone(s, j, i);
    }
}

/// The word that the caret has just finished is the last one that ends before
/// it: a caret directly behind a word has not finished it.
pub proof fn law_the_finished_word_is_the_last_before_the_caret(
    s: Seq<char>,
    k: int,
    raw: (int, int),
    core: (int, int),
)
    requires
        0 <= k <= s.len(),
        spellcheck_highlight::stands_as_word(s, raw, core),
        raw.1 < k,
        forall|x: (int, int), y: (int, int)| #[trigger]
            spellcheck_highlight::stands_as_word(s, x, y) && x.1 < k ==> x.1 <= raw.1,
    ensures
        finished_token(s, text::byte_at(s, k) as int) == Some(Token { core, raw }),
{
    let ts = spellcheck_highlight::tokens(s);
    let cursor = text::byte_at(s, k) as int;
    let p = |t: Token| text::byte_at(s, t.raw.1) < cursor;
    spellcheck_highlight::law_words_are_ordered_and_disjoint(s);
    let j = lemma_place(s, raw, core);
    assert forall|i: int| 0 <= i < j + 1 implies p(#[trigger] ts[i]) by {
        assert(ts[i].fits(s));
        if i < j {
            assert(ts[i].raw.1 < ts[j].raw.0);
        }
        lemma_offsets(s, ts[i].raw.1, k);
    }
    if j + 1 < ts.len() {
        let x = ts[j + 1];
        assert(x.fits(s));
        assert(ts[j].raw.1 < x.raw.0);
        lemma_is_word(s, j + 1);
        assert(!(x.raw.1 < k));
        lemma_offsets(s, x.raw.1, k);
        assert(!p(ts[j + 1]));
    }
    lemma_leading_is(ts, p, 0, j + 1);
}

/// No word is finished where none ends before the caret.
pub proof fn law_nothing_is_finished_before_the_first_word(s: Seq<char>, k: int)
    requires
        0 <= k <= s.len(),
        forall|x: (int, int), y: (int, int)| #[trigger]
            spellcheck_highlight::stands_as_word(s, x, y) ==> k <= x.1,
    ensures
        finished_token(s, text::byte_at(s, k) as int) is None,
{
    let ts = spellcheck_highlight::tokens(s);
    let cursor = text::byte_at(s, k) as int;
    let p = |t: Token| text::byte_at(s, t.raw.1) < cursor;
    if ts.len() > 0 {
        lemma_is_word(s, 0);
        lemma_offsets(s, ts[0].raw.1, k);
        assert(!p(ts[0]));
    }
    lemma_leading_is(ts, p, 0, 0);
}

/// The word being typed is the one that ends at the caret, punctuation and
/// all; a caret anywhere else types none.
pub proof fn law_the_typed_word_ends_at_the_caret(
    s: Seq<char>,
    k: int,
    raw: (int, int),
    core: (int, int),
)
    requires
        0 <= k <= s.len(),
    ensures
        spellcheck_highlight::stands_as_word(s, raw, core) && raw.1 == k <==> typed_token(
            s,
            text::byte_at(s, k) as int,
        ) == Some(Token { core, raw }),
{
    let ts = spellcheck_highlight::tokens(s);
    let cursor = text::byte_at(s, k) as int;
    lemma_first_ending(s, ts, cursor, 0);
    spellcheck_highlight::law_words_are_ordered_and_disjoint(s);
    if spellcheck_highlight::stands_as_word(s, raw, core) && raw.1 == k {
        let j = lemma_place(s, raw, core);
        assert(text::byte_at(s, ts[j].raw.1) == cursor);
        let u = typed_token(s, cursor)->0;
        let i = choose|i: int| 0 <= i < ts.len() && ts[i] == u;
        assert(ts[i].fits(s) && ts[j].fits(s));
        lemma_offsets(s, ts[i].raw.1, ts[j].raw.1);
        if i < j {
            assert(ts[i].raw.1 < ts[j].raw.0);
        }
        if j < i {
            assert(ts[j].raw.1 < ts[i].raw.0);
        }
    }
    if typed_token(s, cursor) == Some(Token { core, raw }) {
        let i = choose|i: int| 0 <= i < ts.len() && ts[i] == (Token { core, raw });
        lemma_is_word(s, i);
        lemma_offsets(s, raw.1, k);
    }
}

/// What is found by its end is one of the words, and is found where there is
/// one.
proof fn lemma_first_ending(s: Seq<char>, ts: Seq<Token>, cursor: int, i: int)
    requires
        0 <= i <= ts.len(),
    ensures
        match first_ending_at(s, ts, cursor, i) {
            Some(t) => ts.contains(t) && text::byte_at(s, t.raw.1) == cursor,
            None => forall|j: int|
                i <= j < ts.len() ==> text::byte_at(s, (#[trigger] ts[j]).raw.1) != cursor,
        },
    decreases ts.len() - i,
{
    if i < ts.len() {
        if text::byte_at(s, ts[i].raw.1) == cursor {
            assert(ts.contains(ts[i]));
        } else {
            lemma_first_ending(s, ts, cursor, i + 1);
        }
    }
}

/// The bar is about the last word that does not start behind the caret: the
/// one the caret is in, or has just left.
pub proof fn law_the_bar_is_about_the_word_at_the_caret(
    s: Seq<char>,
    k: int,
    raw: (int, int),
    core: (int, int),
)
    requires
        0 <= k <= s.len(),
        spellcheck_highlight::stands_as_word(s, raw, core),
        raw.0 <= k,
        forall|x: (int, int), y: (int, int)| #[trigger]
            spellcheck_highlight::stands_as_word(s, x, y) && x.0 <= k ==> x.0 <= raw.0,
    ensures
        target_token(s, text::byte_at(s, k) as int) == Some(Token { core, raw }),
{
    let ts = spellcheck_highlight::tokens(s);
    let cursor = text::byte_at(s, k) as int;
    let p = |t: Token| text::byte_at(s, t.raw.0) <= cursor;
    spellcheck_highlight::law_words_are_ordered_and_disjoint(s);
    let j = lemma_place(s, raw, core);
    assert forall|i: int| 0 <= i < j + 1 implies p(#[trigger] ts[i]) by {
        assert(ts[i].fits(s));
        if i < j {
            assert(ts[i].raw.1 < ts[j].raw.0);
        }
        lemma_offsets(s, ts[i].raw.0, k);
    }
    if j + 1 < ts.len() {
        let x = ts[j + 1];
        assert(x.fits(s));
        assert(ts[j].raw.1 < x.raw.0);
        lemma_is_word(s, j + 1);
        assert(!(x.raw.0 <= k));
        lemma_offsets(s, k, x.raw.0);
        assert(!p(ts[j + 1]));
    }
    lemma_leading_is(ts, p, 0, j + 1);
}

/// A remembered verdict is one of the memory's.
proof fn lemma_lookup_in(entries: Seq<(String, bool)>, w: Seq<char>)
    ensures
        lookup(entries, w) matches Some(b) ==> exists|i: int|
            0 <= i < entries.len() && (#[trigger] entries[i]).0@ == w && entries[i].1 == b,
    decreases entries.len(),
{
    if entries.len() > 0 {
        let front = entries.drop_last();
        lemma_lookup_in(front, w);
        if let Some(b) = lookup(front, w) {
            let i = choose|i: int|
                0 <= i < front.len() && (#[trigger] front[i]).0@ == w && front[i].1 == b;
            assert(entries[i].0@ == w && entries[i].1 == b);
        } else if entries.last().0@ == w {
            assert(entries[entries.len() - 1].0@ == w);
        }
    }
}

/// Whether a report says that all of `w` is misspelled, with a replacement or
/// an invitation to ask for suggestions.
pub open spec fn says_misspelled(e: Option<SpellError>, w: Seq<char>) -> bool {
    &&& e is Some
    &&& e->0.start == 0
    &&& e->0.length == spellcheck::utf16_len(w)
    &&& e->0.action == spellcheck::CorrectiveAction::GetSuggestions || (e->0.action
        == spellcheck::CorrectiveAction::Replace && e->0.replacement is Some)
}

/// Whether `w` is in the draft as a word that is to be checked: prose, not one
/// of the two slang words, and not the word that is still being typed, nor a
/// copy of it.
pub open spec fn worth_checking(s: Seq<char>, k: int, w: Seq<char>) -> bool {
    &&& exists|raw: (int, int), core: (int, int)| #[trigger]
        spellcheck_highlight::stands_as_word(s, raw, core) && s.subrange(core.0, core.1) == w
            && spellcheck_highlight::checkable(s.subrange(raw.0, raw.1))
    &&& w != "gonna"@ && w != "ur"@
    &&& forall|raw: (int, int), core: (int, int)| #[trigger]
        spellcheck_highlight::stands_as_word(s, raw, core) && s.subrange(core.0, core.1) == w
            ==> raw.1 != k
}

/// What is worth checking is a candidate, and the other way round.
proof fn lemma_candidates(s: Seq<char>, k: int, w: Seq<char>)
    requires
        0 <= k <= s.len(),
    ensures
        candidate(s, text::byte_at(s, k) as int, w) <==> worth_checking(s, k, w),
{
    let cursor = text::byte_at(s, k) as int;
    let ts = spellcheck_highlight::tokens(s);
    if candidate(s, cursor, w) {
        let i = choose|i: int|
            0 <= i < ts.len() && to_check(s, cursor, #[trigger] ts[i]) && ts[i].core_of(s) == w;
        lemma_is_word(s, i);
        assert(spellcheck_highlight::stands_as_word(s, ts[i].raw, ts[i].core));
        assert forall|raw: (int, int), core: (int, int)| #[trigger]
            spellcheck_highlight::stands_as_word(s, raw, core) && s.subrange(core.0, core.1)
                == w implies raw.1 != k by {
            law_the_typed_word_ends_at_the_caret(s, k, raw, core);
        }
    }
    if worth_checking(s, k, w) {
        let (raw, core) = choose|raw: (int, int), core: (int, int)| #[trigger]
            spellcheck_highlight::stands_as_word(s, raw, core) && s.subrange(core.0, core.1) == w
                && spellcheck_highlight::checkable(s.subrange(raw.0, raw.1));
        let i = lemma_place(s, raw, core);
        if let Some(u) = typed_token(s, cursor) {
            law_the_typed_word_ends_at_the_caret(s, k, u.raw, u.core);
            assert(u == (Token { core: u.core, raw: u.raw }));
        }
        assert(to_check(s, cursor, ts[i]));
    }
}

/// Only words of the draft that are worth checking are marked. Such a word is
/// marked where the speller calls it misspelled, whenever it is asked, and
/// nothing else is remembered; and it is not where the speller has nothing to
/// say against it.
pub proof fn law_misspelled_words_are_marked<
    E: Fn(&str) -> Option<SpellError>,
    G: Fn(&str) -> Vec<String>,
>(
    before: SpellState,
    after: SpellState,
    s: Seq<char>,
    k: int,
    cfg: SpellcheckConfig,
    errors: E,
    guesses: G,
    w: Seq<char>,
)
    requires
        0 <= k <= s.len(),
        recomputed(before, after, s, text::byte_at(s, k) as int, cfg, errors, guesses),
    ensures
        after.highlight.misspelled@.contains(w) ==> cfg.enabled && worth_checking(s, k, w),
        cfg.enabled && w.len() > 0 && worth_checking(s, k, w) && (forall|i: int|
            0 <= i < before.verdicts@.len() && (#[trigger] before.verdicts@[i]).0@ == w
                ==> before.verdicts@[i].1) && (forall|q: &str, e: Option<SpellError>|
            q@ == w && #[trigger] call_ensures(errors, (q,), e) ==> says_misspelled(e, w))
            ==> after.highlight.misspelled@.contains(w),
        (forall|i: int|
            0 <= i < before.verdicts@.len() && (#[trigger] before.verdicts@[i]).0@ == w
                ==> !before.verdicts@[i].1) && (forall|q: &str, e: Option<SpellError>|
            q@ == w && #[trigger] call_ensures(errors, (q,), e) ==> !says_misspelled(e, w))
            ==> !after.highlight.misspelled@.contains(w),
{
    lemma_candidates(s, k, w);
    lemma_lookup_in(before.verdicts@, w);
}

/// A word that is marked at the caret is offered its fixes, and the bar shows
/// nothing else.
pub proof fn law_the_bar_offers_fixes_for_a_marked_word<
    E: Fn(&str) -> Option<SpellError>,
    G: Fn(&str) -> Vec<String>,
>(
    before: SpellState,
    after: SpellState,
    s: Seq<char>,
    cursor: int,
    cfg: SpellcheckConfig,
    errors: E,
    guesses: G,
)
    requires
        recomputed(before, after, s, cursor, cfg, errors, guesses),
    ensures
        after.flagged matches Some(f) ==> cfg.enabled && after.highlight.misspelled@.contains(f.word@)
            && f.suggestions@.len() > 0 && target_token(s, cursor) is Some && f.word@
            == target_token(s, cursor)->0.core_of(s) && f.range.start == text::byte_at(
            s,
            target_token(s, cursor)->0.core.0,
        ) && f.range.end == text::byte_at(s, target_token(s, cursor)->0.core.1),
        !cfg.enabled ==> after.flagged is None,
{
}

} // verus!
