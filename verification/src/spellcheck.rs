//! What the composer makes of a speller's answers.
//!
//! The speller itself is an operating-system service. It is asked about one
//! word at a time and answers with an error record and a list of guesses; the
//! functions here decide which errors count, what the suggestion bar shows,
//! and which correction may be applied silently.

use vstd::prelude::*;

use crate::text;

verus! {

/// How many alternatives to surface in the suggestion bar. A speller can
/// return a dozen and more; beyond a handful is just noise on one row.
pub const MAX_SUGGESTIONS: usize = 5;

/// The speller's verdict for a single word.
#[derive(Debug, Clone)]
pub struct Analysis {
    /// The word is flagged (needs a replacement or suggestions).
    pub misspelled: bool,
    /// A single high-confidence replacement that the engine itself recommends
    /// ("teh" to "the"). Autocorrect trusts this outright; bare guesses only
    /// count when they point at one unambiguous answer (see
    /// [`pick_correction`]).
    pub replacement: Option<String>,
    /// Ranked alternatives for the suggestion bar (`replacement` first when
    /// there is one).
    pub suggestions: Vec<String>,
}

impl Default for Analysis {
    /// The blank analysis, in which nothing is wrong with the word.
    fn default() -> (r: Self)
        ensures
            !r.misspelled,
            r.replacement is None,
            r.suggestions@.len() == 0,
    {
        Analysis { misspelled: false, replacement: None, suggestions: Vec::new() }
    }
}

/// What the speller recommends doing about an error.
#[derive(Debug, Clone, Copy, PartialEq, Eq, Structural)]
pub enum CorrectiveAction {
    Ignore,
    GetSuggestions,
    Replace,
    Delete,
}

/// The first error that the speller reports for a token. `start` and `length`
/// count UTF-16 code units, as the service does.
#[derive(Debug, Clone)]
pub struct SpellError {
    pub start: u32,
    pub length: u32,
    pub action: CorrectiveAction,
    /// The replacement the engine offers, where it could be read.
    pub replacement: Option<String>,
}

/// A token that counts as misspelled, with the engine's own pick if it has
/// one.
#[derive(Debug, Clone)]
pub struct Verdict {
    pub replacement: Option<String>,
}

// ---------------------------------------------------------------------------
// Which errors count.
// ---------------------------------------------------------------------------
/// How many UTF-16 code units the first `i` characters take.
pub open spec fn utf16_units(s: Seq<char>, i: int) -> nat
    decreases i,
{
    if i <= 0 {
        0
    } else {
        utf16_units(s, i - 1) + if s[i - 1] as u32 >= 0x10000 {
            2nat
        } else {
            1nat
        }
    }
}

/// How many UTF-16 code units the string takes.
pub open spec fn utf16_len(s: Seq<char>) -> nat {
    utf16_units(s, s.len() as int)
}

/// Whether the string takes exactly `n` UTF-16 code units.
fn utf16_len_is(word: &str, n: u32) -> (r: bool)
    ensures
        r == (utf16_len(word@) == n),
{
    let v = text::chars(word);
    let mut count: u32 = 0;
    let mut i: usize = 0;
    while i < v.len()
        invariant
            v@ == word@,
            i <= v@.len(),
            count == utf16_units(word@, i as int),
            count <= n,
        decreases v@.len() - i,
    {
        let step: u32 = if v[i] as u32 >= 0x10000 {
            2
        } else {
            1
        };
        if n - count < step {
            proof {
                lemma_utf16_units_grow(word@, i + 1, word@.len() as int);
            }
            return false;
        }
        count = count + step;
        i = i + 1;
    }
    count == n
}

/// Longer prefixes take at least as many units.
proof fn lemma_utf16_units_grow(s: Seq<char>, i: int, j: int)
    requires
        0 <= i <= j,
    ensures
        utf16_units(s, i) <= utf16_units(s, j),
    decreases j - i,
{
    if i < j {
        lemma_utf16_units_grow(s, i, j - 1);
    }
}

/// The replacement that an error carries: only a "replace" error has one.
pub open spec fn offered(e: SpellError) -> Option<String> {
    if e.action == CorrectiveAction::Replace {
        e.replacement
    } else {
        None
    }
}

/// Whether an error marks the whole word as misspelled in a way the composer
/// can act on: it covers the entire input, and it either carries a
/// replacement or invites suggestions.
pub open spec fn counts(word: Seq<char>, e: SpellError) -> bool {
    &&& e.start == 0
    &&& e.length == utf16_len(word)
    &&& (offered(e) is Some || e.action == CorrectiveAction::GetSuggestions)
}

/// Honours an error only when it spans the whole word. A token with internal
/// punctuation ("teh.but") can produce an error covering a sub-token, whose
/// replacement must not be applied to the whole word.
pub fn whole_word_error(word: &str, error: Option<SpellError>) -> (r: Option<Verdict>)
    ensures
        match error {
            None => r is None,
            Some(e) => if counts(word@, e) {
                r matches Some(v) && v.replacement == offered(e)
            } else {
                r is None
            },
        },
{
    match error {
        None => None,
        Some(e) => {
            if e.start != 0 || !utf16_len_is(word, e.length) {
                return None;
            }
            let action = e.action;
            let replacement = if action == CorrectiveAction::Replace {
                e.replacement
            } else {
                None
            };
            if replacement.is_none() && action != CorrectiveAction::GetSuggestions {
                return None;
            }
            Some(Verdict { replacement })
        },
    }
}

/// The strings other than `w`, in order.
pub open spec fn without(v: Seq<Seq<char>>, w: Seq<char>) -> Seq<Seq<char>>
    decreases v.len(),
{
    if v.len() == 0 {
        Seq::empty()
    } else if v.last() == w {
        without(v.drop_last(), w)
    } else {
        without(v.drop_last(), w).push(v.last())
    }
}

/// The suggestion list of a flagged word: the first few guesses, led by the
/// engine's own pick where there is one.
pub open spec fn merged(replacement: Option<Seq<char>>, guesses: Seq<Seq<char>>) -> Seq<Seq<char>> {
    let shown = if guesses.len() > MAX_SUGGESTIONS {
        guesses.take(MAX_SUGGESTIONS as int)
    } else {
        guesses
    };
    match replacement {
        None => shown,
        Some(rep) => {
            let led = seq![rep] + without(shown, rep);
            if led.len() > MAX_SUGGESTIONS {
                led.take(MAX_SUGGESTIONS as int)
            } else {
                led
            }
        },
    }
}

/// The suggestion list of a flagged word: the first few guesses, led by the
/// engine's own pick where there is one, so that the bar's first button and
/// what autocorrect would have done line up.
pub fn suggestions_with(replacement: &Option<String>, guesses: Vec<String>) -> (r: Vec<String>)
    ensures
        text::views(r@) == merged(text::opt_view(*replacement), text::views(guesses@)),
        r@.len() <= MAX_SUGGESTIONS,
        *replacement matches Some(rep) ==> r@.len() > 0 && r@[0]@ == rep@,
{
    let mut suggestions = guesses;
    suggestions.truncate(MAX_SUGGESTIONS);
    let ghost shown = if guesses@.len() > MAX_SUGGESTIONS {
        text::views(guesses@).take(MAX_SUGGESTIONS as int)
    } else {
        text::views(guesses@)
    };
    assert(text::views(suggestions@) =~= shown);
    if let Some(rep) = replacement {
        let mut led: Vec<String> = Vec::new();
        led.push(rep.clone());
        assert(text::views(led@) =~= seq![rep@] + without(shown.take(0), rep@));
        let mut i: usize = 0;
        while i < suggestions.len()
            invariant
                i <= suggestions@.len() == shown.len(),
                text::views(suggestions@) == shown,
                text::views(led@) == seq![rep@] + without(shown.take(i as int), rep@),
            decreases suggestions@.len() - i,
        {
            let ghost next = shown.take(i + 1);
            let ghost had = text::views(led@);
            proof {
                assert(next.drop_last() =~= shown.take(i as int));
                assert(next.last() == text::views(suggestions@)[i as int]);
            }
            if suggestions[i] != *rep {
                led.push(suggestions[i].clone());
                assert(text::views(led@) =~= had.push(next.last()));
            }
            assert(text::views(led@) =~= seq![rep@] + without(next, rep@));
            i = i + 1;
        }
        assert(shown.take(i as int) =~= shown);
        let ghost all = text::views(led@);
        assert(all.len() == led@.len() && all[0] == rep@);
        led.truncate(MAX_SUGGESTIONS);
        assert(text::views(led@) =~= merged(Some(rep@), text::views(guesses@)));
        assert(text::views(led@)[0] == led@[0]@);
        return led;
    }
    assert(text::views(suggestions@) =~= merged(text::opt_view(*replacement), text::views(guesses@)));
    suggestions
}

/// Whether `r` is the verdict on `word`, given the error that the speller
/// reported for it and the guesses it offers.
pub open spec fn is_analysis(
    word: Seq<char>,
    error: Option<SpellError>,
    guesses: Seq<Seq<char>>,
    r: Analysis,
) -> bool {
    &&& r.misspelled == (word.len() > 0 && error is Some && counts(word, error->0))
    &&& !r.misspelled ==> r.replacement is None && r.suggestions@.len() == 0
    &&& r.misspelled ==> {
        &&& r.replacement == offered(error->0)
        &&& text::views(r.suggestions@) == merged(text::opt_view(offered(error->0)), guesses)
    }
}

/// The verdict on `word`, from the error the speller reported for it and the
/// guesses it offers. An empty word and a word without a whole-word error are
/// not misspelled.
pub fn analyze(word: &str, error: Option<SpellError>, guesses: Vec<String>) -> (r: Analysis)
    ensures
        is_analysis(word@, error, text::views(guesses@), r),
{
    if word.is_empty() {
        return Analysis { misspelled: false, replacement: None, suggestions: Vec::new() };
    }
    match whole_word_error(word, error) {
        None => Analysis { misspelled: false, replacement: None, suggestions: Vec::new() },
        Some(verdict) => {
            let suggestions = suggestions_with(&verdict.replacement, guesses);
            Analysis { misspelled: true, replacement: verdict.replacement, suggestions }
        },
    }
}

/// Whether the speller flags `word`, from the error it reported for it.
pub fn is_misspelled(word: &str, error: Option<SpellError>) -> (r: bool)
    ensures
        r == (word@.len() > 0 && error is Some && counts(word@, error->0)),
{
    !word.is_empty() && whole_word_error(word, error).is_some()
}

// ---------------------------------------------------------------------------
// Edit distance.
// ---------------------------------------------------------------------------
/// The lesser of two numbers.
pub open spec fn lesser(x: nat, y: nat) -> nat {
    if x <= y {
        x
    } else {
        y
    }
}

/// Whether the last two characters of `a[..i]` and `b[..j]` are each other's
/// swap.
pub open spec fn swapped(a: Seq<char>, b: Seq<char>, i: int, j: int) -> bool {
    i > 1 && j > 1 && a[i - 1] == b[j - 2] && a[i - 2] == b[j - 1]
}

/// The number of edits that turn `a[..i]` into `b[..j]`, where an edit
/// inserts, deletes or replaces one character or swaps two adjacent ones, and
/// nothing is edited twice.
pub open spec fn edits(a: Seq<char>, b: Seq<char>, i: int, j: int) -> nat
    decreases i + j,
    when 0 <= i && 0 <= j
{
    if i == 0 {
        j as nat
    } else if j == 0 {
        i as nat
    } else {
        let replace = edits(a, b, i - 1, j - 1) + if a[i - 1] == b[j - 1] {
            0nat
        } else {
            1nat
        };
        let delete = edits(a, b, i - 1, j) + 1;
        let insert = edits(a, b, i, j - 1) + 1;
        let three = lesser(lesser(replace, delete), insert);
        if swapped(a, b, i, j) {
            lesser(three, edits(a, b, i - 2, j - 2) + 1)
        } else {
            three
        }
    }
}

/// The edit distance of two words.
pub open spec fn distance(a: Seq<char>, b: Seq<char>) -> nat {
    edits(a, b, a.len() as int, b.len() as int)
}

/// No more edits than the longer side has characters, and no fewer than the
/// lengths differ by.
proof fn lemma_edits_bounds(a: Seq<char>, b: Seq<char>, i: int, j: int)
    requires
        0 <= i,
        0 <= j,
    ensures
        edits(a, b, i, j) <= i || edits(a, b, i, j) <= j,
        i - j <= edits(a, b, i, j),
        j - i <= edits(a, b, i, j),
    decreases i + j,
{
    if i > 0 && j > 0 {
        lemma_edits_bounds(a, b, i - 1, j - 1);
        lemma_edits_bounds(a, b, i - 1, j);
        lemma_edits_bounds(a, b, i, j - 1);
        if swapped(a, b, i, j) {
            lemma_edits_bounds(a, b, i - 2, j - 2);
        }
    }
}

/// A row entirely over budget keeps the next row over budget.
proof fn lemma_rows_grow(a: Seq<char>, b: Seq<char>, i: int, j: int, max: nat)
    requires
        0 <= i < a.len(),
        0 <= j <= b.len(),
        forall|k: int| 0 <= k <= b.len() ==> #[trigger] edits(a, b, i, k) > max,
    ensures
        edits(a, b, i + 1, j) > max,
    decreases j,
{
    assert(edits(a, b, i, 0) > max);
    assert(edits(a, b, i, j) > max);
    if j > 0 {
        lemma_rows_grow(a, b, i, j - 1, max);
        assert(edits(a, b, i, j - 1) > max);
        if swapped(a, b, i + 1, j) {
            // Deleting one more character costs at most one more edit.
            assert(edits(a, b, i, j - 2) > max);
            assert(edits(a, b, i, j - 2) <= edits(a, b, i - 1, j - 2) + 1);
        }
    }
}

/// From a row entirely over budget on, every row is.
proof fn lemma_budget_lost(a: Seq<char>, b: Seq<char>, i: int, n: int, j: int, max: nat)
    requires
        0 <= i <= n <= a.len(),
        0 <= j <= b.len(),
        forall|k: int| 0 <= k <= b.len() ==> #[trigger] edits(a, b, i, k) > max,
    ensures
        edits(a, b, n, j) > max,
    decreases n - i,
{
    if i < n {
        assert forall|k: int| 0 <= k <= b.len() implies #[trigger] edits(a, b, i + 1, k) > max by {
            lemma_rows_grow(a, b, i, k, max);
        }
        lemma_budget_lost(a, b, i + 1, n, j, max);
    }
}

/// The row `i` of the distance table.
pub open spec fn is_row(row: Seq<usize>, a: Seq<char>, b: Seq<char>, i: int) -> bool {
    &&& row.len() == b.len() + 1
    &&& forall|k: int| 0 <= k <= b.len() ==> #[trigger] row[k] == edits(a, b, i, k)
}

/// Whether some entry of the row is within budget.
fn any_within(row: &Vec<usize>, max: usize) -> (r: bool)
    ensures
        r == exists|k: int| 0 <= k < row@.len() && #[trigger] row@[k] <= max,
{
    let mut i: usize = 0;
    while i < row.len()
        invariant
            i <= row@.len(),
            forall|k: int| 0 <= k < i ==> #[trigger] row@[k] > max,
        decreases row@.len() - i,
    {
        if row[i] <= max {
            return true;
        }
        i = i + 1;
    }
    false
}

/// Fills `current` with the row behind `previous`.
fn next_row(
    a: &Vec<char>,
    b: &Vec<char>,
    i: usize,
    two_back: &Vec<usize>,
    previous: &Vec<usize>,
    current: &mut Vec<usize>,
)
    requires
        i < a@.len(),
        is_row(previous@, a@, b@, i as int),
        i > 0 ==> is_row(two_back@, a@, b@, i - 1),
        old(current)@.len() == b@.len() + 1,
    ensures
        is_row(final(current)@, a@, b@, i + 1),
{
    let width: usize = previous.len();
    let height: usize = a.len();
    current.set(0, i + 1);
    let mut j: usize = 0;
    while j < b.len()
        invariant
            i < a@.len() == height,
            width == previous@.len(),
            is_row(previous@, a@, b@, i as int),
            i > 0 ==> is_row(two_back@, a@, b@, i - 1),
            current@.len() == b@.len() + 1,
            j <= b@.len(),
            forall|k: int| 0 <= k <= j ==> #[trigger] current@[k] == edits(a@, b@, i + 1, k),
        decreases b@.len() - j,
    {
        proof {
            lemma_edits_bounds(a@, b@, i as int, j as int);
            lemma_edits_bounds(a@, b@, i as int, j + 1);
        }
        assert(previous@[j as int] == edits(a@, b@, i as int, j as int));
        assert(previous@[j + 1] == edits(a@, b@, i as int, j + 1));
        assert(current@[j as int] == edits(a@, b@, i + 1, j as int));
        let mut best: usize = previous[j];
        if a[i] != b[j] {
            best = best + 1;
        }
        if previous[j + 1] < best {
            best = previous[j + 1] + 1;
        }
        if current[j] < best {
            best = current[j] + 1;
        }
        if i > 0 && j > 0 && a[i] == b[j - 1] && a[i - 1] == b[j] {
            assert(two_back@[j - 1] == edits(a@, b@, i - 1, j - 1));
            if two_back[j - 1] < best {
                best = two_back[j - 1] + 1;
            }
        }
        assert(best == edits(a@, b@, i + 1, j + 1));
        current.set(j + 1, best);
        j = j + 1;
    }
}

/// Edit distance between two words, or `None` when it exceeds `max`. Bounded
/// so that scanning a suggestion list stays cheap: a row of the table that is
/// entirely over budget ends the search.
///
/// Swapping two adjacent characters counts as one edit, not two, so that
/// "teh" is one edit away from "the".
pub fn edit_distance_at_most(a: &Vec<char>, b: &Vec<char>, max: usize) -> (r: Option<usize>)
    ensures
        match r {
            Some(d) => d == distance(a@, b@) && d <= max,
            None => distance(a@, b@) > max,
        },
{
    let gap: usize = if a.len() >= b.len() {
        a.len() - b.len()
    } else {
        b.len() - a.len()
    };
    proof {
        lemma_edits_bounds(a@, b@, a@.len() as int, b@.len() as int);
    }
    if gap > max {
        return None;
    }
    // Three rows: the transposition case reaches back two rows, not one.
    let mut two_back: Vec<usize> = Vec::new();
    let mut previous: Vec<usize> = Vec::new();
    let mut current: Vec<usize> = Vec::new();
    let mut j: usize = 0;
    while j < b.len()
        invariant
            j <= b@.len(),
            two_back@.len() == j,
            previous@.len() == j,
            current@.len() == j,
            forall|k: int| 0 <= k < j ==> #[trigger] previous@[k] == k,
        decreases b@.len() - j,
    {
        two_back.push(0);
        previous.push(j);
        current.push(0);
        j = j + 1;
    }
    two_back.push(0);
    previous.push(j);
    current.push(0);
    assert(is_row(previous@, a@, b@, 0));
    let mut i: usize = 0;
    while i < a.len()
        invariant
            i <= a@.len(),
            is_row(previous@, a@, b@, i as int),
            i > 0 ==> is_row(two_back@, a@, b@, i - 1),
            two_back@.len() == b@.len() + 1,
            current@.len() == b@.len() + 1,
        decreases a@.len() - i,
    {
        next_row(a, b, i, &two_back, &previous, &mut current);
        if !any_within(&current, max) {
            proof {
                assert forall|k: int| 0 <= k <= b@.len() implies #[trigger] edits(
                    a@,
                    b@,
                    i + 1,
                    k,
                ) > max by {
                    assert(current@[k] == edits(a@, b@, i + 1, k));
                    assert(!(0 <= k < current@.len() && current@[k] <= max));
                }
                lemma_budget_lost(
                    a@,
                    b@,
                    i + 1,
                    a@.len() as int,
                    b@.len() as int,
                    max as nat,
                );
            }
            return None;
        }
        // Rotate: `previous` becomes the two-rows-back row, `current` the
        // previous one, and the stale row is the next scratch.
        let stale = two_back;
        two_back = previous;
        previous = current;
        current = stale;
        i = i + 1;
    }
    let found: usize = previous[b.len()];
    assert(found == edits(a@, b@, a@.len() as int, b@.len() as int));
    if found <= max {
        Some(found)
    } else {
        None
    }
}

// ---------------------------------------------------------------------------
// Choosing a correction.
// ---------------------------------------------------------------------------
/// The edit budget for a word of `n` characters. Short words sit one edit away
/// from plenty of unrelated words, so they get a tighter budget.
pub open spec fn budget(n: nat) -> nat {
    if n <= 4 {
        1
    } else {
        2
    }
}

/// The distance of a guess from the typed word, letter case aside.
pub open spec fn guess_distance(word: Seq<char>, guess: Seq<char>) -> nat {
    distance(text::lowered(word), text::lowered(guess))
}

/// Whether a guess is a near miss of the typed word: not the same word in
/// another case, and within budget.
pub open spec fn near_miss(word: Seq<char>, guess: Seq<char>) -> bool {
    &&& text::lowered(guess) != text::lowered(word)
    &&& guess_distance(word, guess) <= budget(text::lowered(word).len())
}

/// Whether the guess with index `k` is the one obvious answer: a near miss,
/// and strictly closer than every other near miss in the list.
pub open spec fn wins(word: Seq<char>, guesses: Seq<Seq<char>>, k: int) -> bool {
    &&& 0 <= k < guesses.len()
    &&& near_miss(word, guesses[k])
    &&& forall|j: int|
        0 <= j < guesses.len() && j != k && near_miss(word, #[trigger] guesses[j])
            ==> guess_distance(word, guesses[k]) < guess_distance(word, guesses[j])
}

/// What autocorrect may substitute for `word`: the engine's replacement where
/// it differs from the word, or else the winning guess.
pub open spec fn is_correction(
    word: Seq<char>,
    replacement: Option<Seq<char>>,
    guesses: Seq<Seq<char>>,
    r: Option<Seq<char>>,
) -> bool {
    match replacement {
        Some(rep) => if rep == word {
            r is None
        } else {
            r == Some(rep)
        },
        None => match r {
            Some(s) => exists|k: int| #[trigger] wins(word, guesses, k) && s == guesses[k],
            None => forall|k: int| !#[trigger] wins(word, guesses, k),
        },
    }
}

/// Chooses between the engine's high-confidence replacement and its ranked
/// guesses. The replacement is trusted as it is. A mere guess must be within a
/// couple of edits of what was typed and strictly closer than every other
/// guess in the list: when several tie, there is no obvious answer to apply
/// silently, and the suggestion bar does the offering instead.
pub fn pick_correction(
    word: &str,
    replacement: Option<&str>,
    suggestions: &Vec<String>,
) -> (r: Option<String>)
    ensures
        is_correction(
            word@,
            match replacement {
                Some(s) => Some(s@),
                None => None,
            },
            text::views(suggestions@),
            text::opt_view(r),
        ),
{
    if let Some(rep) = replacement {
        return if text::str_eq(rep, word) {
            None
        } else {
            Some(rep.to_owned())
        };
    }
    let ghost guesses = text::views(suggestions@);
    let typed = text::chars(word.to_lowercase().as_str());
    let max: usize = if typed.len() <= 4 {
        1
    } else {
        2
    };
    // The closest near miss so far, and whether another is as close.
    let mut best: Option<(usize, usize)> = None;
    let mut tied: bool = false;
    let mut i: usize = 0;
    while i < suggestions.len()
        invariant
            i <= suggestions@.len(),
            guesses == text::views(suggestions@),
            typed@ == text::lowered(word@),
            max == budget(typed@.len()),
            match best {
                None => !tied && forall|k: int| 0 <= k < i ==> !near_miss(word@, #[trigger] guesses[k]),
                Some((d, at)) => {
                    &&& at < i
                    &&& near_miss(word@, guesses[at as int])
                    &&& d == guess_distance(word@, guesses[at as int])
                    &&& forall|k: int|
                        0 <= k < i && near_miss(word@, #[trigger] guesses[k]) ==> d
                            <= guess_distance(word@, guesses[k])
                    &&& tied == exists|k: int|
                        0 <= k < i && k != at && near_miss(word@, #[trigger] guesses[k])
                            && guess_distance(word@, guesses[k]) == d
                },
            },
        decreases suggestions@.len() - i,
    {
        let candidate = text::chars(suggestions[i].to_lowercase().as_str());
        let ghost before = best;
        assert(guesses[i as int] == suggestions@[i as int]@);
        // A candidate differing only in case is not a typo fix, and it does
        // not block one either.
        let same = same_chars(&candidate, &typed);
        let within = if same {
            None
        } else {
            edit_distance_at_most(&typed, &candidate, max)
        };
        if let Some(d) = within {
            assert(near_miss(word@, guesses[i as int]));
            match best {
                None => {
                    best = Some((d, i));
                },
                Some((closest, at)) => {
                    if d < closest {
                        // A new closest guess clears any tie the old one was in.
                        best = Some((d, i));
                        tied = false;
                    } else if d == closest {
                        assert(at != i);
                        tied = true;
                    }
                },
            }
        } else {
            assert(!near_miss(word@, guesses[i as int]));
        }
        i = i + 1;
    }
    match best {
        Some((d, at)) => {
            if tied {
                proof {
                    let other = choose|k: int|
                        0 <= k < i && k != at && near_miss(word@, #[trigger] guesses[k])
                            && guess_distance(word@, guesses[k]) == d;
                    assert forall|k: int| !#[trigger] wins(word@, guesses, k) by {
                        if wins(word@, guesses, k) {
                            if k != at {
                                assert(near_miss(word@, guesses[at as int]));
                                assert(d <= guess_distance(word@, guesses[k]));
                            } else {
                                assert(near_miss(word@, guesses[other]));
                            }
                        }
                    }
                }
                None
            } else {
                assert(wins(word@, guesses, at as int));
                Some(suggestions[at].clone())
            }
        },
        None => None,
    }
}

/// Whether two character lists are equal.
fn same_chars(a: &Vec<char>, b: &Vec<char>) -> (r: bool)
    ensures
        r == (a@ == b@),
{
    if a.len() != b.len() {
        return false;
    }
    let r = text::stands_at(a, b, 0);
    assert(a@.subrange(0, b@.len() as int) =~= a@);
    r
}

/// The word autocorrect should substitute for `word`, if any.
///
/// The engine's own pick covers most transposition typos but not doubled or
/// dropped letters, which come back as bare guesses, so this falls back to the
/// guesses when exactly one of them is a clear near miss of what was typed.
pub fn top_correction(word: &str, analysis: &Analysis) -> (r: Option<String>)
    ensures
        !analysis.misspelled ==> r is None,
        analysis.misspelled ==> is_correction(
            word@,
            text::opt_view(analysis.replacement),
            text::views(analysis.suggestions@),
            text::opt_view(r),
        ),
{
    if !analysis.misspelled {
        return None;
    }
    match &analysis.replacement {
        Some(rep) => pick_correction(word, Some(rep.as_str()), &analysis.suggestions),
        None => pick_correction(word, None, &analysis.suggestions),
    }
}

// ---------------------------------------------------------------------------
// Laws.
// ---------------------------------------------------------------------------
/// The distance does not depend on which word is taken first.
pub proof fn law_distance_is_symmetric(a: Seq<char>, b: Seq<char>)
    ensures
        distance(a, b) == distance(b, a),
{
    lemma_edits_symmetric(a, b, a.len() as int, b.len() as int);
}

proof fn lemma_edits_symmetric(a: Seq<char>, b: Seq<char>, i: int, j: int)
    requires
        0 <= i,
        0 <= j,
    ensures
        edits(a, b, i, j) == edits(b, a, j, i),
    decreases i + j,
{
    if i > 0 && j > 0 {
        lemma_edits_symmetric(a, b, i - 1, j - 1);
        lemma_edits_symmetric(a, b, i - 1, j);
        lemma_edits_symmetric(a, b, i, j - 1);
        if swapped(a, b, i, j) {
            lemma_edits_symmetric(a, b, i - 2, j - 2);
        }
    }
}

/// Exactly equal words are no edits apart.
pub proof fn law_distance_zero_means_equal(a: Seq<char>, b: Seq<char>)
    ensures
        distance(a, b) == 0 <==> a == b,
{
    if a == b {
        lemma_edits_same(a, a.len() as int);
    } else if distance(a, b) == 0 {
        lemma_edits_bounds(a, b, a.len() as int, b.len() as int);
        lemma_edits_zero(a, b, a.len() as int);
        assert(a =~= b);
    }
}

proof fn lemma_edits_same(a: Seq<char>, i: int)
    requires
        0 <= i <= a.len(),
    ensures
        edits(a, a, i, i) == 0,
    decreases i,
{
    if i > 0 {
        lemma_edits_same(a, i - 1);
    }
}

proof fn lemma_edits_zero(a: Seq<char>, b: Seq<char>, i: int)
    requires
        0 <= i <= a.len(),
        i <= b.len(),
        edits(a, b, i, i) == 0,
    ensures
        forall|k: int| 0 <= k < i ==> a[k] == b[k],
    decreases i,
{
    if i > 0 {
        lemma_edits_zero(a, b, i - 1);
    }
}

/// Swapping two adjacent, different characters is one edit.
pub proof fn law_a_transposition_costs_one(a: Seq<char>, k: int)
    requires
        0 <= k < a.len() - 1,
        a[k] != a[k + 1],
    ensures
        distance(a, a.update(k, a[k + 1]).update(k + 1, a[k])) == 1,
{
    let b = a.update(k, a[k + 1]).update(k + 1, a[k]);
    lemma_edits_prefix(a, b, k);
    assert(swapped(a, b, k + 2, k + 2));
    assert(edits(a, b, k + 2, k + 2) <= 1);
    lemma_edits_suffix(a, b, k + 2, a.len() as int);
    law_distance_zero_means_equal(a, b);
    assert(a[k] != b[k]);
}

proof fn lemma_edits_prefix(a: Seq<char>, b: Seq<char>, i: int)
    requires
        0 <= i <= a.len(),
        i <= b.len(),
        forall|k: int| 0 <= k < i ==> a[k] == b[k],
    ensures
        edits(a, b, i, i) == 0,
    decreases i,
{
    if i > 0 {
        lemma_edits_prefix(a, b, i - 1);
    }
}

proof fn lemma_edits_suffix(a: Seq<char>, b: Seq<char>, i: int, n: int)
    requires
        0 <= i <= n <= a.len(),
        a.len() == b.len(),
        forall|k: int| i <= k < n ==> a[k] == b[k],
        edits(a, b, i, i) <= 1,
    ensures
        edits(a, b, n, n) <= 1,
    decreases n - i,
{
    if i < n {
        lemma_edits_suffix(a, b, i, n - 1);
    }
}

/// There is at most one winning guess, so the correction is determined.
pub proof fn law_the_winner_is_unique(word: Seq<char>, guesses: Seq<Seq<char>>, j: int, k: int)
    requires
        wins(word, guesses, j),
        wins(word, guesses, k),
    ensures
        j == k,
{
}

/// A tie between two nearest guesses means that nothing is corrected.
pub proof fn law_a_tie_corrects_nothing(
    word: Seq<char>,
    guesses: Seq<Seq<char>>,
    j: int,
    k: int,
    r: Option<Seq<char>>,
)
    requires
        0 <= j < guesses.len(),
        0 <= k < guesses.len(),
        j != k,
        near_miss(word, guesses[j]),
        near_miss(word, guesses[k]),
        guess_distance(word, guesses[j]) == guess_distance(word, guesses[k]),
        forall|m: int|
            0 <= m < guesses.len() && near_miss(word, #[trigger] guesses[m]) ==> guess_distance(
                word,
                guesses[j],
            ) <= guess_distance(word, guesses[m]),
        is_correction(word, None, guesses, r),
    ensures
        r is None,
{
    assert forall|m: int| !#[trigger] wins(word, guesses, m) by {
        if wins(word, guesses, m) {
            if m != j {
                assert(guess_distance(word, guesses[m]) < guess_distance(word, guesses[j]));
            } else {
                assert(guess_distance(word, guesses[j]) < guess_distance(word, guesses[k]));
            }
        }
    }
}

/// A letter that was dropped, doubled or mistaken is one edit.
pub proof fn law_a_single_slip_costs_one(p: Seq<char>, c: char, d: char, s: Seq<char>)
    ensures
        distance(p + s, p + seq![c] + s) == 1,
        c != d ==> distance(p + seq![c] + s, p + seq![d] + s) == 1,
{
    let short = p + s;
    let long = p + seq![c] + s;
    let n = p.len() as int;
    lemma_edits_prefix(short, long, n);
    assert(edits(short, long, n, n + 1) <= 1);
    lemma_edits_shifted(short, long, n, short.len() as int);
    lemma_edits_bounds(short, long, short.len() as int, long.len() as int);
    if c != d {
        let other = p + seq![d] + s;
        lemma_edits_prefix(long, other, n);
        assert(edits(long, other, n + 1, n + 1) <= 1);
        lemma_edits_suffix(long, other, n + 1, long.len() as int);
        law_distance_zero_means_equal(long, other);
        assert(long[n] != other[n]);
    }
}

proof fn lemma_edits_shifted(a: Seq<char>, b: Seq<char>, i: int, n: int)
    requires
        0 <= i <= n <= a.len(),
        b.len() == a.len() + 1,
        forall|k: int| i <= k < n ==> a[k] == #[trigger] b[k + 1],
        edits(a, b, i, i + 1) <= 1,
    ensures
        edits(a, b, n, n + 1) <= 1,
    decreases n - i,
{
    if i < n {
        lemma_edits_shifted(a, b, i, n - 1);
        assert(a[n - 1] == b[n - 1 + 1]);
    }
}

/// A guess is put in by itself only where it is near enough: one edit from a
/// word of up to four letters, two from a longer one; a word in another letter
/// case is no correction.
pub proof fn law_how_far_a_guess_may_be(word: Seq<char>, guess: Seq<char>, r: Option<Seq<char>>)
    requires
        is_correction(word, None, seq![guess], r),
    ensures
        text::lowered(guess) == text::lowered(word) ==> r is None,
        distance(text::lowered(word), text::lowered(guess)) > 2 ==> r is None,
        text::lowered(word).len() <= 4 && distance(text::lowered(word), text::lowered(guess)) > 1
            ==> r is None,
        text::lowered(guess) != text::lowered(word) && distance(
            text::lowered(word),
            text::lowered(guess),
        ) <= 1 ==> r == Some(guess),
        text::lowered(guess) != text::lowered(word) && text::lowered(word).len() > 4 && distance(
            text::lowered(word),
            text::lowered(guess),
        ) <= 2 ==> r == Some(guess),
{
    let gs = seq![guess];
    assert(gs[0] == guess);
    if near_miss(word, guess) {
        assert(wins(word, gs, 0));
    }
    if let Some(x) = r {
        let k = choose|k: int| #[trigger] wins(word, gs, k) && x == gs[k];
        assert(k == 0);
    }
}

/// Of several guesses the nearest is put in where no other is as near.
pub proof fn law_the_nearest_guess_wins(
    word: Seq<char>,
    guesses: Seq<Seq<char>>,
    r: Option<Seq<char>>,
    k: int,
)
    requires
        is_correction(word, None, guesses, r),
        0 <= k < guesses.len(),
        text::lowered(guesses[k]) != text::lowered(word),
        distance(text::lowered(word), text::lowered(guesses[k])) == 1,
        forall|j: int|
            0 <= j < guesses.len() && j != k ==> distance(
                text::lowered(word),
                text::lowered(#[trigger] guesses[j]),
            ) > 1 || text::lowered(guesses[j]) == text::lowered(word),
    ensures
        r == Some(guesses[k]),
{
    assert(near_miss(word, guesses[k]));
    assert(wins(word, guesses, k));
    if let Some(x) = r {
        let i = choose|i: int| #[trigger] wins(word, guesses, i) && x == guesses[i];
        law_the_winner_is_unique(word, guesses, i, k);
    }
}

proof fn lemma_without(v: Seq<Seq<char>>, w: Seq<char>, x: Seq<char>)
    ensures
        without(v, w).contains(x) == (v.contains(x) && x != w),
        without(v, w).len() <= v.len(),
    decreases v.len(),
{
    if v.len() > 0 {
        let front = v.drop_last();
        let last = v.last();
        lemma_without(front, w, x);
        let before = without(front, w);
        let all = without(v, w);
        assert(v =~= front.push(last));
        if v.contains(x) {
            let k = choose|k: int| 0 <= k < v.len() && v[k] == x;
            if k < front.len() {
                assert(front[k] == x);
            }
        }
        if front.contains(x) {
            let k = choose|k: int| 0 <= k < front.len() && front[k] == x;
            assert(v[k] == x);
        }
        if last == x {
            assert(v[v.len() - 1] == x);
        }
        if last != w {
            if before.contains(x) {
                let k = choose|k: int| 0 <= k < before.len() && before[k] == x;
                assert(all[k] == x);
            }
            if last == x {
                assert(all[before.len() as int] == x);
            }
            if all.contains(x) {
                let k = choose|k: int| 0 <= k < all.len() && all[k] == x;
                if k < before.len() {
                    assert(before[k] == x);
                }
            }
        }
    }
}

/// At most five suggestions are offered: the speller's own pick leads, and is
/// not offered again; without one they are its guesses in their order.
pub proof fn law_what_is_suggested(rep: Option<Seq<char>>, guesses: Seq<Seq<char>>, i: int)
    ensures
        merged(rep, guesses).len() <= 5,
        rep is None && guesses.len() <= 5 ==> merged(rep, guesses) == guesses,
        rep is None && 0 <= i < guesses.len() && i < 5 ==> merged(rep, guesses)[i] == guesses[i],
        rep matches Some(w) ==> merged(rep, guesses).len() > 0 && merged(rep, guesses)[0] == w,
        rep is Some && 0 < i < merged(rep, guesses).len() ==> merged(rep, guesses)[i] != rep->0
            && guesses.contains(merged(rep, guesses)[i]),
        rep is Some && guesses.len() < 5 && 0 <= i < guesses.len() ==> merged(rep, guesses).contains(
            guesses[i],
        ),
{
    let shown = if guesses.len() > 5 {
        guesses.take(5)
    } else {
        guesses
    };
    if let Some(w) = rep {
        let rest = without(shown, w);
        let led = seq![w] + rest;
        let all = merged(rep, guesses);
        if 0 < i < all.len() {
            assert(all[i] == rest[i - 1]);
            assert(rest.contains(rest[i - 1]));
            lemma_without(shown, w, rest[i - 1]);
            let k = choose|k: int| 0 <= k < shown.len() && shown[k] == rest[i - 1];
            assert(guesses[k] == rest[i - 1]);
        }
        if guesses.len() < 5 && 0 <= i < guesses.len() {
            let x = guesses[i];
            lemma_without(shown, w, x);
            assert(shown.contains(x));
            if x == w {
                assert(all[0] == x);
            } else {
                let k = choose|k: int| 0 <= k < rest.len() && rest[k] == x;
                assert(all == led);
                assert(all[k + 1] == x);
            }
        }
    }
}

/// An error that covers only a part of the word, or that offers nothing, says
/// nothing of the word.
pub proof fn law_only_an_error_of_the_whole_word_counts(
    word: Seq<char>,
    e: SpellError,
    guesses: Seq<Seq<char>>,
    r: Analysis,
)
    requires
        is_analysis(word, Some(e), guesses, r),
    ensures
        e.start > 0 || e.length != utf16_len(word) ==> !r.misspelled,
        e.action == CorrectiveAction::Replace && e.replacement is None ==> !r.misspelled,
        e.action != CorrectiveAction::Replace && e.action != CorrectiveAction::GetSuggestions
            ==> !r.misspelled,
        word.len() > 0 && e.start == 0 && e.length == utf16_len(word) && e.action
            == CorrectiveAction::GetSuggestions ==> r.misspelled && r.replacement is None,
        word.len() > 0 && e.start == 0 && e.length == utf16_len(word) && e.action
            == CorrectiveAction::Replace && e.replacement is Some ==> r.misspelled && r.replacement
            == e.replacement,
{
}

} // verus!
