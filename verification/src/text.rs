//! Strings as sequences of characters: searching, trimming, splitting,
//! building, and the byte offsets of their UTF-8 form.

use vstd::prelude::*;
use vstd::utf8::*;

verus! {

// ---------------------------------------------------------------------------
// What the standard library decides about characters and strings.
// ---------------------------------------------------------------------------
/// Whether the character has Unicode's `Alphabetic` property.
pub uninterp spec fn alphabetic(c: char) -> bool;

/// Whether the character is in one of Unicode's number categories.
pub uninterp spec fn numeric(c: char) -> bool;

/// Whether the character has Unicode's `Uppercase` property.
pub uninterp spec fn uppercase(c: char) -> bool;

/// Whether the character has Unicode's `Lowercase` property.
pub uninterp spec fn lowercase(c: char) -> bool;

/// The Unicode lowercase form of a whole string.
pub uninterp spec fn lowered(s: Seq<char>) -> Seq<char>;

/// `char::is_alphabetic` answers from the `Alphabetic` property alone.
pub assume_specification[ char::is_alphabetic ](c: char) -> (b: bool)
    ensures
        b == alphabetic(c),
;

/// `char::is_numeric` answers from the general category alone.
pub assume_specification[ char::is_numeric ](c: char) -> (b: bool)
    ensures
        b == numeric(c),
;

/// `char::is_uppercase` answers from the `Uppercase` property alone.
pub assume_specification[ char::is_uppercase ](c: char) -> (b: bool)
    ensures
        b == uppercase(c),
;

/// `char::is_lowercase` answers from the `Lowercase` property alone.
pub assume_specification[ char::is_lowercase ](c: char) -> (b: bool)
    ensures
        b == lowercase(c),
;

/// `char::is_alphanumeric` holds of alphabetic and of numeric characters.
pub assume_specification[ char::is_alphanumeric ](c: char) -> (b: bool)
    ensures
        b == alphanumeric(c),
;

/// `str::to_lowercase` is a function of the string's characters.
pub assume_specification[ str::to_lowercase ](s: &str) -> (r: String)
    ensures
        r@ == lowered(s@),
;

/// `String::push` appends the character at the end.
pub assume_specification[ String::push ](s: &mut String, c: char)
    ensures
        final(s)@ == old(s)@.push(c),
;

/// A letter or a number.
pub open spec fn alphanumeric(c: char) -> bool {
    alphabetic(c) || numeric(c)
}

// ---------------------------------------------------------------------------
// Character classes that a few lines can state.
// ---------------------------------------------------------------------------
/// The characters with Unicode's `White_Space` property.
pub open spec fn white_space(c: char) -> bool {
    let u = c as u32;
    ||| 0x9 <= u <= 0xD
    ||| u == 0x20
    ||| u == 0x85
    ||| u == 0xA0
    ||| u == 0x1680
    ||| 0x2000 <= u <= 0x200A
    ||| u == 0x2028
    ||| u == 0x2029
    ||| u == 0x202F
    ||| u == 0x205F
    ||| u == 0x3000
}

/// Whether `c` is white space.
pub fn is_white_space(c: char) -> (b: bool)
    ensures
        b == white_space(c),
{
    let u: u32 = c as u32;
    (0x9 <= u && u <= 0xD) || u == 0x20 || u == 0x85 || u == 0xA0 || u == 0x1680 || (0x2000 <= u
        && u <= 0x200A) || u == 0x2028 || u == 0x2029 || u == 0x202F || u == 0x205F || u == 0x3000
}

/// An ASCII decimal digit.
pub open spec fn ascii_digit(c: char) -> bool {
    '0' <= c <= '9'
}

/// Whether `c` is an ASCII decimal digit.
pub fn is_ascii_digit(c: char) -> (b: bool)
    ensures
        b == ascii_digit(c),
{
    '0' <= c && c <= '9'
}

/// The ASCII lowercase form of a character; everything else stays.
pub open spec fn ascii_lower(c: char) -> char {
    if 'A' <= c <= 'Z' {
        (c as u32 + 32) as char
    } else {
        c
    }
}

/// Lowercases an ASCII letter and leaves every other character alone.
pub fn to_ascii_lower(c: char) -> (r: char)
    ensures
        r == ascii_lower(c),
{
    if 'A' <= c && c <= 'Z' {
        ((c as u8) + 32u8) as char
    } else {
        c
    }
}

/// Every character ASCII-lowercased.
pub open spec fn ascii_lowered(s: Seq<char>) -> Seq<char> {
    Seq::new(s.len(), |i: int| ascii_lower(s[i]))
}

/// The string with its ASCII letters lowercased.
pub fn to_ascii_lowercase(s: &str) -> (r: String)
    ensures
        r@ == ascii_lowered(s@),
{
    let v = chars(s);
    let mut r = String::new();
    let mut i: usize = 0;
    while i < v.len()
        invariant
            v@ == s@,
            i <= v@.len(),
            r@ == ascii_lowered(s@).take(i as int),
        decreases v@.len() - i,
    {
        r.push(to_ascii_lower(v[i]));
        i = i + 1;
        assert(r@ =~= ascii_lowered(s@).take(i as int));
    }
    assert(r@ =~= ascii_lowered(s@));
    r
}

// ---------------------------------------------------------------------------
// Characters in and out of strings.
// ---------------------------------------------------------------------------
/// The characters of `s`, in order.
pub fn chars(s: &str) -> (v: Vec<char>)
    ensures
        v@ == s@,
{
    let mut v: Vec<char> = Vec::new();
    for c in it: s.chars()
        invariant
            it.seq() == s@,
            v@ == s@.take(it.index() as int),
    {
        v.push(c);
        assert(s@.take(it.index() as int).push(c) =~= s@.take(it.index() as int + 1));
    }
    assert(s@.take(s@.len() as int) =~= s@);
    v
}

/// The string made of `v[from..to]`.
pub fn string_of(v: &Vec<char>, from: usize, to: usize) -> (s: String)
    requires
        from <= to <= v@.len(),
    ensures
        s@ == v@.subrange(from as int, to as int),
{
    let mut s = String::new();
    let mut i: usize = from;
    while i < to
        invariant
            from <= i <= to <= v@.len(),
            s@ == v@.subrange(from as int, i as int),
        decreases to - i,
    {
        s.push(v[i]);
        i = i + 1;
        assert(s@ =~= v@.subrange(from as int, i as int));
    }
    s
}

/// Whether two strings hold the same characters.
pub fn str_eq(a: &str, b: &str) -> (r: bool)
    ensures
        r == (a@ == b@),
{
    a.to_owned() == b.to_owned()
}

/// `a` followed by `b`.
pub fn join2(a: &str, b: &str) -> (r: String)
    ensures
        r@ == a@ + b@,
{
    let mut r = a.to_owned();
    r.append(b);
    r
}

/// `a`, then `b`, then `c`.
pub fn join3(a: &str, b: &str, c: &str) -> (r: String)
    ensures
        r@ == a@ + b@ + c@,
{
    let mut r = a.to_owned();
    r.append(b);
    r.append(c);
    r
}

/// A copy of an optional string.
pub fn clone_opt(o: &Option<String>) -> (r: Option<String>)
    ensures
        r == *o,
{
    match o {
        Some(s) => Some(s.clone()),
        None => None,
    }
}

/// A list of indices as integers.
pub open spec fn ints(v: Seq<usize>) -> Seq<int> {
    v.map_values(|i: usize| i as int)
}

/// An optional string as an optional character sequence.
pub open spec fn opt_view(o: Option<String>) -> Option<Seq<char>> {
    match o {
        Some(s) => Some(s@),
        None => None,
    }
}

/// The same bytes.
pub fn clone_bytes(v: &Vec<u8>) -> (r: Vec<u8>)
    ensures
        r@ == v@,
{
    let mut r: Vec<u8> = Vec::new();
    let mut i: usize = 0;
    while i < v.len()
        invariant
            i <= v@.len(),
            r@ == v@.take(i as int),
        decreases v@.len() - i,
    {
        r.push(v[i]);
        i = i + 1;
        assert(r@ =~= v@.take(i as int));
    }
    assert(r@ =~= v@);
    r
}

/// Copies of a list of strings, character for character.
pub fn clone_strings(v: &Vec<String>) -> (r: Vec<String>)
    ensures
        r@ == v@,
{
    let mut r: Vec<String> = Vec::new();
    let mut i: usize = 0;
    while i < v.len()
        invariant
            i <= v@.len(),
            r@ == v@.take(i as int),
        decreases v@.len() - i,
    {
        r.push(v[i].clone());
        i = i + 1;
        assert(r@ =~= v@.take(i as int));
    }
    assert(r@ =~= v@);
    r
}

/// The characters of each string of a list.
pub open spec fn views(v: Seq<String>) -> Seq<Seq<char>> {
    Seq::new(v.len(), |i: int| v[i]@)
}

/// Whether a text is among some.
pub fn holds(v: &Vec<String>, s: &str) -> (r: bool)
    ensures
        r == views(v@).contains(s@),
{
    let mut i: usize = 0;
    while i < v.len()
        invariant
            i <= v@.len(),
            forall|k: int| 0 <= k < i ==> (#[trigger] v@[k])@ != s@,
        decreases v@.len() - i,
    {
        if str_eq(v[i].as_str(), s) {
            assert(views(v@)[i as int] == s@);
            return true;
        }
        i = i + 1;
    }
    proof {
        let t = views(v@);
        if t.contains(s@) {
            let k = choose|k: int| 0 <= k < t.len() && t[k] == s@;
            assert(v@[k]@ == s@);
        }
    }
    false
}

// ---------------------------------------------------------------------------
// Searching.
// ---------------------------------------------------------------------------
/// The first index at or after `i` whose character satisfies `p`, or the
/// length of `s` where there is none.
pub open spec fn find_from(s: Seq<char>, p: spec_fn(char) -> bool, i: int) -> int
    decreases s.len() - i,
{
    if i >= s.len() {
        s.len() as int
    } else if p(s[i]) {
        i
    } else {
        find_from(s, p, i + 1)
    }
}

/// The end of the last character of `s[..i]` that satisfies `p`, or 0.
pub open spec fn end_before(s: Seq<char>, p: spec_fn(char) -> bool, i: int) -> int
    decreases i,
{
    if i <= 0 {
        0
    } else if p(s[i - 1]) {
        i
    } else {
        end_before(s, p, i - 1)
    }
}

/// The predicate "is white space".
pub open spec fn spaces() -> spec_fn(char) -> bool {
    |c: char| white_space(c)
}

/// The predicate "is not white space".
pub open spec fn non_spaces() -> spec_fn(char) -> bool {
    |c: char| !white_space(c)
}

/// The predicate "is the character `d`".
pub open spec fn is_char(d: char) -> spec_fn(char) -> bool {
    |c: char| c == d
}

/// The predicate "is not the character `d`".
pub open spec fn not_char(d: char) -> spec_fn(char) -> bool {
    |c: char| c != d
}

/// `find_from` gives the first index with the property.
pub proof fn lemma_find_from(s: Seq<char>, p: spec_fn(char) -> bool, i: int)
    requires
        0 <= i <= s.len(),
    ensures
        i <= find_from(s, p, i) <= s.len(),
        forall|k: int| i <= k < find_from(s, p, i) ==> !p(#[trigger] s[k]),
        find_from(s, p, i) < s.len() ==> p(s[find_from(s, p, i)]),
    decreases s.len() - i,
{
    if i < s.len() && !p(s[i]) {
        lemma_find_from(s, p, i + 1);
    }
}

/// An index with the property and none before it is what `find_from` gives.
pub proof fn lemma_find_from_is(s: Seq<char>, p: spec_fn(char) -> bool, i: int, k: int)
    requires
        0 <= i <= k <= s.len(),
        forall|j: int| i <= j < k ==> !p(#[trigger] s[j]),
        k < s.len() ==> p(s[k]),
    ensures
        find_from(s, p, i) == k,
    decreases k - i,
{
    if i < k {
        assert(!p(s[i]));
        lemma_find_from_is(s, p, i + 1, k);
    }
}

/// `end_before` lies between 0 and `i`, directly behind the last character
/// with the property.
pub proof fn lemma_end_before(s: Seq<char>, p: spec_fn(char) -> bool, i: int)
    requires
        0 <= i <= s.len(),
    ensures
        0 <= end_before(s, p, i) <= i,
        forall|k: int| end_before(s, p, i) <= k < i ==> !p(#[trigger] s[k]),
        end_before(s, p, i) > 0 ==> p(s[end_before(s, p, i) - 1]),
    decreases i,
{
    if i > 0 && !p(s[i - 1]) {
        lemma_end_before(s, p, i - 1);
    }
}

/// First white space at or after `from`.
pub fn find_space(v: &Vec<char>, from: usize) -> (r: usize)
    requires
        from <= v@.len(),
    ensures
        r == find_from(v@, spaces(), from as int),
        from <= r <= v@.len(),
{
    let mut i: usize = from;
    while i < v.len() && !is_white_space(v[i])
        invariant
            from <= i <= v@.len(),
            find_from(v@, spaces(), from as int) == find_from(v@, spaces(), i as int),
        decreases v@.len() - i,
    {
        i = i + 1;
    }
    i
}

/// First character at or after `from` that is not white space.
pub fn find_non_space(v: &Vec<char>, from: usize) -> (r: usize)
    requires
        from <= v@.len(),
    ensures
        r == find_from(v@, non_spaces(), from as int),
        from <= r <= v@.len(),
{
    let mut i: usize = from;
    while i < v.len() && is_white_space(v[i])
        invariant
            from <= i <= v@.len(),
            find_from(v@, non_spaces(), from as int) == find_from(v@, non_spaces(), i as int),
        decreases v@.len() - i,
    {
        i = i + 1;
    }
    i
}

/// First occurrence of `d` at or after `from`, or the length.
pub fn find_char(v: &Vec<char>, d: char, from: usize) -> (r: usize)
    requires
        from <= v@.len(),
    ensures
        r == find_from(v@, is_char(d), from as int),
        from <= r <= v@.len(),
{
    let mut i: usize = from;
    while i < v.len() && v[i] != d
        invariant
            from <= i <= v@.len(),
            find_from(v@, is_char(d), from as int) == find_from(v@, is_char(d), i as int),
        decreases v@.len() - i,
    {
        i = i + 1;
    }
    i
}

/// First character other than `d` at or after `from`, or the length.
pub fn find_not_char(v: &Vec<char>, d: char, from: usize) -> (r: usize)
    requires
        from <= v@.len(),
    ensures
        r == find_from(v@, not_char(d), from as int),
        from <= r <= v@.len(),
{
    let mut i: usize = from;
    while i < v.len() && v[i] == d
        invariant
            from <= i <= v@.len(),
            find_from(v@, not_char(d), from as int) == find_from(v@, not_char(d), i as int),
        decreases v@.len() - i,
    {
        i = i + 1;
    }
    i
}

/// The end of the last occurrence of `d` in `v[..to]`, or 0.
pub fn end_before_char(v: &Vec<char>, d: char, to: usize) -> (r: usize)
    requires
        to <= v@.len(),
    ensures
        r == end_before(v@, is_char(d), to as int),
        r <= to,
{
    let mut i: usize = to;
    while i > 0 && v[i - 1] != d
        invariant
            i <= to <= v@.len(),
            end_before(v@, is_char(d), to as int) == end_before(v@, is_char(d), i as int),
        decreases i,
    {
        i = i - 1;
    }
    i
}

/// The end of the last white space in `v[..to]`, or 0.
pub fn end_before_space(v: &Vec<char>, to: usize) -> (r: usize)
    requires
        to <= v@.len(),
    ensures
        r == end_before(v@, spaces(), to as int),
        r <= to,
{
    let mut i: usize = to;
    while i > 0 && !is_white_space(v[i - 1])
        invariant
            i <= to <= v@.len(),
            end_before(v@, spaces(), to as int) == end_before(v@, spaces(), i as int),
        decreases i,
    {
        i = i - 1;
    }
    i
}

/// Whether `s` holds the character `d`.
pub fn contains_char(v: &Vec<char>, d: char) -> (r: bool)
    ensures
        r == v@.contains(d),
{
    let i: usize = find_char(v, d, 0);
    proof {
        lemma_find_from(v@, is_char(d), 0);
        if v@.contains(d) {
            let k = choose|k: int| 0 <= k < v@.len() && v@[k] == d;
            assert(is_char(d)(v@[k]));
        }
    }
    i < v.len()
}

/// Whether `t` stands in `s` at index `i`.
pub open spec fn occurs_at(s: Seq<char>, t: Seq<char>, i: int) -> bool {
    0 <= i && i + t.len() <= s.len() && s.subrange(i, i + t.len()) == t
}

/// Whether `t` stands somewhere in `s`.
pub open spec fn occurs(s: Seq<char>, t: Seq<char>) -> bool {
    exists|i: int| occurs_at(s, t, i)
}

/// Whether `s` begins with `t`.
pub open spec fn starts(s: Seq<char>, t: Seq<char>) -> bool {
    occurs_at(s, t, 0)
}

/// The first index at or after `i` where `t` stands, if there is one.
pub open spec fn find_seq(s: Seq<char>, t: Seq<char>, i: int) -> Option<int>
    decreases s.len() + 1 - i,
{
    if i < 0 || i + t.len() > s.len() {
        None
    } else if s.subrange(i, i + t.len()) == t {
        Some(i)
    } else {
        find_seq(s, t, i + 1)
    }
}

/// `find_seq` finds an occurrence exactly where there is one, and the first.
pub proof fn lemma_find_seq(s: Seq<char>, t: Seq<char>, i: int)
    requires
        0 <= i,
    ensures
        find_seq(s, t, i) is None ==> forall|k: int| i <= k ==> !occurs_at(s, t, k),
        find_seq(s, t, i) matches Some(k) ==> {
            &&& i <= k
            &&& occurs_at(s, t, k)
            &&& forall|j: int| i <= j < k ==> !occurs_at(s, t, j)
        },
    decreases s.len() + 1 - i,
{
    if i + t.len() <= s.len() && s.subrange(i, i + t.len()) != t {
        lemma_find_seq(s, t, i + 1);
    }
}

/// Whether `t` stands in `v` at index `i`.
pub fn stands_at(v: &Vec<char>, t: &Vec<char>, i: usize) -> (r: bool)
    requires
        i <= v@.len(),
    ensures
        r == occurs_at(v@, t@, i as int),
{
    if v.len() - i < t.len() {
        return false;
    }
    let mut k: usize = 0;
    while k < t.len()
        invariant
            i + t@.len() <= v@.len() <= usize::MAX,
            k <= t@.len(),
            forall|j: int| 0 <= j < k ==> v@[i + j] == #[trigger] t@[j],
        decreases t@.len() - k,
    {
        if v[i + k] != t[k] {
            assert(v@.subrange(i as int, i + t@.len())[k as int] != t@[k as int]);
            return false;
        }
        k = k + 1;
    }
    assert(v@.subrange(i as int, i + t@.len()) =~= t@);
    true
}

/// The first index at or after `from` where `t` stands in `v`.
pub fn position_of(v: &Vec<char>, t: &Vec<char>, from: usize) -> (r: Option<usize>)
    requires
        from <= v@.len(),
    ensures
        match (r, find_seq(v@, t@, from as int)) {
            (Some(k), Some(k2)) => k == k2 && from <= k && k + t@.len() <= v@.len(),
            (None, None) => true,
            _ => false,
        },
{
    let mut i: usize = from;
    while i <= v.len() && v.len() - i >= t.len()
        invariant
            from <= i <= v@.len() + 1,
            find_seq(v@, t@, from as int) == find_seq(v@, t@, i as int),
        decreases v@.len() + 1 - i,
    {
        if stands_at(v, t, i) {
            return Some(i);
        }
        if i == v.len() {
            assert(v@.subrange(i as int, i + t@.len()) =~= t@);
            return None;
        }
        i = i + 1;
    }
    None
}

/// Whether `needle` stands somewhere in `hay`.
pub fn contains_str(hay: &str, needle: &str) -> (r: bool)
    ensures
        r == occurs(hay@, needle@),
{
    let v = chars(hay);
    let t = chars(needle);
    proof {
        lemma_find_seq(v@, t@, 0);
    }
    position_of(&v, &t, 0).is_some()
}

/// Whether `s` begins with `prefix`.
pub fn starts_with(s: &str, prefix: &str) -> (r: bool)
    ensures
        r == starts(s@, prefix@),
{
    let v = chars(s);
    let t = chars(prefix);
    stands_at(&v, &t, 0)
}

// ---------------------------------------------------------------------------
// Trimming.
// ---------------------------------------------------------------------------
/// `s` without the white space at its ends.
pub open spec fn trimmed(s: Seq<char>) -> Seq<char> {
    let a = find_from(s, non_spaces(), 0);
    let b = end_before(s, non_spaces(), s.len() as int);
    if a < b {
        s.subrange(a, b)
    } else {
        Seq::empty()
    }
}

/// Trims `v[from..]` and gives the bounds of what is left; an empty rest is
/// given as two equal bounds.
pub fn trim_bounds(v: &Vec<char>) -> (r: (usize, usize))
    ensures
        r.0 <= r.1 <= v@.len(),
        v@.subrange(r.0 as int, r.1 as int) == trimmed(v@),
{
    let a: usize = find_non_space(v, 0);
    let mut b: usize = v.len();
    while b > 0 && is_white_space(v[b - 1])
        invariant
            b <= v@.len(),
            end_before(v@, non_spaces(), v@.len() as int) == end_before(v@, non_spaces(), b as int),
        decreases b,
    {
        b = b - 1;
    }
    if a < b {
        (a, b)
    } else {
        assert(v@.subrange(0, 0) =~= Seq::<char>::empty());
        (0, 0)
    }
}

/// `s` without the white space at its ends.
pub fn trim<'a>(s: &'a str) -> (r: &'a str)
    ensures
        r@ == trimmed(s@),
{
    let v = chars(s);
    let (a, b) = trim_bounds(&v);
    s.substring_char(a, b)
}

/// A trimmed string neither begins nor ends with white space.
pub proof fn lemma_trimmed(s: Seq<char>)
    ensures
        trimmed(s).len() > 0 ==> !white_space(trimmed(s)[0]) && !white_space(trimmed(s).last()),
        trimmed(s).len() <= s.len(),
        trimmed(s).len() == 0 ==> forall|k: int| 0 <= k < s.len() ==> white_space(#[trigger] s[k]),
{
    lemma_find_from(s, non_spaces(), 0);
    lemma_end_before(s, non_spaces(), s.len() as int);
    let a = find_from(s, non_spaces(), 0);
    let b = end_before(s, non_spaces(), s.len() as int);
    if a < b {
        assert(non_spaces()(s[a]));
        assert(non_spaces()(s[b - 1]));
    } else {
        assert forall|k: int| 0 <= k < s.len() implies white_space(#[trigger] s[k]) by {
            if k < a {
                assert(!non_spaces()(s[k]));
            } else {
                assert(b <= k);
                assert(!non_spaces()(s[k]));
            }
        }
    }
}

/// Trimming what is already trimmed changes nothing.
pub proof fn lemma_trimmed_twice(s: Seq<char>)
    ensures
        trimmed(trimmed(s)) == trimmed(s),
{
    lemma_trimmed(s);
    let t = trimmed(s);
    if t.len() > 0 {
        assert(non_spaces()(t[0]));
        assert(non_spaces()(t[t.len() - 1]));
        assert(t.subrange(0, t.len() as int) =~= t);
    }
}

// ---------------------------------------------------------------------------
// Runs: the maximal pieces between separators.
// ---------------------------------------------------------------------------
/// The predicate "`p` does not hold".
pub open spec fn negated(p: spec_fn(char) -> bool) -> spec_fn(char) -> bool {
    |c: char| !p(c)
}

/// The bounds of the maximal non-empty pieces of `s[i..]` that hold no
/// separator, in order.
pub open spec fn runs(s: Seq<char>, sep: spec_fn(char) -> bool, i: int) -> Seq<(int, int)>
    decreases s.len() - i,
    via runs_decreases
{
    if i < 0 || i >= s.len() {
        Seq::empty()
    } else {
        let a = find_from(s, negated(sep), i);
        if a >= s.len() {
            Seq::empty()
        } else {
            let b = find_from(s, sep, a);
            seq![(a, b)] + runs(s, sep, b)
        }
    }
}

#[via_fn]
proof fn runs_decreases(s: Seq<char>, sep: spec_fn(char) -> bool, i: int) {
    if 0 <= i < s.len() {
        lemma_find_from(s, negated(sep), i);
        let a = find_from(s, negated(sep), i);
        if a < s.len() {
            assert(negated(sep)(s[a]));
            assert(!sep(s[a]));
            lemma_find_from(s, sep, a + 1);
        }
    }
}

/// The pieces themselves.
pub open spec fn pieces(s: Seq<char>, sep: spec_fn(char) -> bool) -> Seq<Seq<char>> {
    let r = runs(s, sep, 0);
    Seq::new(r.len(), |k: int| s.subrange(r[k].0, r[k].1))
}

/// A piece is not empty, lies inside the string, holds no separator, and is
/// followed by a separator or the end.
pub open spec fn piece_ok(s: Seq<char>, sep: spec_fn(char) -> bool, r: (int, int)) -> bool {
    &&& 0 <= r.0 < r.1 <= s.len()
    &&& forall|k: int| r.0 <= k < r.1 ==> !sep(#[trigger] s[k])
    &&& r.0 > 0 ==> sep(s[r.0 - 1])
    &&& r.1 < s.len() ==> sep(s[r.1])
}

/// Every piece is maximal, and the pieces come in order without touching.
pub proof fn lemma_runs(s: Seq<char>, sep: spec_fn(char) -> bool, i: int)
    requires
        0 <= i <= s.len(),
        0 < i < s.len() ==> sep(s[i]),
    ensures
        forall|k: int| 0 <= k < runs(s, sep, i).len() ==> piece_ok(s, sep, #[trigger] runs(s, sep, i)[k]),
        forall|k: int| 0 <= k < runs(s, sep, i).len() ==> i <= (#[trigger] runs(s, sep, i)[k]).0,
        forall|j: int, k: int|
            0 <= j < k < runs(s, sep, i).len() ==> (#[trigger] runs(s, sep, i)[j]).1 < (#[trigger] runs(
                s,
                sep,
                i,
            )[k]).0,
    decreases s.len() - i,
{
    if i < s.len() {
        let a = find_from(s, negated(sep), i);
        lemma_find_from(s, negated(sep), i);
        if a < s.len() {
            let b = find_from(s, sep, a);
            assert(negated(sep)(s[a]));
            lemma_find_from(s, sep, a);
            assert(a < b);
            if a > i {
                assert(!negated(sep)(s[a - 1]));
            }
            lemma_runs(s, sep, b);
            let rest = runs(s, sep, b);
            let all = runs(s, sep, i);
            assert(all =~= seq![(a, b)] + rest);
            assert(piece_ok(s, sep, (a, b)));
            assert forall|k: int| 0 <= k < all.len() implies piece_ok(s, sep, #[trigger] all[k]) by {
                if k > 0 {
                    assert(all[k] == rest[k - 1]);
                }
            }
            assert forall|k: int| 0 <= k < all.len() implies i <= (#[trigger] all[k]).0 by {
                if k > 0 {
                    assert(all[k] == rest[k - 1]);
                }
            }
            assert forall|k: int| 0 <= k < rest.len() implies b < (#[trigger] rest[k]).0 by {
                assert(piece_ok(s, sep, rest[k]));
                if rest[k].0 == b {
                    assert(!sep(s[b]));
                }
            }
            assert forall|j: int, k: int| 0 <= j < k < all.len() implies (#[trigger] all[j]).1 < (
            #[trigger] all[k]).0 by {
                assert(all[k] == rest[k - 1]);
                if j > 0 {
                    assert(all[j] == rest[j - 1]);
                }
            }
        }
    }
}

/// The bounds of the white-space separated pieces of `v`.
pub fn space_runs(v: &Vec<char>) -> (r: Vec<(usize, usize)>)
    ensures
        r@.len() == runs(v@, spaces(), 0).len(),
        forall|k: int|
            0 <= k < r@.len() ==> (#[trigger] r@[k]).0 == runs(v@, spaces(), 0)[k].0 && r@[k].1 == runs(
                v@,
                spaces(),
                0,
            )[k].1,
        forall|k: int| 0 <= k < r@.len() ==> (#[trigger] r@[k]).0 < r@[k].1 <= v@.len(),
{
    let mut out: Vec<(usize, usize)> = Vec::new();
    let mut i: usize = 0;
    assert(negated(spaces()) =~= non_spaces());
    proof {
        lemma_runs(v@, spaces(), 0);
    }
    loop
        invariant
            i <= v@.len(),
            negated(spaces()) == non_spaces(),
            forall|k: int|
                0 <= k < runs(v@, spaces(), 0).len() ==> piece_ok(
                    v@,
                    spaces(),
                    #[trigger] runs(v@, spaces(), 0)[k],
                ),
            runs(v@, spaces(), 0).len() == out@.len() + runs(v@, spaces(), i as int).len(),
            forall|k: int|
                0 <= k < out@.len() ==> (#[trigger] out@[k]).0 == runs(v@, spaces(), 0)[k].0
                    && out@[k].1 == runs(v@, spaces(), 0)[k].1,
            forall|k: int|
                0 <= k < runs(v@, spaces(), i as int).len() ==> (#[trigger] runs(
                    v@,
                    spaces(),
                    i as int,
                )[k]) == runs(v@, spaces(), 0)[k + out@.len()],
        ensures
            out@.len() == runs(v@, spaces(), 0).len(),
            forall|k: int|
                0 <= k < out@.len() ==> (#[trigger] out@[k]).0 == runs(v@, spaces(), 0)[k].0
                    && out@[k].1 == runs(v@, spaces(), 0)[k].1,
        decreases v@.len() - i,
    {
        let ghost before = runs(v@, spaces(), i as int);
        let a: usize = find_non_space(v, i);
        if a >= v.len() {
            break;
        }
        let b: usize = find_space(v, a);
        proof {
            lemma_find_from(v@, non_spaces(), i as int);
            assert(non_spaces()(v@[a as int]));
            lemma_find_from(v@, spaces(), a as int);
            assert(before =~= seq![(a as int, b as int)] + runs(v@, spaces(), b as int));
            assert(before[0] == (a as int, b as int));
            let after = runs(v@, spaces(), b as int);
            assert forall|k: int| 0 <= k < after.len() implies (#[trigger] after[k]) == runs(
                v@,
                spaces(),
                0,
            )[k + out@.len() + 1] by {
                assert(before[k + 1] == after[k]);
            }
        }
        out.push((a, b));
        i = b;
    }
    proof {
        assert forall|k: int| 0 <= k < out@.len() implies (#[trigger] out@[k]).0 < out@[k].1
            <= v@.len() by {
            assert(piece_ok(v@, spaces(), runs(v@, spaces(), 0)[k]));
        }
    }
    out
}

// ---------------------------------------------------------------------------
// UTF-8 offsets.
// ---------------------------------------------------------------------------
/// How many bytes the character takes in UTF-8.
pub open spec fn width(c: char) -> nat {
    encode_scalar(c as u32).len()
}

/// How many bytes the string takes in UTF-8.
pub open spec fn byte_len(s: Seq<char>) -> nat {
    encode_utf8(s).len()
}

/// The byte offset of the character with index `i`.
pub open spec fn byte_at(s: Seq<char>, i: int) -> nat {
    byte_len(s.take(i))
}

/// How many bytes `c` takes in UTF-8.
pub fn char_width(c: char) -> (n: usize)
    ensures
        n == width(c),
        1 <= n <= 4,
{
    proof {
        char_is_scalar(c);
    }
    let u: u32 = c as u32;
    if u < 0x80 {
        1
    } else if u < 0x800 {
        2
    } else if u < 0x10000 {
        3
    } else {
        4
    }
}

/// The bytes of two strings in a row are the bytes of the whole.
pub proof fn lemma_byte_len_concat(a: Seq<char>, b: Seq<char>)
    ensures
        encode_utf8(a + b) == encode_utf8(a) + encode_utf8(b),
        byte_len(a + b) == byte_len(a) + byte_len(b),
    decreases a.len(),
{
    if a.len() == 0 {
        assert(a + b =~= b);
        assert(encode_utf8(a) + encode_utf8(b) =~= encode_utf8(b));
    } else {
        lemma_byte_len_concat(a.drop_first(), b);
        assert((a + b).drop_first() =~= a.drop_first() + b);
        assert((a + b)[0] == a[0]);
        assert(encode_utf8(a + b) =~= encode_utf8(a) + encode_utf8(b));
    }
}

/// One more character adds its width.
pub proof fn lemma_byte_at_step(s: Seq<char>, i: int)
    requires
        0 <= i < s.len(),
    ensures
        byte_at(s, i + 1) == byte_at(s, i) + width(s[i]),
{
    lemma_byte_len_concat(s.take(i), seq![s[i]]);
    assert(s.take(i + 1) =~= s.take(i) + seq![s[i]]);
    assert(seq![s[i]].drop_first() =~= Seq::<char>::empty());
    assert(encode_utf8(seq![s[i]]) =~= encode_scalar(s[i] as u32)) by {
        reveal_with_fuel(encode_utf8, 2);
    }
}

/// Later characters start later.
pub proof fn lemma_byte_at_monotone(s: Seq<char>, i: int, j: int)
    requires
        0 <= i <= j <= s.len(),
    ensures
        byte_at(s, i) + (j - i) <= byte_at(s, j),
        byte_at(s, j) <= byte_len(s),
    decreases j - i,
{
    lemma_byte_len_concat(s.take(j), s.skip(j));
    assert(s.take(j) + s.skip(j) =~= s);
    if i < j {
        lemma_byte_at_monotone(s, i, j - 1);
        lemma_byte_at_step(s, j - 1);
        char_is_scalar(s[j - 1]);
    }
}

/// The string's bytes fit the machine.
pub fn byte_length(s: &str) -> (n: usize)
    ensures
        n == byte_len(s@),
{
    s.as_bytes().len()
}

/// The byte offset of the character with index `i`.
pub fn byte_offset(s: &str, v: &Vec<char>, i: usize) -> (n: usize)
    requires
        v@ == s@,
        i <= v@.len(),
    ensures
        n == byte_at(s@, i as int),
        n <= byte_len(s@),
{
    let total: usize = byte_length(s);
    let mut n: usize = 0;
    let mut k: usize = 0;
    proof {
        assert(s@.take(0) =~= Seq::<char>::empty());
    }
    while k < i
        invariant
            v@ == s@,
            k <= i <= v@.len(),
            n == byte_at(s@, k as int),
            total == byte_len(s@),
        decreases i - k,
    {
        proof {
            lemma_byte_at_step(s@, k as int);
            lemma_byte_at_monotone(s@, k + 1, s@.len() as int);
            assert(s@.take(s@.len() as int) =~= s@);
        }
        n = n + char_width(v[k]);
        k = k + 1;
    }
    proof {
        lemma_byte_at_monotone(s@, i as int, s@.len() as int);
    }
    n
}

/// Whether the byte offset `o` is where the character with index `k` begins
/// (or where the string ends, for `k` its length).
pub open spec fn is_index(s: Seq<char>, o: int, k: int) -> bool {
    0 <= k <= s.len() && byte_at(s, k) == o
}

/// Whether the byte offset lies between two characters.
pub open spec fn boundary(s: Seq<char>, o: int) -> bool {
    exists|k: int| is_index(s, o, k)
}

/// The index of the character at a byte offset.
pub open spec fn index_at(s: Seq<char>, o: int) -> int {
    choose|k: int| is_index(s, o, k)
}

/// An offset has at most one index.
pub proof fn lemma_index_unique(s: Seq<char>, o: int, j: int, k: int)
    requires
        is_index(s, o, j),
        is_index(s, o, k),
    ensures
        j == k,
        index_at(s, o) == j,
{
    if j < k {
        lemma_byte_at_monotone(s, j, k);
    }
    if k < j {
        lemma_byte_at_monotone(s, k, j);
    }
    let c = index_at(s, o);
    assert(is_index(s, o, c));
    if j < c {
        lemma_byte_at_monotone(s, j, c);
    }
    if c < j {
        lemma_byte_at_monotone(s, c, j);
    }
}

/// Both ends of a string are boundaries.
pub proof fn lemma_ends_are_boundaries(s: Seq<char>)
    ensures
        is_index(s, 0, 0),
        is_index(s, byte_len(s) as int, s.len() as int),
        boundary(s, 0),
        boundary(s, byte_len(s) as int),
{
    assert(s.take(0) =~= Seq::<char>::empty());
    assert(s.take(s.len() as int) =~= s);
    assert(is_index(s, 0, 0));
    assert(is_index(s, byte_len(s) as int, s.len() as int));
}

/// The index of the character at a byte offset, where there is one.
pub fn char_index(s: &str, v: &Vec<char>, offset: usize) -> (r: Option<usize>)
    requires
        v@ == s@,
    ensures
        match r {
            Some(k) => is_index(s@, offset as int, k as int) && k == index_at(s@, offset as int),
            None => !boundary(s@, offset as int),
        },
{
    let total: usize = byte_length(s);
    let mut n: usize = 0;
    let mut k: usize = 0;
    proof {
        lemma_ends_are_boundaries(s@);
    }
    while k < v.len() && n < offset
        invariant
            v@ == s@,
            k <= v@.len(),
            n == byte_at(s@, k as int),
            total == byte_len(s@),
            k > 0 ==> byte_at(s@, k - 1) < offset,
        decreases v@.len() - k,
    {
        proof {
            lemma_byte_at_step(s@, k as int);
            lemma_byte_at_monotone(s@, k + 1, s@.len() as int);
        }
        n = n + char_width(v[k]);
        k = k + 1;
    }
    if n == offset {
        proof {
            assert(is_index(s@, offset as int, k as int));
            lemma_index_unique(s@, offset as int, k as int, k as int);
        }
        Some(k)
    } else {
        proof {
            assert forall|j: int| !is_index(s@, offset as int, j) by {
                if is_index(s@, offset as int, j) {
                    if j < k {
                        lemma_byte_at_monotone(s@, j, k - 1);
                    } else {
                        lemma_byte_at_monotone(s@, k as int, j);
                    }
                }
            }
        }
        None
    }
}

/// `s` with the characters `[a, b)` replaced by `w`.
pub open spec fn spliced(s: Seq<char>, a: int, b: int, w: Seq<char>) -> Seq<char> {
    s.take(a) + w + s.skip(b)
}

/// `s` with the characters `[a, b)` replaced by `w`.
pub fn splice(s: &str, a: usize, b: usize, w: &str) -> (r: String)
    requires
        a <= b <= s@.len(),
    ensures
        r@ == spliced(s@, a as int, b as int, w@),
{
    let n: usize = s.unicode_len();
    let mut r = s.substring_char(0, a).to_owned();
    r.append(w);
    r.append(s.substring_char(b, n));
    assert(r@ =~= spliced(s@, a as int, b as int, w@));
    r
}

/// The byte offset behind the inserted text.
pub proof fn lemma_spliced_offset(s: Seq<char>, a: int, b: int, w: Seq<char>)
    requires
        0 <= a <= b <= s.len(),
    ensures
        byte_at(spliced(s, a, b, w), a) == byte_at(s, a),
        byte_at(spliced(s, a, b, w), a + w.len()) == byte_at(s, a) + byte_len(w),
        is_index(spliced(s, a, b, w), (byte_at(s, a) + byte_len(w)) as int, a + w.len()),
{
    let t = spliced(s, a, b, w);
    assert(t.take(a) =~= s.take(a));
    assert(t.take(a + w.len()) =~= s.take(a) + w);
    lemma_byte_len_concat(s.take(a), w);
}

/// A byte offset behind the splice moves by the difference in length.
pub proof fn lemma_spliced_later(s: Seq<char>, a: int, b: int, w: Seq<char>, k: int)
    requires
        0 <= a <= b <= k <= s.len(),
    ensures
        byte_at(spliced(s, a, b, w), k - b + a + w.len()) == byte_at(s, k) - byte_len(
            s.subrange(a, b),
        ) + byte_len(w),
        is_index(
            spliced(s, a, b, w),
            byte_at(s, k) - byte_len(s.subrange(a, b)) + byte_len(w),
            k - b + a + w.len(),
        ),
{
    let t = spliced(s, a, b, w);
    let mid = s.subrange(b, k);
    assert(t.take(k - b + a + w.len()) =~= s.take(a) + w + mid);
    assert(s.take(k) =~= s.take(a) + s.subrange(a, b) + mid);
    lemma_byte_len_concat(s.take(a) + w, mid);
    lemma_byte_len_concat(s.take(a), w);
    lemma_byte_len_concat(s.take(a) + s.subrange(a, b), mid);
    lemma_byte_len_concat(s.take(a), s.subrange(a, b));
}

/// The pieces of `v` between the characters `d`, the empty ones left out.
pub fn char_pieces(v: &Vec<char>, d: char) -> (r: Vec<String>)
    ensures
        views(r@) == pieces(v@, is_char(d)),
{
    let mut out: Vec<String> = Vec::new();
    let ghost sep = is_char(d);
    let ghost all = runs(v@, sep, 0);
    let ghost mut done = Seq::<(int, int)>::empty();
    let mut i: usize = 0;
    proof {
        assert(negated(sep) =~= not_char(d));
        assert(all =~= done + runs(v@, sep, 0));
    }
    loop
        invariant
            i <= v@.len(),
            sep == is_char(d),
            negated(sep) == not_char(d),
            all == runs(v@, sep, 0),
            all == done + runs(v@, sep, i as int),
            out@.len() == done.len(),
            forall|k: int|
                0 <= k < done.len() ==> (#[trigger] out@[k])@ == v@.subrange(done[k].0, done[k].1),
        ensures
            all == runs(v@, sep, 0),
            sep == is_char(d),
            all == done,
            out@.len() == done.len(),
            forall|k: int|
                0 <= k < done.len() ==> (#[trigger] out@[k])@ == v@.subrange(done[k].0, done[k].1),
        decreases v@.len() - i,
    {
        let a: usize = find_not_char(v, d, i);
        if a >= v.len() {
            assert(runs(v@, sep, i as int) =~= Seq::<(int, int)>::empty());
            assert(all =~= done);
            break;
        }
        let b: usize = find_char(v, d, a);
        proof {
            lemma_find_from(v@, not_char(d), i as int);
            assert(not_char(d)(v@[a as int]));
            lemma_find_from(v@, sep, a as int);
            let rest = runs(v@, sep, b as int);
            let one = (a as int, b as int);
            assert(runs(v@, sep, i as int) =~= seq![one] + rest);
            assert(done + (seq![one] + rest) =~= done.push(one) + rest);
        }
        let piece = string_of(v, a, b);
        out.push(piece);
        proof {
            let next = done.push((a as int, b as int));
            assert forall|k: int| 0 <= k < next.len() implies (#[trigger] out@[k])@ == v@.subrange(
                next[k].0,
                next[k].1,
            ) by {
                if k < done.len() {
                    assert(next[k] == done[k]);
                }
            }
            done = next;
        }
        i = b;
    }
    assert(views(out@) =~= pieces(v@, is_char(d)));
    out
}

// ---------------------------------------------------------------------------
// ASCII, lines, and cutting to length.
// ---------------------------------------------------------------------------
/// Whether every character is ASCII.
pub open spec fn ascii_only(s: Seq<char>) -> bool {
    forall|i: int| 0 <= i < s.len() ==> ((#[trigger] s[i]) as u32) < 128
}

/// Whether every character is ASCII.
pub fn is_ascii_only(s: &str) -> (r: bool)
    ensures
        r == ascii_only(s@),
{
    let v = chars(s);
    let mut i: usize = 0;
    while i < v.len()
        invariant
            v@ == s@,
            i <= v@.len(),
            forall|k: int| 0 <= k < i ==> ((#[trigger] s@[k]) as u32) < 128,
        decreases v@.len() - i,
    {
        if v[i] as u32 >= 128 {
            assert(s@[i as int] as u32 >= 128);
            return false;
        }
        i = i + 1;
    }
    true
}

/// The lines from index `i` on: what stands between line feeds.
pub open spec fn lines_from(s: Seq<char>, i: int) -> Seq<Seq<char>>
    decreases s.len() + 1 - i,
{
    if i < 0 || i > s.len() {
        Seq::empty()
    } else {
        let e = find_from(s, is_char('\n'), i);
        if i <= e < s.len() {
            seq![s.subrange(i, e)] + lines_from(s, e + 1)
        } else {
            seq![s.skip(i)]
        }
    }
}

/// The lines of a text: what stands between line feeds.
pub fn split_lines(s: &str) -> (r: Vec<String>)
    ensures
        views(r@) == lines_from(s@, 0),
{
    let v = chars(s);
    let mut r: Vec<String> = Vec::new();
    let ghost all = lines_from(s@, 0);
    let mut i: usize = 0;
    assert(views(r@) =~= Seq::<Seq<char>>::empty());
    assert(all =~= views(r@) + lines_from(s@, 0));
    loop
        invariant
            v@ == s@,
            i <= v@.len(),
            all == lines_from(s@, 0),
            all == views(r@) + lines_from(s@, i as int),
        decreases v@.len() - i,
    {
        let e: usize = find_char(&v, '\n', i);
        let ghost before = views(r@);
        let line = string_of(&v, i, e);
        let ghost x = line@;
        r.push(line);
        assert(views(r@) =~= before.push(x));
        if e >= v.len() {
            assert(x =~= s@.skip(i as int));
            assert(before + seq![x] =~= before.push(x));
            return r;
        }
        proof {
            let rest = lines_from(s@, e + 1);
            assert(before + (seq![x] + rest) =~= before.push(x) + rest);
        }
        i = e + 1;
    }
}

/// The text with every line feed turned into a space.
pub open spec fn flattened(s: Seq<char>) -> Seq<char> {
    s.map_values(
        |c: char|
            if c == '\n' {
                ' '
            } else {
                c
            },
    )
}

/// The text, cut to `n` characters and an ellipsis where it is longer.
pub open spec fn cut_to(s: Seq<char>, n: int) -> Seq<char> {
    if s.len() > n {
        s.take(n).push('…')
    } else {
        s
    }
}

/// The text with every line feed turned into a space.
pub fn flatten_lines(s: &str) -> (r: String)
    ensures
        r@ == flattened(s@),
{
    let v = chars(s);
    let mut r = String::new();
    let mut i: usize = 0;
    while i < v.len()
        invariant
            v@ == s@,
            i <= v@.len(),
            r@ == flattened(s@).take(i as int),
        decreases v@.len() - i,
    {
        r.push(
            if v[i] == '\n' {
                ' '
            } else {
                v[i]
            },
        );
        i = i + 1;
        assert(r@ =~= flattened(s@).take(i as int));
    }
    assert(r@ =~= flattened(s@));
    r
}

/// The text, cut to `n` characters and an ellipsis where it is longer.
pub fn cut(s: &str, n: usize) -> (r: String)
    ensures
        r@ == cut_to(s@, n as int),
{
    let len: usize = s.unicode_len();
    if len > n {
        let mut r = s.substring_char(0, n).to_owned();
        r.push('…');
        assert(r@ =~= cut_to(s@, n as int));
        r
    } else {
        s.to_owned()
    }
}

/// Joining the lines with line feeds gives the text back.
pub open spec fn joined_lines(lines: Seq<Seq<char>>) -> Seq<char>
    decreases lines.len(),
{
    if lines.len() == 0 {
        Seq::empty()
    } else if lines.len() == 1 {
        lines[0]
    } else {
        lines[0] + seq!['\n'] + joined_lines(lines.skip(1))
    }
}

/// Joining the lines with line feeds gives the text back.
pub proof fn law_lines_join_back(s: Seq<char>)
    ensures
        joined_lines(lines_from(s, 0)) == s,
        lines_from(s, 0).len() > 0,
{
    lemma_lines_join(s, 0);
    assert(s.skip(0) =~= s);
}

proof fn lemma_lines_join(s: Seq<char>, i: int)
    requires
        0 <= i <= s.len(),
    ensures
        lines_from(s, i).len() > 0,
        joined_lines(lines_from(s, i)) == s.skip(i),
    decreases s.len() - i,
{
    lemma_find_from(s, is_char('\n'), i);
    let e = find_from(s, is_char('\n'), i);
    if e < s.len() {
        lemma_lines_join(s, e + 1);
        let rest = lines_from(s, e + 1);
        let all = seq![s.subrange(i, e)] + rest;
        assert(all.skip(1) =~= rest);
        assert(is_char('\n')(s[e]));
        assert(s.skip(i) =~= s.subrange(i, e) + seq!['\n'] + s.skip(e + 1));
    }
}

// ---------------------------------------------------------------------------
// Numerals.
// ---------------------------------------------------------------------------
/// The lowercase digit for `d`, in bases up to 16.
pub open spec fn digit(d: nat) -> char {
    if d < 10 {
        (48 + d) as char
    } else {
        (87 + d) as char
    }
}

/// `n` written in `base`.
pub open spec fn numeral(n: nat, base: nat) -> Seq<char>
    decreases n,
{
    if base < 2 || n < base {
        seq![digit(n)]
    } else {
        proof {
            vstd::arithmetic::div_mod::lemma_div_decreases(n as int, base as int);
        }
        numeral(n / base, base).push(digit(n % base))
    }
}

/// `n` written in decimal.
pub open spec fn decimal(n: nat) -> Seq<char> {
    numeral(n, 10)
}

/// The lowercase digit for `d`.
pub fn digit_char(d: u64) -> (c: char)
    requires
        d < 16,
    ensures
        c == digit(d as nat),
{
    if d < 10 {
        (48u8 + (d as u8)) as char
    } else {
        (87u8 + (d as u8)) as char
    }
}

/// Appends `n` written in `base`.
pub fn push_numeral(s: &mut String, n: u64, base: u64)
    requires
        2 <= base <= 16,
    ensures
        final(s)@ == old(s)@ + numeral(n as nat, base as nat),
    decreases n,
{
    if n >= base {
        proof {
            vstd::arithmetic::div_mod::lemma_div_decreases(n as int, base as int);
        }
        push_numeral(s, n / base, base);
    }
    proof {
        if n < base {
            vstd::arithmetic::div_mod::lemma_small_mod(n as nat, base as nat);
        }
    }
    s.push(digit_char(n % base));
    assert(s@ =~= old(s)@ + numeral(n as nat, base as nat));
}

/// `n` written in decimal.
pub fn decimal_string(n: u64) -> (s: String)
    ensures
        s@ == decimal(n as nat),
{
    let mut s = String::new();
    push_numeral(&mut s, n, 10);
    assert(s@ =~= decimal(n as nat));
    s
}

/// Looking from an index on is looking into what is left of the text there.
pub proof fn lemma_find_from_shift(s: Seq<char>, p: spec_fn(char) -> bool, d: int, i: int)
    requires
        0 <= d <= i,
        d <= s.len(),
    ensures
        find_from(s, p, i) == find_from(s.skip(d), p, i - d) + d,
    decreases s.len() - i,
{
    if i < s.len() {
        assert(s.skip(d)[i - d] == s[i]);
        if !p(s[i]) {
            lemma_find_from_shift(s, p, d, i + 1);
        }
    }
}

proof fn lemma_runs_shift(s: Seq<char>, sep: spec_fn(char) -> bool, d: int, i: int)
    requires
        0 <= d <= i <= s.len(),
    ensures
        runs(s, sep, i) == runs(s.skip(d), sep, i - d).map_values(
            |r: (int, int)| (r.0 + d, r.1 + d),
        ),
    decreases s.len() - i,
{
    let t = s.skip(d);
    let up = |r: (int, int)| (r.0 + d, r.1 + d);
    if i < s.len() {
        let a = find_from(s, negated(sep), i);
        lemma_find_from_shift(s, negated(sep), d, i);
        lemma_find_from(s, negated(sep), i);
        if a < s.len() {
            let b = find_from(s, sep, a);
            assert(negated(sep)(s[a]));
            lemma_find_from_shift(s, sep, d, a);
            lemma_find_from(s, sep, a);
            assert(b > a) by {
                assert(!sep(s[a]));
            }
            lemma_runs_shift(s, sep, d, b);
            let rest = runs(t, sep, b - d);
            assert(runs(t, sep, i - d) == seq![(a - d, b - d)] + rest);
            assert((seq![(a - d, b - d)] + rest).map_values(up) =~= seq![(a, b)] + rest.map_values(
                up,
            ));
        } else {
            assert(runs(s, sep, i) =~= runs(t, sep, i - d).map_values(up));
        }
    } else {
        assert(runs(s, sep, i) =~= runs(t, sep, i - d).map_values(up));
    }
}

/// A text without separators is one piece.
pub proof fn law_a_text_without_separators_is_one_piece(s: Seq<char>, sep: spec_fn(char) -> bool)
    requires
        s.len() > 0,
        forall|k: int| 0 <= k < s.len() ==> !sep(#[trigger] s[k]),
    ensures
        pieces(s, sep) == seq![s],
{
    let n = s.len() as int;
    assert(negated(sep)(s[0]));
    lemma_find_from_is(s, negated(sep), 0, 0);
    lemma_find_from_is(s, sep, 0, n);
    assert(runs(s, sep, n) =~= Seq::<(int, int)>::empty());
    assert(runs(s, sep, 0) =~= seq![(0int, n)]);
    assert(s.subrange(0, n) =~= s);
    assert(pieces(s, sep) =~= seq![s]);
}

/// What stands before the first separator is the first piece, and the others
/// are those of what stands behind it.
pub proof fn law_a_separator_ends_a_piece(
    s: Seq<char>,
    c: char,
    rest: Seq<char>,
    sep: spec_fn(char) -> bool,
)
    requires
        forall|k: int| 0 <= k < s.len() ==> !sep(#[trigger] s[k]),
        sep(c),
    ensures
        s.len() > 0 ==> pieces(s + seq![c] + rest, sep) == seq![s] + pieces(rest, sep),
        s.len() == 0 ==> pieces(s + seq![c] + rest, sep) == pieces(rest, sep),
{
    let t = s + seq![c] + rest;
    let n = s.len() as int;
    let d = n + 1;
    let not = negated(sep);
    let up = |r: (int, int)| (r.0 + d, r.1 + d);
    assert(t.skip(d) =~= rest);
    assert(t[n] == c);
    assert(!not(t[n]));
    lemma_runs_shift(t, sep, d, d);
    let later = runs(t, sep, d);
    let own = runs(rest, sep, 0);
    assert(later == own.map_values(up));
    assert(runs(t, sep, n) == later) by {
        assert(find_from(t, not, n) == find_from(t, not, n + 1));
        if d >= t.len() {
            assert(later =~= Seq::<(int, int)>::empty());
        }
    }
    lemma_runs(rest, sep, 0);
    assert forall|k: int| 0 <= k < own.len() implies t.subrange(later[k].0, later[k].1)
        == rest.subrange(own[k].0, own[k].1) by {
        assert(piece_ok(rest, sep, own[k]));
        assert(t.subrange(later[k].0, later[k].1) =~= rest.subrange(own[k].0, own[k].1));
    }
    if n > 0 {
        assert(t[0] == s[0]);
        assert(not(t[0]));
        assert forall|j: int| 0 <= j < n implies !sep(#[trigger] t[j]) by {
            assert(t[j] == s[j]);
        }
        lemma_find_from_is(t, sep, 0, n);
        assert(runs(t, sep, 0) == seq![(0int, n)] + later);
        assert(t.subrange(0, n) =~= s);
        assert(pieces(t, sep) =~= seq![s] + pieces(rest, sep));
    } else {
        assert(pieces(t, sep) =~= pieces(rest, sep));
    }
}

/// Trimming takes the white space off both ends and nothing else.
pub proof fn law_trimming_takes_white_space_off(
    lead: Seq<char>,
    middle: Seq<char>,
    trail: Seq<char>,
)
    requires
        forall|i: int| 0 <= i < lead.len() ==> white_space(#[trigger] lead[i]),
        forall|i: int| 0 <= i < trail.len() ==> white_space(#[trigger] trail[i]),
        middle.len() > 0 ==> !white_space(middle[0]) && !white_space(middle[middle.len() - 1]),
    ensures
        trimmed(lead + middle + trail) == middle,
{
    let s = lead + middle + trail;
    let a = lead.len() as int;
    let b = a + middle.len();
    let p = non_spaces();
    lemma_find_from(s, p, 0);
    lemma_end_before(s, p, s.len() as int);
    let i = find_from(s, p, 0);
    let j = end_before(s, p, s.len() as int);
    if middle.len() > 0 {
        assert(s[a] == middle[0]);
        assert(s[b - 1] == middle[middle.len() - 1]);
        assert(p(s[a]) && p(s[b - 1]));
        if i < a {
            assert(s[i] == lead[i]);
        }
        if j > b {
            assert(s[j - 1] == trail[j - 1 - b]);
        }
        assert(i == a && j == b);
        assert(s.subrange(a, b) =~= middle);
    } else {
        if i < s.len() {
            if i < a {
                assert(s[i] == lead[i]);
            } else {
                assert(s[i] == trail[i - b]);
            }
        }
        assert(middle =~= Seq::<char>::empty());
    }
}

/// A long text is cut behind its first characters, and the cut shows; a short
/// one stays as it is.
pub proof fn law_a_cut_shows(s: Seq<char>, more: Seq<char>, n: int)
    requires
        s.len() == n,
    ensures
        cut_to(s, n) == s,
        more.len() > 0 ==> cut_to(s + more, n) == s.push('…'),
{
    if more.len() > 0 {
        assert((s + more).take(n) =~= s);
    }
}

/// A line feed becomes a space; everything else stays.
pub proof fn law_flattening_joins_lines(a: Seq<char>, b: Seq<char>)
    requires
        !a.contains('\n'),
    ensures
        flattened(a) == a,
        flattened(a + seq!['\n'] + b) == a + seq![' '] + flattened(b),
{
    assert forall|i: int| 0 <= i < a.len() implies a[i] != '\n' by {
        if a[i] == '\n' {
            assert(a.contains(a[i]));
        }
    }
    assert(flattened(a) =~= a);
    assert(flattened(a + seq!['\n'] + b) =~= a + seq![' '] + flattened(b));
}

} // verus!
