//! The order in which a room's members are listed: by display name, ignoring
//! case.

use vstd::prelude::*;

use crate::events::RoomMember;
use crate::text;

verus! {

/// Whether a text is at most another, by their characters from left to right.
pub open spec fn at_most(a: Seq<char>, b: Seq<char>) -> bool
    decreases a.len(),
{
    if a.len() == 0 {
        true
    } else if b.len() == 0 {
        false
    } else if a[0] == b[0] {
        at_most(a.skip(1), b.skip(1))
    } else {
        a[0] < b[0]
    }
}

/// What a member is listed by.
pub open spec fn sort_key(m: RoomMember) -> Seq<char> {
    text::lowered(m.display_name@)
}

/// Those of some members that are listed by the key, in order.
pub open spec fn with_key(ms: Seq<RoomMember>, key: Seq<char>) -> Seq<RoomMember>
    decreases ms.len(),
{
    if ms.len() == 0 {
        Seq::empty()
    } else {
        let before = with_key(ms.drop_last(), key);
        if sort_key(ms.last()) == key {
            before.push(ms.last())
        } else {
            before
        }
    }
}

/// Whether some members are in order.
pub open spec fn in_order(ms: Seq<RoomMember>) -> bool {
    forall|i: int, j: int|
        0 <= i < j < ms.len() ==> at_most(sort_key(#[trigger] ms[i]), sort_key(#[trigger] ms[j]))
}

/// Whether some members are others in order: the same ones, and those that
/// are listed by the same key as they were.
pub open spec fn sorted_from(sorted: Seq<RoomMember>, ms: Seq<RoomMember>) -> bool {
    &&& in_order(sorted)
    &&& forall|key: Seq<char>| #[trigger] with_key(sorted, key) == with_key(ms, key)
}

/// The keys of some members.
pub open spec fn are_keys(keys: Seq<String>, ms: Seq<RoomMember>) -> bool {
    &&& keys.len() == ms.len()
    &&& forall|i: int| 0 <= i < keys.len() ==> (#[trigger] keys[i])@ == sort_key(ms[i])
}

/// Of two texts one is at most the other.
proof fn lemma_total(a: Seq<char>, b: Seq<char>)
    ensures
        at_most(a, b) || at_most(b, a),
    decreases a.len(),
{
    if a.len() > 0 && b.len() > 0 && a[0] == b[0] {
        lemma_total(a.skip(1), b.skip(1));
    }
}

/// The order is transitive.
proof fn lemma_transitive(a: Seq<char>, b: Seq<char>, c: Seq<char>)
    requires
        at_most(a, b),
        at_most(b, c),
    ensures
        at_most(a, c),
    decreases a.len(),
{
    if a.len() > 0 && a[0] == b[0] && b[0] == c[0] {
        lemma_transitive(a.skip(1), b.skip(1), c.skip(1));
    }
}

/// Texts that are at most each other are equal.
proof fn lemma_antisymmetric(a: Seq<char>, b: Seq<char>)
    requires
        at_most(a, b),
        at_most(b, a),
    ensures
        a == b,
    decreases a.len(),
{
    if a.len() > 0 {
        lemma_antisymmetric(a.skip(1), b.skip(1));
        assert(a =~= seq![a[0]] + a.skip(1));
        assert(b =~= seq![b[0]] + b.skip(1));
    } else {
        assert(b.len() == 0);
        assert(a =~= b);
    }
}

/// Those of two lists, one behind the other.
proof fn lemma_with_key_concat(a: Seq<RoomMember>, b: Seq<RoomMember>, key: Seq<char>)
    ensures
        with_key(a + b, key) == with_key(a, key) + with_key(b, key),
    decreases b.len(),
{
    if b.len() == 0 {
        assert(a + b =~= a);
        assert(with_key(a, key) + with_key(b, key) =~= with_key(a, key));
    } else {
        lemma_with_key_concat(a, b.drop_last(), key);
        assert((a + b).drop_last() =~= a + b.drop_last());
        assert((a + b).last() == b.last());
        let x = with_key(a, key);
        let y = with_key(b.drop_last(), key);
        assert(x + y.push(b.last()) =~= (x + y).push(b.last()));
    }
}

/// None of a list where no one has the key.
proof fn lemma_without_key(a: Seq<RoomMember>, key: Seq<char>)
    requires
        forall|i: int| 0 <= i < a.len() ==> sort_key(#[trigger] a[i]) != key,
    ensures
        with_key(a, key).len() == 0,
    decreases a.len(),
{
    if a.len() > 0 {
        lemma_without_key(a.drop_last(), key);
    }
}

/// Whether a text is at most another.
fn is_at_most(a: &str, b: &str) -> (r: bool)
    ensures
        r == at_most(a@, b@),
{
    let x = text::chars(a);
    let y = text::chars(b);
    let mut i: usize = 0;
    assert(a@.skip(0) =~= a@);
    assert(b@.skip(0) =~= b@);
    while i < x.len() && i < y.len()
        invariant
            x@ == a@,
            y@ == b@,
            i <= x@.len(),
            i <= y@.len(),
            at_most(a@, b@) == at_most(a@.skip(i as int), b@.skip(i as int)),
        decreases x@.len() - i,
    {
        assert(a@.skip(i as int)[0] == a@[i as int]);
        assert(b@.skip(i as int)[0] == b@[i as int]);
        if x[i] != y[i] {
            return x[i] < y[i];
        }
        assert(a@.skip(i as int).skip(1) =~= a@.skip(i + 1));
        assert(b@.skip(i as int).skip(1) =~= b@.skip(i + 1));
        i = i + 1;
    }
    i >= x.len()
}

/// Where a member goes: behind all that are listed by at most the key.
fn place_for(keys: &Vec<String>, key: &str, Ghost(ms): Ghost<Seq<RoomMember>>) -> (p: usize)
    requires
        are_keys(keys@, ms),
        in_order(ms),
    ensures
        p <= ms.len(),
        forall|i: int| 0 <= i < p ==> at_most(sort_key(#[trigger] ms[i]), key@),
        forall|i: int| p <= i < ms.len() ==> !at_most(sort_key(#[trigger] ms[i]), key@),
{
    let mut low: usize = 0;
    let mut high: usize = keys.len();
    while low < high
        invariant
            are_keys(keys@, ms),
            in_order(ms),
            low <= high <= ms.len(),
            forall|i: int| 0 <= i < low ==> at_most(sort_key(#[trigger] ms[i]), key@),
            forall|i: int| high <= i < ms.len() ==> !at_most(sort_key(#[trigger] ms[i]), key@),
        decreases high - low,
    {
        let mid: usize = low + (high - low) / 2;
        assert(keys@[mid as int]@ == sort_key(ms[mid as int]));
        if is_at_most(keys[mid].as_str(), key) {
            assert forall|i: int| 0 <= i < mid + 1 implies at_most(
                sort_key(#[trigger] ms[i]),
                key@,
            ) by {
                if i < mid {
                    assert(at_most(sort_key(ms[i]), sort_key(ms[mid as int])));
                    lemma_transitive(sort_key(ms[i]), sort_key(ms[mid as int]), key@);
                }
            }
            low = mid + 1;
        } else {
            assert forall|i: int| mid <= i < ms.len() implies !at_most(
                sort_key(#[trigger] ms[i]),
                key@,
            ) by {
                if i > mid && at_most(sort_key(ms[i]), key@) {
                    assert(at_most(sort_key(ms[mid as int]), sort_key(ms[i])));
                    lemma_transitive(sort_key(ms[mid as int]), sort_key(ms[i]), key@);
                }
            }
            high = mid;
        }
    }
    low
}

/// A member that is put in its place leaves the list in order, with everyone
/// in it.
proof fn lemma_insert(ms: Seq<RoomMember>, m: RoomMember, p: int)
    requires
        in_order(ms),
        0 <= p <= ms.len(),
        forall|i: int| 0 <= i < p ==> at_most(sort_key(#[trigger] ms[i]), sort_key(m)),
        forall|i: int| p <= i < ms.len() ==> !at_most(sort_key(#[trigger] ms[i]), sort_key(m)),
    ensures
        in_order(ms.insert(p, m)),
        forall|key: Seq<char>| #[trigger]
            with_key(ms.insert(p, m), key) == if key == sort_key(m) {
                with_key(ms, key).push(m)
            } else {
                with_key(ms, key)
            },
{
    let all = ms.insert(p, m);
    assert forall|i: int, j: int| 0 <= i < j < all.len() implies at_most(
        sort_key(#[trigger] all[i]),
        sort_key(#[trigger] all[j]),
    ) by {
        if i < p && j < p {
            assert(all[i] == ms[i] && all[j] == ms[j]);
        } else if i < p && j == p {
            assert(all[i] == ms[i]);
        } else if i < p {
            assert(all[i] == ms[i] && all[j] == ms[j - 1]);
        } else if i == p {
            assert(all[j] == ms[j - 1]);
            lemma_total(sort_key(ms[j - 1]), sort_key(m));
        } else {
            assert(all[i] == ms[i - 1] && all[j] == ms[j - 1]);
        }
    }
    assert forall|key: Seq<char>| #[trigger]
        with_key(all, key) == if key == sort_key(m) {
            with_key(ms, key).push(m)
        } else {
            with_key(ms, key)
        } by {
        let a = ms.take(p);
        let b = ms.skip(p);
        assert(ms =~= a + b);
        assert(all =~= a + (seq![m] + b));
        lemma_with_key_concat(a, b, key);
        lemma_with_key_concat(a, seq![m] + b, key);
        lemma_with_key_concat(seq![m], b, key);
        assert(seq![m].drop_last() =~= Seq::<RoomMember>::empty());
        assert(with_key(seq![m].drop_last(), key).len() == 0);
        if key == sort_key(m) {
            assert forall|i: int| 0 <= i < b.len() implies sort_key(#[trigger] b[i]) != key by {
                assert(b[i] == ms[p + i]);
                if sort_key(b[i]) == key {
                    lemma_total(key, key);
                }
            }
            lemma_without_key(b, key);
            assert(with_key(seq![m], key) =~= seq![m]);
            assert(with_key(a, key) + (seq![m] + with_key(b, key)) =~= (with_key(a, key) + with_key(
                b,
                key,
            )).push(m));
        } else {
            assert(with_key(seq![m], key) =~= Seq::<RoomMember>::empty());
            assert(Seq::<RoomMember>::empty() + with_key(b, key) =~= with_key(b, key));
        }
    }
}

/// The members by display name, ignoring case, and what each is listed by.
/// Members of one name stay in the order that they came in.
pub fn sort_members(members: &Vec<RoomMember>) -> (r: (Vec<RoomMember>, Vec<String>))
    ensures
        sorted_from(r.0@, members@),
        are_keys(r.1@, r.0@),
{
    let mut sorted: Vec<RoomMember> = Vec::new();
    let mut keys: Vec<String> = Vec::new();
    let mut i: usize = 0;
    assert(members@.take(0) =~= sorted@);
    while i < members.len()
        invariant
            i <= members@.len(),
            sorted_from(sorted@, members@.take(i as int)),
            are_keys(keys@, sorted@),
        decreases members@.len() - i,
    {
        let key = members[i].display_name.as_str().to_lowercase();
        let p: usize = place_for(&keys, key.as_str(), Ghost(sorted@));
        let m = members[i].copy();
        let ghost before = sorted@;
        let ghost m0 = m;
        let ghost k0 = keys@;
        proof {
            lemma_insert(before, m, p as int);
        }
        sorted.insert(p, m);
        keys.insert(p, key);
        proof {
            assert(sorted@ =~= before.insert(p as int, m0));
            let now = members@.take(i + 1);
            assert(now.drop_last() =~= members@.take(i as int));
            assert(now.last() == m0);
            assert forall|q: Seq<char>| #[trigger] with_key(sorted@, q) == with_key(now, q) by {
                assert(with_key(before, q) == with_key(members@.take(i as int), q));
            }
            assert forall|k: int| 0 <= k < keys@.len() implies (#[trigger] keys@[k])@ == sort_key(
                sorted@[k],
            ) by {
                if k < p {
                    assert(keys@[k] == k0[k]);
                } else if k > p {
                    assert(keys@[k] == k0[k - 1]);
                }
            }
        }
        i = i + 1;
    }
    assert(members@.take(members@.len() as int) =~= members@);
    (sorted, keys)
}

// ---------------------------------------------------------------------------
// Laws.
// ---------------------------------------------------------------------------
/// Only equal texts are at most each other, of any two one is at most the
/// other, and the order is transitive: members have one order, but for those
/// of one name.
pub proof fn law_names_are_ordered(a: Seq<char>, b: Seq<char>, c: Seq<char>)
    ensures
        at_most(a, b) || at_most(b, a),
        at_most(a, b) && at_most(b, a) ==> a == b,
        at_most(a, b) && at_most(b, c) ==> at_most(a, c),
{
    lemma_total(a, b);
    if at_most(a, b) && at_most(b, a) {
        lemma_antisymmetric(a, b);
    }
    if at_most(a, b) && at_most(b, c) {
        lemma_transitive(a, b, c);
    }
}

proof fn lemma_with_key_contains(ms: Seq<RoomMember>, key: Seq<char>, m: RoomMember)
    ensures
        with_key(ms, key).contains(m) == (ms.contains(m) && sort_key(m) == key),
    decreases ms.len(),
{
    if ms.len() > 0 {
        let front = ms.drop_last();
        let last = ms.last();
        lemma_with_key_contains(front, key, m);
        let before = with_key(front, key);
        let all = with_key(ms, key);
        assert(ms =~= front.push(last));
        if ms.contains(m) {
            let k = choose|k: int| 0 <= k < ms.len() && ms[k] == m;
            if k < front.len() {
                assert(front[k] == m);
            }
        }
        if front.contains(m) {
            let k = choose|k: int| 0 <= k < front.len() && front[k] == m;
            assert(ms[k] == m);
        }
        if last == m {
            assert(ms[ms.len() - 1] == m);
        }
        if sort_key(last) == key {
            if before.contains(m) {
                let k = choose|k: int| 0 <= k < before.len() && before[k] == m;
                assert(all[k] == m);
            }
            if last == m {
                assert(all[before.len() as int] == m);
            }
            if all.contains(m) {
                let k = choose|k: int| 0 <= k < all.len() && all[k] == m;
                if k < before.len() {
                    assert(before[k] == m);
                }
            }
        }
    }
}

/// Members are listed by their display names in lower case, and everyone who
/// was a member still is one.
pub proof fn law_members_are_listed_by_name(
    sorted: Seq<RoomMember>,
    ms: Seq<RoomMember>,
    m: RoomMember,
    i: int,
    j: int,
)
    requires
        sorted_from(sorted, ms),
    ensures
        sorted.contains(m) == ms.contains(m),
        0 <= i < j < sorted.len() ==> at_most(
            text::lowered(sorted[i].display_name@),
            text::lowered(sorted[j].display_name@),
        ),
{
    let key = sort_key(m);
    assert(with_key(sorted, key) == with_key(ms, key));
    lemma_with_key_contains(sorted, key, m);
    lemma_with_key_contains(ms, key, m);
    if 0 <= i < j < sorted.len() {
        assert(at_most(sort_key(sorted[i]), sort_key(sorted[j])));
    }
}

/// The order goes by the first character in which two names differ; a name
/// comes before its continuations.
pub proof fn law_names_differ_at_their_first_difference(
    p: Seq<char>,
    a: char,
    x: Seq<char>,
    b: char,
    y: Seq<char>,
)
    requires
        a < b,
    ensures
        at_most(p + seq![a] + x, p + seq![b] + y),
        !at_most(p + seq![b] + y, p + seq![a] + x),
        at_most(p, p + seq![b] + y),
    decreases p.len(),
{
    let s = p + seq![a] + x;
    let t = p + seq![b] + y;
    if p.len() > 0 {
        let q = p.skip(1);
        law_names_differ_at_their_first_difference(q, a, x, b, y);
        assert(s.skip(1) =~= q + seq![a] + x);
        assert(t.skip(1) =~= q + seq![b] + y);
        assert(s[0] == p[0] && t[0] == p[0]);
    } else {
        assert(s[0] == a && t[0] == b);
    }
}

} // verus!
