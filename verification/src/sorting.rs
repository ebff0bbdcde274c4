//! The order of texts by their characters, and sorting by it.
use vstd::prelude::*;

use crate::text;
use crate::text::to_chars;

verus! {

/// Whether `a` stands before `b` from position `i` on: by the first character
/// in which they differ, the shorter one first.
pub open spec fn before_from(a: Seq<char>, b: Seq<char>, i: int) -> bool
    decreases b.len() - i,
{
    if i < 0 || i >= b.len() {
        false
    } else if i >= a.len() {
        true
    } else if a[i] != b[i] {
        a[i] < b[i]
    } else {
        before_from(a, b, i + 1)
    }
}

/// Whether `a` stands before `b` in the order of their characters.
pub open spec fn before(a: Seq<char>, b: Seq<char>) -> bool {
    before_from(a, b, 0)
}

/// Computes [`before`].
pub fn is_before(a: &[char], b: &[char]) -> (r: bool)
    ensures
        r == before(a@, b@),
{
    let mut i: usize = 0;
    while i < b.len()
        invariant
            i <= b.len(),
            before(a@, b@) == before_from(a@, b@, i as int),
        decreases b.len() - i,
    {
        if i >= a.len() {
            return true;
        }
        if a[i] != b[i] {
            return a[i] < b[i];
        }
        i = i + 1;
    }
    false
}

/// The position after the names, from `i` on, that do not stand before a name.
pub open spec fn place(sorted: Seq<Seq<char>>, name: Seq<char>, i: int) -> int
    decreases sorted.len() - i,
{
    if 0 <= i < sorted.len() && !before(sorted[i], name) {
        place(sorted, name, i + 1)
    } else {
        i
    }
}

/// The order is transitive, and no two texts stand before each other.
pub proof fn lemma_before_trans(a: Seq<char>, b: Seq<char>, c: Seq<char>, i: int)
    requires
        0 <= i,
    ensures
        !before_from(a, b, i) && !before_from(b, c, i) ==> !before_from(a, c, i),
        before_from(a, b, i) ==> !before_from(b, a, i),
    decreases a.len() + b.len() + c.len() - i,
{
    if i < a.len() || i < b.len() || i < c.len() {
        lemma_before_trans(a, b, c, i + 1);
    }
}

/// What stands before a place does not stand before the name in the order; what
/// stands there does.
pub proof fn lemma_place(s: Seq<Seq<char>>, name: Seq<char>, i: int)
    requires
        0 <= i <= s.len(),
    ensures
        i <= place(s, name, i) <= s.len(),
        forall|k: int| i <= k < place(s, name, i) ==> !before(#[trigger] s[k], name),
        place(s, name, i) < s.len() ==> before(s[place(s, name, i)], name),
    decreases s.len() - i,
{
    if i < s.len() && !before(s[i], name) {
        lemma_place(s, name, i + 1);
    }
}

/// Whether a list of texts is in order.
pub open spec fn in_order(v: Seq<Seq<char>>) -> bool {
    forall|i: int, j: int| 0 <= i <= j < v.len() ==> !before(#[trigger] v[j], #[trigger] v[i])
}

pub proof fn lemma_insert<A>(s: Seq<A>, p: int, x: A)
    requires
        0 <= p <= s.len(),
    ensures
        s.insert(p, x).to_multiset() == s.to_multiset().insert(x),
{
    let t = s.insert(p, x);
    t.to_multiset_ensures();
    assert(t.remove(p) =~= s);
    assert(t[p] == x);
    assert(t.contains(x));
    assert(t.to_multiset().count(x) > 0);
    assert(t.remove(p).to_multiset() =~= t.to_multiset().remove(t[p]));
    assert(t.to_multiset() =~= s.to_multiset().insert(x));
}

/// A list in the order of its texts.
pub fn sorted_strings(names: &Vec<String>) -> (r: Vec<String>)
    ensures
        in_order(text::views(r@)),
        r@.to_multiset() == names@.to_multiset(),
{
    let mut out: Vec<String> = Vec::new();
    let mut i: usize = 0;
    assert(names@.take(0) =~= Seq::<String>::empty());
    assert(out@ =~= Seq::<String>::empty());
    while i < names.len()
        invariant
            i <= names.len(),
            in_order(text::views(out@)),
            out@.to_multiset() == names@.take(i as int).to_multiset(),
        decreases names.len() - i,
    {
        let chars = to_chars(names[i].as_str());
        let ghost x = names@[i as int]@;
        let ghost v = text::views(out@);
        let mut p: usize = 0;
        let mut going = true;
        while going && p < out.len()
            invariant
                p <= out.len(),
                v == text::views(out@),
                chars@ == x,
                forall|k: int| 0 <= k < p ==> !before(x, #[trigger] v[k]),
                !going ==> p < out.len() && before(x, v[p as int]),
            decreases out.len() - p,
                (if going {
                    1int
                } else {
                    0int
                }),
        {
            assert(v[p as int] == out@[p as int]@);
            let other = to_chars(out[p].as_str());
            if is_before(&chars, &other) {
                going = false;
            } else {
                p = p + 1;
            }
        }
        let ghost old_out = out@;
        let copy = names[i].clone();
        out.insert(p, copy);
        proof {
            let t = text::views(out@);
            assert(t =~= v.insert(p as int, x));
            assert forall|a: int, b: int| 0 <= a <= b < t.len() implies !before(
                #[trigger] t[b],
                #[trigger] t[a],
            ) by {
                lemma_before_trans(x, x, x, 0);
                if a < p && b > p {
                    assert(!before(v[b - 1], v[a]));
                } else if a == p && b > p {
                    assert(!before(v[b - 1], v[p as int]));
                    lemma_before_trans(x, v[p as int], x, 0);
                    lemma_before_trans(v[b - 1], v[p as int], x, 0);
                } else if a < p && b < p {
                    assert(!before(v[b], v[a]));
                } else if a > p {
                    assert(!before(v[b - 1], v[a - 1]));
                }
            }
            lemma_insert(old_out, p as int, names@[i as int]);
            names@.take(i as int).to_multiset_ensures();
            assert(names@.take(i + 1) =~= names@.take(i as int).push(names@[i as int]));
        }
        i = i + 1;
    }
    assert(names@.take(names@.len() as int) =~= names@);
    out
}

/// Texts stand in the order of a dictionary: a text before every longer one that
/// begins with it, and of two that differ the one with the smaller character where
/// they first do; none before itself.
pub proof fn law_dictionary_order(p: Seq<char>, a: Seq<char>, b: Seq<char>)
    ensures
        a.len() > 0 ==> before(p, p + a),
        a.len() > 0 && b.len() > 0 && a[0] != b[0] ==> (before(p + a, p + b) <==> a[0] < b[0]),
        !before(p, p),
        !before(p + a, p),
{
    lemma_common_start(p, p, p + a, 0);
    lemma_common_start(p, p + a, p + b, 0);
    lemma_common_start(p, p, p, 0);
    lemma_common_start(p, p + a, p, 0);
    let n = p.len() as int;
    if a.len() > 0 && b.len() > 0 {
        assert((p + a)[n] == a[0] && (p + b)[n] == b[0]);
    }
}

proof fn lemma_common_start(p: Seq<char>, x: Seq<char>, y: Seq<char>, i: int)
    requires
        0 <= i <= p.len(),
        x.len() >= p.len(),
        y.len() >= p.len(),
        forall|k: int| 0 <= k < p.len() ==> x[k] == p[k] && y[k] == p[k],
    ensures
        before_from(x, y, i) == before_from(x, y, p.len() as int),
    decreases p.len() - i,
{
    if i < p.len() {
        lemma_common_start(p, x, y, i + 1);
    }
}

} // verus!
