//! Names and values, each name once, in the order of the names.
use crate::query::{pair_texts, PairTexts};
use crate::text::{chars_of, same_text};
use vstd::prelude::*;

verus! {

/// Whether `a` comes before `b` in a dictionary.
pub open spec fn text_less(a: Seq<char>, b: Seq<char>) -> bool
    decreases a.len(),
{
    if b.len() == 0 {
        false
    } else if a.len() == 0 {
        true
    } else if a[0] != b[0] {
        a[0] < b[0]
    } else {
        text_less(a.drop_first(), b.drop_first())
    }
}

/// Of two texts that differ, one comes before the other.
proof fn lemma_text_less_total(a: Seq<char>, b: Seq<char>)
    ensures
        a == b || text_less(a, b) || text_less(b, a),
    decreases a.len(),
{
    if a.len() > 0 && b.len() > 0 && a[0] == b[0] {
        lemma_text_less_total(a.drop_first(), b.drop_first());
        if a.drop_first() == b.drop_first() {
            assert(a =~= seq![a[0]] + a.drop_first());
            assert(b =~= seq![b[0]] + b.drop_first());
        }
    } else if a.len() == 0 && b.len() == 0 {
        assert(a =~= b);
    }
}

/// No text comes before itself.
pub proof fn lemma_text_less_irreflexive(a: Seq<char>)
    ensures
        !text_less(a, a),
    decreases a.len(),
{
    if a.len() > 0 {
        lemma_text_less_irreflexive(a.drop_first());
    }
}

proof fn lemma_text_less_transitive(a: Seq<char>, b: Seq<char>, c: Seq<char>)
    requires
        text_less(a, b),
        text_less(b, c),
    ensures
        text_less(a, c),
    decreases a.len(),
{
    if a.len() > 0 && a[0] == b[0] && b[0] == c[0] {
        lemma_text_less_transitive(a.drop_first(), b.drop_first(), c.drop_first());
    }
}

/// Whether `a` comes before `b` in a dictionary.
fn less(a: &str, b: &str) -> (r: bool)
    ensures
        r == text_less(a@, b@),
{
    let x: Vec<char> = chars_of(a);
    let y: Vec<char> = chars_of(b);
    let n: usize = x.len();
    let m: usize = y.len();
    let mut i: usize = 0;
    assert(x@.skip(0) =~= x@);
    assert(y@.skip(0) =~= y@);
    while i < n && i < m && x[i] == y[i]
        invariant
            n == x@.len(),
            m == y@.len(),
            i <= n,
            i <= m,
            text_less(x@, y@) == text_less(x@.skip(i as int), y@.skip(i as int)),
        decreases n - i,
    {
        assert(x@.skip(i as int).drop_first() =~= x@.skip(i + 1));
        assert(y@.skip(i as int).drop_first() =~= y@.skip(i + 1));
        i = i + 1;
    }
    if i >= m {
        false
    } else if i >= n {
        true
    } else {
        x[i] < y[i]
    }
}

/// The value that the last pair with a name gives it.
pub open spec fn lookup(pairs: PairTexts, name: Seq<char>) -> Option<Seq<char>>
    decreases pairs.len(),
{
    if pairs.len() == 0 {
        None
    } else if pairs.last().0 == name {
        Some(pairs.last().1)
    } else {
        lookup(pairs.drop_last(), name)
    }
}

/// Whether the names stand in order, each of them once.
pub open spec fn is_ordered(pairs: PairTexts) -> bool {
    forall|i: int, j: int| 0 <= i < j < pairs.len() ==> text_less(#[trigger] pairs[i].0, #[trigger] pairs[j].0)
}

/// A pair between others decides for its name, where none behind it has that name.
proof fn lemma_lookup_between(
    left: PairTexts,
    pair: (Seq<char>, Seq<char>),
    right: PairTexts,
    name: Seq<char>,
)
    requires
        forall|i: int| 0 <= i < right.len() ==> (#[trigger] right[i]).0 != pair.0,
    ensures
        lookup(left.push(pair) + right, name) == (if name == pair.0 {
            Some(pair.1)
        } else {
            lookup(left + right, name)
        }),
    decreases right.len(),
{
    let all = left.push(pair) + right;
    let rest = left + right;
    if right.len() == 0 {
        assert(all =~= left.push(pair));
        assert(rest =~= left);
        assert(left.push(pair).drop_last() =~= left);
    } else {
        assert(all.drop_last() =~= left.push(pair) + right.drop_last());
        assert(rest.drop_last() =~= left + right.drop_last());
        assert(all.last() == right.last() && rest.last() == right.last());
        lemma_lookup_between(left, pair, right.drop_last(), name);
    }
}

/// Gives a name a value, in place of one that it may have.
pub fn insert(pairs: Vec<(String, String)>, name: String, value: String) -> (r: Vec<(String, String)>)
    requires
        is_ordered(pair_texts(pairs@)),
    ensures
        is_ordered(pair_texts(r@)),
        forall|other: Seq<char>|
            lookup(pair_texts(r@), other) == (if other == name@ {
                Some(value@)
            } else {
                lookup(pair_texts(pairs@), other)
            }),
{
    let ghost old_pairs = pair_texts(pairs@);
    let ghost new_pair = (name@, value@);
    let mut pairs: Vec<(String, String)> = pairs;
    let n: usize = pairs.len();
    let mut i: usize = 0;
    while i < n && less(pairs[i].0.as_str(), name.as_str())
        invariant
            n == pairs@.len(),
            old_pairs == pair_texts(pairs@),
            i <= n,
            forall|j: int| 0 <= j < i ==> text_less((#[trigger] old_pairs[j]).0, name@),
        decreases n - i,
    {
        assert(old_pairs[i as int].0 == pairs@[i as int].0@);
        i = i + 1;
    }
    let replaces: bool = i < n && same_text(pairs[i].0.as_str(), name.as_str());
    let ghost left = old_pairs.take(i as int);
    let ghost right = if replaces {
        old_pairs.skip(i + 1)
    } else {
        old_pairs.skip(i as int)
    };
    proof {
        if i < n {
            assert(old_pairs[i as int].0 == pairs@[i as int].0@);
            lemma_text_less_total(old_pairs[i as int].0, name@);
        }
        assert forall|j: int| 0 <= j < right.len() implies text_less(name@, (#[trigger] right[j]).0) by {
            if replaces {
                assert(right[j] == old_pairs[i + 1 + j]);
                assert(text_less(old_pairs[i as int].0, old_pairs[i + 1 + j].0));
            } else {
                assert(right[j] == old_pairs[i + j]);
                if j > 0 {
                    assert(text_less(old_pairs[i as int].0, old_pairs[i + j].0));
                    lemma_text_less_transitive(name@, old_pairs[i as int].0, old_pairs[i + j].0);
                }
            }
        }
        assert forall|j: int| 0 <= j < right.len() implies (#[trigger] right[j]).0 != name@ by {
            lemma_text_less_irreflexive(name@);
        }
    }
    if replaces {
        pairs.remove(i);
    }
    assert(pair_texts(pairs@) =~= left + right);
    pairs.insert(i, (name, value));
    let ghost all = pair_texts(pairs@);
    proof {
        assert(all =~= left.push(new_pair) + right);
        assert forall|a: int, b: int| 0 <= a < b < all.len() implies text_less(
            #[trigger] all[a].0,
            #[trigger] all[b].0,
        ) by {
            if a < i {
                assert(all[a] == old_pairs[a]);
                if b > i {
                    assert(all[b] == right[b - i - 1]);
                    lemma_text_less_transitive(all[a].0, name@, all[b].0);
                }
            } else if a == i {
                assert(all[b] == right[b - i - 1]);
            } else {
                assert(all[a] == right[a - i - 1] && all[b] == right[b - i - 1]);
            }
        }
        assert forall|other: Seq<char>|
            lookup(all, other) == (if other == new_pair.0 {
                Some(new_pair.1)
            } else {
                lookup(old_pairs, other)
            }) by {
            lemma_lookup_between(left, new_pair, right, other);
            if replaces {
                let old_pair = old_pairs[i as int];
                assert(old_pair.0 == name@);
                assert(old_pairs =~= left.push(old_pair) + right);
                lemma_lookup_between(left, old_pair, right, other);
            } else {
                assert(old_pairs =~= left + right);
            }
        }
    }
    pairs
}

/// Two ordered lists that give the same names the same values are the same.
pub proof fn law_order_is_unique(a: PairTexts, b: PairTexts)
    requires
        is_ordered(a),
        is_ordered(b),
        forall|name: Seq<char>| lookup(a, name) == lookup(b, name),
    ensures
        a == b,
    decreases a.len(),
{
    if a.len() == 0 {
        if b.len() > 0 {
            assert(lookup(b, b.last().0) is Some);
            assert(lookup(a, b.last().0) is None);
        }
        assert(a =~= b);
    } else if b.len() == 0 {
        assert(lookup(a, a.last().0) is Some);
        assert(lookup(b, a.last().0) is None);
    } else {
        let x = a.last();
        let y = b.last();
        assert(lookup(a, x.0) == Some(x.1));
        assert(lookup(b, y.0) == Some(y.1));
        lemma_lookup_found(b, x.0);
        lemma_lookup_found(a, y.0);
        lemma_text_less_irreflexive(x.0);
        let i = choose|i: int| 0 <= i < b.len() && (#[trigger] b[i]).0 == x.0;
        let j = choose|j: int| 0 <= j < a.len() && (#[trigger] a[j]).0 == y.0;
        if x.0 != y.0 {
            assert(i < b.len() - 1 && j < a.len() - 1);
            assert(text_less(b[i].0, b[b.len() - 1].0));
            assert(text_less(a[j].0, a[a.len() - 1].0));
            lemma_text_less_transitive(x.0, y.0, x.0);
        }
        assert(x == y);
        let c = a.drop_last();
        let d = b.drop_last();
        assert forall|name: Seq<char>| lookup(c, name) == lookup(d, name) by {
            assert(lookup(a, name) == lookup(b, name));
            if name == x.0 {
                lemma_lookup_missing(c, name);
                lemma_lookup_missing(d, name);
                assert forall|k: int| 0 <= k < c.len() implies (#[trigger] c[k]).0 != name by {
                    assert(text_less(a[k].0, a[a.len() - 1].0));
                }
                assert forall|k: int| 0 <= k < d.len() implies (#[trigger] d[k]).0 != name by {
                    assert(text_less(b[k].0, b[b.len() - 1].0));
                }
            }
        }
        law_order_is_unique(c, d);
        assert(a =~= c.push(x));
        assert(b =~= d.push(y));
    }
}

/// A name that has a value stands in the list.
pub proof fn lemma_lookup_found(pairs: PairTexts, name: Seq<char>)
    ensures
        lookup(pairs, name) is Some ==> exists|i: int|
            0 <= i < pairs.len() && (#[trigger] pairs[i]).0 == name,
    decreases pairs.len(),
{
    if pairs.len() > 0 {
        if pairs.last().0 == name {
            assert(pairs[pairs.len() - 1].0 == name);
        } else {
            lemma_lookup_found(pairs.drop_last(), name);
            if lookup(pairs, name) is Some {
                let i = choose|i: int|
                    0 <= i < pairs.drop_last().len() && (#[trigger] pairs.drop_last()[i]).0 == name;
                assert(pairs[i].0 == name);
            }
        }
    }
}

/// A name that stands nowhere in the list has no value.
pub proof fn lemma_lookup_missing(pairs: PairTexts, name: Seq<char>)
    ensures
        (forall|i: int| 0 <= i < pairs.len() ==> (#[trigger] pairs[i]).0 != name) ==> lookup(
            pairs,
            name,
        ) is None,
    decreases pairs.len(),
{
    if pairs.len() > 0 {
        lemma_lookup_missing(pairs.drop_last(), name);
        if forall|i: int| 0 <= i < pairs.len() ==> (#[trigger] pairs[i]).0 != name {
            assert(pairs[pairs.len() - 1].0 != name);
            assert forall|i: int| 0 <= i < pairs.drop_last().len() implies (
            #[trigger] pairs.drop_last()[i]).0 != name by {
                assert(pairs[i].0 != name);
            }
        }
    }
}

/// A name that stands in the list has the value of the last place where it stands.
pub proof fn lemma_lookup_last(pairs: PairTexts, k: int)
    requires
        0 <= k < pairs.len(),
        forall|i: int| k < i < pairs.len() ==> (#[trigger] pairs[i]).0 != pairs[k].0,
    ensures
        lookup(pairs, pairs[k].0) == Some(pairs[k].1),
    decreases pairs.len(),
{
    if k < pairs.len() - 1 {
        let front = pairs.drop_last();
        assert(pairs[pairs.len() - 1].0 != pairs[k].0);
        assert forall|i: int| k < i < front.len() implies (#[trigger] front[i]).0 != front[k].0 by {
            assert(pairs[i].0 != pairs[k].0);
        }
        lemma_lookup_last(front, k);
    }
}

/// A value that is found was given by a pair with that name, and no later pair has that name.
pub proof fn lemma_lookup_is_last(pairs: PairTexts, name: Seq<char>)
    ensures
        lookup(pairs, name) matches Some(value) ==> exists|k: int|
            0 <= k < pairs.len() && pairs[k] == (name, value) && forall|i: int|
                k < i < pairs.len() ==> (#[trigger] pairs[i]).0 != name,
    decreases pairs.len(),
{
    if pairs.len() > 0 {
        let n = pairs.len() - 1;
        if pairs.last().0 == name {
            assert(pairs[n] == (name, pairs.last().1));
        } else {
            let front = pairs.drop_last();
            lemma_lookup_is_last(front, name);
            if let Some(value) = lookup(pairs, name) {
                let k = choose|k: int|
                    0 <= k < front.len() && front[k] == (name, value) && forall|i: int|
                        k < i < front.len() ==> (#[trigger] front[i]).0 != name;
                assert(pairs[k] == (name, value));
                assert forall|i: int| k < i < pairs.len() implies (#[trigger] pairs[i]).0 != name by {
                    if i < n {
                        assert(front[i].0 != name);
                    }
                }
            }
        }
    }
}

/// A name that stands in the list has a value.
pub proof fn lemma_lookup_present(pairs: PairTexts, i: int)
    requires
        0 <= i < pairs.len(),
    ensures
        lookup(pairs, pairs[i].0) is Some,
    decreases pairs.len(),
{
    if pairs.last().0 != pairs[i].0 {
        lemma_lookup_present(pairs.drop_last(), i);
    }
}

} // verus!
