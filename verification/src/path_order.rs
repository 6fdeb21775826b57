//! The order in which files found under a directory are taken: by their
//! path text, as `str` comparison orders it (by code point, a prefix
//! first), equal texts keeping the order in which they were found.
use vstd::prelude::*;

use crate::text::chars_of;

verus! {

/// `a` comes no later than `b` when both are compared from position `i` on.
pub open spec fn text_le_from(a: Seq<char>, b: Seq<char>, i: int) -> bool
    decreases a.len() - i,
{
    if i >= a.len() {
        true
    } else if i >= b.len() {
        false
    } else if (a[i] as u32) != (b[i] as u32) {
        (a[i] as u32) < (b[i] as u32)
    } else {
        text_le_from(a, b, i + 1)
    }
}

/// `a` comes no later than `b` in the order of `str` comparison.
pub open spec fn text_le(a: Seq<char>, b: Seq<char>) -> bool {
    text_le_from(a, b, 0)
}

pub proof fn lemma_text_le_reflexive(a: Seq<char>, i: int)
    requires
        0 <= i,
    ensures
        text_le_from(a, a, i),
    decreases a.len() - i,
{
    if i < a.len() {
        lemma_text_le_reflexive(a, i + 1);
    }
}

pub proof fn lemma_text_le_total(a: Seq<char>, b: Seq<char>, i: int)
    requires
        0 <= i,
    ensures
        text_le_from(a, b, i) || text_le_from(b, a, i),
    decreases a.len() - i,
{
    if i < a.len() && i < b.len() && (a[i] as u32) == (b[i] as u32) {
        lemma_text_le_total(a, b, i + 1);
    }
}

pub proof fn lemma_text_le_transitive(a: Seq<char>, b: Seq<char>, c: Seq<char>, i: int)
    requires
        0 <= i,
        text_le_from(a, b, i),
        text_le_from(b, c, i),
    ensures
        text_le_from(a, c, i),
    decreases a.len() - i,
{
    if i < a.len() && i < b.len() && i < c.len() && (a[i] as u32) == (b[i] as u32) && (b[i] as u32)
        == (c[i] as u32) {
        lemma_text_le_transitive(a, b, c, i + 1);
    }
}

/// Whether `a` comes no later than `b`.
pub fn text_in_order(a: &str, b: &str) -> (r: bool)
    ensures
        r == text_le(a@, b@),
{
    let x = chars_of(a);
    let y = chars_of(b);
    let mut i: usize = 0;
    while i < x.len() && i < y.len()
        invariant
            x@ == a@,
            y@ == b@,
            i <= x.len(),
            text_le_from(a@, b@, 0) == text_le_from(a@, b@, i as int),
        decreases x.len() - i,
    {
        if (x[i] as u32) != (y[i] as u32) {
            return (x[i] as u32) < (y[i] as u32);
        }
        i = i + 1;
    }
    i == x.len()
}

/// Putting position `k` at `pos`, after the positions whose texts come no
/// later than its own and before the others, keeps the order stable.
proof fn lemma_insert_keeps_order(ks: Seq<Seq<char>>, order: Seq<usize>, pos: int, k: usize)
    requires
        0 <= k < ks.len(),
        order.len() == k,
        0 <= pos <= order.len(),
        forall|i: int| 0 <= i < order.len() ==> #[trigger] order[i] < k,
        forall|i: int, j: int| 0 <= i < j < order.len() ==> order[i] != order[j],
        forall|i: int, j: int|
            0 <= i < j < order.len() ==> text_le(ks[order[i] as int], ks[order[j] as int]),
        forall|i: int, j: int|
            0 <= i < j < order.len() && ks[order[i] as int] == ks[order[j] as int] ==> order[i]
                < order[j],
        forall|t: int| pos <= t < order.len() ==> !text_le(#[trigger] ks[order[t] as int], ks[k as int]),
        pos > 0 ==> text_le(ks[order[pos - 1] as int], ks[k as int]),
    ensures
        ({
            let n = order.insert(pos, k);
            &&& n.len() == k + 1
            &&& forall|i: int| 0 <= i < n.len() ==> #[trigger] n[i] < k + 1
            &&& forall|i: int, j: int| 0 <= i < j < n.len() ==> n[i] != n[j]
            &&& forall|i: int, j: int|
                0 <= i < j < n.len() ==> text_le(ks[n[i] as int], ks[n[j] as int])
            &&& forall|i: int, j: int|
                0 <= i < j < n.len() && ks[n[i] as int] == ks[n[j] as int] ==> n[i] < n[j]
        }),
{
    let n = order.insert(pos, k);
    order.insert_ensures(pos, k);
    lemma_text_le_reflexive(ks[k as int], 0);
    assert forall|i: int| 0 <= i < pos implies text_le(ks[order[i] as int], ks[k as int]) by {
        if i < pos - 1 {
            assert(text_le(ks[order[i] as int], ks[order[pos - 1] as int]));
            lemma_text_le_transitive(ks[order[i] as int], ks[order[pos - 1] as int], ks[k as int], 0);
        }
    }
    assert forall|t: int| pos <= t < order.len() implies text_le(ks[k as int], ks[order[t] as int])
        && ks[order[t] as int] != ks[k as int] by {
        lemma_text_le_total(ks[k as int], ks[order[t] as int], 0);
    }
    assert forall|i: int, j: int| 0 <= i < j < n.len() implies text_le(
        ks[n[i] as int],
        ks[n[j] as int],
    ) by {
        if j < pos {
        } else if j == pos {
        } else if i < pos {
            assert(n[j] == order[j - 1]);
            lemma_text_le_transitive(ks[n[i] as int], ks[k as int], ks[n[j] as int], 0);
        } else if i == pos {
            assert(n[j] == order[j - 1]);
        } else {
            assert(n[i] == order[i - 1]);
            assert(n[j] == order[j - 1]);
        }
    }
    assert forall|i: int, j: int|
        0 <= i < j < n.len() && ks[n[i] as int] == ks[n[j] as int] implies n[i] < n[j] by {
        if j < pos {
        } else if j == pos {
        } else if i < pos {
            assert(n[j] == order[j - 1]);
        } else if i == pos {
            assert(n[j] == order[j - 1]);
        } else {
            assert(n[i] == order[i - 1]);
            assert(n[j] == order[j - 1]);
        }
    }
    assert forall|i: int, j: int| 0 <= i < j < n.len() implies n[i] != n[j] by {
        if j < pos {
        } else if j == pos {
        } else if i < pos {
            assert(n[j] == order[j - 1]);
        } else if i == pos {
            assert(n[j] == order[j - 1]);
        } else {
            assert(n[i] == order[i - 1]);
            assert(n[j] == order[j - 1]);
        }
    }
    assert forall|i: int| 0 <= i < n.len() implies #[trigger] n[i] < k + 1 by {
        if i > pos {
            assert(n[i] == order[i - 1]);
        }
    }
}

/// The positions of `keys` in the order in which they are taken.
pub open spec fn is_stable_order(keys: Seq<Seq<char>>, order: Seq<usize>) -> bool {
    &&& order.len() == keys.len()
    &&& forall|i: int| 0 <= i < order.len() ==> #[trigger] order[i] < keys.len()
    &&& forall|i: int, j: int| 0 <= i < j < order.len() ==> order[i] != order[j]
    &&& forall|i: int, j: int|
        0 <= i < j < order.len() ==> text_le(keys[order[i] as int], keys[order[j] as int])
    &&& forall|i: int, j: int|
        0 <= i < j < order.len() && keys[order[i] as int] == keys[order[j] as int] ==> order[i]
            < order[j]
}

pub open spec fn key_texts(keys: Seq<String>) -> Seq<Seq<char>> {
    keys.map_values(|s: String| s@)
}

/// Sorts the positions of `keys` by their text, stably: the result lists
/// every position once, their texts come in order, and positions with equal
/// texts keep their order.
pub fn sorted_order(keys: &Vec<String>) -> (order: Vec<usize>)
    ensures
        is_stable_order(key_texts(keys@), order@),
{
    let ghost ks = key_texts(keys@);
    let mut order: Vec<usize> = Vec::new();
    let mut k: usize = 0;
    while k < keys.len()
        invariant
            ks == key_texts(keys@),
            k <= keys.len(),
            order.len() == k,
            forall|i: int| 0 <= i < order.len() ==> #[trigger] order[i] < k,
            forall|i: int, j: int| 0 <= i < j < order.len() ==> order[i] != order[j],
            forall|i: int, j: int|
                0 <= i < j < order.len() ==> text_le(ks[order[i] as int], ks[order[j] as int]),
            forall|i: int, j: int|
                0 <= i < j < order.len() && ks[order[i] as int] == ks[order[j] as int]
                    ==> order[i] < order[j],
        decreases keys.len() - k,
    {
        let mut pos: usize = order.len();
        while pos > 0 && !text_in_order(keys[order[pos - 1]].as_str(), keys[k].as_str())
            invariant
                ks == key_texts(keys@),
                k < keys.len(),
                order.len() == k,
                forall|i: int| 0 <= i < order.len() ==> #[trigger] order[i] < k,
                forall|i: int, j: int| 0 <= i < j < order.len() ==> order[i] != order[j],
                forall|i: int, j: int|
                    0 <= i < j < order.len() ==> text_le(ks[order[i] as int], ks[order[j] as int]),
                forall|i: int, j: int|
                    0 <= i < j < order.len() && ks[order[i] as int] == ks[order[j] as int]
                        ==> order[i] < order[j],
                pos <= order.len(),
                forall|t: int|
                    pos <= t < order.len() ==> !text_le(#[trigger] ks[order[t] as int], ks[k as int]),
            decreases pos,
        {
            pos = pos - 1;
        }
        let ghost old_order = order@;
        proof {
            assert(ks[k as int] == keys@[k as int]@);
            lemma_insert_keeps_order(ks, old_order, pos as int, k);
        }
        order.insert(pos, k);
        k = k + 1;
    }
    order
}

} // verus!
