//! Which hand slot each card of the hand goes to when the hand is laid out
//! again: the slots are filled from left to right by the cards' current
//! left-to-right order.
use vstd::prelude::*;

verus! {

/// Card `a` takes an earlier slot than card `b`: it lies further left, or
/// both lie at the same place and `a` was listed first.
pub open spec fn slot_before(keys: Seq<i64>, a: int, b: int) -> bool {
    keys[a] < keys[b] || (keys[a] == keys[b] && a < b)
}

/// `order` names each of the `n` cards of a hand exactly once.
pub open spec fn lists_each_card_once(order: Seq<usize>, n: nat) -> bool {
    &&& order.len() == n
    &&& forall|i: int| 0 <= i < order.len() ==> order[i] < n
    &&& forall|i: int, j: int| 0 <= i < j < order.len() ==> order[i] != order[j]
    &&& forall|c: usize| c < n ==> order.contains(c)
}

/// The cards named by `order` run from left to right.
pub open spec fn left_to_right(keys: Seq<i64>, order: Seq<usize>) -> bool {
    forall|i: int, j: int|
        0 <= i < j < order.len() ==> slot_before(keys, order[i] as int, order[j] as int)
}

/// `order[s]` is the card that goes to slot `s` when the cards lie at
/// horizontal positions `keys`.
pub open spec fn is_hand_order(keys: Seq<i64>, order: Seq<usize>) -> bool {
    lists_each_card_once(order, keys.len()) && left_to_right(keys, order)
}

/// The slot order of a hand whose cards lie at horizontal positions `keys`
/// (a larger key lies further right): slot `s` goes to card `order[s]`.
/// Cards at the same position keep the order in which they were listed.
pub fn hand_order(keys: &Vec<i64>) -> (order: Vec<usize>)
    ensures
        is_hand_order(keys@, order@),
        order.len() == keys.len(),
        forall|s: int| 0 <= s < order.len() ==> order[s] < keys.len(),
        forall|c: usize| c < keys.len() ==> order@.contains(c),
        forall|s: int, t: int|
            0 <= s < t < order.len() ==> keys@[order@[s] as int] <= keys@[order@[t] as int],
        forall|s: int, t: int|
            0 <= s < t < order.len() && keys@[order@[s] as int] == keys@[order@[t] as int]
                ==> order@[s] < order@[t],
{
    let n = keys.len();
    let mut order: Vec<usize> = Vec::new();
    let mut k: usize = 0;
    while k < n
        invariant
            n == keys.len(),
            k <= n,
            order.len() == k,
            forall|i: int| 0 <= i < order.len() ==> order[i] < k,
            forall|c: usize| c < k ==> order@.contains(c),
            left_to_right(keys@, order@),
        decreases n - k,
    {
        let mut pos: usize = k;
        while pos > 0 && keys[order[pos - 1]] > keys[k]
            invariant
                n == keys.len(),
                k < n,
                pos <= k,
                order.len() == k,
                forall|i: int| 0 <= i < order.len() ==> order[i] < k,
                forall|j: int| pos <= j < k ==> keys@[order@[j] as int] > keys@[k as int],
            decreases pos,
        {
            pos = pos - 1;
        }
        let ghost before = order@;
        proof {
            assert forall|i: int| 0 <= i < pos implies slot_before(
                keys@,
                before[i] as int,
                k as int,
            ) by {
                if i < pos - 1 {
                    assert(slot_before(keys@, before[i] as int, before[pos - 1] as int));
                }
            }
        }
        order.insert(pos, k);
        proof {
            assert(order@ == before.insert(pos as int, k));
            assert forall|i: int, j: int| 0 <= i < j < order@.len() implies slot_before(
                keys@,
                order@[i] as int,
                order@[j] as int,
            ) by {
                if j < pos {
                    assert(slot_before(keys@, before[i] as int, before[j] as int));
                } else if j == pos {
                } else if i < pos {
                    assert(slot_before(keys@, before[i] as int, before[j - 1] as int));
                } else if i == pos {
                } else {
                    assert(slot_before(keys@, before[i - 1] as int, before[j - 1] as int));
                }
            }
            assert forall|c: usize| c < k + 1 implies order@.contains(c) by {
                if c < k {
                    assert(before.contains(c));
                    let p = choose|p: int| 0 <= p < before.len() && before[p] == c;
                    if p < pos {
                        assert(order@[p] == c);
                    } else {
                        assert(order@[p + 1] == c);
                    }
                } else {
                    assert(order@[pos as int] == k);
                }
            }
        }
        k = k + 1;
    }
    proof {
        assert forall|i: int, j: int| 0 <= i < j < order@.len() implies order@[i] != order@[j] by {
            assert(slot_before(keys@, order@[i] as int, order@[j] as int));
        }
        lemma_hand_order_runs_left_to_right(keys@, order@);
    }
    order
}

/// The decision taken when the hand changed: with no card in the hand
/// nothing is laid out; otherwise slot `s` goes to card `order[s]`, the
/// cards being listed with their horizontal positions `card_keys`.
pub fn change_hand_cards(card_keys: &Vec<i64>) -> (assignment: Option<Vec<usize>>)
    ensures
        assignment is None <==> card_keys.len() == 0,
        assignment matches Some(order) ==> is_hand_order(card_keys@, order@),
        assignment matches Some(order) ==> order.len() == card_keys.len() && (forall|c: usize|
            c < card_keys.len() ==> order@.contains(c)) && (forall|s: int, t: int|
            0 <= s < t < order.len() ==> card_keys@[order@[s] as int] <= card_keys@[order@[t] as int])
            && (forall|s: int, t: int|
            0 <= s < t < order.len() && card_keys@[order@[s] as int] == card_keys@[order@[t] as int]
                ==> order@[s] < order@[t]),
{
    if card_keys.len() == 0 {
        None
    } else {
        Some(hand_order(card_keys))
    }
}

/// A slot order names every card once and runs from left to right: a card in
/// an earlier slot never lies further right than one in a later slot, and of
/// two cards at the same place the one listed first takes the earlier slot.
pub proof fn lemma_hand_order_runs_left_to_right(keys: Seq<i64>, order: Seq<usize>)
    requires
        is_hand_order(keys, order),
    ensures
        order.len() == keys.len(),
        forall|s: int| 0 <= s < order.len() ==> order[s] < keys.len(),
        forall|c: usize| c < keys.len() ==> order.contains(c),
        forall|s: int, t: int| 0 <= s < t < order.len() ==> order[s] != order[t],
        forall|s: int, t: int|
            0 <= s < t < order.len() ==> keys[order[s] as int] <= keys[order[t] as int],
        forall|s: int, t: int|
            0 <= s < t < order.len() && keys[order[s] as int] == keys[order[t] as int]
                ==> order[s] < order[t],
{
    assert forall|s: int, t: int| 0 <= s < t < order.len() implies keys[order[s] as int]
        <= keys[order[t] as int] by {
        assert(slot_before(keys, order[s] as int, order[t] as int));
    }
    assert forall|s: int, t: int|
        0 <= s < t < order.len() && keys[order[s] as int] == keys[order[t] as int] implies order[s]
        < order[t] by {
        assert(slot_before(keys, order[s] as int, order[t] as int));
    }
}

proof fn lemma_same_slot(keys: Seq<i64>, o1: Seq<usize>, o2: Seq<usize>, i: int)
    requires
        is_hand_order(keys, o1),
        is_hand_order(keys, o2),
        0 <= i < o1.len(),
        forall|j: int| 0 <= j < i ==> o1[j] == o2[j],
    ensures
        o1[i] == o2[i],
{
    let a = o1[i];
    let b = o2[i];
    if a != b {
        assert(o2.contains(a));
        let p = choose|p: int| 0 <= p < o2.len() && o2[p] == a;
        if p < i {
            assert(o1[p] == a);
        }
        assert(slot_before(keys, b as int, a as int));
        assert(o1.contains(b));
        let q = choose|q: int| 0 <= q < o1.len() && o1[q] == b;
        if q < i {
            assert(o2[q] == b);
        }
        assert(slot_before(keys, a as int, b as int));
    }
}

proof fn lemma_same_prefix(keys: Seq<i64>, o1: Seq<usize>, o2: Seq<usize>, i: int)
    requires
        is_hand_order(keys, o1),
        is_hand_order(keys, o2),
        0 <= i <= o1.len(),
    ensures
        forall|j: int| 0 <= j < i ==> o1[j] == o2[j],
    decreases i,
{
    if i > 0 {
        lemma_same_prefix(keys, o1, o2, i - 1);
        lemma_same_slot(keys, o1, o2, i - 1);
    }
}

/// The slots that a layout gives are fixed by where the cards lie: two slot
/// orders for the same positions are the same order.
pub proof fn lemma_hand_order_unique(keys: Seq<i64>, o1: Seq<usize>, o2: Seq<usize>)
    requires
        is_hand_order(keys, o1),
        is_hand_order(keys, o2),
    ensures
        o1 == o2,
{
    lemma_same_prefix(keys, o1, o2, o1.len() as int);
    assert(o1 =~= o2);
}

/// A hand whose cards are already listed from left to right keeps them in
/// their slots: card `s` goes to slot `s`.
pub proof fn lemma_ordered_hand_keeps_slots(keys: Seq<i64>, order: Seq<usize>)
    requires
        keys.len() <= usize::MAX,
        forall|i: int, j: int| 0 <= i < j < keys.len() ==> keys[i] <= keys[j],
        is_hand_order(keys, order),
    ensures
        forall|s: int| 0 <= s < order.len() ==> order[s] == s,
{
    let n = keys.len();
    let same = Seq::new(n, |i: int| i as usize);
    assert forall|c: usize| c < n implies same.contains(c) by {
        assert(same[c as int] == c);
    }
    assert forall|i: int, j: int| 0 <= i < j < same.len() implies slot_before(
        keys,
        same[i] as int,
        same[j] as int,
    ) by {
        assert(same[i] as int == i);
        assert(same[j] as int == j);
    }
    assert forall|i: int| 0 <= i < same.len() implies same[i] < n by {
        assert(same[i] as int == i);
    }
    lemma_hand_order_unique(keys, order, same);
}

} // verus!
