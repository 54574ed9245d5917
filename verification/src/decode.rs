//! The integer side of decoding answers: ranking options by their
//! probability keys, picking the most likely level, and mapping the level
//! keys of a score answer onto level positions.
//!
//! A probability in `0.0..=1.0` is carried here by an order key: an integer
//! that orders and compares the same way as the probability it stands for.

use vstd::prelude::*;
use crate::text::{parse_u64, parse_u64_spec};

verus! {

/// Why a set of probabilities could not be decoded.
#[derive(Debug, Clone, PartialEq, Eq)]
pub enum DecodeError {
    /// No probabilities were supplied.
    Empty,
    /// A label the type does not know about.
    UnknownLabel(String),
    /// A probability outside `0.0..=1.0`, or not finite; it holds the value
    /// as Rust's `Display` writes it.
    InvalidProbability(String),
    /// A score had the wrong number of level probabilities.
    WrongLevelCount {
        /// Levels the type declares.
        expected: usize,
        /// Probabilities supplied.
        found: usize,
    },
    /// A level index the type cannot construct.
    BadIndex(usize),
}

/// Position `a` comes before position `b` in a ranking: a larger key first,
/// and for equal keys the earlier position first (a stable sort, most likely
/// first).
pub open spec fn ranks_before(keys: Seq<u64>, a: int, b: int) -> bool {
    keys[a] > keys[b] || (keys[a] == keys[b] && a < b)
}

/// `order` lists every position of `keys` exactly once, most likely first.
pub open spec fn is_ranking(keys: Seq<u64>, order: Seq<usize>) -> bool {
    &&& order.len() == keys.len()
    &&& forall|i: int| 0 <= i < order.len() ==> #[trigger] order[i] < keys.len()
    &&& forall|m: usize| m < keys.len() ==> #[trigger] order.contains(m)
    &&& forall|i: int, j: int|
        0 <= i < j < order.len() ==> ranks_before(keys, #[trigger] order[i] as int, #[trigger] order[j] as int)
}

/// `b` is the first position that holds the largest key.
pub open spec fn is_best(keys: Seq<u64>, b: int) -> bool {
    &&& 0 <= b < keys.len()
    &&& forall|k: int| 0 <= k < keys.len() ==> #[trigger] keys[k] <= keys[b]
    &&& forall|k: int| 0 <= k < b ==> #[trigger] keys[k] < keys[b]
}

/// The positions of `keys` ordered most likely first; equal keys keep their
/// order (the order a stable descending sort gives).
pub fn ranking(keys: &[u64]) -> (r: Vec<usize>)
    ensures
        is_ranking(keys@, r@),
{
    let n = keys.len();
    let mut order: Vec<usize> = Vec::new();
    let mut idx: usize = 0;
    while idx < n
        invariant
            n == keys@.len(),
            idx <= n,
            order@.len() == idx,
            forall|i: int| 0 <= i < order@.len() ==> #[trigger] order@[i] < idx,
            forall|m: usize| m < idx ==> #[trigger] order@.contains(m),
            forall|i: int, j: int|
                0 <= i < j < order@.len() ==> ranks_before(keys@, #[trigger] order@[i] as int, #[trigger] order@[j] as int),
        decreases n - idx,
    {
        let key = keys[idx];
        let mut p: usize = 0;
        while p < order.len() && keys[order[p]] >= key
            invariant
                n == keys@.len(),
                idx < n,
                key == keys@[idx as int],
                p <= order@.len(),
                forall|i: int| 0 <= i < order@.len() ==> #[trigger] order@[i] < idx,
                forall|k: int| 0 <= k < p ==> keys@[#[trigger] order@[k] as int] >= key,
            decreases order@.len() - p,
        {
            p = p + 1;
        }
        let ghost old_order = order@;
        proof {
            if p < old_order.len() {
                assert(keys@[old_order[p as int] as int] < key);
                assert forall|k: int| p <= k < old_order.len() implies keys@[#[trigger] old_order[k] as int] < key by {
                    if k > p {
                        assert(ranks_before(keys@, old_order[p as int] as int, old_order[k] as int));
                    }
                }
            }
        }
        order.insert(p, idx);
        proof {
            let new_order = order@;
            assert(new_order == old_order.insert(p as int, idx));
            assert forall|i: int, j: int| 0 <= i < j < new_order.len() implies ranks_before(
                keys@,
                #[trigger] new_order[i] as int,
                #[trigger] new_order[j] as int,
            ) by {
                if j < p {
                    assert(new_order[i] == old_order[i] && new_order[j] == old_order[j]);
                } else if j == p {
                    assert(new_order[i] == old_order[i]);
                } else if i < p {
                    assert(new_order[i] == old_order[i] && new_order[j] == old_order[j - 1]);
                    assert(keys@[old_order[i] as int] >= key);
                } else if i == p {
                    assert(new_order[j] == old_order[j - 1]);
                } else {
                    assert(new_order[i] == old_order[i - 1] && new_order[j] == old_order[j - 1]);
                }
            }
            assert forall|m: usize| m < idx + 1 implies #[trigger] new_order.contains(m) by {
                if m == idx {
                    assert(new_order[p as int] == idx);
                } else {
                    assert(old_order.contains(m));
                    let w = choose|w: int| 0 <= w < old_order.len() && old_order[w] == m;
                    if w < p {
                        assert(new_order[w] == m);
                    } else {
                        assert(new_order[w + 1] == m);
                    }
                }
            }
            assert forall|i: int| 0 <= i < new_order.len() implies #[trigger] new_order[i] < idx + 1 by {
                if i < p {
                    assert(new_order[i] == old_order[i]);
                } else if i > p {
                    assert(new_order[i] == old_order[i - 1]);
                }
            }
        }
        idx = idx + 1;
    }
    order
}

/// The keys of `(item, key)` pairs.
pub open spec fn keys_of<T>(items: Seq<(T, u64)>) -> Seq<u64> {
    items.map_values(|p: (T, u64)| p.1)
}

/// `(item, key)` pairs ordered by their keys, largest first, pairs with
/// equal keys keeping their order (a stable descending sort).
pub fn rank_items<T>(items: Vec<(T, u64)>) -> (r: Vec<(T, u64)>)
    ensures
        exists|order: Seq<usize>| {
            &&& is_ranking(keys_of(items@), order)
            &&& r@.len() == items@.len()
            &&& forall|k: int| 0 <= k < r@.len() ==> #[trigger] r@[k] == items@[order[k] as int]
        },
{
    let ghost original = items@;
    let n = items.len();
    let mut keys: Vec<u64> = Vec::new();
    let mut i: usize = 0;
    while i < n
        invariant
            n == items@.len(),
            items@ == original,
            i <= n,
            keys@.len() == i,
            forall|k: int| 0 <= k < i ==> #[trigger] keys@[k] == original[k].1,
        decreases n - i,
    {
        keys.push(items[i].1);
        i = i + 1;
    }
    assert(keys@ =~= keys_of(original));
    let order = ranking(keys.as_slice());
    let mut slots: Vec<Option<(T, u64)>> = Vec::new();
    let mut rest = items;
    while rest.len() > 0
        invariant
            n == original.len(),
            slots@.len() + rest@.len() == n,
            forall|k: int| 0 <= k < slots@.len() ==> #[trigger] slots@[k] == Some(original[k]),
            forall|k: int| 0 <= k < rest@.len() ==> #[trigger] rest@[k] == original[slots@.len() + k],
        decreases rest@.len(),
    {
        let x = rest.remove(0);
        slots.push(Some(x));
    }
    let mut out: Vec<(T, u64)> = Vec::new();
    let mut k: usize = 0;
    while k < n
        invariant
            n == original.len(),
            slots@.len() == n,
            is_ranking(keys_of(original), order@),
            k <= n,
            out@.len() == k,
            forall|j: int| 0 <= j < k ==> #[trigger] out@[j] == original[order@[j] as int],
            forall|p: int|
                0 <= p < n ==> (#[trigger] slots@[p] == Some(original[p]) || order@.take(k as int).contains(
                    p as usize,
                )),
            forall|j: int| 0 <= j < k ==> #[trigger] slots@[order@[j] as int] is None,
        decreases n - k,
    {
        let idx = order[k];
        proof {
            if !(slots@[idx as int] == Some(original[idx as int])) {
                assert(order@.take(k as int).contains(idx));
                let w = choose|w: int| 0 <= w < k && order@.take(k as int)[w] == idx;
                assert(ranks_before(keys_of(original), order@[w] as int, order@[k as int] as int));
                assert(false);
            }
        }
        let mut taken: Option<(T, u64)> = None;
        slots.set_and_swap(idx, &mut taken);
        match taken {
            Some(x) => out.push(x),
            None => {
                assert(false);
                return out;
            },
        }
        proof {
            assert forall|p: int| 0 <= p < n implies (#[trigger] slots@[p] == Some(original[p])
                || order@.take(k + 1).contains(p as usize)) by {
                if p == idx as int {
                    assert(order@.take(k + 1)[k as int] == idx);
                } else if !(slots@[p] == Some(original[p])) {
                    assert(order@.take(k as int).contains(p as usize));
                    let w = choose|w: int| 0 <= w < k && order@.take(k as int)[w] == p as usize;
                    assert(order@.take(k + 1)[w] == p as usize);
                }
            }
            assert forall|j: int| 0 <= j < k + 1 implies #[trigger] slots@[order@[j] as int] is None by {
                if j < k {
                    assert(order@[j] != idx) by {
                        assert(ranks_before(keys_of(original), order@[j] as int, order@[k as int] as int));
                    }
                }
            }
        }
        k = k + 1;
    }
    assert(is_ranking(keys_of(original), order@));
    out
}

/// The first position with the largest key.
pub fn best_index(keys: &[u64]) -> (r: usize)
    requires
        keys@.len() > 0,
    ensures
        is_best(keys@, r as int),
{
    let n = keys.len();
    let mut best: usize = 0;
    let mut i: usize = 1;
    while i < n
        invariant
            n == keys@.len(),
            1 <= i <= n,
            best < i,
            forall|k: int| 0 <= k < i ==> #[trigger] keys@[k] <= keys@[best as int],
            forall|k: int| 0 <= k < best ==> #[trigger] keys@[k] < keys@[best as int],
        decreases n - i,
    {
        if keys[i] > keys[best] {
            best = i;
        }
        i = i + 1;
    }
    best
}

/// The most likely entry of a ranking is the first position with the
/// largest key.
pub proof fn lemma_ranking_starts_with_best(keys: Seq<u64>, order: Seq<usize>, b: usize)
    requires
        keys.len() > 0,
        is_ranking(keys, order),
        is_best(keys, b as int),
    ensures
        order[0] == b,
{
    assert(order.contains(b));
    let w = choose|w: int| 0 <= w < order.len() && order[w] == b;
    if w > 0 {
        assert(ranks_before(keys, order[0] as int, order[w] as int));
        assert(order[0] < keys.len());
        let first = order[0] as int;
        assert(keys[first] <= keys[b as int]);
        if first < b {
            assert(keys[first] < keys[b as int]);
        }
        assert(false);
    }
}

/// The level position that a level key of a score answer writes in decimal
/// (`"0"`, `"1"`, ...), when it is a number that fits in `usize`.
pub open spec fn level_number(key: Seq<char>) -> Option<usize> {
    match parse_u64_spec(key) {
        Some(v) => if v <= usize::MAX {
            Some(v as usize)
        } else {
            None
        },
        None => None,
    }
}

/// The level position named by a level key (`"0"`, `"1"`, ...) of a score
/// answer with `levels` levels.
pub fn level_slot(key: &str, levels: usize) -> (r: Result<usize, DecodeError>)
    requires
        level_number(key@) != Some(usize::MAX),
    ensures
        match level_number(key@) {
            Some(i) => if i < levels {
                r == Ok::<usize, DecodeError>(i)
            } else {
                r == Err::<usize, DecodeError>(DecodeError::WrongLevelCount { expected: levels, found: (i + 1) as usize })
            },
            None => r matches Err(DecodeError::UnknownLabel(l)) && l@ == key@,
        },
{
    match parse_u64(key) {
        Some(v) => {
            if v > usize::MAX as u64 {
                Err(DecodeError::UnknownLabel(key.to_owned()))
            } else if v as usize >= levels {
                Err(DecodeError::WrongLevelCount { expected: levels, found: v as usize + 1 })
            } else {
                Ok(v as usize)
            }
        },
        None => Err(DecodeError::UnknownLabel(key.to_owned())),
    }
}

/// The first position `>= i` whose level key is not a level number below
/// `levels`.
pub open spec fn first_bad_slot(keys: Seq<String>, levels: usize, i: int) -> Option<int>
    decreases keys.len() - i,
{
    if i < 0 || i >= keys.len() {
        None
    } else if !(level_number(keys[i]@) matches Some(n) && n < levels) {
        Some(i)
    } else {
        first_bad_slot(keys, levels, i + 1)
    }
}

/// The level positions named by the level keys of a score answer, in the
/// order of `keys`; the first key that names no level gives the error.
pub fn level_slots(keys: &[String], levels: usize) -> (r: Result<Vec<usize>, DecodeError>)
    requires
        first_bad_slot(keys@, levels, 0) matches Some(k) ==> level_number(keys@[k]@) != Some(usize::MAX),
    ensures
        match first_bad_slot(keys@, levels, 0) {
            None => r matches Ok(slots) && slots@.len() == keys@.len() && forall|k: int|
                0 <= k < keys@.len() ==> level_number(keys@[k]@) == Some(#[trigger] slots@[k]),
            Some(k) => match level_number(keys@[k]@) {
                Some(n) => r == Err::<Vec<usize>, DecodeError>(
                    DecodeError::WrongLevelCount { expected: levels, found: (n + 1) as usize },
                ),
                None => r matches Err(DecodeError::UnknownLabel(l)) && l@ == keys@[k]@,
            },
        },
{
    let n = keys.len();
    let mut slots: Vec<usize> = Vec::new();
    let mut i: usize = 0;
    while i < n
        invariant
            n == keys@.len(),
            i <= n,
            first_bad_slot(keys@, levels, 0) matches Some(k) ==> level_number(keys@[k]@) != Some(usize::MAX),
            first_bad_slot(keys@, levels, 0) == first_bad_slot(keys@, levels, i as int),
            slots@.len() == i,
            forall|k: int| 0 <= k < i ==> level_number(keys@[k]@) == Some(#[trigger] slots@[k]),
        decreases n - i,
    {
        match level_slot(keys[i].as_str(), levels) {
            Ok(s) => slots.push(s),
            Err(e) => {
                return Err(e);
            },
        }
        i = i + 1;
    }
    Ok(slots)
}

} // verus!
