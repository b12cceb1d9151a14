//! The order of the names in a listing: by their letters and digits alone,
//! without regard to the case of ASCII letters, and stable.

use vstd::prelude::*;
use crate::command::texts;
use crate::text::chars_of;

verus! {

/// Whether `c` is alphabetic or numeric in the sense of Unicode, as
/// `char::is_alphanumeric` reports it.
pub uninterp spec fn alphanumeric_property(c: char) -> bool;

/// `char::is_alphanumeric`: the result is a property of the character alone.
pub assume_specification[ char::is_alphanumeric ](c: char) -> (b: bool)
    ensures
        b == alphanumeric_property(c),
;

/// `c` with an ASCII capital letter made small, and any other character as it
/// is.
pub open spec fn ascii_lowercase(c: char) -> char {
    if 'A' <= c <= 'Z' {
        ((c as int) + 32) as char
    } else {
        c
    }
}

/// `char::to_ascii_lowercase`: the letters `A` to `Z` become `a` to `z`, every
/// other character stays.
pub assume_specification[ char::to_ascii_lowercase ](c: &char) -> (lower: char)
    ensures
        lower == ascii_lowercase(*c),
;

/// The key by which `name` is ordered: its alphanumeric characters, in their
/// order, ASCII capitals made small.
pub open spec fn sort_key(name: Seq<char>) -> Seq<char>
    decreases name.len(),
{
    if name.len() == 0 {
        Seq::empty()
    } else if alphanumeric_property(name.last()) {
        sort_key(name.drop_last()).push(ascii_lowercase(name.last()))
    } else {
        sort_key(name.drop_last())
    }
}

/// `a` does not come behind `b` when the two are compared character by
/// character from position `from` on: at the first position where they differ
/// `a` has the smaller character, or `a` ends there.
pub open spec fn not_behind_from(a: Seq<char>, b: Seq<char>, from: int) -> bool
    decreases a.len() - from,
{
    if from < 0 || from >= a.len() {
        true
    } else if from >= b.len() {
        false
    } else if a[from] != b[from] {
        a[from] < b[from]
    } else {
        not_behind_from(a, b, from + 1)
    }
}

/// `a` does not come behind `b` in the order of strings.
pub open spec fn not_behind(a: Seq<char>, b: Seq<char>) -> bool {
    not_behind_from(a, b, 0)
}

/// The positions `order` with the position `x` put in: behind every position
/// whose key does not come behind the key of `x`, in front of the others at
/// the end.
pub open spec fn placed(keys: Seq<Seq<char>>, order: Seq<int>, x: int) -> Seq<int>
    decreases order.len(),
{
    if order.len() == 0 {
        seq![x]
    } else if not_behind(keys[order.last()], keys[x]) {
        order.push(x)
    } else {
        placed(keys, order.drop_last(), x).push(order.last())
    }
}

/// The first `n` positions of `keys` in the order of their keys; positions
/// with the same key stay in their order.
pub open spec fn ordered(keys: Seq<Seq<char>>, n: nat) -> Seq<int>
    decreases n,
{
    if n == 0 {
        Seq::empty()
    } else {
        placed(keys, ordered(keys, (n - 1) as nat), n - 1)
    }
}

/// The keys of `names`.
pub open spec fn keys_of(names: Seq<Seq<char>>) -> Seq<Seq<char>> {
    Seq::new(names.len(), |i: int| sort_key(names[i]))
}

/// The order in which a listing shows `names`: their positions, sorted by key.
pub open spec fn listing_order(names: Seq<Seq<char>>) -> Seq<int> {
    ordered(keys_of(names), names.len())
}

/// The positions held by a vector of indices.
pub open spec fn positions(order: Seq<usize>) -> Seq<int> {
    Seq::new(order.len(), |i: int| order[i] as int)
}

/// Putting a position in keeps every position that was there, adds the new
/// one, and nothing else.
pub proof fn lemma_placed_holds(keys: Seq<Seq<char>>, order: Seq<int>, x: int, y: int)
    ensures
        placed(keys, order, x).len() == order.len() + 1,
        placed(keys, order, x).contains(y) <==> (order.contains(y) || y == x),
    decreases order.len(),
{
    let result = placed(keys, order, x);
    if order.len() == 0 {
        assert(result[0] == x);
        if result.contains(y) {
            let i = choose|i: int| 0 <= i < result.len() && result[i] == y;
        }
    } else if not_behind(keys[order.last()], keys[x]) {
        assert(result[order.len() as int] == x);
        if order.contains(y) {
            let i = choose|i: int| 0 <= i < order.len() && order[i] == y;
            assert(result[i] == y);
        }
        if result.contains(y) && y != x {
            let i = choose|i: int| 0 <= i < result.len() && result[i] == y;
            assert(order[i] == y);
        }
    } else {
        let front = order.drop_last();
        let inner = placed(keys, front, x);
        lemma_placed_holds(keys, front, x, y);
        assert(result[inner.len() as int] == order.last());
        if order.contains(y) {
            let i = choose|i: int| 0 <= i < order.len() && order[i] == y;
            if i < front.len() {
                assert(front[i] == y);
                let j = choose|j: int| 0 <= j < inner.len() && inner[j] == y;
                assert(result[j] == y);
            }
        }
        if y == x {
            let j = choose|j: int| 0 <= j < inner.len() && inner[j] == y;
            assert(result[j] == y);
        }
        if result.contains(y) && y != x {
            let i = choose|i: int| 0 <= i < result.len() && result[i] == y;
            if i < inner.len() {
                assert(inner[i] == y);
                let j = choose|j: int| 0 <= j < front.len() && front[j] == y;
                assert(order[j] == y);
            } else {
                assert(order[order.len() - 1] == y);
            }
        }
    }
}

/// The order of the first `n` positions holds each of them, and no other.
pub proof fn lemma_ordered_holds_each_position(keys: Seq<Seq<char>>, n: nat, y: int)
    ensures
        ordered(keys, n).len() == n,
        ordered(keys, n).contains(y) <==> 0 <= y < n,
    decreases n,
{
    if n > 0 {
        lemma_ordered_holds_each_position(keys, (n - 1) as nat, y);
        lemma_placed_holds(keys, ordered(keys, (n - 1) as nat), n - 1, y);
    } else {
        if ordered(keys, n).contains(y) {
            let i = choose|i: int| 0 <= i < ordered(keys, n).len() && ordered(keys, n)[i] == y;
        }
    }
}

/// Putting `x` in at `at` is what `placed` gives, where every position from
/// `at` on has a key that comes behind the key of `x`, and the position
/// before `at` has not.
proof fn lemma_placed_is_insert(keys: Seq<Seq<char>>, order: Seq<int>, x: int, at: int)
    requires
        0 <= at <= order.len(),
        forall|t: int| at <= t < order.len() ==> !not_behind(keys[#[trigger] order[t]], keys[x]),
        at > 0 ==> not_behind(keys[order[at - 1]], keys[x]),
    ensures
        placed(keys, order, x) == order.insert(at, x),
    decreases order.len() - at,
{
    if order.len() == 0 {
        assert(order.insert(at, x) =~= seq![x]);
    } else if at == order.len() {
        assert(order.insert(at, x) =~= order.push(x));
    } else {
        let front = order.drop_last();
        assert(!not_behind(keys[order[order.len() - 1]], keys[x]));
        assert forall|t: int| at <= t < front.len() implies !not_behind(
            keys[#[trigger] front[t]],
            keys[x],
        ) by {
            assert(front[t] == order[t]);
        }
        lemma_placed_is_insert(keys, front, x, at);
        assert(order.insert(at, x) =~= front.insert(at, x).push(order.last()));
    }
}

/// Of two strings, one does not come behind the other.
pub proof fn lemma_not_behind_total(a: Seq<char>, b: Seq<char>, from: int)
    requires
        0 <= from,
    ensures
        not_behind_from(a, b, from) || not_behind_from(b, a, from),
    decreases a.len() - from,
{
    if from < a.len() && from < b.len() && a[from] == b[from] {
        lemma_not_behind_total(a, b, from + 1);
    }
}

/// Where `a` does not come behind `b`, and `b` not behind `c`, `a` does not
/// come behind `c`.
pub proof fn lemma_not_behind_transitive(a: Seq<char>, b: Seq<char>, c: Seq<char>, from: int)
    requires
        0 <= from,
        not_behind_from(a, b, from),
        not_behind_from(b, c, from),
    ensures
        not_behind_from(a, c, from),
    decreases a.len() - from,
{
    if from < a.len() && a[from] == b[from] && b[from] == c[from] {
        lemma_not_behind_transitive(a, b, c, from + 1);
    }
}

/// The positions `order` stand in the order of their keys.
pub open spec fn in_key_order(keys: Seq<Seq<char>>, order: Seq<int>) -> bool {
    forall|i: int, j: int|
        0 <= i < j < order.len() ==> not_behind(keys[#[trigger] order[i]], keys[#[trigger] order[j]])
}

/// Positions of `order` whose keys are the same stand in rising order.
pub open spec fn keeps_ties(keys: Seq<Seq<char>>, order: Seq<int>) -> bool {
    forall|i: int, j: int|
        0 <= i < j < order.len() && not_behind(keys[#[trigger] order[j]], keys[#[trigger] order[i]])
            ==> order[i] < order[j]
}

/// Putting a position into positions that stand in the order of their keys
/// leaves them in that order; and where all of them are smaller than the new
/// one and ties stand in rising order, they still do.
proof fn lemma_placed_in_order(keys: Seq<Seq<char>>, order: Seq<int>, x: int)
    requires
        in_key_order(keys, order),
        keeps_ties(keys, order),
        forall|i: int| 0 <= i < order.len() ==> #[trigger] order[i] < x,
    ensures
        in_key_order(keys, placed(keys, order, x)),
        keeps_ties(keys, placed(keys, order, x)),
    decreases order.len(),
{
    let result = placed(keys, order, x);
    if order.len() == 0 {
    } else if not_behind(keys[order.last()], keys[x]) {
        let end = order.len() - 1;
        assert forall|i: int, j: int| 0 <= i < j < result.len() implies not_behind(
            keys[#[trigger] result[i]],
            keys[#[trigger] result[j]],
        ) by {
            if j == order.len() {
                if i < end {
                    assert(not_behind(keys[order[i]], keys[order[end]]));
                    lemma_not_behind_transitive(keys[order[i]], keys[order[end]], keys[x], 0);
                }
            } else {
                assert(result[i] == order[i] && result[j] == order[j]);
            }
        }
        assert forall|i: int, j: int|
            0 <= i < j < result.len() && not_behind(
                keys[#[trigger] result[j]],
                keys[#[trigger] result[i]],
            ) implies result[i] < result[j] by {
            if j == order.len() {
                assert(result[i] == order[i]);
            } else {
                assert(result[i] == order[i] && result[j] == order[j]);
            }
        }
    } else {
        let front = order.drop_last();
        let last = order.last();
        let end = order.len() - 1;
        let inner = placed(keys, front, x);
        assert forall|i: int, j: int| 0 <= i < j < front.len() implies not_behind(
            keys[#[trigger] front[i]],
            keys[#[trigger] front[j]],
        ) by {
            assert(front[i] == order[i] && front[j] == order[j]);
        }
        assert forall|i: int, j: int|
            0 <= i < j < front.len() && not_behind(
                keys[#[trigger] front[j]],
                keys[#[trigger] front[i]],
            ) implies front[i] < front[j] by {
            assert(front[i] == order[i] && front[j] == order[j]);
        }
        assert forall|i: int| 0 <= i < front.len() implies #[trigger] front[i] < x by {
            assert(front[i] == order[i]);
        }
        lemma_placed_in_order(keys, front, x);
        lemma_not_behind_total(keys[last], keys[x], 0);
        assert(order[end] == last);
        assert forall|i: int, j: int| 0 <= i < j < result.len() implies not_behind(
            keys[#[trigger] result[i]],
            keys[#[trigger] result[j]],
        ) by {
            if j == inner.len() {
                let y = inner[i];
                lemma_placed_holds(keys, front, x, y);
                if y != x {
                    let k = choose|k: int| 0 <= k < front.len() && front[k] == y;
                    assert(order[k] == y);
                    assert(not_behind(keys[order[k]], keys[order[end]]));
                }
            } else {
                assert(result[i] == inner[i] && result[j] == inner[j]);
            }
        }
        assert forall|i: int, j: int|
            0 <= i < j < result.len() && not_behind(
                keys[#[trigger] result[j]],
                keys[#[trigger] result[i]],
            ) implies result[i] < result[j] by {
            if j == inner.len() {
                let y = inner[i];
                lemma_placed_holds(keys, front, x, y);
                if y != x {
                    let k = choose|k: int| 0 <= k < front.len() && front[k] == y;
                    assert(order[k] == y);
                    assert(not_behind(keys[order[end]], keys[order[k]]));
                }
            } else {
                assert(result[i] == inner[i] && result[j] == inner[j]);
            }
        }
    }
}

/// The order of the first `n` positions is sorted by key, and positions with
/// the same key stand as they stood.
proof fn lemma_ordered_in_order(keys: Seq<Seq<char>>, n: nat)
    ensures
        in_key_order(keys, ordered(keys, n)),
        keeps_ties(keys, ordered(keys, n)),
    decreases n,
{
    if n > 0 {
        let before = ordered(keys, (n - 1) as nat);
        lemma_ordered_in_order(keys, (n - 1) as nat);
        assert forall|i: int| 0 <= i < before.len() implies #[trigger] before[i] < n - 1 by {
            lemma_ordered_holds_each_position(keys, (n - 1) as nat, before[i]);
        }
        lemma_placed_in_order(keys, before, n - 1);
    }
}

/// The order in which a listing shows names is a stable sort of them: it
/// holds every position once, the keys of the names never fall from one
/// place to the next, and names with the same key stand in the order in
/// which they came.
pub proof fn lemma_listing_order_is_stable_sort(names: Seq<Seq<char>>)
    ensures
        listing_order(names).len() == names.len(),
        forall|y: int| listing_order(names).contains(y) <==> 0 <= y < names.len(),
        in_key_order(keys_of(names), listing_order(names)),
        keeps_ties(keys_of(names), listing_order(names)),
{
    let keys = keys_of(names);
    lemma_ordered_in_order(keys, names.len());
    lemma_ordered_holds_each_position(keys, names.len(), 0);
    assert forall|y: int| listing_order(names).contains(y) <==> 0 <= y < names.len() by {
        lemma_ordered_holds_each_position(keys, names.len(), y);
    }
}

/// The key by which `name` is ordered.
pub fn key_of(name: &str) -> (key: Vec<char>)
    ensures
        key@ == sort_key(name@),
{
    let chars = chars_of(name);
    let mut key: Vec<char> = Vec::new();
    let mut i: usize = 0;
    assert(chars@.take(0) =~= Seq::empty());
    while i < chars.len()
        invariant
            chars@ == name@,
            i <= chars.len(),
            key@ == sort_key(chars@.take(i as int)),
        decreases chars.len() - i,
    {
        let c = chars[i];
        assert(chars@.take(i + 1).drop_last() =~= chars@.take(i as int));
        assert(chars@.take(i + 1).last() == c);
        if c.is_alphanumeric() {
            key.push(c.to_ascii_lowercase());
        }
        i += 1;
    }
    assert(chars@.take(chars.len() as int) =~= chars@);
    key
}

/// Whether the key `a` does not come behind the key `b`.
pub fn key_not_behind(a: &Vec<char>, b: &Vec<char>) -> (result: bool)
    ensures
        result == not_behind(a@, b@),
{
    let mut i: usize = 0;
    while i < a.len()
        invariant
            i <= a.len(),
            not_behind(a@, b@) == not_behind_from(a@, b@, i as int),
        decreases a.len() - i,
    {
        if i >= b.len() {
            return false;
        }
        if a[i] != b[i] {
            return a[i] < b[i];
        }
        i += 1;
    }
    true
}

/// The positions of `names` in the order in which a listing shows them.
pub fn order_names(names: &Vec<String>) -> (order: Vec<usize>)
    ensures
        positions(order@) == listing_order(texts(names@)),
{
    let ghost all_keys = keys_of(texts(names@));
    let mut keys: Vec<Vec<char>> = Vec::new();
    let mut k: usize = 0;
    while k < names.len()
        invariant
            k <= names.len(),
            keys.len() == k,
            all_keys == keys_of(texts(names@)),
            forall|i: int| 0 <= i < k ==> (#[trigger] keys[i])@ == all_keys[i],
        decreases names.len() - k,
    {
        let key = key_of(names[k].as_str());
        assert(texts(names@)[k as int] == names[k as int]@);
        keys.push(key);
        k += 1;
    }
    let mut order: Vec<usize> = Vec::new();
    let mut n: usize = 0;
    assert(positions(order@) =~= ordered(all_keys, 0));
    while n < names.len()
        invariant
            n <= names.len(),
            keys.len() == names.len(),
            all_keys == keys_of(texts(names@)),
            forall|i: int| 0 <= i < keys.len() ==> (#[trigger] keys[i])@ == all_keys[i],
            order.len() == n,
            forall|t: int| 0 <= t < order.len() ==> (#[trigger] order[t]) < n,
            positions(order@) == ordered(all_keys, n as nat),
        decreases names.len() - n,
    {
        let ghost before = positions(order@);
        let mut at: usize = order.len();
        while at > 0 && !key_not_behind(&keys[order[at - 1]], &keys[n])
            invariant
                at <= order.len(),
                n < names.len(),
                keys.len() == names.len(),
                order.len() == n,
                before == positions(order@),
                forall|i: int| 0 <= i < keys.len() ==> (#[trigger] keys[i])@ == all_keys[i],
                forall|t: int| 0 <= t < order.len() ==> (#[trigger] order[t]) < n,
                forall|t: int|
                    at <= t < before.len() ==> !not_behind(
                        all_keys[#[trigger] before[t]],
                        all_keys[n as int],
                    ),
            decreases at,
        {
            assert(before[at - 1] == order[at - 1]);
            at -= 1;
        }
        proof {
            if at > 0 {
                assert(before[at - 1] == order[at - 1]);
            }
            lemma_placed_is_insert(all_keys, before, n as int, at as int);
        }
        order.insert(at, n);
        assert(positions(order@) =~= before.insert(at as int, n as int));
        n += 1;
    }
    order
}

} // verus!
