//! Stable sorting by keys: a group (directories before files, say), then a
//! text in the order of `str` (code point by code point), then a number,
//! the text and number optionally in descending order.
use vstd::prelude::*;

verus! {

/// Three-way comparison of two texts in the order of `str`: code point by
/// code point, a proper prefix first.  Negative, zero or positive.
pub open spec fn lex_order(a: Seq<char>, b: Seq<char>) -> int
    decreases a.len(),
{
    if a.len() == 0 {
        if b.len() == 0 {
            0
        } else {
            -1
        }
    } else if b.len() == 0 {
        1
    } else if a[0] < b[0] {
        -1
    } else if a[0] > b[0] {
        1
    } else {
        lex_order(a.drop_first(), b.drop_first())
    }
}

/// Comparing the other way round gives the opposite answer.
pub proof fn lemma_lex_antisymmetric(a: Seq<char>, b: Seq<char>)
    ensures
        lex_order(a, b) == -lex_order(b, a),
        -1 <= lex_order(a, b) <= 1,
    decreases a.len(),
{
    if a.len() > 0 && b.len() > 0 && a[0] == b[0] {
        lemma_lex_antisymmetric(a.drop_first(), b.drop_first());
    }
}

/// Texts compare equal only when they are equal.
pub proof fn lemma_lex_equal(a: Seq<char>, b: Seq<char>)
    ensures
        lex_order(a, b) == 0 <==> a == b,
    decreases a.len(),
{
    if a.len() == 0 && b.len() == 0 {
        assert(a =~= b);
    }
    if a.len() > 0 && b.len() > 0 {
        if a[0] == b[0] {
            lemma_lex_equal(a.drop_first(), b.drop_first());
            if a.drop_first() == b.drop_first() {
                assert(a =~= seq![a[0]] + a.drop_first());
                assert(b =~= seq![b[0]] + b.drop_first());
            }
        }
    }
}

/// The order of texts is transitive, and two steps of which one is strict
/// give a strict step.
pub proof fn lemma_lex_transitive(a: Seq<char>, b: Seq<char>, c: Seq<char>)
    requires
        lex_order(a, b) <= 0,
        lex_order(b, c) <= 0,
    ensures
        lex_order(a, c) <= 0,
        lex_order(a, c) == 0 ==> lex_order(a, b) == 0 && lex_order(b, c) == 0,
    decreases a.len(),
{
    if a.len() > 0 && b.len() > 0 && c.len() > 0 && a[0] == b[0] && b[0] == c[0] {
        lemma_lex_transitive(a.drop_first(), b.drop_first(), c.drop_first());
    }
}

/// A sort key: group, text, number.
pub struct SortKey {
    pub group: u8,
    pub text: Vec<char>,
    pub number: u64,
}

/// The model of a sort key.
pub type KeyView = (u8, Seq<char>, u64);

/// The model of a sort key.
pub open spec fn key_view(k: SortKey) -> KeyView {
    (k.group, k.text@, k.number)
}

/// Three-way comparison of two numbers.
pub open spec fn num_order(a: u64, b: u64) -> int {
    if a < b {
        -1
    } else if a > b {
        1
    } else {
        0
    }
}

/// Comparison of text then number.
pub open spec fn secondary_order(a: KeyView, b: KeyView) -> int {
    let t = lex_order(a.1, b.1);
    if t != 0 {
        t
    } else {
        num_order(a.2, b.2)
    }
}

/// Comparison of two keys: the group ascending, then text and number
/// ascending, or descending when `desc`.
pub open spec fn key_order(a: KeyView, b: KeyView, desc: bool) -> int {
    if a.0 < b.0 {
        -1
    } else if a.0 > b.0 {
        1
    } else if desc {
        secondary_order(b, a)
    } else {
        secondary_order(a, b)
    }
}

/// Comparing keys the other way round gives the opposite answer, and
/// equality means equal keys.
pub proof fn lemma_key_antisymmetric(a: KeyView, b: KeyView, desc: bool)
    ensures
        key_order(a, b, desc) == -key_order(b, a, desc),
        key_order(a, b, desc) == 0 <==> a == b,
{
    lemma_lex_antisymmetric(a.1, b.1);
    lemma_lex_equal(a.1, b.1);
    lemma_lex_antisymmetric(b.1, a.1);
    lemma_lex_equal(b.1, a.1);
}

/// The order of keys is transitive, strictly so when one step is strict.
pub proof fn lemma_key_transitive(a: KeyView, b: KeyView, c: KeyView, desc: bool)
    requires
        key_order(a, b, desc) <= 0,
        key_order(b, c, desc) <= 0,
    ensures
        key_order(a, c, desc) <= 0,
        key_order(a, c, desc) == 0 ==> key_order(a, b, desc) == 0 && key_order(b, c, desc) == 0,
{
    lemma_key_antisymmetric(a, b, desc);
    lemma_key_antisymmetric(b, c, desc);
    lemma_key_antisymmetric(a, c, desc);
    lemma_lex_antisymmetric(a.1, b.1);
    lemma_lex_antisymmetric(b.1, c.1);
    lemma_lex_antisymmetric(a.1, c.1);
    lemma_lex_equal(a.1, b.1);
    lemma_lex_equal(b.1, c.1);
    lemma_lex_equal(a.1, c.1);
    if a.0 == b.0 && b.0 == c.0 {
        if desc {
            if lex_order(c.1, b.1) <= 0 && lex_order(b.1, a.1) <= 0 {
                lemma_lex_transitive(c.1, b.1, a.1);
            }
        } else {
            if lex_order(a.1, b.1) <= 0 && lex_order(b.1, c.1) <= 0 {
                lemma_lex_transitive(a.1, b.1, c.1);
            }
        }
    }
}

/// `order` lists each position below `n` exactly once.
pub open spec fn is_order_of(order: Seq<usize>, n: nat) -> bool {
    &&& order.len() == n
    &&& order.no_duplicates()
    &&& forall|i: int| 0 <= i < order.len() ==> #[trigger] order[i] < n
}

/// Along `order`, keys never decrease.
pub open spec fn sorted_along(order: Seq<usize>, keys: Seq<KeyView>, desc: bool) -> bool {
    forall|x: int, y: int|
        0 <= x < y < order.len() ==> key_order(
            keys[#[trigger] order[x] as int],
            keys[#[trigger] order[y] as int],
            desc,
        ) <= 0
}

/// Along `order`, positions with equal keys keep their original order.
pub open spec fn stable_along(order: Seq<usize>, keys: Seq<KeyView>, desc: bool) -> bool {
    forall|x: int, y: int|
        0 <= x < y < order.len() && key_order(
            keys[#[trigger] order[x] as int],
            keys[#[trigger] order[y] as int],
            desc,
        ) == 0 ==> order[x] < order[y]
}

/// `order` is the stable sort of the positions of `keys`.
pub open spec fn stable_sort_of(order: Seq<usize>, keys: Seq<KeyView>, desc: bool) -> bool {
    &&& is_order_of(order, keys.len())
    &&& sorted_along(order, keys, desc)
    &&& stable_along(order, keys, desc)
}

/// The models of a sequence of keys.
pub open spec fn key_views(keys: Seq<SortKey>) -> Seq<KeyView> {
    keys.map_values(|k: SortKey| key_view(k))
}

fn lex_order_exec(a: &Vec<char>, b: &Vec<char>) -> (r: i8)
    ensures
        r as int == lex_order(a@, b@),
{
    let mut i: usize = 0;
    assert(a@.skip(0) =~= a@);
    assert(b@.skip(0) =~= b@);
    while i < a.len() && i < b.len()
        invariant
            i <= a@.len(),
            i <= b@.len(),
            lex_order(a@, b@) == lex_order(a@.skip(i as int), b@.skip(i as int)),
        decreases a@.len() - i,
    {
        let x = a[i];
        let y = b[i];
        if x < y {
            return -1;
        }
        if x > y {
            return 1;
        }
        assert(a@.skip(i as int).drop_first() =~= a@.skip(i as int + 1));
        assert(b@.skip(i as int).drop_first() =~= b@.skip(i as int + 1));
        i = i + 1;
    }
    if i < a.len() {
        1
    } else if i < b.len() {
        -1
    } else {
        0
    }
}

/// Compare two keys (see `key_order`).
pub fn compare_keys(a: &SortKey, b: &SortKey, desc: bool) -> (r: i8)
    ensures
        r as int == key_order(key_view(*a), key_view(*b), desc),
{
    if a.group < b.group {
        return -1;
    }
    if a.group > b.group {
        return 1;
    }
    let (x, y) = if desc {
        (b, a)
    } else {
        (a, b)
    };
    let t = lex_order_exec(&x.text, &y.text);
    if t != 0 {
        t
    } else if x.number < y.number {
        -1
    } else if x.number > y.number {
        1
    } else {
        0
    }
}

/// The stable sort of the positions of `keys`: the positions in the order
/// their keys take, equal keys keeping their order.
pub fn stable_sort_order(keys: &Vec<SortKey>, desc: bool) -> (order: Vec<usize>)
    ensures
        stable_sort_of(order@, key_views(keys@), desc),
{
    let ghost kv = key_views(keys@);
    let n = keys.len();
    let mut order: Vec<usize> = Vec::new();
    let mut i: usize = 0;
    while i < n
        invariant
            n == keys@.len(),
            kv == key_views(keys@),
            kv.len() == n,
            i <= n,
            is_order_of(order@, i as nat),
            sorted_along(order@, kv, desc),
            stable_along(order@, kv, desc),
        decreases n - i,
    {
        let mut p: usize = 0;
        while p < order.len() && compare_keys(&keys[order[p]], &keys[i], desc) <= 0
            invariant
                n == keys@.len(),
                kv == key_views(keys@),
                i < n,
                p <= order@.len(),
                is_order_of(order@, i as nat),
                forall|q: int|
                    0 <= q < p ==> key_order(#[trigger] kv[order@[q] as int], kv[i as int], desc)
                        <= 0,
            decreases order@.len() - p,
        {
            assert(kv[order@[p as int] as int] == key_view(keys@[order@[p as int] as int]));
            p = p + 1;
        }
        proof {
            if p < order@.len() {
                assert(kv[order@[p as int] as int] == key_view(keys@[order@[p as int] as int]));
                assert(key_order(kv[order@[p as int] as int], kv[i as int], desc) > 0);
            }
        }
        let ghost old_order = order@;
        order.insert(p, i);
        proof {
            lemma_insert_keeps_sorted(old_order, kv, desc, p as int, i);
        }
        i = i + 1;
    }
    order
}

/// Inserting the next position after every key not above its own, and
/// before a key above it, keeps the order sorted, stable and complete.
proof fn lemma_insert_keeps_sorted(
    old_order: Seq<usize>,
    kv: Seq<KeyView>,
    desc: bool,
    p: int,
    i: usize,
)
    requires
        i < kv.len(),
        0 <= p <= old_order.len(),
        is_order_of(old_order, i as nat),
        sorted_along(old_order, kv, desc),
        stable_along(old_order, kv, desc),
        forall|q: int|
            0 <= q < p ==> key_order(#[trigger] kv[old_order[q] as int], kv[i as int], desc) <= 0,
        p < old_order.len() ==> key_order(kv[old_order[p] as int], kv[i as int], desc) > 0,
    ensures
        is_order_of(old_order.insert(p, i), (i + 1) as nat),
        sorted_along(old_order.insert(p, i), kv, desc),
        stable_along(old_order.insert(p, i), kv, desc),
{
    let o = old_order.insert(p, i);
    assert forall|x: int| 0 <= x < o.len() implies #[trigger] o[x] < i + 1 by {
        if x < p {
            assert(o[x] == old_order[x]);
        } else if x > p {
            assert(o[x] == old_order[x - 1]);
        }
    }
    assert forall|x: int, y: int| 0 <= x < o.len() && 0 <= y < o.len() && x != y implies o[x]
        != o[y] by {
        if x != p && y != p {
            let xx = if x < p {
                x
            } else {
                x - 1
            };
            let yy = if y < p {
                y
            } else {
                y - 1
            };
            assert(o[x] == old_order[xx]);
            assert(o[y] == old_order[yy]);
        } else if x == p {
            let yy = if y < p {
                y
            } else {
                y - 1
            };
            assert(o[y] == old_order[yy]);
            assert(old_order[yy] < i);
        } else {
            let xx = if x < p {
                x
            } else {
                x - 1
            };
            assert(o[x] == old_order[xx]);
            assert(old_order[xx] < i);
        }
    }
    assert forall|x: int, y: int| 0 <= x < y < o.len() implies key_order(
        kv[#[trigger] o[x] as int],
        kv[#[trigger] o[y] as int],
        desc,
    ) <= 0 && (key_order(kv[o[x] as int], kv[o[y] as int], desc) == 0 ==> o[x] < o[y]) by {
        if y < p {
            assert(o[x] == old_order[x] && o[y] == old_order[y]);
        } else if y == p {
            assert(o[x] == old_order[x]);
            assert(old_order[x] < i);
        } else if x < p {
            assert(o[x] == old_order[x] && o[y] == old_order[y - 1]);
        } else if x == p {
            let w = old_order[y - 1];
            assert(o[y] == w);
            assert(o[x] == i);
            lemma_key_antisymmetric(kv[old_order[p] as int], kv[i as int], desc);
            if y - 1 > p {
                assert(key_order(kv[old_order[p] as int], kv[w as int], desc) <= 0);
                lemma_key_transitive(kv[i as int], kv[old_order[p] as int], kv[w as int], desc);
            }
            assert(key_order(kv[i as int], kv[w as int], desc) < 0);
        } else {
            assert(o[x] == old_order[x - 1] && o[y] == old_order[y - 1]);
        }
    }
}

/// The items in the order given: item `order[j]` at place `j`.
pub open spec fn arranged<T>(items: Seq<T>, order: Seq<usize>) -> Seq<T> {
    order.map_values(|i: usize| items[i as int])
}

/// Rearrange `items` so that item `order[j]` comes at place `j`.
pub fn arrange<T>(items: Vec<T>, order: &Vec<usize>) -> (r: Vec<T>)
    requires
        is_order_of(order@, items@.len()),
    ensures
        r@ == arranged(items@, order@),
{
    let ghost orig = items@;
    let mut slots: Vec<Option<T>> = Vec::new();
    let mut rest = items;
    let mut k: usize = 0;
    let n = rest.len();
    while rest.len() > 0
        invariant
            orig.len() == n,
            rest@ == orig.skip(slots@.len() as int),
            slots@.len() + rest@.len() == n,
            forall|j: int| 0 <= j < slots@.len() ==> #[trigger] slots@[j] == Some(orig[j]),
        decreases rest@.len(),
    {
        let x = rest.remove(0);
        slots.push(Some(x));
        assert(rest@ =~= orig.skip(slots@.len() as int));
    }
    let mut r: Vec<T> = Vec::new();
    let mut j: usize = 0;
    while j < order.len()
        invariant
            orig.len() == n,
            slots@.len() == n,
            is_order_of(order@, n as nat),
            j <= order@.len(),
            r@ == arranged(orig, order@.take(j as int)),
            forall|q: int|
                0 <= q < n ==> (#[trigger] slots@[q] == (if order@.take(j as int).contains(
                    q as usize,
                ) {
                    None
                } else {
                    Some(orig[q])
                })),
        decreases order@.len() - j,
    {
        let idx = order[j];
        let mut taken: Option<T> = None;
        slots.set_and_swap(idx, &mut taken);
        proof {
            assert(!order@.take(j as int).contains(idx)) by {
                let before = order@.take(j as int);
                if before.contains(idx) {
                    let w = choose|w: int| 0 <= w < before.len() && #[trigger] before[w] == idx;
                    assert(order@[w] == order@[j as int]);
                }
            }
        }
        match taken {
            Some(x) => {
                r.push(x);
            },
            None => {
                assert(false);
            },
        }
        proof {
            let before = order@.take(j as int);
            let after = order@.take(j as int + 1);
            assert(after =~= before.push(idx));
            assert forall|q: int| 0 <= q < n implies (#[trigger] slots@[q] == (if after.contains(
                q as usize,
            ) {
                None
            } else {
                Some(orig[q])
            })) by {
                if q == idx {
                    assert(after[j as int] == idx);
                    assert(after.contains(idx));
                } else {
                    if after.contains(q as usize) {
                        let w = choose|w: int| 0 <= w < after.len() && #[trigger] after[w] == q as usize;
                        assert(w < j);
                        assert(before[w] == q as usize);
                        assert(before.contains(q as usize));
                    }
                    if before.contains(q as usize) {
                        let w = choose|w: int| 0 <= w < before.len() && #[trigger] before[w] == q as usize;
                        assert(after[w] == q as usize);
                        assert(after.contains(q as usize));
                    }
                }
            }
            assert(r@ =~= arranged(orig, after));
        }
        j = j + 1;
    }
    assert(order@.take(j as int) =~= order@);
    r
}


/// `r` is `items` stably sorted by `keys`.
pub open spec fn sorted_by_keys<T>(r: Seq<T>, items: Seq<T>, keys: Seq<KeyView>, desc: bool) -> bool {
    exists|order: Seq<usize>| #[trigger] stable_sort_of(order, keys, desc) && r == arranged(items, order)
}

/// Sort `items` stably by their keys (one per item).
pub fn sort_by_keys<T>(items: Vec<T>, keys: &Vec<SortKey>, desc: bool) -> (r: Vec<T>)
    requires
        keys@.len() == items@.len(),
    ensures
        sorted_by_keys(r@, items@, key_views(keys@), desc),
{
    let order = stable_sort_order(keys, desc);
    let ghost it = items@;
    let r = arrange(items, &order);
    assert(stable_sort_of(order@, key_views(keys@), desc) && r@ == arranged(it, order@));
    r
}

/// The characters of a text, Unicode lower-cased.
pub fn lowercase_chars(s: &str) -> (r: Vec<char>)
    ensures
        r@ == crate::text::unicode_lowercase(s@),
{
    crate::text::chars_of(crate::text::to_lowercase(s).as_str())
}

} // verus!
