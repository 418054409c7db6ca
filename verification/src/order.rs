use vstd::prelude::*;
use vstd::string::StringSliceAdditionalSpecFns;

verus! {

/// Strict lexicographic order on byte strings: the order of `str` values.
pub open spec fn bytes_lt(a: Seq<u8>, b: Seq<u8>) -> bool
    decreases a.len(),
{
    if a.len() == 0 {
        b.len() > 0
    } else if b.len() == 0 {
        false
    } else if a[0] != b[0] {
        a[0] < b[0]
    } else {
        bytes_lt(a.drop_first(), b.drop_first())
    }
}

/// No byte string precedes itself.
pub proof fn lemma_bytes_lt_irreflexive(a: Seq<u8>)
    ensures
        !bytes_lt(a, a),
    decreases a.len(),
{
    if a.len() > 0 {
        lemma_bytes_lt_irreflexive(a.drop_first());
    }
}

/// The order on byte strings is transitive.
pub proof fn lemma_bytes_lt_transitive(a: Seq<u8>, b: Seq<u8>, c: Seq<u8>)
    requires
        bytes_lt(a, b),
        bytes_lt(b, c),
    ensures
        bytes_lt(a, c),
    decreases a.len(),
{
    if a.len() > 0 && b.len() > 0 && c.len() > 0 && a[0] == b[0] && b[0] == c[0] {
        lemma_bytes_lt_transitive(a.drop_first(), b.drop_first(), c.drop_first());
    }
}

/// Two different byte strings are ordered one way or the other.
pub proof fn lemma_bytes_lt_total(a: Seq<u8>, b: Seq<u8>)
    ensures
        a == b || bytes_lt(a, b) || bytes_lt(b, a),
    decreases a.len(),
{
    if a.len() > 0 && b.len() > 0 && a[0] == b[0] {
        lemma_bytes_lt_total(a.drop_first(), b.drop_first());
        if a.drop_first() == b.drop_first() {
            assert(a =~= seq![a[0]] + a.drop_first());
            assert(b =~= seq![b[0]] + b.drop_first());
        }
    } else if a.len() == 0 && b.len() == 0 {
        assert(a =~= b);
    }
}

/// If `a` precedes `b` and `c` does not precede `b`, then `a` precedes `c`.
proof fn lemma_bytes_lt_before_not_below(a: Seq<u8>, b: Seq<u8>, c: Seq<u8>)
    requires
        bytes_lt(a, b),
        !bytes_lt(c, b),
    ensures
        bytes_lt(a, c),
{
    lemma_bytes_lt_total(b, c);
    if b != c {
        lemma_bytes_lt_transitive(a, b, c);
    }
}

/// Byte strings are ordered by their first differing byte, compared as numbers:
/// where `a` and `b` agree on their first `k` bytes and differ at byte `k`, `a`
/// precedes `b` exactly when its byte `k` is the smaller one.
pub proof fn lemma_bytes_lt_first_difference(a: Seq<u8>, b: Seq<u8>, k: int)
    requires
        0 <= k < a.len(),
        k < b.len(),
        forall|j: int| 0 <= j < k ==> a[j] == b[j],
        a[k] != b[k],
    ensures
        bytes_lt(a, b) == (a[k] < b[k]),
        bytes_lt(b, a) == (b[k] < a[k]),
    decreases k,
{
    if k > 0 {
        lemma_bytes_lt_first_difference(a.drop_first(), b.drop_first(), k - 1);
    }
}

/// A byte string precedes every longer string that it begins, and no string
/// precedes one of its own beginnings.
pub proof fn lemma_bytes_lt_proper_prefix(a: Seq<u8>, b: Seq<u8>)
    requires
        a.len() < b.len(),
        forall|j: int| 0 <= j < a.len() ==> a[j] == b[j],
    ensures
        bytes_lt(a, b),
        !bytes_lt(b, a),
    decreases a.len(),
{
    if a.len() > 0 {
        lemma_bytes_lt_proper_prefix(a.drop_first(), b.drop_first());
    }
}

/// Whether `a` precedes `b` in the order of `str`, byte by byte.
pub fn str_lt(a: &str, b: &str) -> (r: bool)
    ensures
        r == bytes_lt(a.spec_bytes(), b.spec_bytes()),
{
    let x = a.as_bytes();
    let y = b.as_bytes();
    let mut i: usize = 0;
    assert(x@.skip(0) =~= x@);
    assert(y@.skip(0) =~= y@);
    while i < x.len() && i < y.len()
        invariant
            x@ == a.spec_bytes(),
            y@ == b.spec_bytes(),
            i <= x@.len(),
            i <= y@.len(),
            bytes_lt(x@, y@) == bytes_lt(x@.skip(i as int), y@.skip(i as int)),
        decreases x@.len() - i,
    {
        if x[i] != y[i] {
            return x[i] < y[i];
        }
        assert(x@.skip(i as int).drop_first() =~= x@.skip(i + 1));
        assert(y@.skip(i as int).drop_first() =~= y@.skip(i + 1));
        i = i + 1;
    }
    i < y.len()
}

/// Whether `a` and `b` are the same string, byte by byte.
pub fn str_eq(a: &str, b: &str) -> (r: bool)
    ensures
        r == (a.spec_bytes() == b.spec_bytes()),
{
    let x = a.as_bytes();
    let y = b.as_bytes();
    if x.len() != y.len() {
        return false;
    }
    let mut i: usize = 0;
    while i < x.len()
        invariant
            x@ == a.spec_bytes(),
            y@ == b.spec_bytes(),
            x@.len() == y@.len(),
            i <= x@.len(),
            forall|j: int| 0 <= j < i ==> x@[j] == y@[j],
        decreases x@.len() - i,
    {
        if x[i] != y[i] {
            return false;
        }
        i = i + 1;
    }
    assert(x@ =~= y@);
    true
}

/// The byte strings of a sequence of names.
pub open spec fn name_keys(names: Seq<&str>) -> Seq<Seq<u8>> {
    names.map_values(|s: &str| s.spec_bytes())
}

/// The key of each name is its UTF-8 bytes, the bytes that `str` comparison reads.
pub proof fn lemma_name_keys_are_bytes(names: Seq<&str>)
    ensures
        name_keys(names).len() == names.len(),
        forall|i: int| 0 <= i < names.len() ==> #[trigger] name_keys(names)[i] == names[i].spec_bytes(),
{
}

/// Whether position `i` comes before position `j` when positions are ordered by
/// their keys, ties kept in position order (what a stable sort by key gives).
pub open spec fn key_before(keys: Seq<Seq<u8>>, i: int, j: int) -> bool {
    bytes_lt(keys[i], keys[j]) || (!bytes_lt(keys[j], keys[i]) && i < j)
}

/// `order` lists the positions `0..keys.len()` in the order that a stable sort by
/// key puts them: every position lies in range, and each one listed comes
/// strictly before every one listed after it.
pub open spec fn is_stable_sort_order(keys: Seq<Seq<u8>>, order: Seq<u8>) -> bool {
    &&& order.len() == keys.len()
    &&& forall|k: int| 0 <= k < order.len() ==> (#[trigger] order[k]) < keys.len()
    &&& forall|k: int, l: int|
        #![trigger order[k], order[l]]
        0 <= k < l < order.len() ==> key_before(keys, order[k] as int, order[l] as int)
}

/// The position in `order` before which `names[x]` goes: after every listed name
/// that it does not precede, before the first one that it precedes.
fn insertion_point(names: &Vec<&str>, order: &Vec<u8>, x: usize) -> (pos: usize)
    requires
        x < names.len(),
        forall|k: int| 0 <= k < order.len() ==> (#[trigger] order[k]) < names.len(),
    ensures
        pos <= order.len(),
        forall|k: int|
            0 <= k < pos ==> !bytes_lt(
                names@[x as int].spec_bytes(),
                (#[trigger] names@[order@[k] as int]).spec_bytes(),
            ),
        pos < order.len() ==> bytes_lt(
            names@[x as int].spec_bytes(),
            names@[order@[pos as int] as int].spec_bytes(),
        ),
{
    let mut pos: usize = 0;
    while pos < order.len()
        invariant
            x < names.len(),
            pos <= order.len(),
            forall|k: int| 0 <= k < order.len() ==> (#[trigger] order[k]) < names.len(),
            forall|k: int|
                0 <= k < pos ==> !bytes_lt(
                    names@[x as int].spec_bytes(),
                    (#[trigger] names@[order@[k] as int]).spec_bytes(),
                ),
        decreases order.len() - pos,
    {
        let idx = order[pos] as usize;
        if str_lt(names[x], names[idx]) {
            return pos;
        }
        pos = pos + 1;
    }
    pos
}

/// The positions of `names` in the order that a stable sort by name gives: the
/// `k`-th entry is the index in `names` of the name that comes `k`-th in sorted
/// order, equal names keeping their relative order.
pub fn stable_sort_order(names: &Vec<&str>) -> (order: Vec<u8>)
    requires
        names.len() <= 256,
    ensures
        is_stable_sort_order(name_keys(names@), order@),
{
    let ghost keys = name_keys(names@);
    let n = names.len();
    let mut order: Vec<u8> = Vec::new();
    let mut i: usize = 0;
    while i < n
        invariant
            n == names.len(),
            n <= 256,
            i <= n,
            keys == name_keys(names@),
            order.len() == i,
            forall|k: int| 0 <= k < order.len() ==> (#[trigger] order[k]) < i,
            forall|k: int, l: int|
                #![trigger order@[k], order@[l]]
                0 <= k < l < order.len() ==> key_before(keys, order@[k] as int, order@[l] as int),
        decreases n - i,
    {
        let pos = insertion_point(names, &order, i);
        let ghost old_order = order@;
        proof {
            assert forall|k: int| 0 <= k < pos implies key_before(keys, old_order[k] as int, i as int) by {
                assert(keys[old_order[k] as int] == names@[old_order[k] as int].spec_bytes());
                assert(keys[i as int] == names@[i as int].spec_bytes());
            }
            assert forall|k: int| pos <= k < old_order.len() implies key_before(keys, i as int, old_order[k] as int) by {
                let p = old_order[pos as int] as int;
                let q = old_order[k] as int;
                assert(keys[p] == names@[p].spec_bytes());
                assert(keys[i as int] == names@[i as int].spec_bytes());
                if k != pos {
                    assert(key_before(keys, p, q));
                    if bytes_lt(keys[p], keys[q]) {
                        lemma_bytes_lt_transitive(keys[i as int], keys[p], keys[q]);
                    } else {
                        lemma_bytes_lt_before_not_below(keys[i as int], keys[p], keys[q]);
                    }
                }
            }
        }
        order.insert(pos, i as u8);
        proof {
            old_order.insert_ensures(pos as int, i as u8);
            assert forall|k: int, l: int|
                #![trigger order@[k], order@[l]]
                0 <= k < l < order.len() implies key_before(keys, order@[k] as int, order@[l] as int) by {
                if k < pos {
                    if l < pos {
                        assert(order@[l] == old_order[l]);
                    } else if l > pos {
                        assert(order@[l] == old_order[l - 1]);
                    }
                } else if k == pos {
                    assert(order@[l] == old_order[l - 1]);
                } else {
                    assert(order@[k] == old_order[k - 1]);
                    assert(order@[l] == old_order[l - 1]);
                }
            }
        }
        i = i + 1;
    }
    order
}

/// Whether position `p` appears in `order`.
pub open spec fn lists_position(order: Seq<u8>, p: int) -> bool {
    exists|k: int| 0 <= k < order.len() && #[trigger] order[k] == p
}

/// No position comes before itself, and no two positions come before each other.
pub proof fn lemma_key_before_asymmetric(keys: Seq<Seq<u8>>, i: int, j: int)
    requires
        0 <= i < keys.len(),
        0 <= j < keys.len(),
    ensures
        !(key_before(keys, i, j) && key_before(keys, j, i)),
        !key_before(keys, i, i),
{
    lemma_bytes_lt_irreflexive(keys[i]);
    if bytes_lt(keys[i], keys[j]) && bytes_lt(keys[j], keys[i]) {
        lemma_bytes_lt_transitive(keys[i], keys[j], keys[i]);
    }
}

/// An order that a stable sort by key gives lists each position exactly once, and
/// the keys read in that order never decrease.
pub proof fn lemma_stable_sort_order_is_sorted_permutation(keys: Seq<Seq<u8>>, order: Seq<u8>)
    requires
        is_stable_sort_order(keys, order),
    ensures
        forall|k: int, l: int|
            #![trigger order[k], order[l]]
            0 <= k < l < order.len() ==> order[k] != order[l],
        forall|p: int| 0 <= p < keys.len() ==> #[trigger] lists_position(order, p),
        forall|k: int, l: int|
            #![trigger order[k], order[l]]
            0 <= k < l < order.len() ==> !bytes_lt(keys[order[l] as int], keys[order[k] as int]),
        forall|k: int, l: int|
            #![trigger order[k], order[l]]
            0 <= k < l < order.len() && keys[order[k] as int] == keys[order[l] as int] ==> order[k] < order[l],
{
    assert forall|k: int, l: int|
        #![trigger order[k], order[l]]
        0 <= k < l < order.len() && keys[order[k] as int] == keys[order[l] as int] implies order[k] < order[l] by {
        lemma_bytes_lt_irreflexive(keys[order[k] as int]);
        assert(key_before(keys, order[k] as int, order[l] as int));
    }
    let n = order.len() as int;
    assert forall|k: int, l: int|
        #![trigger order[k], order[l]]
        0 <= k < l < n implies order[k] != order[l] && !bytes_lt(keys[order[l] as int], keys[order[k] as int]) by {
        lemma_key_before_asymmetric(keys, order[k] as int, order[l] as int);
        let a = keys[order[k] as int];
        let b = keys[order[l] as int];
        if bytes_lt(b, a) && bytes_lt(a, b) {
            lemma_bytes_lt_transitive(a, b, a);
            lemma_bytes_lt_irreflexive(a);
        }
    }
    let ints = Seq::new(n as nat, |k: int| order[k] as int);
    assert(ints.no_duplicates()) by {
        assert forall|k: int, l: int| 0 <= k < ints.len() && 0 <= l < ints.len() && k != l implies ints[k] != ints[l] by {
            if k < l {
                assert(order[k] != order[l]);
            } else {
                assert(order[l] != order[k]);
            }
        }
    }
    ints.unique_seq_to_set();
    let range = vstd::set_lib::set_int_range(0, n);
    vstd::set_lib::lemma_int_range(0, n);
    assert(ints.to_set().subset_of(range)) by {
        assert forall|x: int| ints.to_set().contains(x) implies range.contains(x) by {
            let k = choose|k: int| 0 <= k < ints.len() && ints[k] == x;
            assert(order[k] < keys.len());
        }
    }
    vstd::set_lib::lemma_subset_equality(ints.to_set(), range);
    assert forall|p: int| 0 <= p < keys.len() implies #[trigger] lists_position(order, p) by {
        assert(range.contains(p));
        assert(ints.to_set().contains(p));
        let k = choose|k: int| 0 <= k < ints.len() && ints[k] == p;
        assert(order[k] == p);
    }
}

/// Two orders that both meet `is_stable_sort_order` for the same keys agree on
/// their first `k + 1` entries.
proof fn lemma_stable_sort_order_unique_prefix(keys: Seq<Seq<u8>>, o1: Seq<u8>, o2: Seq<u8>, k: int)
    requires
        is_stable_sort_order(keys, o1),
        is_stable_sort_order(keys, o2),
        0 <= k < o1.len(),
    ensures
        forall|j: int| 0 <= j <= k ==> o1[j] == o2[j],
    decreases k,
{
    if k > 0 {
        lemma_stable_sort_order_unique_prefix(keys, o1, o2, k - 1);
    }
    lemma_stable_sort_order_is_sorted_permutation(keys, o1);
    lemma_stable_sort_order_is_sorted_permutation(keys, o2);
    let a = o1[k];
    let b = o2[k];
    if a != b {
        assert(lists_position(o1, b as int));
        assert(lists_position(o2, a as int));
        let m = choose|m: int| 0 <= m < o1.len() && #[trigger] o1[m] == b as int;
        let m2 = choose|m: int| 0 <= m < o2.len() && #[trigger] o2[m] == a as int;
        if m < k {
            assert(o2[m] == b);
        }
        if m2 < k {
            assert(o1[m2] == a);
        }
        assert(key_before(keys, a as int, b as int));
        assert(key_before(keys, b as int, a as int));
        lemma_key_before_asymmetric(keys, a as int, b as int);
    }
}

/// The order that a stable sort by key gives is unique: any two orders that meet
/// `is_stable_sort_order` for the same keys are equal.
pub proof fn lemma_stable_sort_order_unique(keys: Seq<Seq<u8>>, o1: Seq<u8>, o2: Seq<u8>)
    requires
        is_stable_sort_order(keys, o1),
        is_stable_sort_order(keys, o2),
    ensures
        o1 == o2,
{
    if o1.len() > 0 {
        lemma_stable_sort_order_unique_prefix(keys, o1, o2, o1.len() - 1);
    }
    assert(o1 =~= o2);
}

} // verus!
