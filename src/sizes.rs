//! The list of icon sizes: range filtering, ordering and deduplication.

use vstd::prelude::*;

verus! {

/// The smallest icon edge, in pixels, that the container can hold.
pub const MIN_SIZE: u32 = 1;

/// The largest icon edge, in pixels, that the container can hold.
pub const MAX_SIZE: u32 = 256;

/// A size that the container can hold.
pub open spec fn in_range(s: u32) -> bool {
    MIN_SIZE <= s && s <= MAX_SIZE
}

/// Strictly ascending: sorted, with no value twice.
pub open spec fn strictly_ascending(s: Seq<u32>) -> bool {
    forall|i: int, j: int| 0 <= i < j < s.len() ==> s[i] < s[j]
}

/// What is left of a requested size list: the in-range sizes, ascending and
/// each once; and every out-of-range request, ascending, repeats kept.
pub struct CleanedSizes {
    pub kept: Vec<u32>,
    pub removed: Vec<u32>,
}

/// The requested sizes that fall outside the supported range, in request order.
/// `CleanedSizes::removed` holds the same values, sorted.
pub open spec fn removed_of(sizes: Seq<u32>) -> Seq<u32> {
    sizes.filter(|s: u32| !in_range(s))
}

/// `kept` is the cleaned form of `sizes`: ascending, each value once, and
/// holding exactly the in-range values of `sizes`.
pub open spec fn is_cleaned(sizes: Seq<u32>, kept: Seq<u32>) -> bool {
    &&& strictly_ascending(kept)
    &&& forall|x: u32| #![trigger kept.contains(x)] kept.contains(x) <==> (sizes.contains(x) && in_range(x))
}

/// Ascending, repeats allowed.
pub open spec fn ascending(s: Seq<u32>) -> bool {
    forall|i: int, j: int| 0 <= i <= j < s.len() ==> s[i] <= s[j]
}

/// `removed` lists the out-of-range requests of `sizes` in ascending order,
/// each as often as it was requested.
pub open spec fn is_sorted_removed(sizes: Seq<u32>, removed: Seq<u32>) -> bool {
    &&& ascending(removed)
    &&& removed.to_multiset() == removed_of(sizes).to_multiset()
}

/// Inserts `x` into an ascending vector, after any equal values.
fn insert_sorted(v: &mut Vec<u32>, x: u32)
    requires
        ascending(old(v)@),
    ensures
        ascending(final(v)@),
        final(v)@.to_multiset() == old(v)@.to_multiset().insert(x),
{
    let mut i: usize = 0;
    while i < v.len() && v[i] <= x
        invariant
            0 <= i <= v@.len(),
            forall|k: int| 0 <= k < i ==> v@[k] <= x,
        decreases v@.len() - i,
    {
        i = i + 1;
    }
    let ghost before = v@;
    v.insert(i, x);
    proof {
        broadcast use vstd::seq_lib::group_to_multiset_ensures;
        assert(v@ == before.insert(i as int, x));
    }
    assert forall|k: int| 0 <= k < i implies v@[k] == before[k] by {}
    assert forall|k: int| i < k < v@.len() implies v@[k] == before[k - 1] by {}
}

/// Inserts `x` into a strictly ascending vector unless it is already there.
fn insert_ascending(v: &mut Vec<u32>, x: u32)
    requires
        strictly_ascending(old(v)@),
    ensures
        strictly_ascending(final(v)@),
        forall|y: u32| final(v)@.contains(y) <==> (old(v)@.contains(y) || y == x),
{
    let mut i: usize = 0;
    while i < v.len() && v[i] < x
        invariant
            0 <= i <= v@.len(),
            forall|k: int| 0 <= k < i ==> v@[k] < x,
        decreases v@.len() - i,
    {
        i = i + 1;
    }
    if i < v.len() && v[i] == x {
        assert(v@.contains(x));
        return;
    }
    let ghost before = v@;
    v.insert(i, x);
    assert forall|k: int| 0 <= k < i implies v@[k] == before[k] by {}
    assert forall|k: int| i < k < v@.len() implies v@[k] == before[k - 1] by {}
    assert(v@[i as int] == x);
    assert forall|y: u32| v@.contains(y) <==> (before.contains(y) || y == x) by {
        if v@.contains(y) {
            let k = choose|k: int| 0 <= k < v@.len() && v@[k] == y;
            if k < i {
                assert(before[k] == y);
            } else if k > i {
                assert(before[k - 1] == y);
            }
        }
        if before.contains(y) {
            let k = choose|k: int| 0 <= k < before.len() && before[k] == y;
            if k < i {
                assert(v@[k] == y);
            } else {
                assert(v@[k + 1] == y);
            }
        }
    }
}

/// Splits a requested size list into the sizes that are kept (ascending,
/// deduplicated, all within `MIN_SIZE..=MAX_SIZE`) and those that are dropped.
pub fn clean_sizes(sizes: &Vec<u32>) -> (r: CleanedSizes)
    ensures
        is_cleaned(sizes@, r.kept@),
        is_sorted_removed(sizes@, r.removed@),
        r.removed@.len() == removed_of(sizes@).len(),
{
    let mut kept: Vec<u32> = Vec::new();
    let mut removed: Vec<u32> = Vec::new();
    let mut i: usize = 0;
    proof {
        reveal_with_fuel(Seq::<_>::filter, 1);
        assert(removed_of(sizes@.subrange(0, 0)) =~= removed@);
    }
    while i < sizes.len()
        invariant
            0 <= i <= sizes@.len(),
            strictly_ascending(kept@),
            forall|x: u32| #![trigger kept@.contains(x)] kept@.contains(x) <==> (sizes@.subrange(0, i as int).contains(x) && in_range(x)),
            is_sorted_removed(sizes@.subrange(0, i as int), removed@),
        decreases sizes@.len() - i,
    {
        let s = sizes[i];
        let ghost prefix = sizes@.subrange(0, i as int);
        let ghost next = sizes@.subrange(0, i as int + 1);
        assert(next.drop_last() =~= prefix);
        assert(next =~= prefix.push(s));
        proof {
            reveal_with_fuel(Seq::<_>::filter, 1);
        }
        let ghost before = kept@;
        if MIN_SIZE <= s && s <= MAX_SIZE {
            insert_ascending(&mut kept, s);
            assert(removed_of(next) == removed_of(prefix));
        } else {
            insert_sorted(&mut removed, s);
            assert(removed_of(next) == removed_of(prefix).push(s));
            proof {
                broadcast use vstd::seq_lib::group_to_multiset_ensures;
                assert(removed_of(next).to_multiset() == removed_of(prefix).to_multiset().insert(s));
            }
        }
        assert forall|x: u32| next.contains(x) <==> (prefix.contains(x) || x == s) by {
            if next.contains(x) {
                let k = choose|k: int| 0 <= k < next.len() && next[k] == x;
                if k < i {
                    assert(prefix[k] == x);
                }
            }
            if prefix.contains(x) {
                let k = choose|k: int| 0 <= k < prefix.len() && prefix[k] == x;
                assert(next[k] == x);
            }
            if x == s {
                assert(next[i as int] == x);
            }
        }
        assert(is_sorted_removed(next, removed@));
        assert forall|x: u32| kept@.contains(x) <==> (next.contains(x) && in_range(x)) by {
            assert(before.contains(x) <==> (prefix.contains(x) && in_range(x)));
        }
        i = i + 1;
    }
    assert(sizes@.subrange(0, sizes@.len() as int) =~= sizes@);
    proof {
        broadcast use vstd::seq_lib::group_to_multiset_ensures;
        assert(removed@.len() == removed@.to_multiset().len());
        assert(removed_of(sizes@).len() == removed_of(sizes@).to_multiset().len());
    }
    CleanedSizes { kept, removed }
}

/// The largest value of a non-empty strictly ascending list.
pub fn largest(kept: &Vec<u32>) -> (r: u32)
    requires
        kept@.len() > 0,
        strictly_ascending(kept@),
    ensures
        kept@.contains(r),
        forall|x: u32| kept@.contains(x) ==> x <= r,
{
    let r = kept[kept.len() - 1];
    assert(kept@[kept@.len() - 1] == r);
    r
}

/// A strictly ascending list of in-range sizes has at most `MAX_SIZE` entries.
pub proof fn lemma_ascending_in_range_len(s: Seq<u32>)
    requires
        strictly_ascending(s),
        forall|i: int| 0 <= i < s.len() ==> in_range(#[trigger] s[i]),
    ensures
        s.len() <= MAX_SIZE,
{
    if s.len() > 0 {
        assert forall|i: int| 0 <= i < s.len() implies s[i] >= i + 1 by {
            lemma_ascending_lower_bound(s, i);
        }
        assert(s[s.len() - 1] >= s.len());
    }
}

/// In a strictly ascending list of positive sizes, entry `i` is at least `i + 1`.
proof fn lemma_ascending_lower_bound(s: Seq<u32>, i: int)
    requires
        strictly_ascending(s),
        forall|j: int| 0 <= j < s.len() ==> in_range(#[trigger] s[j]),
        0 <= i < s.len(),
    ensures
        s[i] >= i + 1,
    decreases i,
{
    if i > 0 {
        lemma_ascending_lower_bound(s, i - 1);
    }
}

/// Two strictly ascending lists that hold the same values are the same list.
pub proof fn lemma_ascending_unique(a: Seq<u32>, b: Seq<u32>)
    requires
        strictly_ascending(a),
        strictly_ascending(b),
        forall|x: u32| a.contains(x) <==> b.contains(x),
    ensures
        a == b,
    decreases a.len() + b.len(),
{
    if a.len() == 0 || b.len() == 0 {
        if a.len() > 0 {
            assert(a.contains(a[0]));
        }
        if b.len() > 0 {
            assert(b.contains(b[0]));
        }
        assert(a =~= b);
    } else {
        let la = a.last();
        let lb = b.last();
        assert(a.contains(la));
        assert(b.contains(lb));
        let ka = choose|k: int| 0 <= k < a.len() && a[k] == lb;
        let kb = choose|k: int| 0 <= k < b.len() && b[k] == la;
        assert(la == lb) by {
            if la < lb {
                assert(a[ka] <= la);
            } else if lb < la {
                assert(b[kb] <= lb);
            }
        }
        let a0 = a.drop_last();
        let b0 = b.drop_last();
        assert forall|x: u32| a0.contains(x) <==> b0.contains(x) by {
            if a0.contains(x) {
                let k = choose|k: int| 0 <= k < a0.len() && a0[k] == x;
                assert(a[k] == x && x < la);
                assert(b.contains(x));
                let j = choose|j: int| 0 <= j < b.len() && b[j] == x;
                assert(j != b.len() - 1);
                assert(b0[j] == x);
            }
            if b0.contains(x) {
                let k = choose|k: int| 0 <= k < b0.len() && b0[k] == x;
                assert(b[k] == x && x < lb);
                assert(a.contains(x));
                let j = choose|j: int| 0 <= j < a.len() && a[j] == x;
                assert(j != a.len() - 1);
                assert(a0[j] == x);
            }
        }
        lemma_ascending_unique(a0, b0);
        assert(a =~= a0.push(la));
        assert(b =~= b0.push(lb));
    }
}

/// Cleaning depends only on which values were requested: not on their order
/// nor on how often each was repeated.
pub proof fn cleaning_ignores_order_and_repeats(s1: Seq<u32>, s2: Seq<u32>, kept1: Seq<u32>, kept2: Seq<u32>)
    requires
        forall|x: u32| s1.contains(x) <==> s2.contains(x),
        is_cleaned(s1, kept1),
        is_cleaned(s2, kept2),
    ensures
        kept1 == kept2,
{
    assert forall|x: u32| kept1.contains(x) <==> kept2.contains(x) by {
        assert(kept1.contains(x) <==> (s1.contains(x) && in_range(x)));
        assert(kept2.contains(x) <==> (s2.contains(x) && in_range(x)));
    }
    lemma_ascending_unique(kept1, kept2);
}

/// A cleaned list holds only requested values, all in range, each once.
pub proof fn cleaned_is_in_range_subset(sizes: Seq<u32>, kept: Seq<u32>)
    requires
        is_cleaned(sizes, kept),
    ensures
        forall|i: int| 0 <= i < kept.len() ==> in_range(#[trigger] kept[i]) && sizes.contains(kept[i]),
        forall|i: int, j: int| 0 <= i < j < kept.len() ==> kept[i] < kept[j],
{
    assert forall|i: int| 0 <= i < kept.len() implies in_range(#[trigger] kept[i]) && sizes.contains(kept[i]) by {
        assert(kept.contains(kept[i]));
    }
}

/// When every requested size is out of range, nothing is kept and every
/// request is reported as dropped.
pub proof fn all_out_of_range_leaves_nothing(sizes: Seq<u32>, kept: Seq<u32>)
    requires
        forall|i: int| 0 <= i < sizes.len() ==> !in_range(#[trigger] sizes[i]),
        is_cleaned(sizes, kept),
    ensures
        kept.len() == 0,
        removed_of(sizes) == sizes,
    decreases sizes.len(),
{
    if kept.len() > 0 {
        assert(kept.contains(kept[0]));
        assert(sizes.contains(kept[0]));
        let k = choose|k: int| 0 <= k < sizes.len() && sizes[k] == kept[0];
        assert(!in_range(sizes[k]));
    }
    lemma_removed_all(sizes);
}

/// Filtering out in-range values from a list with none leaves it whole.
proof fn lemma_removed_all(sizes: Seq<u32>)
    requires
        forall|i: int| 0 <= i < sizes.len() ==> !in_range(#[trigger] sizes[i]),
    ensures
        removed_of(sizes) == sizes,
    decreases sizes.len(),
{
    reveal_with_fuel(Seq::<_>::filter, 1);
    if sizes.len() > 0 {
        let rest = sizes.drop_last();
        assert forall|i: int| 0 <= i < rest.len() implies !in_range(#[trigger] rest[i]) by {
            assert(rest[i] == sizes[i]);
        }
        lemma_removed_all(rest);
        assert(!in_range(sizes[sizes.len() - 1]));
        assert(sizes =~= rest.push(sizes.last()));
    }
}

} // verus!
