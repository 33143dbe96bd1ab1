//! Counting the items of a sequence that meet a condition.

use vstd::prelude::*;

verus! {

/// One where the condition holds, zero where it does not.
pub open spec fn one_if(holds: bool) -> nat {
    if holds {
        1
    } else {
        0
    }
}

/// How many items of `s` meet `p`.
pub open spec fn tally<T>(s: Seq<T>, p: spec_fn(T) -> bool) -> nat
    decreases s.len(),
{
    if s.len() == 0 {
        0
    } else {
        tally(s.drop_last(), p) + one_if(p(s.last()))
    }
}

/// No more items meet a condition than there are items.
pub proof fn lemma_tally_bound<T>(s: Seq<T>, p: spec_fn(T) -> bool)
    ensures
        tally(s, p) <= s.len(),
    decreases s.len(),
{
    if s.len() > 0 {
        lemma_tally_bound(s.drop_last(), p);
    }
}

/// The count is zero exactly where no item meets the condition.
pub proof fn lemma_tally_zero<T>(s: Seq<T>, p: spec_fn(T) -> bool)
    ensures
        tally(s, p) == 0 <==> (forall|i: int| 0 <= i < s.len() ==> !p(#[trigger] s[i])),
    decreases s.len(),
{
    if s.len() > 0 {
        let front = s.drop_last();
        lemma_tally_zero(front, p);
        if tally(s, p) == 0 {
            assert forall|i: int| 0 <= i < s.len() implies !p(#[trigger] s[i]) by {
                if i < front.len() {
                    assert(s[i] == front[i]);
                }
            }
        }
        if forall|i: int| 0 <= i < s.len() ==> !p(#[trigger] s[i]) {
            assert forall|i: int| 0 <= i < front.len() implies !p(#[trigger] front[i]) by {
                assert(front[i] == s[i]);
            }
            assert(!p(s[s.len() - 1]));
        }
    }
}

/// An item added at the end counts where it meets the condition.
pub proof fn lemma_tally_push<T>(s: Seq<T>, x: T, p: spec_fn(T) -> bool)
    ensures
        tally(s.push(x), p) == tally(s, p) + one_if(p(x)),
{
    assert(s.push(x).drop_last() =~= s);
}

/// An item taken out no longer counts.
pub proof fn lemma_tally_remove<T>(s: Seq<T>, i: int, p: spec_fn(T) -> bool)
    requires
        0 <= i < s.len(),
    ensures
        tally(s.remove(i), p) + one_if(p(s[i])) == tally(s, p),
    decreases s.len(),
{
    if i == s.len() - 1 {
        assert(s.remove(i) =~= s.drop_last());
    } else {
        lemma_tally_remove(s.drop_last(), i, p);
        assert(s.remove(i).drop_last() =~= s.drop_last().remove(i));
        assert(s.remove(i).last() == s.last());
    }
}

/// An item put in the place of another counts in its stead.
pub proof fn lemma_tally_update<T>(s: Seq<T>, i: int, x: T, p: spec_fn(T) -> bool)
    requires
        0 <= i < s.len(),
    ensures
        tally(s.update(i, x), p) + one_if(p(s[i])) == tally(s, p) + one_if(p(x)),
    decreases s.len(),
{
    if i == s.len() - 1 {
        assert(s.update(i, x).drop_last() =~= s.drop_last());
    } else {
        lemma_tally_update(s.drop_last(), i, x, p);
        assert(s.update(i, x).drop_last() =~= s.drop_last().update(i, x));
        assert(s.update(i, x).last() == s.last());
    }
}

/// What `filter` keeps of the first `k + 1` items, from what it keeps of the first `k`.
pub proof fn lemma_filter_step<T>(s: Seq<T>, k: int, keep: spec_fn(T) -> bool)
    requires
        0 <= k < s.len(),
    ensures
        s.subrange(0, k + 1).filter(keep) == if keep(s[k]) {
            s.subrange(0, k).filter(keep).push(s[k])
        } else {
            s.subrange(0, k).filter(keep)
        },
{
    reveal(Seq::filter);
    assert(s.subrange(0, k + 1).drop_last() =~= s.subrange(0, k));
}

/// One step of thinning a sequence out in place. `cur` is `whole` after its first `k`
/// items were looked at: what was kept of them stands in front, up to place `i`, and the
/// rest of `whole` behind. The item in place `i` is then item `k` of `whole`, and to go
/// past it where it is kept, or to take it out where it is not, makes `cur` the same
/// for the first `k + 1` items.
pub proof fn lemma_thinning_step<T>(whole: Seq<T>, cur: Seq<T>, i: int, k: int, keep: spec_fn(T) -> bool)
    requires
        0 <= i < cur.len(),
        0 <= k < whole.len(),
        cur.len() - i == whole.len() - k,
        cur.subrange(0, i) == whole.subrange(0, k).filter(keep),
        cur.subrange(i, cur.len() as int) == whole.subrange(k, whole.len() as int),
    ensures
        cur[i] == whole[k],
        keep(cur[i]) ==> cur.subrange(0, i + 1) == whole.subrange(0, k + 1).filter(keep)
            && cur.subrange(i + 1, cur.len() as int) == whole.subrange(k + 1, whole.len() as int),
        !keep(cur[i]) ==> cur.remove(i).subrange(0, i) == whole.subrange(0, k + 1).filter(keep)
            && cur.remove(i).subrange(i, cur.len() - 1) == whole.subrange(
            k + 1,
            whole.len() as int,
        ),
{
    let len = cur.len() as int;
    let n = whole.len() as int;
    assert(cur.subrange(i, len)[0] == whole.subrange(k, n)[0]);
    lemma_filter_step(whole, k, keep);
    assert(whole.subrange(k, n).subrange(1, n - k) =~= whole.subrange(k + 1, n));
    if keep(cur[i]) {
        assert(cur.subrange(0, i + 1) =~= cur.subrange(0, i).push(cur[i]));
        assert(cur.subrange(i + 1, len) =~= cur.subrange(i, len).subrange(1, len - i));
    } else {
        assert(cur.remove(i).subrange(0, i) =~= cur.subrange(0, i));
        assert(cur.remove(i).subrange(i, len - 1) =~= cur.subrange(i, len).subrange(1, len - i));
    }
}

/// One step of collecting what is taken out of a sequence, each item as `f` makes it.
pub proof fn lemma_collecting_step<T, U>(
    whole: Seq<T>,
    k: int,
    hit: spec_fn(T) -> bool,
    f: spec_fn(T) -> U,
    collected: Seq<U>,
)
    requires
        0 <= k < whole.len(),
        collected == whole.subrange(0, k).filter(hit).map_values(f),
    ensures
        hit(whole[k]) ==> collected.push(f(whole[k])) == whole.subrange(0, k + 1).filter(
            hit,
        ).map_values(f),
        !hit(whole[k]) ==> collected == whole.subrange(0, k + 1).filter(hit).map_values(f),
{
    lemma_filter_step(whole, k, hit);
    if hit(whole[k]) {
        assert(whole.subrange(0, k).filter(hit).push(whole[k]).map_values(f) =~= collected.push(
            f(whole[k]),
        ));
    }
}

} // verus!
