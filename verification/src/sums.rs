//! Summing and first-match lookup over sequences, with the lemmas the
//! ledger and order-book invariants are proved from.

use vstd::prelude::*;

verus! {

/// Sum of `f` over every element of `s`.
pub open spec fn sum_by<T>(s: Seq<T>, f: spec_fn(T) -> int) -> int
    decreases s.len(),
{
    if s.len() == 0 {
        0
    } else {
        sum_by(s.drop_last(), f) + f(s.last())
    }
}

/// Pushing an element adds its contribution to the sum.
pub proof fn lemma_sum_by_push<T>(s: Seq<T>, f: spec_fn(T) -> int, x: T)
    ensures
        sum_by(s.push(x), f) == sum_by(s, f) + f(x),
{
    assert(s.push(x).drop_last() =~= s);
}

/// Updating one element shifts the sum by the difference of contributions.
pub proof fn lemma_sum_by_update<T>(s: Seq<T>, f: spec_fn(T) -> int, i: int, x: T)
    requires
        0 <= i < s.len(),
    ensures
        sum_by(s.update(i, x), f) == sum_by(s, f) - f(s[i]) + f(x),
    decreases s.len(),
{
    if i == s.len() - 1 {
        assert(s.update(i, x).drop_last() =~= s.drop_last());
        assert(s.update(i, x).last() == x);
    } else {
        assert(s.update(i, x).drop_last() =~= s.drop_last().update(i, x));
        assert(s.update(i, x).last() == s.last());
        lemma_sum_by_update(s.drop_last(), f, i, x);
    }
}

/// Removing one element subtracts its contribution from the sum.
pub proof fn lemma_sum_by_remove<T>(s: Seq<T>, f: spec_fn(T) -> int, i: int)
    requires
        0 <= i < s.len(),
    ensures
        sum_by(s.remove(i), f) == sum_by(s, f) - f(s[i]),
    decreases s.len(),
{
    if i == s.len() - 1 {
        assert(s.remove(i) =~= s.drop_last());
    } else {
        assert(s.remove(i).drop_last() =~= s.drop_last().remove(i));
        assert(s.remove(i).last() == s.last());
        lemma_sum_by_remove(s.drop_last(), f, i);
    }
}

/// When every contribution is zero the sum is zero.
pub proof fn lemma_sum_by_zero<T>(s: Seq<T>, f: spec_fn(T) -> int)
    requires
        forall|i: int| 0 <= i < s.len() ==> #[trigger] f(s[i]) == 0,
    ensures
        sum_by(s, f) == 0,
    decreases s.len(),
{
    if s.len() > 0 {
        assert(forall|i: int|
            0 <= i < s.drop_last().len() ==> #[trigger] f(s.drop_last()[i]) == 0);
        lemma_sum_by_zero(s.drop_last(), f);
        assert(f(s.last()) == 0);
    }
}

/// When only index `i` contributes, the sum is that single contribution.
pub proof fn lemma_sum_by_single<T>(s: Seq<T>, f: spec_fn(T) -> int, i: int)
    requires
        0 <= i < s.len(),
        forall|j: int| 0 <= j < s.len() && j != i ==> #[trigger] f(s[j]) == 0,
    ensures
        sum_by(s, f) == f(s[i]),
{
    lemma_sum_by_remove(s, f, i);
    assert(forall|j: int|
        0 <= j < s.remove(i).len() ==> #[trigger] f(s.remove(i)[j]) == 0);
    lemma_sum_by_zero(s.remove(i), f);
}

/// A sum of nonnegative contributions is nonnegative.
pub proof fn lemma_sum_by_nonneg<T>(s: Seq<T>, f: spec_fn(T) -> int)
    requires
        forall|i: int| 0 <= i < s.len() ==> #[trigger] f(s[i]) >= 0,
    ensures
        sum_by(s, f) >= 0,
    decreases s.len(),
{
    if s.len() > 0 {
        assert(forall|i: int|
            0 <= i < s.drop_last().len() ==> #[trigger] f(s.drop_last()[i]) >= 0);
        lemma_sum_by_nonneg(s.drop_last(), f);
        assert(f(s.last()) >= 0);
    }
}

/// With nonnegative contributions, one element's contribution bounds below the sum.
pub proof fn lemma_sum_by_elem_le<T>(s: Seq<T>, f: spec_fn(T) -> int, i: int)
    requires
        0 <= i < s.len(),
        forall|j: int| 0 <= j < s.len() ==> #[trigger] f(s[j]) >= 0,
    ensures
        f(s[i]) <= sum_by(s, f),
{
    lemma_sum_by_remove(s, f, i);
    assert(forall|j: int|
        0 <= j < s.remove(i).len() ==> #[trigger] f(s.remove(i)[j]) >= 0);
    lemma_sum_by_nonneg(s.remove(i), f);
}

/// One step of summing a prefix: taking one more element adds its contribution.
pub proof fn lemma_sum_by_take_step<T>(s: Seq<T>, f: spec_fn(T) -> int, i: int)
    requires
        0 <= i < s.len(),
    ensures
        sum_by(s.take(i + 1), f) == sum_by(s.take(i), f) + f(s[i]),
{
    assert(s.take(i + 1).drop_last() =~= s.take(i));
    assert(s.take(i + 1).last() == s[i]);
}

/// The whole sequence is its own full prefix.
pub proof fn lemma_sum_by_take_all<T>(s: Seq<T>, f: spec_fn(T) -> int)
    ensures
        sum_by(s.take(s.len() as int), f) == sum_by(s, f),
{
    assert(s.take(s.len() as int) =~= s);
}

/// With nonnegative contributions, a prefix sum never exceeds the total.
pub proof fn lemma_sum_by_take_le<T>(s: Seq<T>, f: spec_fn(T) -> int, i: int)
    requires
        0 <= i <= s.len(),
        forall|j: int| 0 <= j < s.len() ==> #[trigger] f(s[j]) >= 0,
    ensures
        sum_by(s.take(i), f) <= sum_by(s, f),
    decreases s.len() - i,
{
    if i == s.len() {
        lemma_sum_by_take_all(s, f);
    } else {
        lemma_sum_by_take_step(s, f, i);
        lemma_sum_by_take_le(s, f, i + 1);
    }
}

/// First element of `s` satisfying `p`, scanning from the front.
pub open spec fn find_by<T>(s: Seq<T>, p: spec_fn(T) -> bool) -> Option<T>
    decreases s.len(),
{
    if s.len() == 0 {
        None
    } else if p(s[0]) {
        Some(s[0])
    } else {
        find_by(s.drop_first(), p)
    }
}

/// When nothing satisfies `p`, nothing is found.
pub proof fn lemma_find_by_none<T>(s: Seq<T>, p: spec_fn(T) -> bool)
    requires
        forall|j: int| 0 <= j < s.len() ==> !#[trigger] p(s[j]),
    ensures
        find_by(s, p) is None,
    decreases s.len(),
{
    if s.len() > 0 {
        assert(forall|j: int|
            0 <= j < s.drop_first().len() ==> !#[trigger] p(s.drop_first()[j]));
        lemma_find_by_none(s.drop_first(), p);
    }
}

/// When exactly index `i` satisfies `p`, that element is found.
pub proof fn lemma_find_by_single<T>(s: Seq<T>, p: spec_fn(T) -> bool, i: int)
    requires
        0 <= i < s.len(),
        p(s[i]),
        forall|j: int| 0 <= j < s.len() && j != i ==> !#[trigger] p(s[j]),
    ensures
        find_by(s, p) == Some(s[i]),
    decreases s.len(),
{
    if i == 0 {
    } else {
        assert(forall|j: int|
            0 <= j < s.drop_first().len() && j != i - 1
                ==> !#[trigger] p(s.drop_first()[j]));
        lemma_find_by_single(s.drop_first(), p, i - 1);
    }
}

/// Matches elements whose key under `kf` is `k`.
pub open spec fn key_pred<T, K>(kf: spec_fn(T) -> K, k: K) -> spec_fn(T) -> bool {
    |t: T| kf(t) == k
}

/// No two elements share a key under `kf`.
pub open spec fn unique_keys<T, K>(s: Seq<T>, kf: spec_fn(T) -> K) -> bool {
    forall|i: int, j: int| 0 <= i < j < s.len() ==> #[trigger] kf(s[i]) != #[trigger] kf(s[j])
}

/// With unique keys, lookup by the key of the element at `i` finds it.
pub proof fn lemma_find_key_at<T, K>(s: Seq<T>, kf: spec_fn(T) -> K, i: int)
    requires
        unique_keys(s, kf),
        0 <= i < s.len(),
    ensures
        find_by(s, key_pred(kf, kf(s[i]))) == Some(s[i]),
{
    let k = kf(s[i]);
    assert forall|j: int| 0 <= j < s.len() && j != i
        implies !#[trigger] key_pred(kf, k)(s[j]) by {
        if j < i {
            assert(kf(s[j]) != kf(s[i]));
        } else {
            assert(kf(s[i]) != kf(s[j]));
        }
    }
    lemma_find_by_single(s, key_pred(kf, k), i);
}

/// When no element carries key `k`, lookup by `k` finds nothing.
pub proof fn lemma_find_key_absent<T, K>(s: Seq<T>, kf: spec_fn(T) -> K, k: K)
    requires
        forall|j: int| 0 <= j < s.len() ==> #[trigger] kf(s[j]) != k,
    ensures
        find_by(s, key_pred(kf, k)) is None,
{
    assert forall|j: int| 0 <= j < s.len() implies !#[trigger] key_pred(kf, k)(s[j]) by {
        assert(kf(s[j]) != k);
    }
    lemma_find_by_none(s, key_pred(kf, k));
}

/// Pushing an element with a fresh key keeps keys unique, makes that key
/// found, and leaves lookup of every other key as it was.
pub proof fn lemma_find_key_push<T, K>(s: Seq<T>, kf: spec_fn(T) -> K, x: T)
    requires
        unique_keys(s, kf),
        forall|j: int| 0 <= j < s.len() ==> #[trigger] kf(s[j]) != kf(x),
    ensures
        unique_keys(s.push(x), kf),
        find_by(s.push(x), key_pred(kf, kf(x))) == Some(x),
        forall|k: K|
            k != kf(x) ==> #[trigger] find_by(s.push(x), key_pred(kf, k)) == find_by(
                s,
                key_pred(kf, k),
            ),
{
    let post = s.push(x);
    assert forall|i: int, j: int| 0 <= i < j < post.len()
        implies #[trigger] kf(post[i]) != #[trigger] kf(post[j]) by {
        if j == s.len() {
            assert(post[i] == s[i] && post[j] == x);
        } else {
            assert(post[i] == s[i] && post[j] == s[j]);
        }
    }
    lemma_find_key_at(post, kf, s.len() as int);
    assert(post[s.len() as int] == x);
    assert forall|k: K| k != kf(x)
        implies #[trigger] find_by(post, key_pred(kf, k)) == find_by(s, key_pred(kf, k)) by {
        if exists|j: int| 0 <= j < s.len() && #[trigger] kf(s[j]) == k {
            let j = choose|j: int| 0 <= j < s.len() && #[trigger] kf(s[j]) == k;
            lemma_find_key_at(s, kf, j);
            lemma_find_key_at(post, kf, j);
            assert(post[j] == s[j]);
        } else {
            lemma_find_key_absent(s, kf, k);
            assert forall|j: int| 0 <= j < post.len() implies #[trigger] kf(post[j]) != k by {
                if j < s.len() {
                    assert(post[j] == s[j]);
                } else {
                    assert(post[j] == x);
                }
            }
            lemma_find_key_absent(post, kf, k);
        }
    }
}

/// Replacing the element at `i` by one with the same key keeps keys
/// unique, makes that key find the replacement, and leaves every other
/// key's lookup as it was.
pub proof fn lemma_find_key_update<T, K>(s: Seq<T>, kf: spec_fn(T) -> K, i: int, x: T)
    requires
        unique_keys(s, kf),
        0 <= i < s.len(),
        kf(x) == kf(s[i]),
    ensures
        unique_keys(s.update(i, x), kf),
        find_by(s.update(i, x), key_pred(kf, kf(x))) == Some(x),
        forall|k: K|
            k != kf(x) ==> #[trigger] find_by(s.update(i, x), key_pred(kf, k)) == find_by(
                s,
                key_pred(kf, k),
            ),
{
    let post = s.update(i, x);
    assert forall|a: int, b: int| 0 <= a < b < post.len()
        implies #[trigger] kf(post[a]) != #[trigger] kf(post[b]) by {
        assert(kf(post[a]) == kf(s[a]) && kf(post[b]) == kf(s[b]));
    }
    lemma_find_key_at(post, kf, i);
    assert(post[i] == x);
    assert forall|k: K| k != kf(x)
        implies #[trigger] find_by(post, key_pred(kf, k)) == find_by(s, key_pred(kf, k)) by {
        if exists|j: int| 0 <= j < s.len() && #[trigger] kf(s[j]) == k {
            let j = choose|j: int| 0 <= j < s.len() && #[trigger] kf(s[j]) == k;
            lemma_find_key_at(s, kf, j);
            lemma_find_key_at(post, kf, j);
            assert(j != i && post[j] == s[j]);
        } else {
            lemma_find_key_absent(s, kf, k);
            assert forall|j: int| 0 <= j < post.len() implies #[trigger] kf(post[j]) != k by {
                if j != i {
                    assert(post[j] == s[j]);
                } else {
                    assert(kf(post[j]) == kf(s[i]));
                }
            }
            lemma_find_key_absent(post, kf, k);
        }
    }
}

/// Removing the element at `i` keeps keys unique, makes its key
/// unfindable, and leaves every other key's lookup as it was.
pub proof fn lemma_find_key_remove<T, K>(s: Seq<T>, kf: spec_fn(T) -> K, i: int)
    requires
        unique_keys(s, kf),
        0 <= i < s.len(),
    ensures
        unique_keys(s.remove(i), kf),
        find_by(s.remove(i), key_pred(kf, kf(s[i]))) is None,
        forall|k: K|
            k != kf(s[i]) ==> #[trigger] find_by(s.remove(i), key_pred(kf, k)) == find_by(
                s,
                key_pred(kf, k),
            ),
{
    let post = s.remove(i);
    assert forall|a: int, b: int| 0 <= a < b < post.len()
        implies #[trigger] kf(post[a]) != #[trigger] kf(post[b]) by {
        let a0 = if a < i { a } else { a + 1 };
        let b0 = if b < i { b } else { b + 1 };
        assert(post[a] == s[a0] && post[b] == s[b0]);
        assert(kf(s[a0]) != kf(s[b0]));
    }
    assert forall|j: int| 0 <= j < post.len() implies #[trigger] kf(post[j]) != kf(s[i]) by {
        let j0 = if j < i { j } else { j + 1 };
        assert(post[j] == s[j0]);
        if j0 < i {
            assert(kf(s[j0]) != kf(s[i]));
        } else {
            assert(kf(s[i]) != kf(s[j0]));
        }
    }
    lemma_find_key_absent(post, kf, kf(s[i]));
    assert forall|k: K| k != kf(s[i])
        implies #[trigger] find_by(post, key_pred(kf, k)) == find_by(s, key_pred(kf, k)) by {
        if exists|j: int| 0 <= j < s.len() && #[trigger] kf(s[j]) == k {
            let j = choose|j: int| 0 <= j < s.len() && #[trigger] kf(s[j]) == k;
            lemma_find_key_at(s, kf, j);
            let j1 = if j < i { j } else { j - 1 };
            assert(post[j1] == s[j]);
            lemma_find_key_at(post, kf, j1);
        } else {
            lemma_find_key_absent(s, kf, k);
            assert forall|j: int| 0 <= j < post.len() implies #[trigger] kf(post[j]) != k by {
                let j0 = if j < i { j } else { j + 1 };
                assert(post[j] == s[j0]);
            }
            lemma_find_key_absent(post, kf, k);
        }
    }
}

} // verus!
