//! Facts about filtered and mapped sequences that the table operations share.

use vstd::prelude::*;

verus! {

/// Filtering one more element either appends it or changes nothing.
pub proof fn lemma_filter_take_step<A>(s: Seq<A>, pred: spec_fn(A) -> bool, i: int)
    requires
        0 <= i < s.len(),
    ensures
        s.take(i + 1).filter(pred) == if pred(s[i]) {
            s.take(i).filter(pred).push(s[i])
        } else {
            s.take(i).filter(pred)
        },
{
    s.lemma_take_succ_push(i);
    s.take(i).lemma_filter_push(s[i], pred);
}

/// Filtering the first none of the elements leaves nothing.
pub proof fn lemma_filter_take_none<A>(s: Seq<A>, pred: spec_fn(A) -> bool)
    ensures
        s.take(0).filter(pred) == Seq::<A>::empty(),
{
    lemma_filter_empty::<A>(pred);
    assert(s.take(0) =~= Seq::<A>::empty());
}

/// Nothing is left of nothing.
pub proof fn lemma_filter_empty<A>(pred: spec_fn(A) -> bool)
    ensures
        Seq::<A>::empty().filter(pred) == Seq::<A>::empty(),
{
    reveal(Seq::filter);
}

/// What a filter keeps is what was there and satisfies the test.
pub proof fn lemma_filter_contains<A>(s: Seq<A>, pred: spec_fn(A) -> bool, x: A)
    ensures
        s.filter(pred).contains(x) <==> (s.contains(x) && pred(x)),
    decreases s.len(),
{
    reveal(Seq::filter);
    if s.len() > 0 {
        let rest = s.drop_last();
        lemma_filter_contains(rest, pred, x);
        if s.contains(x) {
            let k = choose|k: int| 0 <= k < s.len() && s[k] == x;
            if k < s.len() - 1 {
                assert(rest[k] == x);
            }
        }
        if rest.contains(x) {
            let k = choose|k: int| 0 <= k < rest.len() && rest[k] == x;
            assert(s[k] == x);
        }
        if pred(s.last()) {
            let f = rest.filter(pred);
            assert(f.push(s.last())[f.len() as int] == s.last());
            if f.push(s.last()).contains(x) {
                let k = choose|k: int| 0 <= k < f.push(s.last()).len() && f.push(s.last())[k] == x;
                if k < f.len() {
                    assert(f[k] == x);
                }
            }
            if f.contains(x) {
                let k = choose|k: int| 0 <= k < f.len() && f[k] == x;
                assert(f.push(s.last())[k] == x);
            }
        }
    }
}

/// A relation that holds between every earlier and later element still holds
/// after filtering.
pub proof fn lemma_filter_pairwise<A>(
    s: Seq<A>,
    pred: spec_fn(A) -> bool,
    rel: spec_fn(A, A) -> bool,
)
    requires
        forall|i: int, j: int| 0 <= i < j < s.len() ==> rel(s[i], s[j]),
    ensures
        forall|i: int, j: int|
            0 <= i < j < s.filter(pred).len() ==> rel(s.filter(pred)[i], s.filter(pred)[j]),
    decreases s.len(),
{
    reveal(Seq::filter);
    if s.len() > 0 {
        let rest = s.drop_last();
        let f = rest.filter(pred);
        assert forall|i: int, j: int| 0 <= i < j < rest.len() implies rel(rest[i], rest[j]) by {
            assert(rest[i] == s[i] && rest[j] == s[j]);
        }
        lemma_filter_pairwise(rest, pred, rel);
        if pred(s.last()) {
            let g = f.push(s.last());
            assert forall|i: int, j: int| 0 <= i < j < g.len() implies rel(g[i], g[j]) by {
                if j < f.len() {
                    assert(g[i] == f[i] && g[j] == f[j]);
                } else {
                    assert(g[i] == f[i]);
                    assert(f.contains(f[i]));
                    lemma_filter_contains(rest, pred, f[i]);
                    let k = choose|k: int| 0 <= k < rest.len() && rest[k] == f[i];
                    assert(s[k] == f[i]);
                    assert(rel(s[k], s[s.len() - 1]));
                }
            }
        }
    }
}

/// What holds of every element still holds of every element kept.
pub proof fn lemma_filter_all<A>(s: Seq<A>, pred: spec_fn(A) -> bool, prop: spec_fn(A) -> bool)
    requires
        forall|i: int| 0 <= i < s.len() ==> prop(s[i]),
    ensures
        forall|i: int| 0 <= i < s.filter(pred).len() ==> prop(s.filter(pred)[i]),
{
    let f = s.filter(pred);
    assert forall|i: int| 0 <= i < f.len() implies prop(f[i]) by {
        assert(f.contains(f[i]));
        lemma_filter_contains(s, pred, f[i]);
        let k = choose|k: int| 0 <= k < s.len() && s[k] == f[i];
        assert(prop(s[k]));
    }
}

/// A filter that every element passes changes nothing.
pub proof fn lemma_filter_keeps_all<A>(s: Seq<A>, pred: spec_fn(A) -> bool)
    requires
        forall|i: int| 0 <= i < s.len() ==> pred(s[i]),
    ensures
        s.filter(pred) == s,
    decreases s.len(),
{
    reveal(Seq::filter);
    if s.len() > 0 {
        let rest = s.drop_last();
        assert forall|i: int| 0 <= i < rest.len() implies pred(rest[i]) by {
            assert(rest[i] == s[i]);
        }
        lemma_filter_keeps_all(rest, pred);
        assert(rest.push(s.last()) =~= s);
    }
}

/// A filter that no element passes leaves nothing.
pub proof fn lemma_filter_keeps_none<A>(s: Seq<A>, pred: spec_fn(A) -> bool)
    requires
        forall|i: int| 0 <= i < s.len() ==> !pred(s[i]),
    ensures
        s.filter(pred) == Seq::<A>::empty(),
    decreases s.len(),
{
    reveal(Seq::filter);
    if s.len() > 0 {
        let rest = s.drop_last();
        assert forall|i: int| 0 <= i < rest.len() implies !pred(rest[i]) by {
            assert(rest[i] == s[i]);
        }
        lemma_filter_keeps_none(rest, pred);
    }
}

/// The test that only `x` passes.
pub open spec fn is<A>(x: A) -> spec_fn(A) -> bool {
    |y: A| y == x
}

/// The test that everything but `x` passes.
pub open spec fn is_not<A>(x: A) -> spec_fn(A) -> bool {
    |y: A| y != x
}

/// Everything but `x` and every occurrence of `x` together are everything.
pub proof fn lemma_split_len<A>(s: Seq<A>, x: A)
    ensures
        s.filter(is_not(x)).len() + s.filter(is(x)).len() == s.len(),
    decreases s.len(),
{
    reveal(Seq::filter);
    if s.len() > 0 {
        lemma_split_len(s.drop_last(), x);
    }
}

/// Among elements that are all different, one that occurs occurs once.
pub proof fn lemma_occurs_once<A>(s: Seq<A>, x: A)
    requires
        forall|i: int, j: int| 0 <= i < j < s.len() ==> s[i] != s[j],
    ensures
        s.filter(is(x)).len() == if s.contains(x) { 1nat } else { 0nat },
    decreases s.len(),
{
    reveal(Seq::filter);
    if s.len() > 0 {
        let rest = s.drop_last();
        assert forall|i: int, j: int| 0 <= i < j < rest.len() implies rest[i] != rest[j] by {
            assert(rest[i] == s[i] && rest[j] == s[j]);
        }
        lemma_occurs_once(rest, x);
        if rest.contains(x) {
            let k = choose|k: int| 0 <= k < rest.len() && rest[k] == x;
            assert(s[k] == x);
            assert(s[k] != s[s.len() - 1]);
        }
        if s.contains(x) && !rest.contains(x) {
            let k = choose|k: int| 0 <= k < s.len() && s[k] == x;
            if k < s.len() - 1 {
                assert(rest[k] == x);
            }
        }
        if s.last() == x {
            assert(s[s.len() - 1] == x);
        }
    }
}

/// Where a rewriting of the elements does not change which of them pass the
/// test, filtering the rewritten elements is rewriting the filtered ones.
pub proof fn lemma_filter_map<A>(s: Seq<A>, pred: spec_fn(A) -> bool, g: spec_fn(A) -> A)
    requires
        forall|i: int| 0 <= i < s.len() ==> pred(g(#[trigger] s[i])) == pred(s[i]),
    ensures
        s.map_values(g).filter(pred) == s.filter(pred).map_values(g),
    decreases s.len(),
{
    reveal(Seq::filter);
    if s.len() == 0 {
        assert(s.map_values(g) =~= Seq::<A>::empty());
        assert(s.filter(pred).map_values(g) =~= Seq::<A>::empty());
    } else {
        let rest = s.drop_last();
        assert forall|i: int| 0 <= i < rest.len() implies pred(g(#[trigger] rest[i])) == pred(
            rest[i],
        ) by {
            assert(rest[i] == s[i]);
        }
        lemma_filter_map(rest, pred, g);
        assert(pred(g(s[s.len() - 1])) == pred(s[s.len() - 1]));
        assert(s.map_values(g).drop_last() =~= rest.map_values(g));
        assert(s.map_values(g).last() == g(s.last()));
        if pred(s.last()) {
            assert(rest.filter(pred).push(s.last()).map_values(g) =~= rest.filter(
                pred,
            ).map_values(g).push(g(s.last())));
        }
    }
}

/// The first element that passes the test is the first that the filter keeps.
pub proof fn lemma_filter_first<A>(s: Seq<A>, pred: spec_fn(A) -> bool, i: int)
    requires
        0 <= i < s.len(),
        pred(s[i]),
        forall|k: int| 0 <= k < i ==> !pred(s[k]),
    ensures
        s.filter(pred).len() > 0,
        s.filter(pred)[0] == s[i],
    decreases s.len(),
{
    reveal(Seq::filter);
    let rest = s.drop_last();
    if i == s.len() - 1 {
        assert forall|k: int| 0 <= k < rest.len() implies !pred(rest[k]) by {
            assert(rest[k] == s[k]);
        }
        lemma_filter_keeps_none(rest, pred);
    } else {
        assert(rest[i] == s[i]);
        assert forall|k: int| 0 <= k < i implies !pred(rest[k]) by {
            assert(rest[k] == s[k]);
        }
        lemma_filter_first(rest, pred, i);
    }
}

/// Gathers the values of `s` if every element is one, and is otherwise the
/// first error in `s`.
pub open spec fn collect<T, E>(s: Seq<Result<T, E>>) -> Result<Seq<T>, E>
    decreases s.len(),
{
    if s.len() == 0 {
        Ok(Seq::empty())
    } else {
        match collect(s.drop_last()) {
            Err(e) => Err(e),
            Ok(items) => match s.last() {
                Ok(x) => Ok(items.push(x)),
                Err(e) => Err(e),
            },
        }
    }
}

/// What a listing yields: `f` of each row that passes `pred`, in order, or
/// the first error that `f` gives on such a row.
pub open spec fn select<A, T, E>(
    rows: Seq<A>,
    pred: spec_fn(A) -> bool,
    f: spec_fn(A) -> Result<T, E>,
) -> Result<Seq<T>, E> {
    collect(rows.filter(pred).map_values(f))
}

/// Gathering one more element.
pub proof fn lemma_collect_push<T, E>(s: Seq<Result<T, E>>, x: Result<T, E>)
    ensures
        collect(s.push(x)) == match collect(s) {
            Err(e) => Err::<Seq<T>, E>(e),
            Ok(items) => match x {
                Ok(v) => Ok(items.push(v)),
                Err(e) => Err(e),
            },
        },
{
    assert(s.push(x).drop_last() =~= s);
}

/// An error among the first elements is the error of the whole.
pub proof fn lemma_collect_error_stays<T, E>(a: Seq<Result<T, E>>, b: Seq<Result<T, E>>)
    requires
        collect(a).is_err(),
    ensures
        collect(a + b) == collect(a),
    decreases b.len(),
{
    if b.len() == 0 {
        assert(a + b =~= a);
    } else {
        lemma_collect_error_stays(a, b.drop_last());
        assert((a + b).drop_last() =~= a + b.drop_last());
    }
}

/// A gathering that succeeds has every value, in order.
pub proof fn lemma_collect_ok<T, E>(s: Seq<Result<T, E>>)
    ensures
        collect(s).is_ok() <==> (forall|k: int| 0 <= k < s.len() ==> (#[trigger] s[k]).is_ok()),
        collect(s).is_ok() ==> collect(s)->Ok_0.len() == s.len() && (forall|k: int|
            0 <= k < s.len() ==> (#[trigger] collect(s)->Ok_0[k]) == s[k]->Ok_0),
    decreases s.len(),
{
    if s.len() > 0 {
        let rest = s.drop_last();
        lemma_collect_ok(rest);
        if collect(rest).is_ok() {
            assert forall|k: int| 0 <= k < rest.len() implies (#[trigger] s[k]).is_ok() by {
                assert(rest[k] == s[k]);
            }
        } else {
            let k = choose|k: int| 0 <= k < rest.len() && !(#[trigger] rest[k]).is_ok();
            assert(rest[k] == s[k]);
        }
        if collect(s).is_ok() {
            assert forall|k: int| 0 <= k < s.len() implies (#[trigger] collect(s)->Ok_0[k])
                == s[k]->Ok_0 by {
                if k < rest.len() {
                    assert(rest[k] == s[k]);
                    assert(collect(rest)->Ok_0[k] == rest[k]->Ok_0);
                }
            }
        }
    }
}

/// Gathering the first elements and one more.
pub proof fn lemma_collect_take_step<T, E>(s: Seq<Result<T, E>>, i: int)
    requires
        0 <= i < s.len(),
    ensures
        collect(s.take(i + 1)) == match collect(s.take(i)) {
            Err(e) => Err::<Seq<T>, E>(e),
            Ok(items) => match s[i] {
                Ok(v) => Ok(items.push(v)),
                Err(e) => Err(e),
            },
        },
        collect(s.take(0)) == Ok::<Seq<T>, E>(Seq::empty()),
{
    s.lemma_take_succ_push(i);
    lemma_collect_push(s.take(i), s[i]);
    assert(s.take(0) =~= Seq::<Result<T, E>>::empty());
}

/// An error among the first elements is the error of the whole.
pub proof fn lemma_collect_take_error<T, E>(s: Seq<Result<T, E>>, i: int)
    requires
        0 <= i <= s.len(),
        collect(s.take(i)).is_err(),
    ensures
        collect(s) == collect(s.take(i)),
{
    assert(s.take(i) + s.skip(i) =~= s);
    lemma_collect_error_stays(s.take(i), s.skip(i));
}

/// A listing of no rows is empty.
pub proof fn lemma_select_none<A, T, E>(
    rows: Seq<A>,
    pred: spec_fn(A) -> bool,
    f: spec_fn(A) -> Result<T, E>,
)
    ensures
        select(rows.take(0), pred, f) == Ok::<Seq<T>, E>(Seq::empty()),
{
    lemma_filter_take_none(rows, pred);
    assert(Seq::<A>::empty().map_values(f) =~= Seq::<Result<T, E>>::empty());
}

/// A listing of one more row.
pub proof fn lemma_select_step<A, T, E>(
    rows: Seq<A>,
    pred: spec_fn(A) -> bool,
    f: spec_fn(A) -> Result<T, E>,
    i: int,
)
    requires
        0 <= i < rows.len(),
    ensures
        select(rows.take(i + 1), pred, f) == if pred(rows[i]) {
            match select(rows.take(i), pred, f) {
                Err(e) => Err::<Seq<T>, E>(e),
                Ok(items) => match f(rows[i]) {
                    Ok(v) => Ok(items.push(v)),
                    Err(e) => Err(e),
                },
            }
        } else {
            select(rows.take(i), pred, f)
        },
{
    lemma_filter_take_step(rows, pred, i);
    if pred(rows[i]) {
        let kept = rows.take(i).filter(pred);
        assert(kept.push(rows[i]).map_values(f) =~= kept.map_values(f).push(f(rows[i])));
        lemma_collect_push(kept.map_values(f), f(rows[i]));
    }
}

/// An error in the listing of the first rows is the error of the whole
/// listing.
pub proof fn lemma_select_error_stays<A, T, E>(
    rows: Seq<A>,
    pred: spec_fn(A) -> bool,
    f: spec_fn(A) -> Result<T, E>,
    i: int,
)
    requires
        0 <= i <= rows.len(),
        select(rows.take(i), pred, f).is_err(),
    ensures
        select(rows, pred, f) == select(rows.take(i), pred, f),
{
    let a = rows.take(i);
    let b = rows.skip(i);
    assert(a + b =~= rows);
    Seq::filter_distributes_over_add(a, b, pred);
    assert((a.filter(pred) + b.filter(pred)).map_values(f) =~= a.filter(pred).map_values(f)
        + b.filter(pred).map_values(f));
    lemma_collect_error_stays(a.filter(pred).map_values(f), b.filter(pred).map_values(f));
}

/// Whether a listing as computed is the listing `expected`.
pub open spec fn yields<T, E>(r: Result<Vec<T>, E>, expected: Result<Seq<T>, E>) -> bool {
    match r {
        Ok(v) => expected == Ok::<Seq<T>, E>(v@),
        Err(e) => expected == Err::<Seq<T>, E>(e),
    }
}

} // verus!
