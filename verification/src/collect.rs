//! Gathering the results of a fallible step over a sequence.

use vstd::prelude::*;

verus! {

/// The model of a result: the model of what it holds.
pub open spec fn result_model<T: DeepView, E: DeepView>(r: Result<T, E>) -> Result<T::V, E::V> {
    match r {
        Ok(t) => Ok(t.deep_view()),
        Err(e) => Err(e.deep_view()),
    }
}

/// Applies `f` to the elements of `s` in order. An element may yield a
/// value, yield nothing, or fail. The result holds the values yielded, in the
/// order of their elements; if an element fails, the result is the failure of
/// the first such element.
pub open spec fn collect<A, B, E>(s: Seq<A>, f: spec_fn(A) -> Result<Option<B>, E>) -> Result<
    Seq<B>,
    E,
>
    decreases s.len(),
{
    if s.len() == 0 {
        Ok(Seq::empty())
    } else {
        match collect(s.drop_last(), f) {
            Err(e) => Err(e),
            Ok(done) => match f(s.last()) {
                Err(e) => Err(e),
                Ok(None) => Ok(done),
                Ok(Some(b)) => Ok(done.push(b)),
            },
        }
    }
}

/// Taking one more element applies `f` to that element.
pub proof fn lemma_collect_step<A, B, E>(
    s: Seq<A>,
    i: int,
    f: spec_fn(A) -> Result<Option<B>, E>,
)
    requires
        0 <= i < s.len(),
    ensures
        collect(s.take(i + 1), f) == match collect(s.take(i), f) {
            Err(e) => Err(e),
            Ok(done) => match f(s[i]) {
                Err(e) => Err(e),
                Ok(None) => Ok(done),
                Ok(Some(b)) => Ok(done.push(b)),
            },
        },
{
    assert(s.take(i + 1).drop_last() =~= s.take(i));
}

/// A failure on a prefix is the failure on the whole.
pub proof fn lemma_collect_failure<A, B, E>(
    s: Seq<A>,
    i: int,
    f: spec_fn(A) -> Result<Option<B>, E>,
)
    requires
        0 <= i <= s.len(),
        collect(s.take(i), f) is Err,
    ensures
        collect(s, f) == collect(s.take(i), f),
    decreases s.len() - i,
{
    if i == s.len() {
        assert(s.take(i) =~= s);
    } else {
        lemma_collect_step(s, i, f);
        lemma_collect_failure(s, i + 1, f);
    }
}

/// Where every element yields a value, the result holds one value for each
/// element, at the element's own position.
pub proof fn lemma_collect_all<A, B, E>(s: Seq<A>, f: spec_fn(A) -> Result<Option<B>, E>)
    requires
        forall|i: int| 0 <= i < s.len() ==> (#[trigger] f(s[i])) matches Ok(Some(_)),
    ensures
        collect(s, f) matches Ok(r) && r.len() == s.len() && forall|i: int|
            0 <= i < s.len() ==> f(s[i]) == Ok::<Option<B>, E>(Some(#[trigger] r[i])),
    decreases s.len(),
{
    if s.len() > 0 {
        let front = s.drop_last();
        assert forall|i: int| 0 <= i < front.len() implies (#[trigger] f(front[i])) matches Ok(
            Some(_),
        ) by {
            assert(front[i] == s[i]);
        }
        lemma_collect_all(front, f);
        assert(f(s[s.len() - 1]) matches Ok(Some(_)));
    }
}

/// Where no element yields a value and none fails, the result is empty.
pub proof fn lemma_collect_none<A, B, E>(s: Seq<A>, f: spec_fn(A) -> Result<Option<B>, E>)
    requires
        forall|i: int| 0 <= i < s.len() ==> (#[trigger] f(s[i])) == Ok::<Option<B>, E>(None),
    ensures
        collect(s, f) == Ok::<Seq<B>, E>(Seq::empty()),
    decreases s.len(),
{
    if s.len() > 0 {
        let front = s.drop_last();
        assert forall|i: int| 0 <= i < front.len() implies (#[trigger] f(front[i])) == Ok::<
            Option<B>,
            E,
        >(None) by {
            assert(front[i] == s[i]);
        }
        lemma_collect_none(front, f);
        assert(f(s[s.len() - 1]) == Ok::<Option<B>, E>(None));
    }
}

/// Where the whole succeeds, no element fails.
pub proof fn lemma_collect_ok<A, B, E>(s: Seq<A>, f: spec_fn(A) -> Result<Option<B>, E>)
    requires
        collect(s, f) is Ok,
    ensures
        forall|i: int| 0 <= i < s.len() ==> (#[trigger] f(s[i])) is Ok,
    decreases s.len(),
{
    if s.len() > 0 {
        let front = s.drop_last();
        lemma_collect_ok(front, f);
        assert forall|i: int| 0 <= i < s.len() implies (#[trigger] f(s[i])) is Ok by {
            if i < s.len() - 1 {
                assert(front[i] == s[i]);
            } else {
                assert(s[i] == s.last());
            }
        }
    }
}

/// The positions of the elements that yield a value, in ascending order.
pub open spec fn yielding_positions<A, B, E>(
    s: Seq<A>,
    f: spec_fn(A) -> Result<Option<B>, E>,
) -> Seq<int>
    decreases s.len(),
{
    if s.len() == 0 {
        Seq::empty()
    } else {
        let front = yielding_positions(s.drop_last(), f);
        if f(s.last()) matches Ok(Some(_)) {
            front.push(s.len() - 1)
        } else {
            front
        }
    }
}

/// Where the whole succeeds, the values of the result are the values that
/// the yielding elements yield, in the order of those elements: there is one
/// value for each such element, and a value comes earlier exactly where its
/// element does.
pub proof fn lemma_collect_keeps_order<A, B, E>(s: Seq<A>, f: spec_fn(A) -> Result<Option<B>, E>)
    requires
        collect(s, f) is Ok,
    ensures
        collect(s, f)->Ok_0.len() == yielding_positions(s, f).len(),
        forall|k: int|
            0 <= k < yielding_positions(s, f).len() ==> 0 <= (#[trigger] yielding_positions(
                s,
                f,
            )[k]) < s.len() && f(s[yielding_positions(s, f)[k]]) == Ok::<Option<B>, E>(
                Some(collect(s, f)->Ok_0[k]),
            ),
        forall|j: int, k: int|
            0 <= j < k < yielding_positions(s, f).len() ==> (#[trigger] yielding_positions(s, f)[j])
                < (#[trigger] yielding_positions(s, f)[k]),
        forall|i: int|
            0 <= i < s.len() && ((#[trigger] f(s[i])) matches Ok(Some(_)))
                ==> yielding_positions(s, f).contains(i),
    decreases s.len(),
{
    if s.len() > 0 {
        let front = s.drop_last();
        let at = yielding_positions(s, f);
        let before = yielding_positions(front, f);
        let r = collect(s, f)->Ok_0;
        lemma_collect_keeps_order(front, f);
        assert forall|k: int| 0 <= k < at.len() implies 0 <= (#[trigger] at[k]) < s.len() && f(
            s[at[k]],
        ) == Ok::<Option<B>, E>(Some(r[k])) by {
            if k < before.len() {
                assert(at[k] == before[k]);
                assert(front[before[k]] == s[before[k]]);
            }
        }
        assert forall|j: int, k: int| 0 <= j < k < at.len() implies (#[trigger] at[j]) < (
        #[trigger] at[k]) by {
            assert(at[j] == before[j]);
            assert(0 <= before[j] < front.len());
            if k < before.len() {
                assert(at[k] == before[k]);
            }
        }
        assert forall|i: int| 0 <= i < s.len() && ((#[trigger] f(s[i])) matches Ok(
            Some(_),
        )) implies at.contains(i) by {
            if i < s.len() - 1 {
                assert(front[i] == s[i]);
                assert(before.contains(i));
                let k = choose|k: int| 0 <= k < before.len() && before[k] == i;
                assert(at[k] == i);
            } else {
                assert(at[at.len() - 1] == i);
            }
        }
    }
}

} // verus!
