use vstd::prelude::*;

verus! {

/// The hit the primary scan keeps, given each primitive's intersection
/// result as an optional distance key: scanning the primitives in order, a
/// kept hit is replaced only by a strictly closer one, so the scan ends on
/// the first primitive whose key is minimal.
pub open spec fn spec_nearest_hit(hits: Seq<Option<u64>>) -> Option<int>
    decreases hits.len(),
{
    if hits.len() == 0 {
        None
    } else {
        let rest = spec_nearest_hit(hits.drop_last());
        match (hits[hits.len() - 1], rest) {
            (Some(d), Some(i)) => if d < hits[i]->0 {
                Some(hits.len() - 1)
            } else {
                Some(i)
            },
            (Some(d), None) => Some(hits.len() - 1),
            (None, r) => r,
        }
    }
}

/// What the scan's result means: it is empty exactly when no primitive hit,
/// and otherwise it is the index of an accepted hit whose key no other hit
/// undercuts, and that every earlier hit strictly exceeds.
pub proof fn lemma_nearest_hit_spec(hits: Seq<Option<u64>>)
    ensures
        spec_nearest_hit(hits) is None <==> (forall|j: int|
            0 <= j < hits.len() ==> (#[trigger] hits[j]) is None),
        spec_nearest_hit(hits) matches Some(i) ==> {
            &&& 0 <= i < hits.len()
            &&& hits[i] is Some
            &&& (forall|j: int|
                0 <= j < hits.len() && (#[trigger] hits[j]) is Some ==> hits[i]->0 <= hits[j]->0)
            &&& (forall|j: int|
                0 <= j < i ==> ((#[trigger] hits[j]) is None || hits[j]->0 > hits[i]->0))
        },
    decreases hits.len(),
{
    if hits.len() > 0 {
        let pre = hits.drop_last();
        let n = hits.len() - 1;
        lemma_nearest_hit_spec(pre);
        assert(pre.len() == n);
        assert(forall|j: int| 0 <= j < n ==> #[trigger] hits[j] == pre[j]);
        let last = hits[n];
        let rest = spec_nearest_hit(pre);
        match (last, rest) {
            (Some(d), Some(i)) => {
                if d < hits[i]->0 {
                    assert(spec_nearest_hit(hits) == Some(n));
                    assert forall|j: int|
                        0 <= j < hits.len() && (#[trigger] hits[j]) is Some implies hits[n]->0
                        <= hits[j]->0 by {
                        if j < n {
                            assert(pre[j] is Some);
                            assert(pre[i]->0 <= pre[j]->0);
                        }
                    }
                    assert forall|j: int|
                        0 <= j < n implies ((#[trigger] hits[j]) is None || hits[j]->0
                        > hits[n]->0) by {
                        if pre[j] is Some {
                            assert(pre[i]->0 <= pre[j]->0);
                        }
                    }
                } else {
                    assert(spec_nearest_hit(hits) == Some(i));
                    assert forall|j: int|
                        0 <= j < hits.len() && (#[trigger] hits[j]) is Some implies hits[i]->0
                        <= hits[j]->0 by {
                        if j < n {
                            assert(pre[j] is Some);
                            assert(pre[i]->0 <= pre[j]->0);
                        }
                    }
                    assert forall|j: int|
                        0 <= j < i implies ((#[trigger] hits[j]) is None || hits[j]->0
                        > hits[i]->0) by {
                        assert(pre[j] is None || pre[j]->0 > pre[i]->0);
                    }
                }
            },
            (Some(d), None) => {
                assert(spec_nearest_hit(hits) == Some(n));
                assert forall|j: int|
                    0 <= j < hits.len() && (#[trigger] hits[j]) is Some implies hits[n]->0
                    <= hits[j]->0 by {
                    if j < n {
                        assert(pre[j] is None);
                    }
                }
                assert forall|j: int|
                    0 <= j < n implies ((#[trigger] hits[j]) is None || hits[j]->0
                    > hits[n]->0) by {
                    assert(pre[j] is None);
                }
            },
            (None, Some(i)) => {
                assert(spec_nearest_hit(hits) == Some(i));
                assert forall|j: int|
                    0 <= j < hits.len() && (#[trigger] hits[j]) is Some implies hits[i]->0
                    <= hits[j]->0 by {
                    if j < n {
                        assert(pre[j] is Some);
                        assert(pre[i]->0 <= pre[j]->0);
                    }
                }
                assert forall|j: int|
                    0 <= j < i implies ((#[trigger] hits[j]) is None || hits[j]->0
                    > hits[i]->0) by {
                    assert(pre[j] is None || pre[j]->0 > pre[i]->0);
                }
            },
            (None, None) => {
                assert(spec_nearest_hit(hits) is None);
                assert forall|j: int| 0 <= j < hits.len() implies (#[trigger] hits[j]) is None by {
                    if j < n {
                        assert(pre[j] is None);
                    }
                }
            },
        }
    }
}

/// Scan the per-primitive intersection results, given as distance keys whose
/// integer order is the order of the distances, and return the index of the
/// primitive whose hit the renderer uses: the first one at the smallest key.
pub fn nearest_hit(hits: &Vec<Option<u64>>) -> (r: Option<usize>)
    ensures
        r is Some <==> spec_nearest_hit(hits@) is Some,
        r matches Some(i) ==> spec_nearest_hit(hits@) == Some(i as int),
        r is None ==> (forall|j: int| 0 <= j < hits@.len() ==> (#[trigger] hits@[j]) is None),
        r matches Some(i) ==> {
            &&& i < hits@.len()
            &&& hits@[i as int] is Some
            &&& (forall|j: int|
                0 <= j < hits@.len() && (#[trigger] hits@[j]) is Some ==> hits@[i as int]->0
                    <= hits@[j]->0)
            &&& (forall|j: int|
                0 <= j < i ==> ((#[trigger] hits@[j]) is None || hits@[j]->0 > hits@[i as int]->0))
        },
{
    let mut best: Option<(usize, u64)> = None;
    let mut t: usize = 0;
    proof {
        assert(hits@.take(0) =~= Seq::<Option<u64>>::empty());
    }
    while t < hits.len()
        invariant
            t <= hits@.len(),
            best is None ==> spec_nearest_hit(hits@.take(t as int)) is None,
            best matches Some((i, d)) ==> {
                &&& i < t
                &&& hits@[i as int] == Some(d)
                &&& spec_nearest_hit(hits@.take(t as int)) == Some(i as int)
            },
        decreases hits@.len() - t,
    {
        let ghost prefix = hits@.take(t as int);
        let entry: Option<u64> = hits[t];
        match entry {
            Some(d) => {
                let replace: bool = match best {
                    Some((_, bd)) => d < bd,
                    None => true,
                };
                if replace {
                    best = Some((t, d));
                }
            },
            None => {},
        }
        proof {
            assert(hits@.take(t as int + 1) =~= prefix.push(hits@[t as int]));
            assert(hits@.take(t as int + 1).drop_last() =~= prefix);
        }
        t = t + 1;
    }
    proof {
        assert(hits@.take(hits@.len() as int) =~= hits@);
        lemma_nearest_hit_spec(hits@);
    }
    match best {
        Some((i, _)) => Some(i),
        None => None,
    }
}

/// Of two primitives that both report a hit for the same ray, the scan keeps
/// the one whose distance key is strictly smaller; on an exact tie the
/// earlier primitive wins.
pub proof fn lemma_two_hits_nearest(d0: u64, d1: u64)
    ensures
        d0 <= d1 ==> spec_nearest_hit(seq![Some(d0), Some(d1)]) == Some(0int),
        d1 < d0 ==> spec_nearest_hit(seq![Some(d0), Some(d1)]) == Some(1int),
{
    let s = seq![Some(d0), Some(d1)];
    assert(s.drop_last() =~= seq![Some(d0)]);
    assert(seq![Some(d0)].drop_last() =~= Seq::<Option<u64>>::empty());
    assert(spec_nearest_hit(Seq::<Option<u64>>::empty()) is None);
    assert(spec_nearest_hit(seq![Some(d0)]) == Some(0int));
}

} // verus!
