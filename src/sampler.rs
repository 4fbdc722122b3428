use vstd::prelude::*;

verus! {

/// Whether some distance query of a pass succeeded.
pub open spec fn has_reply(replies: Seq<Option<u32>>) -> bool {
    exists|j: int| 0 <= j < replies.len() && (#[trigger] replies[j]) is Some
}

/// Whether position `i` holds the nearest reply: it succeeded, no success is
/// smaller, and every earlier success is strictly larger.
pub open spec fn is_nearest(replies: Seq<Option<u32>>, i: int) -> bool {
    &&& 0 <= i < replies.len()
    &&& replies[i] is Some
    &&& forall|j: int|
        0 <= j < replies.len() && (#[trigger] replies[j]) is Some ==> replies[i]->0 <= replies[j]->0
    &&& forall|j: int| 0 <= j < i && (#[trigger] replies[j]) is Some ==> replies[i]->0 < replies[j]->0
}

/// The position of the winning reply: the replies are reduced in order, and a
/// later candidate replaces the current one only when strictly nearer.
pub open spec fn nearest_index(replies: Seq<Option<u32>>) -> Option<int>
    decreases replies.len(),
{
    if replies.len() == 0 {
        None
    } else {
        let n = replies.len() - 1;
        let rest = nearest_index(replies.drop_last());
        match replies[n] {
            None => rest,
            Some(d) => match rest {
                None => Some(n),
                Some(b) => if replies[b]->0 <= d {
                    Some(b)
                } else {
                    Some(n)
                },
            },
        }
    }
}

/// The winning distance of a pass, if any query succeeded.
pub open spec fn winning_distance(replies: Seq<Option<u32>>) -> Option<u32> {
    match nearest_index(replies) {
        None => None,
        Some(i) => replies[i],
    }
}

/// The reduction picks exactly the nearest reply, and picks one whenever a
/// query succeeded.
pub proof fn lemma_nearest_index(replies: Seq<Option<u32>>)
    ensures
        nearest_index(replies) is None <==> !has_reply(replies),
        nearest_index(replies) matches Some(i) ==> is_nearest(replies, i),
    decreases replies.len(),
{
    if replies.len() > 0 {
        let n = replies.len() - 1;
        let prefix = replies.drop_last();
        lemma_nearest_index(prefix);
        assert forall|j: int| 0 <= j < n implies prefix[j] == replies[j] by {}
        if has_reply(prefix) {
            let j = choose|j: int| 0 <= j < prefix.len() && (#[trigger] prefix[j]) is Some;
            assert(replies[j] is Some);
        }
        if has_reply(replies) && replies[n] is None {
            let j = choose|j: int| 0 <= j < replies.len() && (#[trigger] replies[j]) is Some;
            assert(prefix[j] is Some);
        }
    }
}

/// The winner is the only position that is nearest.
pub proof fn lemma_nearest_unique(replies: Seq<Option<u32>>, i: int, k: int)
    requires
        is_nearest(replies, i),
        is_nearest(replies, k),
    ensures
        i == k,
{
    if i < k {
        assert(replies[i] is Some);
    } else if k < i {
        assert(replies[k] is Some);
    }
}

/// Reduces the distance replies of one pass to the winning position and its
/// distance; failed queries (`None`) take no part.
pub fn nearest(replies: &Vec<Option<u32>>) -> (r: Option<(usize, u32)>)
    ensures
        r is None <==> nearest_index(replies@) is None,
        r matches Some((i, d)) ==> nearest_index(replies@) == Some(i as int) && replies@[i as int]
            == Some(d),
        r is None <==> !has_reply(replies@),
        r matches Some((i, d)) ==> is_nearest(replies@, i as int),
{
    let mut best: Option<(usize, u32)> = None;
    let mut i: usize = 0;
    while i < replies.len()
        invariant
            i <= replies.len(),
            best is None <==> nearest_index(replies@.take(i as int)) is None,
            best matches Some((b, d)) ==> nearest_index(replies@.take(i as int)) == Some(b as int)
                && b < i && replies@[b as int] == Some(d),
        decreases replies.len() - i,
    {
        assert(replies@.take(i + 1).drop_last() =~= replies@.take(i as int));
        match replies[i] {
            Some(d) => match best {
                None => {
                    best = Some((i, d));
                },
                Some((_, bd)) => {
                    if bd > d {
                        best = Some((i, d));
                    }
                },
            },
            None => {},
        }
        i += 1;
    }
    assert(replies@.take(i as int) =~= replies@);
    proof {
        lemma_nearest_index(replies@);
    }
    best
}

} // verus!
