//! Putting concurrently completed fetches back into the configured identity
//! order. Fetches are issued one per identity and may finish in any order;
//! each completion carries the position of its identity in the configured
//! list, and the collector files it by that position, so the aggregate can
//! never depend on completion order.

use vstd::prelude::*;
use vstd::pervasive::VecAdditionalExecFns;
use vstd::set_lib::lemma_int_range;
use vstd::set_lib::lemma_subset_equality;
use vstd::set_lib::set_int_range;
use crate::cycle::spec_cycle_file;
use crate::errors::FetchError;

verus! {

/// One completed fetch: the position of its identity in the configured
/// list, and the outcome of the fetch.
pub struct Arrival {
    pub index: usize,
    pub outcome: Result<Vec<u8>, FetchError>,
}

/// The arrivals of one fully joined cycle: exactly one completion for each
/// of the `n` identities, in whatever order they finished.
pub open spec fn complete_join(n: int, arr: Seq<Arrival>) -> bool {
    &&& arr.len() == n
    &&& forall|k: int| 0 <= k < arr.len() ==> (#[trigger] arr[k].index as int) < n
    &&& forall|k1: int, k2: int|
        0 <= k1 < k2 < arr.len() ==> (#[trigger] arr[k1].index) != (#[trigger] arr[k2].index)
}

/// Some arrival completed the identity at position `j`.
pub open spec fn covers(arr: Seq<Arrival>, j: int) -> bool {
    exists|k: int| 0 <= k < arr.len() && (#[trigger] arr[k].index) == j
}

/// In a fully joined cycle every identity position received a completion:
/// `n` pairwise distinct positions below `n` cover every position.
pub proof fn lemma_join_covers(n: int, arr: Seq<Arrival>)
    requires
        complete_join(n, arr),
    ensures
        forall|j: int| 0 <= j < n ==> #[trigger] covers(arr, j),
{
    let idxs = arr.map_values(|a: Arrival| a.index as int);
    assert(idxs.no_duplicates());
    assert(forall|k: int| 0 <= k < idxs.len() ==> set_int_range(0, n).contains(#[trigger] idxs[k]));
    assert(idxs.to_set().subset_of(set_int_range(0, n))) by {
        assert forall|x: int| idxs.to_set().contains(x) implies set_int_range(0, n).contains(
            x,
        ) by {
            let k = choose|k: int| 0 <= k < idxs.len() && idxs[k] == x;
            assert(set_int_range(0, n).contains(idxs[k]));
        }
    }
    idxs.unique_seq_to_set();
    lemma_int_range(0, n);
    lemma_subset_equality(idxs.to_set(), set_int_range(0, n));
    assert forall|j: int| 0 <= j < n implies #[trigger] covers(arr, j) by {
        assert(set_int_range(0, n).contains(j));
        assert(idxs.to_set().contains(j));
        let k = choose|k: int| 0 <= k < idxs.len() && idxs[k] == j;
        assert(arr[k].index == j);
    }
}

/// Files each completed fetch at its identity's position, turning arrivals
/// in completion order into outcomes in configured identity order.
#[verifier::loop_isolation(false)]
pub fn order_results(n: usize, arrivals: Vec<Arrival>) -> (r: Vec<Result<Vec<u8>, FetchError>>)
    requires
        complete_join(n as int, arrivals@),
    ensures
        r@.len() == n,
        forall|k: int|
            0 <= k < arrivals@.len() ==> r@[#[trigger] arrivals@[k].index as int]
                == arrivals@[k].outcome,
{
    let ghost arr = arrivals@;
    let mut slots: Vec<Result<Vec<u8>, FetchError>> = Vec::new();
    let mut j: usize = 0;
    while j < n
        invariant
            j <= n,
            slots@.len() == j,
        decreases n - j,
    {
        slots.push(Err(FetchError::Request));
        j = j + 1;
    }
    let mut rest = arrivals;
    let mut i: usize = 0;
    proof {
        assert(rest@ =~= arr.subrange(0, arr.len() as int));
    }
    while i < n
        invariant
            i <= n,
            slots@.len() == n,
            rest@ == arr.subrange(i as int, arr.len() as int),
            forall|k: int|
                0 <= k < i ==> slots@[#[trigger] arr[k].index as int] == arr[k].outcome,
        decreases n - i,
    {
        let a = rest.remove(0);
        proof {
            assert(arr.subrange(i as int, arr.len() as int)[0] == arr[i as int]);
            assert(arr.subrange(i as int, arr.len() as int).remove(0) =~= arr.subrange(
                i as int + 1,
                arr.len() as int,
            ));
        }
        let idx = a.index;
        slots.set(idx, a.outcome);
        proof {
            assert forall|k: int|
                0 <= k < i + 1 implies slots@[#[trigger] arr[k].index as int]
                == arr[k].outcome by {
                if k < i {
                    assert(arr[k].index != arr[i as int].index);
                }
            }
        }
        i = i + 1;
    }
    slots
}

/// The ordered outcomes of a fully joined cycle depend only on which outcome
/// belongs to which identity, never on the order in which the fetches
/// completed: two completion orders made of the same completions yield the
/// same ordered outcomes, and with them the same aggregate.
pub proof fn lemma_order_independent(
    n: int,
    a1: Seq<Arrival>,
    a2: Seq<Arrival>,
    o1: Seq<Result<Vec<u8>, FetchError>>,
    o2: Seq<Result<Vec<u8>, FetchError>>,
)
    requires
        complete_join(n, a1),
        complete_join(n, a2),
        a1.to_multiset() == a2.to_multiset(),
        o1.len() == n,
        o2.len() == n,
        forall|k: int|
            0 <= k < a1.len() ==> o1[#[trigger] a1[k].index as int] == a1[k].outcome,
        forall|k: int|
            0 <= k < a2.len() ==> o2[#[trigger] a2[k].index as int] == a2[k].outcome,
    ensures
        o1 == o2,
{
    lemma_join_covers(n, a1);
    a1.to_multiset_ensures();
    a2.to_multiset_ensures();
    assert forall|j: int| 0 <= j < n implies o1[j] == o2[j] by {
        assert(covers(a1, j));
        let k1 = choose|k: int| 0 <= k < a1.len() && (#[trigger] a1[k].index) == j;
        assert(a1.to_multiset().contains(a1[k1]));
        assert(a2.to_multiset().contains(a1[k1]));
        assert(a2.contains(a1[k1]));
        let k2 = choose|k: int| 0 <= k < a2.len() && a2[k] == a1[k1];
        assert(o2[a2[k2].index as int] == a2[k2].outcome);
        assert(o1[j] == a1[k1].outcome);
    };
    assert(o1 =~= o2);
}

/// What a cycle does to the destination file does not depend on the order
/// in which its fetches completed: a cycle joined from the same completions
/// in two different orders leaves the same bytes — the same aggregate when
/// every fetch succeeded, the untouched prior contents otherwise.
pub proof fn lemma_file_independent_of_completion_order(
    file: Seq<u8>,
    ids: Seq<Seq<u8>>,
    a1: Seq<Arrival>,
    a2: Seq<Arrival>,
    o1: Seq<Result<Vec<u8>, FetchError>>,
    o2: Seq<Result<Vec<u8>, FetchError>>,
)
    requires
        complete_join(ids.len() as int, a1),
        complete_join(ids.len() as int, a2),
        a1.to_multiset() == a2.to_multiset(),
        o1.len() == ids.len(),
        o2.len() == ids.len(),
        forall|k: int|
            0 <= k < a1.len() ==> o1[#[trigger] a1[k].index as int] == a1[k].outcome,
        forall|k: int|
            0 <= k < a2.len() ==> o2[#[trigger] a2[k].index as int] == a2[k].outcome,
    ensures
        spec_cycle_file(file, ids, o1) == spec_cycle_file(file, ids, o2),
{
    lemma_order_independent(ids.len() as int, a1, a2, o1, o2);
}

} // verus!
