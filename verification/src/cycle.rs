//! The all-or-nothing decision of one cycle: if every identity's fetch
//! succeeded, the cycle produces the aggregate to write; if any one failed,
//! the cycle produces that failure and the destination file is not touched.

use vstd::prelude::*;
use crate::aggregate::build_aggregate;
use crate::aggregate::spec_aggregate;
use crate::errors::FetchError;

verus! {

/// Every fetch of the cycle succeeded.
pub open spec fn all_ok(rs: Seq<Result<Vec<u8>, FetchError>>) -> bool {
    forall|i: int| 0 <= i < rs.len() ==> rs[i] is Ok
}

/// The key text of each fetch, positionally; meaningful where `all_ok` holds.
pub open spec fn ok_keys(rs: Seq<Result<Vec<u8>, FetchError>>) -> Seq<Seq<u8>> {
    Seq::new(rs.len(), |i: int| rs[i]->Ok_0@)
}

/// The error of the first failed fetch, in identity-list order.
pub open spec fn first_err(rs: Seq<Result<Vec<u8>, FetchError>>) -> FetchError
    decreases rs.len(),
{
    if rs.len() == 0 {
        FetchError::Request
    } else if rs[0] is Err {
        rs[0]->Err_0
    } else {
        first_err(rs.drop_first())
    }
}

proof fn lemma_first_err_at(rs: Seq<Result<Vec<u8>, FetchError>>, i: int)
    requires
        0 <= i < rs.len(),
        rs[i] is Err,
        forall|j: int| 0 <= j < i ==> rs[j] is Ok,
    ensures
        first_err(rs) == rs[i]->Err_0,
    decreases i,
{
    if i > 0 {
        assert(forall|j: int| 0 <= j < i - 1 ==> rs.drop_first()[j] is Ok);
        lemma_first_err_at(rs.drop_first(), i - 1);
    }
}

/// Decides one cycle from the fetch outcomes, already in identity-list order.
///
/// Succeeds with the full aggregate exactly when every fetch succeeded;
/// fails with the first failed fetch's error when any fetch failed, and then
/// produces no text at all, so nothing is written that cycle.
#[verifier::loop_isolation(false)]
pub fn plan_cycle(ids: &Vec<Vec<u8>>, results: Vec<Result<Vec<u8>, FetchError>>) -> (r: Result<
    Vec<u8>,
    FetchError,
>)
    requires
        ids@.len() == results@.len(),
    ensures
        r is Ok <==> all_ok(results@),
        r is Ok ==> r->Ok_0@ == spec_aggregate(ids.deep_view(), ok_keys(results@)),
        r is Err ==> r->Err_0 == first_err(results@),
{
    let ghost all = results@;
    let n: usize = ids.len();
    let mut rest = results;
    let mut keys: Vec<Vec<u8>> = Vec::new();
    let mut i: usize = 0;
    proof {
        assert(rest@ =~= all.subrange(0, all.len() as int));
    }
    while i < n
        invariant
            i <= n,
            n == all.len(),
            keys@.len() == i,
            rest@ == all.subrange(i as int, all.len() as int),
            forall|j: int| 0 <= j < i ==> all[j] is Ok,
            forall|j: int| 0 <= j < i ==> keys@[j] == all[j]->Ok_0,
        decreases n - i,
    {
        let r0 = rest.remove(0);
        proof {
            assert(all.subrange(i as int, all.len() as int)[0] == all[i as int]);
            assert(all.subrange(i as int, all.len() as int).remove(0) =~= all.subrange(
                i as int + 1,
                all.len() as int,
            ));
        }
        match r0 {
            Ok(k) => {
                keys.push(k);
            },
            Err(e) => {
                proof {
                    assert(all[i as int] is Err);
                    assert(!all_ok(all));
                    lemma_first_err_at(all, i as int);
                }
                return Err(e);
            },
        }
        i = i + 1;
    }
    proof {
        assert(all_ok(all));
        assert forall|j: int| 0 <= j < n implies keys.deep_view()[j] == ok_keys(all)[j] by {
            assert(keys@[j] == all[j]->Ok_0);
            assert(keys@[j].deep_view() =~= keys@[j]@);
        }
        assert(keys.deep_view() =~= ok_keys(all));
    }
    Ok(build_aggregate(ids, &keys))
}

/// The destination file's bytes after one cycle, as a function of its bytes
/// before the cycle and the cycle's fetch outcomes: a cycle in which every
/// fetch succeeded replaces the whole content with the aggregate; any other
/// cycle leaves the content exactly as it was.
pub open spec fn spec_cycle_file(
    file: Seq<u8>,
    ids: Seq<Seq<u8>>,
    rs: Seq<Result<Vec<u8>, FetchError>>,
) -> Seq<u8> {
    if all_ok(rs) {
        spec_aggregate(ids, ok_keys(rs))
    } else {
        file
    }
}

/// If any one fetch fails, the cycle leaves the destination file's prior
/// contents unchanged: no truncation, no partial write.
pub proof fn lemma_failed_cycle_leaves_file(
    file: Seq<u8>,
    ids: Seq<Seq<u8>>,
    rs: Seq<Result<Vec<u8>, FetchError>>,
)
    requires
        exists|i: int| 0 <= i < rs.len() && rs[i] is Err,
    ensures
        spec_cycle_file(file, ids, rs) == file,
{
    let i = choose|i: int| 0 <= i < rs.len() && rs[i] is Err;
    assert(!(rs[i] is Ok));
    assert(!all_ok(rs));
}

/// Repeated cycles with unchanged fetch outcomes are idempotent: running the
/// same cycle again over the file it already produced leaves the very same
/// bytes. In particular, repeated successful cycles with unchanged key text
/// write byte-identical files.
pub proof fn lemma_cycle_idempotent(
    file: Seq<u8>,
    ids: Seq<Seq<u8>>,
    rs: Seq<Result<Vec<u8>, FetchError>>,
)
    ensures
        spec_cycle_file(spec_cycle_file(file, ids, rs), ids, rs) == spec_cycle_file(file, ids, rs),
{
}

} // verus!
