//! Building the aggregate: one block of text per identity, each block a
//! comment line naming the identity followed by that identity's raw key
//! text, the blocks joined in the configured identity order with a single
//! blank line between entries.

use vstd::prelude::*;

verus! {

/// The block for one identity: `# `, the identity, a line feed, the raw key
/// text as fetched, and a final line feed.
pub open spec fn spec_block(id: Seq<u8>, keys: Seq<u8>) -> Seq<u8> {
    seq![35u8, 32u8] + id + seq![10u8] + keys + seq![10u8]
}

/// Blocks joined with a single line feed between consecutive entries and
/// nothing after the last.
pub open spec fn spec_join(blocks: Seq<Seq<u8>>) -> Seq<u8>
    decreases blocks.len(),
{
    if blocks.len() == 0 {
        Seq::empty()
    } else if blocks.len() == 1 {
        blocks[0]
    } else {
        blocks[0] + seq![10u8] + spec_join(blocks.drop_first())
    }
}

/// The block of each identity, in the order the identities are listed.
pub open spec fn spec_blocks(ids: Seq<Seq<u8>>, keys: Seq<Seq<u8>>) -> Seq<Seq<u8>> {
    Seq::new(ids.len(), |i: int| spec_block(ids[i], keys[i]))
}

/// The whole aggregate for one cycle, written verbatim to the destination
/// file: the identities' blocks in configured order, joined by `spec_join`.
pub open spec fn spec_aggregate(ids: Seq<Seq<u8>>, keys: Seq<Seq<u8>>) -> Seq<u8> {
    spec_join(spec_blocks(ids, keys))
}

proof fn lemma_join_push(blocks: Seq<Seq<u8>>, b: Seq<u8>)
    ensures
        blocks.len() == 0 ==> spec_join(blocks.push(b)) == b,
        blocks.len() > 0 ==> spec_join(blocks.push(b)) == spec_join(blocks) + seq![10u8] + b,
    decreases blocks.len(),
{
    let p = blocks.push(b);
    if blocks.len() == 0 {
        assert(p.len() == 1);
        assert(p[0] == b);
    } else if blocks.len() == 1 {
        assert(p.len() == 2);
        assert(p.drop_first() =~= seq![b]);
        assert(spec_join(seq![b]) == b);
        assert(p[0] == blocks[0]);
    } else {
        assert(p.drop_first() =~= blocks.drop_first().push(b));
        lemma_join_push(blocks.drop_first(), b);
        assert(spec_join(p) =~= spec_join(blocks) + seq![10u8] + b);
    }
}

/// Appends every byte of `src` to `dst`, in order.
fn push_all(dst: &mut Vec<u8>, src: &Vec<u8>)
    ensures
        final(dst)@ == old(dst)@ + src@,
{
    let ghost base = dst@;
    let n: usize = src.len();
    let mut i: usize = 0;
    proof {
        assert(dst@ =~= base + src@.subrange(0, 0));
    }
    while i < n
        invariant
            i <= n,
            n == src@.len(),
            dst@ == base + src@.subrange(0, i as int),
        decreases n - i,
    {
        dst.push(src[i]);
        proof {
            assert(dst@ =~= base + src@.subrange(0, i as int + 1));
        }
        i = i + 1;
    }
    proof {
        assert(src@.subrange(0, n as int) =~= src@);
    }
}

/// The formatted block for one identity and the key text fetched for it.
pub fn key_block(id: &Vec<u8>, keys: &Vec<u8>) -> (r: Vec<u8>)
    ensures
        r@ == spec_block(id@, keys@),
{
    let mut out: Vec<u8> = Vec::new();
    out.push(35u8);
    out.push(32u8);
    push_all(&mut out, id);
    out.push(10u8);
    push_all(&mut out, keys);
    out.push(10u8);
    proof {
        assert(out@ =~= spec_block(id@, keys@));
    }
    out
}

/// The aggregate for one cycle, from the identities in configured order and
/// the key text fetched for each. Position `i` of `keys` is what was fetched
/// for position `i` of `ids`; the result depends only on these two lists, so
/// the order in which concurrent fetches happened to finish cannot show in it.
pub fn build_aggregate(ids: &Vec<Vec<u8>>, keys: &Vec<Vec<u8>>) -> (r: Vec<u8>)
    requires
        ids@.len() == keys@.len(),
    ensures
        r@ == spec_aggregate(ids.deep_view(), keys.deep_view()),
{
    let ghost dv_ids = ids.deep_view();
    let ghost dv_keys = keys.deep_view();
    let mut out: Vec<u8> = Vec::new();
    let n: usize = ids.len();
    let mut i: usize = 0;
    proof {
        assert(dv_ids.len() == ids@.len());
        assert(dv_keys.len() == keys@.len());
        assert(out@ =~= spec_join(spec_blocks(
            dv_ids.subrange(0, 0),
            dv_keys.subrange(0, 0),
        )));
    }
    while i < n
        invariant
            i <= n,
            n == ids@.len(),
            ids@.len() == keys@.len(),
            dv_ids == ids.deep_view(),
            dv_keys == keys.deep_view(),
            dv_ids.len() == ids@.len(),
            dv_keys.len() == keys@.len(),
            out@ == spec_join(spec_blocks(
                dv_ids.subrange(0, i as int),
                dv_keys.subrange(0, i as int),
            )),
        decreases n - i,
    {
        if i > 0 {
            out.push(10u8);
        }
        let b = key_block(&ids[i], &keys[i]);
        push_all(&mut out, &b);
        proof {
            assert(dv_ids[i as int] == ids@[i as int]@);
            assert(dv_keys[i as int] == keys@[i as int]@);
            let prev = spec_blocks(dv_ids.subrange(0, i as int), dv_keys.subrange(0, i as int));
            let cur = spec_blocks(
                dv_ids.subrange(0, i as int + 1),
                dv_keys.subrange(0, i as int + 1),
            );
            assert(cur =~= prev.push(spec_block(dv_ids[i as int], dv_keys[i as int])));
            lemma_join_push(prev, spec_block(dv_ids[i as int], dv_keys[i as int]));
            assert(out@ =~= spec_join(cur));
        }
        i = i + 1;
    }
    proof {
        assert(dv_ids.subrange(0, n as int) =~= dv_ids);
        assert(dv_keys.subrange(0, n as int) =~= dv_keys);
    }
    out
}

} // verus!
