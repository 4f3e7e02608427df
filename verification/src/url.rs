//! The well-known per-identity URL the keys are fetched from: the fixed
//! host's key-listing path for the identity, `https://github.com/<identity>.keys`.

use vstd::prelude::*;

verus! {

/// The bytes of `https://github.com/`.
pub open spec fn spec_url_prefix() -> Seq<u8> {
    seq![
        104u8,
        116u8,
        116u8,
        112u8,
        115u8,
        58u8,
        47u8,
        47u8,
        103u8,
        105u8,
        116u8,
        104u8,
        117u8,
        98u8,
        46u8,
        99u8,
        111u8,
        109u8,
        47u8,
    ]
}

/// The bytes of `.keys`.
pub open spec fn spec_url_suffix() -> Seq<u8> {
    seq![46u8, 107u8, 101u8, 121u8, 115u8]
}

/// The retrieval URL for one identity: prefix, identity, suffix.
pub open spec fn spec_keys_url(id: Seq<u8>) -> Seq<u8> {
    spec_url_prefix() + id + spec_url_suffix()
}

/// The URL whose body is the identity's current public-key listing.
pub fn keys_url(id: &Vec<u8>) -> (r: Vec<u8>)
    ensures
        r@ == spec_keys_url(id@),
{
    let mut out: Vec<u8> = vec![
        104u8, 116u8, 116u8, 112u8, 115u8, 58u8, 47u8, 47u8, 103u8, 105u8, 116u8, 104u8, 117u8,
        98u8, 46u8, 99u8, 111u8, 109u8, 47u8,
    ];
    let n: usize = id.len();
    let mut i: usize = 0;
    proof {
        assert(out@ =~= spec_url_prefix() + id@.subrange(0, 0));
    }
    while i < n
        invariant
            i <= n,
            n == id@.len(),
            out@ == spec_url_prefix() + id@.subrange(0, i as int),
        decreases n - i,
    {
        out.push(id[i]);
        proof {
            assert(out@ =~= spec_url_prefix() + id@.subrange(0, i as int + 1));
        }
        i = i + 1;
    }
    proof {
        assert(id@.subrange(0, n as int) =~= id@);
    }
    out.push(46u8);
    out.push(107u8);
    out.push(101u8);
    out.push(121u8);
    out.push(115u8);
    proof {
        assert(out@ =~= spec_keys_url(id@));
    }
    out
}

} // verus!
