//! SHA-1 digests of passwords.

use vstd::prelude::*;

verus! {

/// The SHA-1 digest of a sequence of bytes.
pub uninterp spec fn sha1_digest(data: Seq<u8>) -> Seq<u8>;

/// `sha1::Sha1::digest`: the 20 bytes of the SHA-1 digest. Which bytes they are is left to the
/// name `sha1_digest`.
#[verifier::external_body]
pub(crate) fn sha1_of(data: &[u8]) -> (digest: [u8; 20])
    ensures
        digest@ == sha1_digest(data@),
{
    <sha1::Sha1 as sha1::Digest>::digest(data).into()
}

/// Whether some bytes are a given digest.
pub fn is_digest(data: &[u8], expected: &[u8; 20]) -> (same: bool)
    ensures
        same == (data@ == expected@),
{
    if data.len() != 20 {
        return false;
    }
    let mut i: usize = 0;
    while i < 20
        invariant
            i <= 20,
            data@.len() == 20,
            forall|j: int| 0 <= j < i ==> data@[j] == expected@[j],
        decreases 20 - i,
    {
        if data[i] != expected[i] {
            return false;
        }
        i = i + 1;
    }
    assert(data@ =~= expected@);
    true
}

} // verus!
