//! 32-byte account identities.
//!
//! Every account, program and authority on the host chain is named by an
//! opaque 32-byte key. The library only ever stores, compares and
//! serializes these keys; deriving new ones from seeds is the authority
//! module's business.

use vstd::prelude::*;

verus! {

/// A 32-byte account key, held as plain bytes.
#[derive(Clone, Copy, Debug, PartialEq, Eq)]
pub struct Address {
    /// The raw key bytes.
    pub bytes: [u8; 32],
}

impl View for Address {
    type V = Seq<u8>;

    open spec fn view(&self) -> Seq<u8> {
        self.bytes@
    }
}

/// A key is nothing but its bytes: equal views mean equal keys.
pub proof fn lemma_address_view_injective(a: Address, b: Address)
    requires
        a@ == b@,
    ensures
        a == b,
{
    broadcast use vstd::array::group_array_axioms;

    assert(forall|i: int| 0 <= i < 32 ==> a.bytes[i] == b.bytes[i]);
    assert(a.bytes =~= b.bytes);
}

impl Address {
    /// Reads the 32 bytes at `off` in `s` as a key.
    pub fn read(s: &[u8], off: usize) -> (r: Address)
        requires
            off + 32 <= s@.len(),
        ensures
            r@ == s@.subrange(off as int, off as int + 32),
    {
        let slen = s.len();
        let mut bytes = [0u8; 32];
        let mut i: usize = 0;
        while i < 32
            invariant
                i <= 32,
                slen == s@.len(),
                off + 32 <= slen,
                bytes@.len() == 32,
                forall|j: int| 0 <= j < i ==> bytes@[j] == s@[off + j],
            decreases 32 - i,
        {
            bytes[i] = s[off + i];
            i += 1;
        }
        let r = Address { bytes };
        proof {
            assert(r@ =~= s@.subrange(off as int, off as int + 32));
        }
        r
    }

    /// Byte-for-byte equality of two keys.
    pub fn eq_key(&self, other: &Address) -> (r: bool)
        ensures
            r == (self@ == other@),
    {
        let mut i: usize = 0;
        while i < 32
            invariant
                i <= 32,
                forall|j: int| 0 <= j < i ==> self.bytes@[j] == other.bytes@[j],
            decreases 32 - i,
        {
            if self.bytes[i] != other.bytes[i] {
                assert(self@ != other@);
                return false;
            }
            i += 1;
        }
        proof {
            assert(self@ =~= other@);
        }
        true
    }
}

} // verus!
