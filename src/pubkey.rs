//! Public keys: 32 opaque bytes that name accounts and authorities.

use vstd::prelude::*;

verus! {

/// Number of bytes in a public key.
pub const PUBKEY_BYTES: usize = 32;

/// A public key.
#[derive(Clone, Copy, Debug)]
pub struct Pubkey {
    /// The key's bytes.
    pub bytes: [u8; 32],
}

impl View for Pubkey {
    type V = Seq<u8>;

    open spec fn view(&self) -> Seq<u8> {
        self.bytes@
    }
}

impl Pubkey {
    /// The key with the given bytes.
    pub fn new_from_array(bytes: [u8; 32]) -> (r: Pubkey)
        ensures
            r@ == bytes@,
    {
        Pubkey { bytes }
    }

    /// The key's bytes.
    pub fn to_bytes(&self) -> (r: [u8; 32])
        ensures
            r@ == self@,
    {
        self.bytes
    }

    /// The key of 32 zero bytes, which names the system program.
    pub fn zeroed() -> (r: Pubkey)
        ensures
            r@ == Seq::new(32, |i: int| 0u8),
    {
        let r = Pubkey { bytes: [0u8; 32] };
        assert(r@ =~= Seq::new(32, |i: int| 0u8));
        r
    }

    /// Reads a key from `src` at `offset`.
    pub fn read_from(src: &[u8], offset: usize) -> (r: Pubkey)
        requires
            offset + 32 <= src@.len(),
        ensures
            r@ == src@.subrange(offset as int, offset + 32),
    {
        let n = src.len();
        let mut bytes = [0u8; 32];
        let mut i: usize = 0;
        while i < 32
            invariant
                n == src@.len(),
                offset + 32 <= src@.len(),
                i <= 32,
                bytes@.len() == 32,
                forall|j: int| 0 <= j < i ==> bytes@[j] == src@[offset + j],
            decreases 32 - i,
        {
            bytes[i] = src[offset + i];
            i = i + 1;
        }
        let r = Pubkey { bytes };
        assert(r@ =~= src@.subrange(offset as int, offset + 32));
        r
    }

    /// Whether the two keys hold the same bytes.
    pub fn equals(&self, other: &Pubkey) -> (r: bool)
        ensures
            r == (self@ == other@),
    {
        let mut i: usize = 0;
        while i < 32
            invariant
                i <= 32,
                self@.len() == 32,
                other@.len() == 32,
                forall|j: int| 0 <= j < i ==> self@[j] == other@[j],
            decreases 32 - i,
        {
            if self.bytes[i] != other.bytes[i] {
                return false;
            }
            i = i + 1;
        }
        assert(self@ =~= other@);
        true
    }
}

impl PartialEq for Pubkey {
    fn eq(&self, other: &Pubkey) -> (r: bool) {
        self.equals(other)
    }
}

impl vstd::std_specs::cmp::PartialEqSpecImpl for Pubkey {
    open spec fn obeys_eq_spec() -> bool {
        true
    }

    open spec fn eq_spec(&self, other: &Pubkey) -> bool {
        self@ == other@
    }
}

impl Eq for Pubkey {
}

} // verus!
