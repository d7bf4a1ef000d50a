//! The replies of the meta service as they travel back to the caller.
use vstd::prelude::*;
use vstd::bytes::*;
use vstd::slice::slice_to_vec;

verus! {

/// The number of bytes of a reply that carries one 64-bit word.
pub const WORD_REPLY_LEN: usize = 8;

/// The reply to a registration: the physical address of the memory region
/// that holds the table of registered endpoints.
#[derive(Clone, Copy, Debug, PartialEq, Eq, Structural)]
pub struct RegDCMeta {
    pub meta_pa: u64,
}

impl RegDCMeta {
    /// The reply's image: the address as a little-endian word.
    pub fn to_bytes(&self) -> (out: Vec<u8>)
        ensures
            out@ == spec_u64_to_le_bytes(self.meta_pa),
            out@.len() == WORD_REPLY_LEN,
    {
        u64_to_le_bytes(self.meta_pa)
    }

    pub fn from_bytes(s: &[u8]) -> (r: RegDCMeta)
        requires
            s@.len() == WORD_REPLY_LEN,
        ensures
            r.meta_pa == spec_u64_from_le_bytes(s@),
    {
        RegDCMeta { meta_pa: u64_from_le_bytes(s) }
    }
}

/// Reading back the image of a registration reply gives the reply, and an
/// eight-byte image is the image of the reply read from it.
pub proof fn lemma_reg_reply_roundtrip(r: RegDCMeta, s: Seq<u8>)
    ensures
        spec_u64_from_le_bytes(spec_u64_to_le_bytes(r.meta_pa)) == r.meta_pa,
        s.len() == WORD_REPLY_LEN ==> spec_u64_to_le_bytes(spec_u64_from_le_bytes(s)) == s,
{
    lemma_auto_spec_u64_to_from_le_bytes();
}

/// The reply to a deregistration: one little-endian word.
pub fn dereg_reply_from_bytes(s: &[u8]) -> (w: u64)
    requires
        s@.len() == WORD_REPLY_LEN,
    ensures
        w == spec_u64_from_le_bytes(s@),
{
    u64_from_le_bytes(s)
}

/// The reply to a query that found an endpoint: the endpoint record's image.
pub struct QueryDCMeta {
    pub point: Vec<u8>,
}

impl View for QueryDCMeta {
    type V = Seq<u8>;

    open spec fn view(&self) -> Seq<u8> {
        self.point@
    }
}

impl QueryDCMeta {
    /// The reply's image, which is the endpoint record itself.
    pub fn to_bytes(&self) -> (out: Vec<u8>)
        ensures
            out@ == self@,
    {
        self.point.clone()
    }

    pub fn from_bytes(s: &[u8]) -> (r: QueryDCMeta)
        ensures
            r@ == s@,
    {
        QueryDCMeta { point: slice_to_vec(s) }
    }
}

} // verus!
