use vstd::prelude::*;
use vstd::bytes::*;
use vstd::slice::slice_subrange;

verus! {

/// The number of bytes of a GID on the wire.
pub const GID_LEN: usize = 16;

/// The kinds of request that the meta service answers.
#[derive(Clone, Copy, Debug, PartialEq, Eq, Structural)]
pub enum RPCReqType {
    Dummy,
    /// register the caller's own DC endpoint
    RegisterDCMeta,
    /// deregister the caller's DC endpoint
    DeregisterDcMeta,
    /// look up the DC endpoint of another node
    QueryDCMeta,
}

impl RPCReqType {
    /// The byte by which a request of this kind is tagged in the RPC header.
    pub open spec fn spec_value(&self) -> u8 {
        match self {
            RPCReqType::Dummy => 0,
            RPCReqType::RegisterDCMeta => 1,
            RPCReqType::DeregisterDcMeta => 2,
            RPCReqType::QueryDCMeta => 3,
        }
    }

    #[verifier::when_used_as_spec(spec_value)]
    pub fn value(&self) -> (v: u8)
        ensures
            v == self.spec_value(),
    {
        match self {
            RPCReqType::Dummy => 0,
            RPCReqType::RegisterDCMeta => 1,
            RPCReqType::DeregisterDcMeta => 2,
            RPCReqType::QueryDCMeta => 3,
        }
    }
}

/// Two kinds of request share a tag only if they are the same kind: the
/// handler table, keyed by tag, never mixes two handlers up.
pub proof fn lemma_value_injective(a: RPCReqType, b: RPCReqType)
    ensures
        a.spec_value() == b.spec_value() <==> a == b,
{
}

/// A 128-bit InfiniBand GID, seen as its two 64-bit halves as they lie in
/// memory (the `global` view of `ib_gid`).
#[derive(Clone, Copy, Debug, PartialEq, Eq, Structural)]
pub struct Gid {
    pub subnet_prefix: u64,
    pub interface_id: u64,
}

/// The sixteen bytes of a GID, each half in the machine's (little-endian) order.
pub open spec fn gid_bytes(g: Gid) -> Seq<u8> {
    spec_u64_to_le_bytes(g.subnet_prefix) + spec_u64_to_le_bytes(g.interface_id)
}

/// The GID whose image is the first sixteen bytes of `s`.
pub open spec fn gid_from_bytes(s: Seq<u8>) -> Gid {
    Gid {
        subnet_prefix: spec_u64_from_le_bytes(s.subrange(0, 8)),
        interface_id: spec_u64_from_le_bytes(s.subrange(8, 16)),
    }
}

/// Reading back the image of a GID gives the GID, and writing the GID read
/// from sixteen bytes gives those bytes.
pub proof fn lemma_gid_bytes_roundtrip(g: Gid, s: Seq<u8>)
    ensures
        gid_bytes(g).len() == GID_LEN,
        gid_from_bytes(gid_bytes(g)) == g,
        s.len() == GID_LEN ==> gid_bytes(gid_from_bytes(s)) == s,
{
    lemma_auto_spec_u64_to_from_le_bytes();
    let a = spec_u64_to_le_bytes(g.subnet_prefix);
    let b = spec_u64_to_le_bytes(g.interface_id);
    assert((a + b).subrange(0, 8) =~= a);
    assert((a + b).subrange(8, 16) =~= b);
    if s.len() == GID_LEN {
        let lo = s.subrange(0, 8);
        let hi = s.subrange(8, 16);
        assert(spec_u64_to_le_bytes(spec_u64_from_le_bytes(lo)) == lo);
        assert(spec_u64_to_le_bytes(spec_u64_from_le_bytes(hi)) == hi);
        assert(lo + hi =~= s);
    }
}

/// Where the halves of a GID lie in its image: the subnet prefix in bytes
/// 0..8, the interface id in bytes 8..16, each least significant byte first;
/// two GIDs with the same image are the same GID.
pub proof fn lemma_gid_bytes_layout(g: Gid, h: Gid)
    ensures
        gid_bytes(g).len() == GID_LEN,
        gid_bytes(g).subrange(0, 8) == spec_u64_to_le_bytes(g.subnet_prefix),
        gid_bytes(g).subrange(8, 16) == spec_u64_to_le_bytes(g.interface_id),
        gid_bytes(g) == gid_bytes(h) ==> g == h,
{
    lemma_auto_spec_u64_to_from_le_bytes();
    lemma_gid_bytes_roundtrip(g, Seq::empty());
    lemma_gid_bytes_roundtrip(h, Seq::empty());
    let a = spec_u64_to_le_bytes(g.subnet_prefix);
    let b = spec_u64_to_le_bytes(g.interface_id);
    assert((a + b).subrange(0, 8) =~= a);
    assert((a + b).subrange(8, 16) =~= b);
}

impl Gid {
    /// The GID's sixteen-byte image.
    pub fn to_bytes(&self) -> (out: Vec<u8>)
        ensures
            out@ == gid_bytes(*self),
    {
        let mut out = u64_to_le_bytes(self.subnet_prefix);
        let mut hi = u64_to_le_bytes(self.interface_id);
        out.append(&mut hi);
        out
    }

    /// The GID held in the sixteen bytes of `s`.
    pub fn from_bytes(s: &[u8]) -> (g: Gid)
        requires
            s@.len() == GID_LEN,
        ensures
            g == gid_from_bytes(s@),
    {
        let lo = u64_from_le_bytes(slice_subrange(s, 0, 8));
        let hi = u64_from_le_bytes(slice_subrange(s, 8, 16));
        Gid { subnet_prefix: lo, interface_id: hi }
    }
}

} // verus!
