//! The requests of the meta service as they travel in an RPC payload: each is
//! the byte image of a `repr(C)` record, laid out as on a 64-bit little-endian
//! machine.
use vstd::prelude::*;
use vstd::bytes::*;
use vstd::slice::slice_subrange;
use vstd::slice::slice_to_vec;
use crate::protocol::{Gid, GID_LEN, gid_bytes, gid_from_bytes, lemma_gid_bytes_roundtrip};

verus! {

/// Where the `port` field starts in a registration request.
pub const REG_PORT_OFFSET: usize = 16;

/// Where the endpoint record starts in a registration request.
pub const REG_POINT_OFFSET: usize = 24;

/// A request to register the sender's DC endpoint.
///
/// `local_point` is the byte image of the sender's endpoint record; the
/// service stores and hands out such images without looking inside them.
pub struct RegDCMeta {
    /// the sender's GID
    pub gid: Gid,
    /// the index of the memory region whose address the reply carries
    pub port: usize,
    pub local_point: Vec<u8>,
}

impl View for RegDCMeta {
    type V = (Gid, usize, Seq<u8>);

    open spec fn view(&self) -> (Gid, usize, Seq<u8>) {
        (self.gid, self.port, self.local_point@)
    }
}

/// The image of a registration request: the GID in bytes 0..16, the port as
/// a 64-bit word in bytes 16..24, the endpoint record from byte 24 on.
pub open spec fn reg_wire(v: (Gid, usize, Seq<u8>)) -> Seq<u8> {
    gid_bytes(v.0) + spec_u64_to_le_bytes(v.1 as u64) + v.2
}

/// The registration request whose image is `s`.
pub open spec fn reg_parse(s: Seq<u8>) -> (Gid, usize, Seq<u8>) {
    (
        gid_from_bytes(s.subrange(0, 16)),
        spec_u64_from_le_bytes(s.subrange(16, 24)) as usize,
        s.subrange(24, s.len() as int),
    )
}

/// Where the fields of a registration request lie in its image: the GID's
/// image in bytes 0..16, the port as a little-endian word in bytes 16..24,
/// the endpoint image from byte 24 to the end.
pub proof fn lemma_reg_layout(v: (Gid, usize, Seq<u8>))
    ensures
        reg_wire(v).len() == REG_POINT_OFFSET + v.2.len(),
        reg_wire(v).subrange(0, 16) == gid_bytes(v.0),
        reg_wire(v).subrange(16, 24) == spec_u64_to_le_bytes(v.1 as u64),
        reg_wire(v).subrange(24, reg_wire(v).len() as int) == v.2,
{
    lemma_gid_bytes_roundtrip(v.0, Seq::empty());
    lemma_auto_spec_u64_to_from_le_bytes();
    let g = gid_bytes(v.0);
    let p = spec_u64_to_le_bytes(v.1 as u64);
    let w = g + p + v.2;
    assert(w.subrange(0, 16) =~= g);
    assert(w.subrange(16, 24) =~= p);
    assert(w.subrange(24, w.len() as int) =~= v.2);
}

/// Reading back the image of a registration request gives the request.
pub proof fn lemma_reg_roundtrip(v: (Gid, usize, Seq<u8>))
    ensures
        reg_wire(v).len() == REG_POINT_OFFSET + v.2.len(),
        reg_parse(reg_wire(v)) == v,
{
    lemma_gid_bytes_roundtrip(v.0, Seq::empty());
    lemma_auto_spec_u64_to_from_le_bytes();
    let g = gid_bytes(v.0);
    let p = spec_u64_to_le_bytes(v.1 as u64);
    let w = g + p + v.2;
    assert(w.subrange(0, 16) =~= g);
    assert(w.subrange(16, 24) =~= p);
    assert(w.subrange(24, w.len() as int) =~= v.2);
}

/// An image of at least 24 bytes whose port word fits a `usize` is the image
/// of the request read from it.
pub proof fn lemma_reg_parse_wire(s: Seq<u8>)
    requires
        s.len() >= REG_POINT_OFFSET,
        spec_u64_from_le_bytes(s.subrange(16, 24)) <= usize::MAX,
    ensures
        reg_wire(reg_parse(s)) == s,
{
    lemma_gid_bytes_roundtrip(gid_from_bytes(s.subrange(0, 16)), s.subrange(0, 16));
    lemma_auto_spec_u64_to_from_le_bytes();
    assert(spec_u64_to_le_bytes(spec_u64_from_le_bytes(s.subrange(16, 24))) == s.subrange(16, 24));
    assert(gid_from_bytes(s.subrange(0, 16)) == gid_from_bytes(s.subrange(0, 16)));
    assert(s.subrange(0, 16) + s.subrange(16, 24) + s.subrange(24, s.len() as int) =~= s);
}

impl RegDCMeta {
    /// The request's byte image.
    pub fn to_bytes(&self) -> (out: Vec<u8>)
        ensures
            out@ == reg_wire(self@),
    {
        let mut out = self.gid.to_bytes();
        let mut port = u64_to_le_bytes(self.port as u64);
        out.append(&mut port);
        out.extend_from_slice(self.local_point.as_slice());
        out
    }

    /// The request held in the image `s`, whose endpoint record is whatever
    /// follows the first 24 bytes.
    pub fn from_bytes(s: &[u8]) -> (r: RegDCMeta)
        requires
            s@.len() >= REG_POINT_OFFSET,
        ensures
            r@ == reg_parse(s@),
    {
        let gid = Gid::from_bytes(slice_subrange(s, 0, GID_LEN));
        let port = u64_from_le_bytes(slice_subrange(s, REG_PORT_OFFSET, REG_POINT_OFFSET));
        let local_point = slice_to_vec(slice_subrange(s, REG_POINT_OFFSET, s.len()));
        RegDCMeta { gid, port: port as usize, local_point }
    }
}

/// A request to deregister the sender's DC endpoint: its image is the GID.
#[derive(Clone, Copy, Debug, PartialEq, Eq, Structural)]
pub struct DeRegDCMeta {
    pub gid: Gid,
}

impl DeRegDCMeta {
    pub fn to_bytes(&self) -> (out: Vec<u8>)
        ensures
            out@ == gid_bytes(self.gid),
    {
        self.gid.to_bytes()
    }

    pub fn from_bytes(s: &[u8]) -> (r: DeRegDCMeta)
        requires
            s@.len() == GID_LEN,
        ensures
            r.gid == gid_from_bytes(s@),
    {
        DeRegDCMeta { gid: Gid::from_bytes(s) }
    }
}

/// A request for the DC endpoint registered under `gid`: its image is the GID.
#[derive(Clone, Copy, Debug, PartialEq, Eq, Structural)]
pub struct QueryDCMeta {
    pub gid: Gid,
}

impl QueryDCMeta {
    pub fn to_bytes(&self) -> (out: Vec<u8>)
        ensures
            out@ == gid_bytes(self.gid),
    {
        self.gid.to_bytes()
    }

    pub fn from_bytes(s: &[u8]) -> (r: QueryDCMeta)
        requires
            s@.len() == GID_LEN,
        ensures
            r.gid == gid_from_bytes(s@),
    {
        QueryDCMeta { gid: Gid::from_bytes(s) }
    }
}

} // verus!
