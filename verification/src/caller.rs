//! The client side of the meta service: the RPC requests that a node sends to
//! register its DC endpoint, deregister it, or look up another node's.
//! Sending them and awaiting the reply is the RPC layer's work.
use vstd::prelude::*;
use crate::protocol::{Gid, RPCReqType, GID_LEN, gid_bytes, lemma_gid_bytes_roundtrip};
use crate::payload::{self, reg_wire, reg_parse, lemma_reg_roundtrip};
use crate::meta_kv::{Entries, no_dup_gids};
use crate::handler::{
    reg_effect, dereg_effect, query_answer, lemma_register_then_query, lemma_deregister_then_query,
};

verus! {

/// The RPC id under which the meta service's requests go out.
pub const META_RPC_ID: u64 = 1024;

/// How long a registration waits for its reply.
pub const REG_TIMEOUT: u64 = 500 * 1000;

/// How long a query or a deregistration waits for its reply.
pub const META_CALL_TIMEOUT: u64 = 5 * 1000;

/// An RPC call ready to go: the header's request kind and id, the payload's
/// bytes, and how long to wait for the reply.
pub struct RpcRequest {
    pub req_type: RPCReqType,
    pub rpc_id: u64,
    pub payload: Vec<u8>,
    pub timeout: u64,
}

/// The registration of this node's endpoint: `random` names the memory
/// region whose address the reply is to carry.
pub fn reg_dc_meta_request(local_gid: Gid, local_point: Vec<u8>, random: u8) -> (r: RpcRequest)
    ensures
        r.req_type == RPCReqType::RegisterDCMeta,
        r.rpc_id == META_RPC_ID,
        r.payload@ == reg_wire((local_gid, random as usize, local_point@)),
        r.timeout == REG_TIMEOUT,
{
    let payload = payload::RegDCMeta { gid: local_gid, port: random as usize, local_point };
    RpcRequest {
        req_type: RPCReqType::RegisterDCMeta,
        rpc_id: META_RPC_ID,
        payload: payload.to_bytes(),
        timeout: REG_TIMEOUT,
    }
}

/// The lookup of the endpoint registered under `query_gid`.
pub fn query_dc_meta_request(query_gid: Gid) -> (r: RpcRequest)
    ensures
        r.req_type == RPCReqType::QueryDCMeta,
        r.rpc_id == META_RPC_ID,
        r.payload@ == gid_bytes(query_gid),
        r.timeout == META_CALL_TIMEOUT,
{
    let payload = payload::QueryDCMeta { gid: query_gid };
    RpcRequest {
        req_type: RPCReqType::QueryDCMeta,
        rpc_id: META_RPC_ID,
        payload: payload.to_bytes(),
        timeout: META_CALL_TIMEOUT,
    }
}

/// The deregistration of this node's endpoint.
pub fn dereg_dc_meta_request(local_gid: Gid) -> (r: RpcRequest)
    ensures
        r.req_type == RPCReqType::DeregisterDcMeta,
        r.rpc_id == META_RPC_ID,
        r.payload@ == gid_bytes(local_gid),
        r.timeout == META_CALL_TIMEOUT,
{
    let payload = payload::DeRegDCMeta { gid: local_gid };
    RpcRequest {
        req_type: RPCReqType::DeregisterDcMeta,
        rpc_id: META_RPC_ID,
        payload: payload.to_bytes(),
        timeout: META_CALL_TIMEOUT,
    }
}

/// A node that sent the registration built from its GID, endpoint and port
/// is found by a query for its GID, with that endpoint, and the server reads
/// the port that the node chose.
pub proof fn lemma_registration_served(s: Entries, gid: Gid, point: Seq<u8>, port: usize)
    requires
        no_dup_gids(s),
    ensures
        reg_parse(reg_wire((gid, port, point))).1 == port,
        query_answer(reg_effect(s, reg_wire((gid, port, point))), gid_bytes(gid)) == Some(point),
{
    lemma_reg_roundtrip((gid, port, point));
    lemma_gid_bytes_roundtrip(gid, Seq::empty());
    lemma_register_then_query(s, reg_wire((gid, port, point)), gid_bytes(gid));
}

/// A node that sent the deregistration built from its GID is no longer found.
pub proof fn lemma_deregistration_served(s: Entries, gid: Gid)
    requires
        no_dup_gids(s),
    ensures
        query_answer(dereg_effect(s, gid_bytes(gid)), gid_bytes(gid)) is None,
{
    lemma_gid_bytes_roundtrip(gid, Seq::empty());
    assert(gid_bytes(gid).len() == GID_LEN);
    lemma_deregister_then_query(s, gid_bytes(gid), gid_bytes(gid));
}

} // verus!
