//! The server side of the meta service: what each request does to the table
//! of registered endpoints and what goes back to the caller. The handlers
//! take the request's bytes and give back the bytes to write; reading and
//! writing the RPC buffers and the shared memory regions is left to the caller.
use vstd::prelude::*;
use vstd::bytes::*;
use crate::protocol::{Gid, RPCReqType, GID_LEN, gid_from_bytes};
use crate::payload::{self, REG_POINT_OFFSET, reg_parse};
use crate::meta_kv::{
    MetaKv, Entries, no_dup_gids, spec_put, spec_evict, spec_get, table_image,
    lemma_put_then_get, lemma_evict_then_get, lemma_get_direct, lemma_put_direct,
    lemma_evict_direct,
};

verus! {

/// What a handler reports back to the RPC layer for registrations and
/// deregistrations, whatever the request held.
pub const FIXED_REPLY_LEN: u32 = 64;

/// The table after the registration request `req`.
pub open spec fn reg_effect(s: Entries, req: Seq<u8>) -> Entries {
    spec_put(s, reg_parse(req).0, reg_parse(req).2)
}

/// The table after the deregistration request `req`.
pub open spec fn dereg_effect(s: Entries, req: Seq<u8>) -> Entries {
    spec_evict(s, gid_from_bytes(req))
}

/// The endpoint image that the query `req` finds in the table, if any.
pub open spec fn query_answer(s: Entries, req: Seq<u8>) -> Option<Seq<u8>> {
    spec_get(s, gid_from_bytes(req))
}

/// What serving a registration leaves to write.
pub struct RegOutcome {
    /// the index of the memory region whose physical address goes back in
    /// the reply
    pub port: usize,
    /// the image of the table, to be written at the start of every shared
    /// memory region
    pub table: Vec<u8>,
    /// the handler's return value
    pub ret: u32,
}

/// What serving a deregistration leaves to write.
pub struct DeregOutcome {
    /// the bytes of the reply
    pub reply: Vec<u8>,
    pub ret: u32,
}

/// What serving a query leaves to write.
pub struct QueryOutcome {
    /// the bytes of the reply, when the GID is registered; nothing is written
    /// otherwise
    pub reply: Option<Vec<u8>>,
    /// the length of the reply, 0 when nothing was found
    pub ret: u32,
}

/// Serves a registration: the sender's endpoint goes into the table under
/// its GID, and the table's new image is handed back for the shared regions.
pub fn reg_dc_meta_handler(kv: &mut MetaKv, req: &[u8]) -> (r: RegOutcome)
    requires
        old(kv).wf(),
        req@.len() == REG_POINT_OFFSET + old(kv).spec_point_size(),
    ensures
        final(kv).wf(),
        final(kv).spec_point_size() == old(kv).spec_point_size(),
        final(kv)@ == reg_effect(old(kv)@, req@),
        r.port == reg_parse(req@).1,
        r.table@ == table_image(final(kv)@),
        r.ret == FIXED_REPLY_LEN,
        r.port == spec_u64_from_le_bytes(req@.subrange(16, 24)) as usize,
        forall|q: Seq<u8>|
            #[trigger] final(kv)@.contains((gid_from_bytes(req@.subrange(0, 16)), q)) <==> q
                == req@.subrange(24, req@.len() as int),
        forall|h: Gid, q: Seq<u8>|
            h != gid_from_bytes(req@.subrange(0, 16)) ==> (#[trigger] final(kv)@.contains((h, q))
                <==> old(kv)@.contains((h, q))),
{
    proof {
        lemma_reg_direct(old(kv)@, req@);
    }
    let payload = payload::RegDCMeta::from_bytes(req);
    let port = payload.port;
    kv.put(payload.gid, payload.local_point);
    let table = kv.table_image();
    RegOutcome { port, table, ret: FIXED_REPLY_LEN }
}

/// Serves a deregistration: the sender's endpoint leaves the table, and the
/// reply is the word 0.
pub fn dereg_dc_meta_handler(kv: &mut MetaKv, req: &[u8]) -> (r: DeregOutcome)
    requires
        old(kv).wf(),
        req@.len() == GID_LEN,
    ensures
        final(kv).wf(),
        final(kv).spec_point_size() == old(kv).spec_point_size(),
        final(kv)@ == dereg_effect(old(kv)@, req@),
        r.reply@ == spec_u64_to_le_bytes(0),
        r.ret == FIXED_REPLY_LEN,
        (forall|i: int|
            0 <= i < old(kv)@.len() ==> (#[trigger] old(kv)@[i]).0 != gid_from_bytes(req@))
            ==> final(kv)@ == old(kv)@,
        forall|q: Seq<u8>| !(#[trigger] final(kv)@.contains((gid_from_bytes(req@), q))),
        forall|h: Gid, q: Seq<u8>|
            h != gid_from_bytes(req@) ==> (#[trigger] final(kv)@.contains((h, q)) <==> old(
                kv,
            )@.contains((h, q))),
{
    proof {
        lemma_dereg_direct(old(kv)@, req@);
    }
    let payload = payload::DeRegDCMeta::from_bytes(req);
    kv.evict(payload.gid);
    DeregOutcome { reply: u64_to_le_bytes(0), ret: FIXED_REPLY_LEN }
}

/// Serves a query: the endpoint registered under the GID goes back, with its
/// length; when none is registered nothing goes back and the length is 0.
pub fn query_dc_meta_handler(kv: &MetaKv, req: &[u8]) -> (r: QueryOutcome)
    requires
        kv.wf(),
        req@.len() == GID_LEN,
    ensures
        r.reply is Some <==> query_answer(kv@, req@) is Some,
        r.reply is Some ==> r.reply->0@ == query_answer(kv@, req@)->0,
        r.ret == if r.reply is Some { kv.spec_point_size() as u32 } else { 0 },
        r.reply is None <==> (forall|i: int|
            0 <= i < kv@.len() ==> (#[trigger] kv@[i]).0 != gid_from_bytes(req@)),
        r.reply is Some ==> kv@.contains((gid_from_bytes(req@), r.reply->0@)),
{
    proof {
        lemma_query_direct(kv@, req@);
    }
    let payload = payload::QueryDCMeta::from_bytes(req);
    match kv.get(payload.gid) {
        None => QueryOutcome { reply: None, ret: 0 },
        Some(point) => {
            let reply = crate::reply::QueryDCMeta { point };
            let reply_len = kv.point_size() as u32;
            QueryOutcome { reply: Some(reply.to_bytes()), ret: reply_len }
        },
    }
}

/// The handlers of the meta service, as the RPC layer's table names them.
#[derive(Clone, Copy, Debug, PartialEq, Eq, Structural)]
pub enum MetaHandler {
    RegDcMeta,
    DeregDcMeta,
    QueryDcMeta,
}

/// Adds to `table` the entries that route each request tag of the meta
/// service to its handler.
pub fn fill_handler_table(table: &mut Vec<(u8, MetaHandler)>)
    ensures
        final(table)@ == old(table)@ + seq![
            (RPCReqType::RegisterDCMeta.spec_value(), MetaHandler::RegDcMeta),
            (RPCReqType::DeregisterDcMeta.spec_value(), MetaHandler::DeregDcMeta),
            (RPCReqType::QueryDCMeta.spec_value(), MetaHandler::QueryDcMeta),
        ],
{
    let ghost start = table@;
    table.push((RPCReqType::RegisterDCMeta.value(), MetaHandler::RegDcMeta));
    table.push((RPCReqType::DeregisterDcMeta.value(), MetaHandler::DeregDcMeta));
    table.push((RPCReqType::QueryDCMeta.value(), MetaHandler::QueryDcMeta));
    assert(table@ =~= start + seq![
        (RPCReqType::RegisterDCMeta.spec_value(), MetaHandler::RegDcMeta),
        (RPCReqType::DeregisterDcMeta.spec_value(), MetaHandler::DeregDcMeta),
        (RPCReqType::QueryDCMeta.spec_value(), MetaHandler::QueryDcMeta),
    ]);
}

/// A registration request, stated over the request's bytes and the entries:
/// the GID in bytes 0..16 is registered with exactly the image from byte 24
/// on, in place of its old entry if it had one and at the end otherwise;
/// every other GID keeps exactly what it had, and no GID occurs twice.
pub proof fn lemma_reg_direct(s: Entries, req: Seq<u8>)
    requires
        no_dup_gids(s),
        req.len() >= REG_POINT_OFFSET,
    ensures
        ({
            let g = gid_from_bytes(req.subrange(0, 16));
            let p = req.subrange(24, req.len() as int);
            &&& forall|i: int|
                0 <= i < s.len() && (#[trigger] s[i]).0 == g ==> reg_effect(s, req) == s.update(
                    i,
                    (g, p),
                )
            &&& (forall|i: int| 0 <= i < s.len() ==> (#[trigger] s[i]).0 != g) ==> reg_effect(s, req)
                == s.push((g, p))
            &&& no_dup_gids(reg_effect(s, req))
            &&& forall|q: Seq<u8>| #[trigger] reg_effect(s, req).contains((g, q)) <==> q == p
            &&& forall|h: Gid, q: Seq<u8>|
                h != g ==> (#[trigger] reg_effect(s, req).contains((h, q)) <==> s.contains((h, q)))
        }),
{
    lemma_put_direct(s, gid_from_bytes(req.subrange(0, 16)), req.subrange(24, req.len() as int));
}

/// A deregistration request, stated over the request's bytes and the
/// entries: the entry of the GID the request names leaves, and only it; when
/// that GID is not registered the table is unchanged. Afterwards that GID is
/// not registered, every other GID keeps exactly what it had, and no GID
/// occurs twice.
pub proof fn lemma_dereg_direct(s: Entries, req: Seq<u8>)
    requires
        no_dup_gids(s),
        req.len() == GID_LEN,
    ensures
        ({
            let g = gid_from_bytes(req);
            &&& forall|i: int|
                0 <= i < s.len() && (#[trigger] s[i]).0 == g ==> dereg_effect(s, req) == s.remove(i)
            &&& (forall|i: int| 0 <= i < s.len() ==> (#[trigger] s[i]).0 != g) ==> dereg_effect(
                s,
                req,
            ) == s
            &&& no_dup_gids(dereg_effect(s, req))
            &&& forall|q: Seq<u8>| !(#[trigger] dereg_effect(s, req).contains((g, q)))
            &&& forall|h: Gid, q: Seq<u8>|
                h != g ==> (#[trigger] dereg_effect(s, req).contains((h, q)) <==> s.contains((h, q)))
        }),
{
    lemma_evict_direct(s, gid_from_bytes(req));
}

/// A query request, stated over the request's bytes and the entries: it
/// answers nothing exactly when no entry carries the GID the request names,
/// and it answers `q` exactly when the entry `(GID, q)` is present.
pub proof fn lemma_query_direct(s: Entries, req: Seq<u8>)
    requires
        no_dup_gids(s),
        req.len() == GID_LEN,
    ensures
        query_answer(s, req) is None <==> (forall|i: int|
            0 <= i < s.len() ==> (#[trigger] s[i]).0 != gid_from_bytes(req)),
        forall|q: Seq<u8>|
            query_answer(s, req) == Some(q) <==> #[trigger] s.contains((gid_from_bytes(req), q)),
{
    lemma_get_direct(s, gid_from_bytes(req));
}

/// Once a node has registered, a query for its GID answers with the endpoint
/// it registered.
pub proof fn lemma_register_then_query(s: Entries, reg_req: Seq<u8>, query_req: Seq<u8>)
    requires
        no_dup_gids(s),
        reg_req.len() >= REG_POINT_OFFSET,
        query_req.len() == GID_LEN,
        gid_from_bytes(query_req) == reg_parse(reg_req).0,
    ensures
        query_answer(reg_effect(s, reg_req), query_req) == Some(reg_parse(reg_req).2),
{
    lemma_put_then_get(s, reg_parse(reg_req).0, reg_parse(reg_req).2, gid_from_bytes(query_req));
}

/// Once a node has deregistered, a query for its GID finds nothing.
pub proof fn lemma_deregister_then_query(s: Entries, dereg_req: Seq<u8>, query_req: Seq<u8>)
    requires
        no_dup_gids(s),
        dereg_req.len() == GID_LEN,
        query_req.len() == GID_LEN,
        gid_from_bytes(query_req) == gid_from_bytes(dereg_req),
    ensures
        query_answer(dereg_effect(s, dereg_req), query_req) is None,
{
    lemma_evict_then_get(s, gid_from_bytes(dereg_req), gid_from_bytes(query_req));
}

/// A registration or deregistration by one node does not change what a
/// query for another node's GID answers.
pub proof fn lemma_other_gid_unaffected(s: Entries, req: Seq<u8>, query_req: Seq<u8>)
    requires
        no_dup_gids(s),
        req.len() >= REG_POINT_OFFSET,
        query_req.len() == GID_LEN,
    ensures
        gid_from_bytes(query_req) != reg_parse(req).0 ==> query_answer(reg_effect(s, req), query_req)
            == query_answer(s, query_req),
        gid_from_bytes(query_req) != gid_from_bytes(req) ==> query_answer(
            dereg_effect(s, req),
            query_req,
        ) == query_answer(s, query_req),
{
    lemma_put_then_get(s, reg_parse(req).0, reg_parse(req).2, gid_from_bytes(query_req));
    lemma_evict_then_get(s, gid_from_bytes(req), gid_from_bytes(query_req));
}

} // verus!
