use krdmakit_syscall::caller::{
    dereg_dc_meta_request, query_dc_meta_request, reg_dc_meta_request, META_CALL_TIMEOUT,
    META_RPC_ID, REG_TIMEOUT,
};
use krdmakit_syscall::handler::{
    dereg_dc_meta_handler, fill_handler_table, query_dc_meta_handler, reg_dc_meta_handler,
    MetaHandler, FIXED_REPLY_LEN,
};
use krdmakit_syscall::meta_kv::MetaKv;
use krdmakit_syscall::payload;
use krdmakit_syscall::{Gid, RPCReqType};

fn gid(n: u64) -> Gid {
    Gid { subnet_prefix: 0xfe80, interface_id: n }
}

fn point(b: u8) -> Vec<u8> {
    vec![b; 8]
}

fn reg_request(g: Gid, port: usize, p: Vec<u8>) -> Vec<u8> {
    payload::RegDCMeta { gid: g, port, local_point: p }.to_bytes()
}

#[test]
fn kv_put_get_replace_evict() {
    let mut kv = MetaKv::new(8);
    assert_eq!(kv.len(), 0);
    assert_eq!(kv.get(gid(1)), None);
    kv.put(gid(1), point(1));
    kv.put(gid(2), point(2));
    assert_eq!(kv.len(), 2);
    assert_eq!(kv.get(gid(1)), Some(point(1)));
    assert_eq!(kv.get(gid(2)), Some(point(2)));
    kv.put(gid(1), point(3));
    assert_eq!(kv.len(), 2);
    assert_eq!(kv.get(gid(1)), Some(point(3)));
    kv.evict(gid(1));
    assert_eq!(kv.len(), 1);
    assert_eq!(kv.get(gid(1)), None);
    assert_eq!(kv.get(gid(2)), Some(point(2)));
    kv.evict(gid(7));
    assert_eq!(kv.len(), 1);
}

#[test]
fn kv_table_image_layout() {
    let mut kv = MetaKv::new(8);
    assert_eq!(kv.table_image(), vec![0u8; 8]);
    kv.put(gid(1), point(0xa1));
    kv.put(gid(2), point(0xb2));
    kv.put(gid(1), point(0xc3));
    let t = kv.table_image();
    assert_eq!(t.len(), 8 + 2 * 8);
    assert_eq!(&t[0..8], &[2, 0, 0, 0, 0, 0, 0, 0]);
    // re-registering keeps the entry's place
    assert_eq!(&t[8..16], &point(0xc3)[..]);
    assert_eq!(&t[16..24], &point(0xb2)[..]);
}

#[test]
fn register_then_query_finds_the_point() {
    let mut kv = MetaKv::new(8);
    let out = reg_dc_meta_handler(&mut kv, &reg_request(gid(5), 3, point(0x55)));
    assert_eq!(out.port, 3);
    assert_eq!(out.ret, FIXED_REPLY_LEN);
    assert_eq!(out.ret, 64);
    assert_eq!(out.table, kv.table_image());
    assert_eq!(&out.table[0..8], &[1, 0, 0, 0, 0, 0, 0, 0]);
    let q = query_dc_meta_handler(&kv, &gid(5).to_bytes());
    assert_eq!(q.reply, Some(point(0x55)));
    assert_eq!(q.ret, 8);
}

#[test]
fn query_of_unknown_gid_answers_nothing() {
    let mut kv = MetaKv::new(8);
    reg_dc_meta_handler(&mut kv, &reg_request(gid(5), 0, point(0x55)));
    let q = query_dc_meta_handler(&kv, &gid(6).to_bytes());
    assert_eq!(q.reply, None);
    assert_eq!(q.ret, 0);
}

#[test]
fn deregister_then_query_finds_nothing() {
    let mut kv = MetaKv::new(8);
    reg_dc_meta_handler(&mut kv, &reg_request(gid(5), 0, point(0x55)));
    reg_dc_meta_handler(&mut kv, &reg_request(gid(6), 0, point(0x66)));
    let d = dereg_dc_meta_handler(&mut kv, &gid(5).to_bytes());
    assert_eq!(d.reply, vec![0u8; 8]);
    assert_eq!(d.ret, 64);
    assert_eq!(query_dc_meta_handler(&kv, &gid(5).to_bytes()).reply, None);
    assert_eq!(query_dc_meta_handler(&kv, &gid(6).to_bytes()).reply, Some(point(0x66)));
}

#[test]
fn registration_table_lists_all_nodes() {
    let mut kv = MetaKv::new(8);
    reg_dc_meta_handler(&mut kv, &reg_request(gid(1), 0, point(1)));
    let out = reg_dc_meta_handler(&mut kv, &reg_request(gid(2), 9, point(2)));
    let mut expected = vec![2, 0, 0, 0, 0, 0, 0, 0];
    expected.extend(point(1));
    expected.extend(point(2));
    assert_eq!(out.table, expected);
    assert_eq!(out.port, 9);
}

#[test]
fn handler_table_routes_each_tag() {
    let mut table = Vec::new();
    fill_handler_table(&mut table);
    assert_eq!(
        table,
        vec![
            (1u8, MetaHandler::RegDcMeta),
            (2u8, MetaHandler::DeregDcMeta),
            (3u8, MetaHandler::QueryDcMeta)
        ]
    );
}

#[test]
fn caller_requests() {
    let r = reg_dc_meta_request(gid(4), point(4), 200);
    assert_eq!(r.req_type, RPCReqType::RegisterDCMeta);
    assert_eq!(r.rpc_id, META_RPC_ID);
    assert_eq!(r.rpc_id, 1024);
    assert_eq!(r.timeout, REG_TIMEOUT);
    assert_eq!(r.timeout, 500_000);
    let parsed = payload::RegDCMeta::from_bytes(&r.payload);
    assert_eq!(parsed.gid, gid(4));
    assert_eq!(parsed.port, 200);
    assert_eq!(parsed.local_point, point(4));

    let q = query_dc_meta_request(gid(9));
    assert_eq!(q.req_type, RPCReqType::QueryDCMeta);
    assert_eq!(q.payload, gid(9).to_bytes());
    assert_eq!(q.timeout, META_CALL_TIMEOUT);
    assert_eq!(q.timeout, 5000);

    let d = dereg_dc_meta_request(gid(4));
    assert_eq!(d.req_type, RPCReqType::DeregisterDcMeta);
    assert_eq!(d.payload, gid(4).to_bytes());
    assert_eq!(d.timeout, 5000);
}

#[test]
fn request_built_by_caller_is_served() {
    let mut kv = MetaKv::new(8);
    let r = reg_dc_meta_request(gid(4), point(0x44), 17);
    let out = reg_dc_meta_handler(&mut kv, &r.payload);
    assert_eq!(out.port, 17);
    let q = query_dc_meta_request(gid(4));
    assert_eq!(query_dc_meta_handler(&kv, &q.payload).reply, Some(point(0x44)));
    let d = dereg_dc_meta_request(gid(4));
    dereg_dc_meta_handler(&mut kv, &d.payload);
    assert_eq!(query_dc_meta_handler(&kv, &q.payload).reply, None);
}
