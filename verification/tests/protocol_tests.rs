use krdmakit_syscall::payload;
use krdmakit_syscall::reply;
use krdmakit_syscall::{Gid, RPCReqType, GID_LEN};

fn sample_gid() -> Gid {
    Gid { subnet_prefix: 0x0000_0000_0000_80fe, interface_id: 0xd831_ca00_039a_0dec }
}

#[test]
fn req_type_values() {
    assert_eq!(RPCReqType::Dummy.value(), 0);
    assert_eq!(RPCReqType::RegisterDCMeta.value(), 1);
    assert_eq!(RPCReqType::DeregisterDcMeta.value(), 2);
    assert_eq!(RPCReqType::QueryDCMeta.value(), 3);
}

#[test]
fn req_type_values_distinct() {
    let kinds = [
        RPCReqType::Dummy,
        RPCReqType::RegisterDCMeta,
        RPCReqType::DeregisterDcMeta,
        RPCReqType::QueryDCMeta,
    ];
    for a in kinds.iter() {
        for b in kinds.iter() {
            assert_eq!(a.value() == b.value(), a == b);
        }
    }
}

#[test]
fn gid_bytes_are_little_endian_halves() {
    let g = Gid { subnet_prefix: 0x0807_0605_0403_0201, interface_id: 0x100f_0e0d_0c0b_0a09 };
    let b = g.to_bytes();
    assert_eq!(b.len(), GID_LEN);
    assert_eq!(b, (1u8..=16).collect::<Vec<u8>>());
    assert_eq!(Gid::from_bytes(&b), g);
}

#[test]
fn gid_roundtrip() {
    let g = sample_gid();
    assert_eq!(Gid::from_bytes(&g.to_bytes()), g);
}

#[test]
fn reg_payload_layout() {
    let req = payload::RegDCMeta { gid: sample_gid(), port: 0x1234, local_point: vec![9, 8, 7, 6] };
    let b = req.to_bytes();
    assert_eq!(b.len(), 24 + 4);
    assert_eq!(&b[0..16], &sample_gid().to_bytes()[..]);
    assert_eq!(&b[16..24], &[0x34, 0x12, 0, 0, 0, 0, 0, 0]);
    assert_eq!(&b[24..], &[9, 8, 7, 6]);
}

#[test]
fn reg_payload_roundtrip() {
    let req = payload::RegDCMeta { gid: sample_gid(), port: 255, local_point: vec![1, 2, 3, 4, 5, 6, 7, 8] };
    let back = payload::RegDCMeta::from_bytes(&req.to_bytes());
    assert_eq!(back.gid, req.gid);
    assert_eq!(back.port, req.port);
    assert_eq!(back.local_point, req.local_point);
}

#[test]
fn reg_payload_with_empty_point() {
    let req = payload::RegDCMeta { gid: sample_gid(), port: 0, local_point: vec![] };
    let b = req.to_bytes();
    assert_eq!(b.len(), 24);
    let back = payload::RegDCMeta::from_bytes(&b);
    assert!(back.local_point.is_empty());
    assert_eq!(back.port, 0);
}

#[test]
fn dereg_and_query_payloads_are_the_gid() {
    let g = sample_gid();
    let d = payload::DeRegDCMeta { gid: g };
    let q = payload::QueryDCMeta { gid: g };
    assert_eq!(d.to_bytes(), g.to_bytes());
    assert_eq!(q.to_bytes(), g.to_bytes());
    assert_eq!(payload::DeRegDCMeta::from_bytes(&d.to_bytes()), d);
    assert_eq!(payload::QueryDCMeta::from_bytes(&q.to_bytes()), q);
}

#[test]
fn reg_reply_roundtrip() {
    let r = reply::RegDCMeta { meta_pa: 0xdead_beef_0000_1000 };
    let b = r.to_bytes();
    assert_eq!(b, vec![0x00, 0x10, 0x00, 0x00, 0xef, 0xbe, 0xad, 0xde]);
    assert_eq!(reply::RegDCMeta::from_bytes(&b), r);
}

#[test]
fn dereg_reply_word() {
    assert_eq!(reply::dereg_reply_from_bytes(&[0u8; 8]), 0);
    assert_eq!(reply::dereg_reply_from_bytes(&[1, 0, 0, 0, 0, 0, 0, 1]), 0x0100_0000_0000_0001);
}

#[test]
fn query_reply_is_the_point() {
    let r = reply::QueryDCMeta { point: vec![5, 4, 3] };
    assert_eq!(r.to_bytes(), vec![5, 4, 3]);
    assert_eq!(reply::QueryDCMeta::from_bytes(&[5, 4, 3]).point, vec![5, 4, 3]);
}
