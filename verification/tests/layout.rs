use apu650_probe::uapi::{
    MdwCmdExecInfo, MdwCmdIn, MdwCmdInExec, MdwCmdOp, MdwCmdOutExec, MdwHsIn, MdwHsInDev,
    MdwHsInPayload, MdwHsOp, MdwHsOutBasic, MdwHsOutDev, MdwHsOutMem, MdwMemIn, MdwMemInAlloc,
    MdwMemInPayload, MdwMemOp, MdwMemOutAlloc, MdwMemOutImport, MdwMemOutMap, MdwMemType,
    MdwSubcmdCmdbuf, MdwSubcmdExecInfo, MdwSubcmdInfo, MdwSubcmdLinkV1, MdwUtilIn,
    MdwUtilInPayload, MdwUtilInPower, MdwUtilInUcmd, MdwUtilOp, F_MDW_MEM_CACHEABLE,
    MDW_CMD_ARGS_SIZE, MDW_HS_ARGS_SIZE, MDW_MEM_ARGS_SIZE, MDW_UTIL_ARGS_SIZE,
};

fn le32(v: u32) -> Vec<u8> {
    v.to_le_bytes().to_vec()
}
fn le64(v: u64) -> Vec<u8> {
    v.to_le_bytes().to_vec()
}

#[test]
fn argument_sizes_match_the_c_header() {
    assert_eq!(MDW_HS_ARGS_SIZE, 40);
    assert_eq!(MDW_MEM_ARGS_SIZE, 40);
    assert_eq!(MDW_CMD_ARGS_SIZE, 120);
    assert_eq!(MDW_UTIL_ARGS_SIZE, 32);
    assert_eq!(MdwHsIn::basic().to_args().len(), 40);
    assert_eq!(MdwMemIn::free(3).to_args().len(), 40);
    assert_eq!(MdwCmdIn::run(1, 0x1000, 0x2000, 30000).to_args().len(), 120);
    let util = MdwUtilIn {
        op: MdwUtilOp::SetPower.code(),
        payload: MdwUtilInPayload::Power(MdwUtilInPower { dev_type: 1, core_idx: 0, boost: 100, reserve: 0 }),
    };
    assert_eq!(util.to_args().len(), 32);
}

#[test]
fn handshake_requests_bytes() {
    let basic = MdwHsIn::basic().to_args();
    assert_eq!(basic, vec![0u8; 40]);
    let dev = MdwHsIn::dev(4).to_args();
    let mut want = le32(1);
    want.extend([0u8; 4]);
    want.extend(le64(0));
    want.extend(le32(4));
    want.extend([0u8; 20]);
    assert_eq!(dev, want);
    let mem = MdwHsIn::mem(5).to_args();
    assert_eq!(&mem[0..4], &le32(2)[..]);
    assert_eq!(&mem[16..20], &le32(5)[..]);
    assert!(matches!(MdwHsIn::mem(5).payload, MdwHsInPayload::Mem(m) if m.type_ == 5));
}

#[test]
fn handshake_request_with_flags() {
    let req = MdwHsIn { op: 1, flags: 0x1122_3344_5566_7788, payload: MdwHsInPayload::Dev(MdwHsInDev { type_: 9 }) };
    let b = req.encode();
    assert_eq!(b.len(), 24);
    assert_eq!(&b[8..16], &[0x88, 0x77, 0x66, 0x55, 0x44, 0x33, 0x22, 0x11]);
    assert_eq!(b[16], 9);
}

#[test]
fn basic_reply_from_reference_device() {
    let mut buf = Vec::new();
    buf.extend(le64(0x3));
    buf.extend(le64(0x56));
    buf.extend(le64(0x36));
    buf.extend(le64(0));
    buf.extend(le32(32));
    buf.extend(le32(0));
    let r = MdwHsOutBasic::decode(&buf).unwrap();
    assert_eq!(r.version, 3);
    assert_eq!(r.dev_bitmask, 0x56);
    assert_eq!(r.mem_bitmask, 0x36);
    assert_eq!(r.flags, 0);
    assert_eq!(r.meta_size, 32);
    assert_eq!(r.encode(), buf);
    assert!(MdwHsOutBasic::decode(&buf[..39]).is_none());
}

#[test]
fn dev_reply_with_metadata() {
    let mut buf = Vec::new();
    buf.extend(le32(1));
    buf.extend(le32(2));
    let mut meta = [0u8; 32];
    meta[..7].copy_from_slice(b"0x15556");
    buf.extend(meta);
    let r = MdwHsOutDev::decode(&buf).unwrap();
    assert_eq!(r.type_, 1);
    assert_eq!(r.num, 2);
    assert_eq!(r.meta, meta);
    assert_eq!(r.encode(), buf);
    assert!(MdwHsOutDev::decode(&buf[..30]).is_none());
}

#[test]
fn mem_reply_layout() {
    let r = MdwHsOutMem { type_: 1, reserved: 0, start: 0x200_0000, size: 0xc0_0000 };
    let b = r.encode();
    assert_eq!(b.len(), 24);
    assert_eq!(&b[8..16], &le64(0x200_0000)[..]);
    assert_eq!(&b[16..20], &le32(0xc0_0000)[..]);
    assert_eq!(&b[20..24], &[0, 0, 0, 0]);
    let d = MdwHsOutMem::decode(&b).unwrap();
    assert_eq!((d.type_, d.start, d.size), (1, 0x200_0000, 0xc0_0000));
}

#[test]
fn mem_alloc_request_layout() {
    let req = MdwMemIn::allocate(4096, MdwMemType::Main.code(), F_MDW_MEM_CACHEABLE);
    let b = req.to_args();
    assert_eq!(b.len(), 40);
    assert_eq!(&b[0..4], &le32(0)[..]);
    assert_eq!(&b[16..20], &le32(0)[..]);
    assert_eq!(&b[20..24], &le32(4096)[..]);
    assert_eq!(&b[24..28], &le32(16)[..]);
    assert_eq!(&b[32..40], &le64(1)[..]);
    let a = MdwMemInAlloc::decode(&b[16..]).unwrap();
    assert_eq!((a.type_, a.size, a.align, a.flags), (0, 4096, 16, 1));
}

#[test]
fn mem_free_flush_invalidate_layout() {
    let free = MdwMemIn::free(0x55).to_args();
    assert_eq!(&free[0..4], &le32(1)[..]);
    assert_eq!(&free[16..24], &le64(0x55)[..]);
    assert_eq!(&free[24..40], &[0u8; 16]);
    let flush = MdwMemIn::flush(7, 100).to_args();
    assert_eq!(&flush[0..4], &le32(4)[..]);
    assert_eq!(&flush[16..24], &le64(7)[..]);
    assert_eq!(&flush[24..28], &le32(0)[..]);
    assert_eq!(&flush[28..32], &le32(100)[..]);
    let inv = MdwMemIn::invalidate(7, 100);
    assert!(matches!(inv.payload, MdwMemInPayload::Invalidate(r) if r.handle == 7 && r.size == 100));
    let inv = inv.to_args();
    assert_eq!(&inv[0..4], &le32(5)[..]);
    assert_eq!(&inv[4..], &flush[4..]);
    let sync = MdwMemIn::sync(7, 100, MdwMemOp::Flush);
    assert_eq!(sync.to_args(), flush);
}

#[test]
fn mem_replies() {
    let h = MdwMemOutAlloc::decode(&le64(0x1234)).unwrap();
    assert_eq!(h.handle, 0x1234);
    let m = MdwMemOutMap { type_: 3, device_va: 0xdead_beef_0000 };
    let d = MdwMemOutMap::decode(&m.encode()).unwrap();
    assert_eq!((d.type_, d.device_va), (3, 0xdead_beef_0000));
    assert_eq!(m.encode().len(), 16);
    let i = MdwMemOutImport { device_va: 9, size: 10 };
    let d = MdwMemOutImport::decode(&i.encode()).unwrap();
    assert_eq!((d.device_va, d.size), (9, 10));
}

#[test]
fn cmd_run_request_layout() {
    let req = MdwCmdIn::run(1, 0x1000, 0x2000, 30000);
    let b = req.to_args();
    assert_eq!(&b[0..4], &le32(MdwCmdOp::Run.code())[..]);
    assert_eq!(&b[8..24], &[0u8; 16]);
    let exec = &b[24..];
    assert_eq!(&exec[12..16], &le32(30000)[..]);
    assert_eq!(&exec[44..48], &le32(1)[..]);
    assert_eq!(&exec[48..56], &le64(0x1000)[..]);
    assert_eq!(&exec[72..80], &le64(0x2000)[..]);
    let e = MdwCmdInExec::decode(exec).unwrap();
    assert_eq!((e.hardlimit, e.num_subcmds, e.subcmd_infos, e.exec_infos), (30000, 1, 0x1000, 0x2000));
}

#[test]
fn cmd_request_signed_id() {
    let mut req = MdwCmdIn::run(0, 0, 0, 0);
    req.op = MdwCmdOp::Del.code();
    req.id = -2;
    let b = req.to_args();
    assert_eq!(&b[16..24], &[0xfe, 0xff, 0xff, 0xff, 0xff, 0xff, 0xff, 0xff]);
}

#[test]
fn exec_records_roundtrip() {
    let info = MdwCmdExecInfo { sc_rets: 0x3, ret: -22, total_us: 1500, reserved: 0 };
    let b = info.encode();
    assert_eq!(b.len(), 32);
    let d = MdwCmdExecInfo::decode(&b).unwrap();
    assert_eq!((d.sc_rets, d.ret, d.total_us), (3, -22, 1500));
    let sc = MdwSubcmdExecInfo { driver_time: 1, ip_time: 2, ip_start_ts: 3, ip_end_ts: 4, bw: 5, boost: 6, tcm_usage: 7, ret: -1 };
    let b = sc.encode();
    assert_eq!(b.len(), 32);
    assert_eq!(&b[28..32], &[0xff; 4]);
    assert_eq!(MdwSubcmdExecInfo::decode(&b).unwrap().ret, -1);
    assert_eq!(MdwCmdExecInfo::default().encode(), vec![0u8; 32]);
}

#[test]
fn cmd_reply_fence() {
    let out = MdwCmdOutExec { id: 17, fence: 5 };
    let mut args = out.encode();
    args.resize(120, 0);
    let d = MdwCmdOutExec::decode(&args).unwrap();
    assert_eq!((d.id, d.fence), (17, 5));
}

#[test]
fn subcommand_structures_layout() {
    let cb = MdwSubcmdCmdbuf { handle: 8, size: 64, align: 16, direction: 2 };
    let b = cb.encode();
    assert_eq!(b.len(), 24);
    assert_eq!(&b[16..24], &[2, 0, 0, 0, 0, 0, 0, 0]);
    let info = MdwSubcmdInfo { num_cmdbufs: 3, cmdbufs: 0xabc, ..MdwSubcmdInfo::default() };
    let b = info.encode();
    assert_eq!(b.len(), 72);
    assert_eq!(&b[60..64], &le32(3)[..]);
    assert_eq!(&b[64..72], &le64(0xabc)[..]);
    let link = MdwSubcmdLinkV1 { producer_idx: 1, consumer_idx: 2, vid: 3, va: 4, x: 5, y: 6 };
    let b = link.encode();
    assert_eq!(b.len(), 40);
    assert_eq!(&b[12..16], &[0u8; 4]);
    assert_eq!(&b[16..24], &le64(4)[..]);
    let d = MdwSubcmdLinkV1::decode(&b).unwrap();
    assert_eq!((d.producer_idx, d.consumer_idx, d.vid, d.va, d.x, d.y), (1, 2, 3, 4, 5, 6));
}

#[test]
fn util_requests_layout() {
    let power = MdwUtilIn {
        op: MdwUtilOp::SetPower.code(),
        payload: MdwUtilInPayload::Power(MdwUtilInPower { dev_type: 1, core_idx: 2, boost: 100, reserve: 0 }),
    }
    .to_args();
    assert_eq!(&power[0..4], &le32(0)[..]);
    assert_eq!(&power[8..12], &le32(1)[..]);
    assert_eq!(&power[16..20], &le32(100)[..]);
    let ucmd = MdwUtilIn {
        op: MdwUtilOp::Ucmd.code(),
        payload: MdwUtilInPayload::Ucmd(MdwUtilInUcmd { dev_type: 4, size: 12, handle: 99 }),
    }
    .to_args();
    assert_eq!(&ucmd[0..4], &le32(1)[..]);
    assert_eq!(&ucmd[16..24], &le64(99)[..]);
    assert_eq!(&ucmd[24..32], &[0u8; 8]);
}

#[test]
fn op_codes() {
    assert_eq!(MdwHsOp::Basic.code(), 0);
    assert_eq!(MdwHsOp::Mem.code(), 2);
    assert!(matches!(MdwHsOp::from_code(1), Some(MdwHsOp::Dev)));
    assert!(MdwHsOp::from_code(3).is_none());
    assert_eq!(MdwMemOp::Invalidate.code(), 5);
    assert!(matches!(MdwMemOp::from_code(2), Some(MdwMemOp::MapBuffer)));
    assert_eq!(MdwMemType::SystemApu.code(), 5);
    assert!(MdwMemType::from_code(6).is_none());
    assert_eq!(MdwCmdOp::RunStale.code(), 1);
    assert!(matches!(MdwCmdOp::from_code(2), Some(MdwCmdOp::Del)));
    assert_eq!(MdwUtilOp::Ucmd.code(), 1);
    assert!(MdwUtilOp::from_code(2).is_none());
}

#[test]
fn mem_payload_variants() {
    let p = MdwMemInPayload::Alloc(MdwMemInAlloc { type_: 1, size: 2, align: 3, flags: 4 });
    assert_eq!(p.encode().len(), 24);
}
