use apu650_probe::runner::{exec_info_buffer, EXEC_INFO_SIZE};
use apu650_probe::decimal::{parse_u32, parse_unsigned, parse_usize};
use apu650_probe::runner::{
    encode_cmdbufs, encode_subcmds, exec_outcome, fence_outcome, output_size, runner_cmdbufs,
    runner_subcmd, FenceWait, FENCE_TIMEOUT_MS,
};
use apu650_probe::uapi::{MdwCmdExecInfo, MDW_BOOST_MAX, MDW_CB_IN, MDW_CB_OUT};

#[test]
fn fence_outcomes() {
    assert!(matches!(fence_outcome(-1, 0), FenceWait::PollFailed));
    assert!(matches!(fence_outcome(0, 0), FenceWait::TimedOut));
    assert!(matches!(fence_outcome(1, 0x4), FenceWait::NotReadable(4)));
    assert!(matches!(fence_outcome(1, libc::POLLIN), FenceWait::Ready));
    assert!(matches!(fence_outcome(1, libc::POLLIN | 0x4), FenceWait::Ready));
    assert_eq!(FENCE_TIMEOUT_MS, 30_000);
}

#[test]
fn exec_outcomes() {
    let ok = MdwCmdExecInfo { sc_rets: 0, ret: 0, total_us: 812, reserved: 0 };
    assert_eq!(exec_outcome(&ok).unwrap(), 812);
    let bad = MdwCmdExecInfo { sc_rets: 0x1, ret: -5, total_us: 3, reserved: 0 };
    let e = exec_outcome(&bad).unwrap_err();
    assert_eq!((e.ret, e.sc_rets, e.total_us), (-5, 1, 3));
}

#[test]
fn output_sizes() {
    assert_eq!(output_size(Some(16), 100), 16);
    assert_eq!(output_size(None, 100), 100);
}

#[test]
fn runner_buffers() {
    let bufs = runner_cmdbufs(10, 1000, 11, 200, 12, 300);
    assert_eq!(bufs.len(), 3);
    assert_eq!((bufs[0].handle, bufs[0].size, bufs[0].align, bufs[0].direction), (10, 1000, 16, MDW_CB_IN));
    assert_eq!((bufs[1].handle, bufs[1].size, bufs[1].direction), (11, 200, MDW_CB_IN));
    assert_eq!((bufs[2].handle, bufs[2].size, bufs[2].direction), (12, 300, MDW_CB_OUT));
    let bytes = encode_cmdbufs(&bufs);
    assert_eq!(bytes.len(), 72);
    assert_eq!(&bytes[24..32], &11u64.to_le_bytes());
    assert_eq!(&bytes[48..56], &12u64.to_le_bytes());
    assert_eq!(bytes[64], 2);
}

#[test]
fn runner_subcommand() {
    let s = runner_subcmd(1, 3, 0x7000);
    assert_eq!((s.type_, s.boost, s.max_boost, s.num_cmdbufs, s.cmdbufs), (1, MDW_BOOST_MAX, MDW_BOOST_MAX, 3, 0x7000));
    assert_eq!((s.min_boost, s.turbo_boost, s.affinity), (0, 0, 0));
    let bytes = encode_subcmds(&[s, s]);
    assert_eq!(bytes.len(), 144);
    assert_eq!(&bytes[72..76], &1u32.to_le_bytes());
    assert_eq!(&bytes[136..144], &0x7000u64.to_le_bytes());
    assert!(encode_subcmds(&[]).is_empty());
}

#[test]
fn decimal_like_std() {
    for s in ["0", "7", "+7", "4294967295", "4294967296", "", "+", "-1", "12a", " 1", "007", "99999999999"] {
        assert_eq!(parse_u32(s.as_bytes()), s.parse::<u32>().ok(), "{s:?}");
        assert_eq!(parse_usize(s.as_bytes()), s.parse::<usize>().ok(), "{s:?}");
    }
    assert_eq!(parse_usize(b"18446744073709551615"), "18446744073709551615".parse::<usize>().ok());
    assert_eq!(parse_unsigned(b"255", 255), Some(255));
    assert_eq!(parse_unsigned(b"256", 255), None);
}

#[test]
fn execution_record_area() {
    assert_eq!(EXEC_INFO_SIZE, 32);
    let one = exec_info_buffer(1);
    assert_eq!(one, vec![0u8; 64]);
    assert_eq!(exec_info_buffer(0).len(), 32);
    assert_eq!(exec_info_buffer(3).len(), 128);
    let rec = MdwCmdExecInfo::decode(&one).unwrap();
    assert_eq!((rec.ret, rec.total_us), (0, 0));
}
