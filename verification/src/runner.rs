//! What the DLA runner decides around its ioctl calls: which device class
//! to submit to, how its three buffers and its single subcommand are laid
//! out, how a fence wait and a finished command are judged, and how its
//! numeric arguments are read.
use vstd::prelude::*;
use crate::wire::{push_zeros, zeros};
use crate::uapi::{
    MdwCmdExecInfo, MdwSubcmdCmdbuf, MdwSubcmdInfo, MDW_BOOST_MAX, MDW_CB_IN, MDW_CB_OUT,
    MDW_DEFAULT_ALIGN,
};

verus! {

/// How long the runner waits for a command's fence, in milliseconds.
pub const FENCE_TIMEOUT_MS: i32 = 30000;

/// The bytes of the values in `s`, one after another, each laid out by `f`.
pub open spec fn seq_encoded<T>(s: Seq<T>, f: spec_fn(T) -> Seq<u8>) -> Seq<u8>
    decreases s.len(),
{
    if s.len() == 0 {
        Seq::empty()
    } else {
        seq_encoded(s.drop_last(), f) + f(s.last())
    }
}

/// A C array: with every element `k` bytes long, the array is `k` bytes per
/// element and element `i` occupies bytes `k * i .. k * i + k`.
pub proof fn lemma_seq_encoded_layout<T>(s: Seq<T>, f: spec_fn(T) -> Seq<u8>, k: nat)
    requires
        forall|x: T| #[trigger] f(x).len() == k,
    ensures
        seq_encoded(s, f).len() == k * s.len(),
        forall|i: int|
            0 <= i < s.len() ==> seq_encoded(s, f).subrange(k * i, k * i + k) == f(#[trigger] s[i]),
    decreases s.len(),
{
    if s.len() == 0 {
        assert(k * s.len() == 0) by (nonlinear_arith)
            requires
                s.len() == 0,
        ;
    } else {
        let init = s.drop_last();
        lemma_seq_encoded_layout(init, f, k);
        let whole = seq_encoded(s, f);
        assert(whole == seq_encoded(init, f) + f(s.last()));
        assert(k * s.len() == k * init.len() + k) by (nonlinear_arith)
            requires
                s.len() == init.len() + 1,
        ;
        assert(whole.len() == k * s.len());
        assert forall|i: int| 0 <= i < s.len() implies whole.subrange(k * i, k * i + k) == f(
            #[trigger] s[i],
        ) by {
            if i < init.len() {
                assert(k * i + k <= k * init.len()) by (nonlinear_arith)
                    requires
                        i + 1 <= init.len(),
                ;
                assert(0 <= k * i) by (nonlinear_arith)
                    requires
                        0 <= i,
                ;
                assert(init[i] == s[i]);
                assert(whole.subrange(k * i, k * i + k) =~= seq_encoded(init, f).subrange(
                    k * i,
                    k * i + k,
                ));
            } else {
                assert(k * i == k * init.len()) by (nonlinear_arith)
                    requires
                        i == init.len(),
                ;
                assert(whole.subrange(k * i, k * i + k) =~= f(s.last()));
            }
        }
    }
}

/// Writes an array of command buffers as the kernel reads it.
pub fn encode_cmdbufs(bufs: &[MdwSubcmdCmdbuf]) -> (out: Vec<u8>)
    ensures
        out@ == seq_encoded(bufs@, |b: MdwSubcmdCmdbuf| b.encoded()),
{
    let ghost f = |b: MdwSubcmdCmdbuf| b.encoded();
    let mut out: Vec<u8> = Vec::new();
    let mut i: usize = 0;
    while i < bufs.len()
        invariant
            i <= bufs@.len(),
            f == (|b: MdwSubcmdCmdbuf| b.encoded()),
            out@ == seq_encoded(bufs@.take(i as int), f),
        decreases bufs@.len() - i,
    {
        let mut e = bufs[i].encode();
        out.append(&mut e);
        assert(bufs@.take(i + 1).drop_last() =~= bufs@.take(i as int));
        assert(bufs@.take(i + 1).last() == bufs@[i as int]);
        assert(seq_encoded(bufs@.take(i + 1), f) == seq_encoded(bufs@.take(i as int), f) + f(
            bufs@[i as int],
        ));
        i = i + 1;
    }
    assert(bufs@.take(i as int) =~= bufs@);
    out
}

/// Writes an array of subcommands as the kernel reads it.
pub fn encode_subcmds(subcmds: &[MdwSubcmdInfo]) -> (out: Vec<u8>)
    ensures
        out@ == seq_encoded(subcmds@, |c: MdwSubcmdInfo| c.encoded()),
{
    let ghost f = |c: MdwSubcmdInfo| c.encoded();
    let mut out: Vec<u8> = Vec::new();
    let mut i: usize = 0;
    while i < subcmds.len()
        invariant
            i <= subcmds@.len(),
            f == (|c: MdwSubcmdInfo| c.encoded()),
            out@ == seq_encoded(subcmds@.take(i as int), f),
        decreases subcmds@.len() - i,
    {
        let mut e = subcmds[i].encode();
        out.append(&mut e);
        assert(subcmds@.take(i + 1).drop_last() =~= subcmds@.take(i as int));
        assert(subcmds@.take(i + 1).last() == subcmds@[i as int]);
        assert(seq_encoded(subcmds@.take(i + 1), f) == seq_encoded(subcmds@.take(i as int), f) + f(
            subcmds@[i as int],
        ));
        i = i + 1;
    }
    assert(subcmds@.take(i as int) =~= subcmds@);
    out
}

/// Command-buffer arrays and subcommand arrays are C arrays: 24 and 72
/// bytes per element, element `i` at its place.
pub proof fn lemma_array_layouts(bufs: Seq<MdwSubcmdCmdbuf>, subcmds: Seq<MdwSubcmdInfo>)
    ensures
        seq_encoded(bufs, |b: MdwSubcmdCmdbuf| b.encoded()).len() == 24 * bufs.len(),
        forall|i: int|
            0 <= i < bufs.len() ==> seq_encoded(bufs, |b: MdwSubcmdCmdbuf| b.encoded()).subrange(
                24 * i,
                24 * i + 24,
            ) == (#[trigger] bufs[i]).encoded(),
        seq_encoded(subcmds, |c: MdwSubcmdInfo| c.encoded()).len() == 72 * subcmds.len(),
        forall|i: int|
            0 <= i < subcmds.len() ==> seq_encoded(subcmds, |c: MdwSubcmdInfo| c.encoded()).subrange(
                72 * i,
                72 * i + 72,
            ) == (#[trigger] subcmds[i]).encoded(),
{
    let f = |b: MdwSubcmdCmdbuf| b.encoded();
    let g = |c: MdwSubcmdInfo| c.encoded();
    assert forall|x: MdwSubcmdCmdbuf| #[trigger] f(x).len() == 24 by {
        x.lemma_parse_encoded();
    }
    assert forall|x: MdwSubcmdInfo| #[trigger] g(x).len() == 72 by {
        x.lemma_parse_encoded();
    }
    lemma_seq_encoded_layout(bufs, f, 24);
    lemma_seq_encoded_layout(subcmds, g, 72);
}

/// The three command buffers the runner submits: the DLA program and the
/// input tensor (read by the device) and the output tensor (written by it),
/// each with the default alignment. Sizes are cut to 32 bits as the ABI
/// fields are.
pub fn runner_cmdbufs(
    dla_handle: u64,
    dla_len: usize,
    in_handle: u64,
    in_len: usize,
    out_handle: u64,
    out_size: usize,
) -> (bufs: Vec<MdwSubcmdCmdbuf>)
    ensures
        bufs@ == seq![
            MdwSubcmdCmdbuf {
                handle: dla_handle,
                size: dla_len as u32,
                align: MDW_DEFAULT_ALIGN,
                direction: MDW_CB_IN,
            },
            MdwSubcmdCmdbuf {
                handle: in_handle,
                size: in_len as u32,
                align: MDW_DEFAULT_ALIGN,
                direction: MDW_CB_IN,
            },
            MdwSubcmdCmdbuf {
                handle: out_handle,
                size: out_size as u32,
                align: MDW_DEFAULT_ALIGN,
                direction: MDW_CB_OUT,
            },
        ],
{
    let mut bufs: Vec<MdwSubcmdCmdbuf> = Vec::new();
    bufs.push(
        MdwSubcmdCmdbuf {
            handle: dla_handle,
            size: dla_len as u32,
            align: MDW_DEFAULT_ALIGN,
            direction: MDW_CB_IN,
        },
    );
    bufs.push(
        MdwSubcmdCmdbuf {
            handle: in_handle,
            size: in_len as u32,
            align: MDW_DEFAULT_ALIGN,
            direction: MDW_CB_IN,
        },
    );
    bufs.push(
        MdwSubcmdCmdbuf {
            handle: out_handle,
            size: out_size as u32,
            align: MDW_DEFAULT_ALIGN,
            direction: MDW_CB_OUT,
        },
    );
    assert(bufs@ =~= seq![
        MdwSubcmdCmdbuf {
            handle: dla_handle,
            size: dla_len as u32,
            align: MDW_DEFAULT_ALIGN,
            direction: MDW_CB_IN,
        },
        MdwSubcmdCmdbuf {
            handle: in_handle,
            size: in_len as u32,
            align: MDW_DEFAULT_ALIGN,
            direction: MDW_CB_IN,
        },
        MdwSubcmdCmdbuf {
            handle: out_handle,
            size: out_size as u32,
            align: MDW_DEFAULT_ALIGN,
            direction: MDW_CB_OUT,
        },
    ]);
    bufs
}

/// The runner's single subcommand: device class `dev_type`, full boost,
/// `num_cmdbufs` command buffers at user address `cmdbufs`, everything else
/// zero.
pub fn runner_subcmd(dev_type: u32, num_cmdbufs: usize, cmdbufs: u64) -> (info: MdwSubcmdInfo)
    ensures
        info == (MdwSubcmdInfo {
            type_: dev_type,
            suggest_time: 0,
            vlm_usage: 0,
            vlm_ctx_id: 0,
            vlm_force: 0,
            boost: MDW_BOOST_MAX,
            turbo_boost: 0,
            min_boost: 0,
            max_boost: MDW_BOOST_MAX,
            hse_en: 0,
            pack_id: 0,
            driver_time: 0,
            ip_time: 0,
            bw: 0,
            affinity: 0,
            num_cmdbufs: num_cmdbufs as u32,
            cmdbufs,
        }),
{
    MdwSubcmdInfo {
        type_: dev_type,
        suggest_time: 0,
        vlm_usage: 0,
        vlm_ctx_id: 0,
        vlm_force: 0,
        boost: MDW_BOOST_MAX,
        turbo_boost: 0,
        min_boost: 0,
        max_boost: MDW_BOOST_MAX,
        hse_en: 0,
        pack_id: 0,
        driver_time: 0,
        ip_time: 0,
        bw: 0,
        affinity: 0,
        num_cmdbufs: num_cmdbufs as u32,
        cmdbufs,
    }
}

/// The size of the output buffer: the size the user gave, else the size of
/// the input.
pub fn output_size(hint: Option<usize>, input_len: usize) -> (n: usize)
    ensures
        n == match hint {
            Some(h) => h,
            None => input_len,
        },
{
    match hint {
        Some(h) => h,
        None => input_len,
    }
}

/// Byte size of one execution record: the command's (`MdwCmdExecInfo`) or a
/// subcommand's (`MdwSubcmdExecInfo`).
pub const EXEC_INFO_SIZE: usize = 32;

/// The zeroed execution-record area the driver fills in for a command of
/// `num_subcmds` subcommands: the command's record, then one record per
/// subcommand, `32 + 32 * num_subcmds` bytes in all.
pub fn exec_info_buffer(num_subcmds: usize) -> (out: Vec<u8>)
    requires
        num_subcmds <= (usize::MAX - EXEC_INFO_SIZE) / (EXEC_INFO_SIZE as int),
    ensures
        out@.len() == EXEC_INFO_SIZE + EXEC_INFO_SIZE * num_subcmds,
        out@ == zeros((EXEC_INFO_SIZE + EXEC_INFO_SIZE * num_subcmds) as nat),
{
    let ghost m: int = usize::MAX as int;
    assert(32 * (num_subcmds as int) <= m - 32) by (nonlinear_arith)
        requires
            (num_subcmds as int) <= (m - 32) / 32,
            m >= 32,
    ;
    let n = EXEC_INFO_SIZE + EXEC_INFO_SIZE * num_subcmds;
    let mut out: Vec<u8> = Vec::new();
    push_zeros(&mut out, n);
    assert(out@ =~= zeros(n as nat));
    out
}

/// The outcome of waiting on a command's fence with `poll`.
#[derive(Copy, Clone, Debug)]
pub enum FenceWait {
    /// The fence signalled: the command has finished.
    Ready,
    /// `poll` itself failed; the reason is in `errno`.
    PollFailed,
    /// Nothing happened before the time limit.
    TimedOut,
    /// `poll` returned without the readable event; the events it reported.
    NotReadable(i16),
}

/// Reads `libc::POLLIN`, the "readable" event bit of `poll`; the libc
/// source defines it as 0x1 on Linux and Android.
#[verifier::external_body]
fn poll_readable_event() -> (ev: i16)
    ensures
        ev == 0x1,
{
    libc::POLLIN
}

/// Judges a fence wait from what `poll` returned (`n`) and the events it
/// reported (`revents`).
pub fn fence_outcome(n: i32, revents: i16) -> (w: FenceWait)
    ensures
        w == (if n < 0 {
            FenceWait::PollFailed
        } else if n == 0 {
            FenceWait::TimedOut
        } else if revents & 0x1 == 0 {
            FenceWait::NotReadable(revents)
        } else {
            FenceWait::Ready
        }),
{
    if n < 0 {
        return FenceWait::PollFailed;
    }
    if n == 0 {
        return FenceWait::TimedOut;
    }
    if revents & poll_readable_event() == 0 {
        return FenceWait::NotReadable(revents);
    }
    FenceWait::Ready
}

/// Judges a finished command from its execution record: the total run time
/// in microseconds when it reported success (`ret == 0`), else the record.
pub fn exec_outcome(info: &MdwCmdExecInfo) -> (r: Result<u64, MdwCmdExecInfo>)
    ensures
        info.ret == 0 ==> r == Ok::<u64, MdwCmdExecInfo>(info.total_us),
        info.ret != 0 ==> r == Err::<u64, MdwCmdExecInfo>(*info),
{
    if info.ret != 0 {
        Err(*info)
    } else {
        Ok(info.total_us)
    }
}

} // verus!
