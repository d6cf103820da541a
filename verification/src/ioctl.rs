//! Linux ioctl request numbers of the midware ioctls.
//!
//! A request number packs a direction, a type byte, a sequence number and
//! the byte size of the argument (generic Linux layout, as on arm64 and
//! x86: number in bits 0..8, type in 8..16, size in 16..30, direction in
//! 30..32).
use vstd::prelude::*;
use crate::uapi::{
    APUSYS_MAGICNO, MDW_CMD_ARGS_SIZE, MDW_HS_ARGS_SIZE, MDW_MEM_ARGS_SIZE, MDW_UTIL_ARGS_SIZE,
    MdwCmdIn, MdwHsIn, MdwMemIn, MdwUtilIn,
};

verus! {

/// Direction bit: user space writes the argument.
pub const IOC_WRITE: u32 = 1;
/// Direction bit: user space reads the argument back.
pub const IOC_READ: u32 = 2;
/// Largest argument size a request number can carry.
pub const IOC_SIZE_MAX: u32 = 0x3fff;

/// Sequence number of the handshake ioctl.
pub const APU_MDW_HANDSHAKE_NR: u8 = 32;
/// Sequence number of the memory ioctl.
pub const APU_MDW_MEM_NR: u8 = 33;
/// Sequence number of the command ioctl.
pub const APU_MDW_CMD_NR: u8 = 34;
/// Sequence number of the util ioctl.
pub const APU_MDW_UTIL_NR: u8 = 35;

/// The request number with direction `dir`, type byte `ty`, sequence
/// number `nr` and argument size `size`; each part is cut to the width of
/// its bit field.
pub open spec fn ioc(dir: u32, ty: u8, nr: u8, size: u32) -> u32 {
    ((dir & 0x3) << 30u32) | ((size & 0x3fff) << 16u32) | (((ty as u32) & 0xff) << 8u32) | ((
    nr as u32) & 0xff)
}

/// The direction bits of a request number.
pub open spec fn ioc_dir(req: u32) -> u32 {
    req >> 30u32
}

/// The argument size carried by a request number.
pub open spec fn ioc_size(req: u32) -> u32 {
    (req >> 16u32) & 0x3fff
}

/// The type byte of a request number.
pub open spec fn ioc_type(req: u32) -> u8 {
    ((req >> 8u32) & 0xff) as u8
}

/// The sequence number of a request number.
pub open spec fn ioc_nr(req: u32) -> u8 {
    (req & 0xff) as u8
}

/// The request number of a read-write midware ioctl with sequence number
/// `nr` and an argument of `size` bytes.
pub open spec fn apu_request(nr: u8, size: usize) -> u32 {
    ioc(IOC_READ | IOC_WRITE, APUSYS_MAGICNO, nr, size as u32)
}

/// A request number keeps each of its parts apart: direction, type,
/// number and size are read back as they were put in, cut to the width of
/// their bit fields.
pub proof fn lemma_ioc_fields(dir: u32, ty: u8, nr: u8, size: u32)
    ensures
        ioc_dir(ioc(dir, ty, nr, size)) == dir & 0x3,
        ioc_size(ioc(dir, ty, nr, size)) == size & 0x3fff,
        ioc_type(ioc(dir, ty, nr, size)) == ty,
        ioc_nr(ioc(dir, ty, nr, size)) == nr,
{
    let t = ty as u32;
    let n = nr as u32;
    let r = ioc(dir, ty, nr, size);
    assert(r == ((dir & 0x3) << 30u32) | ((size & 0x3fff) << 16u32) | ((t & 0xff) << 8u32) | (n
        & 0xff));
    assert(t < 256 && n < 256 && r == ((dir & 0x3) << 30u32) | ((size & 0x3fff) << 16u32) | ((t
        & 0xff) << 8u32) | (n & 0xff) ==> r >> 30u32 == dir & 0x3 && (r >> 16u32) & 0x3fff == size
        & 0x3fff && (r >> 8u32) & 0xff == t && r & 0xff == n) by (bit_vector);
}

/// The request number with direction `dir`, type byte `ty`, sequence number
/// `nr` and argument size `size` (each cut to its bit field).
pub fn request_code(dir: u32, ty: u8, nr: u8, size: u32) -> (req: u32)
    ensures
        req == ioc(dir, ty, nr, size),
{
    ((dir & 0x3) << 30u32) | ((size & 0x3fff) << 16u32) | (((ty as u32) & 0xff) << 8u32) | ((
    nr as u32) & 0xff)
}

/// The request number of a read-write ioctl (argument written by user
/// space and read back after the call).
pub fn request_code_readwrite(ty: u8, nr: u8, size: u32) -> (req: u32)
    ensures
        req == ioc(IOC_READ | IOC_WRITE, ty, nr, size),
{
    request_code(IOC_READ | IOC_WRITE, ty, nr, size)
}

/// Request number of `APU_MDW_IOCTL_HANDSHAKE`.
pub fn apu_mdw_handshake_request() -> (req: u32)
    ensures
        req == apu_request(APU_MDW_HANDSHAKE_NR, MDW_HS_ARGS_SIZE),
        req == 0xc028_4120,
{
    proof {
        lemma_request_values();
    }
    request_code_readwrite(APUSYS_MAGICNO, APU_MDW_HANDSHAKE_NR, MDW_HS_ARGS_SIZE as u32)
}

/// Request number of `APU_MDW_IOCTL_MEM`.
pub fn apu_mdw_mem_request() -> (req: u32)
    ensures
        req == apu_request(APU_MDW_MEM_NR, MDW_MEM_ARGS_SIZE),
        req == 0xc028_4121,
{
    proof {
        lemma_request_values();
    }
    request_code_readwrite(APUSYS_MAGICNO, APU_MDW_MEM_NR, MDW_MEM_ARGS_SIZE as u32)
}

/// Request number of `APU_MDW_IOCTL_CMD`.
pub fn apu_mdw_cmd_request() -> (req: u32)
    ensures
        req == apu_request(APU_MDW_CMD_NR, MDW_CMD_ARGS_SIZE),
        req == 0xc078_4122,
{
    proof {
        lemma_request_values();
    }
    request_code_readwrite(APUSYS_MAGICNO, APU_MDW_CMD_NR, MDW_CMD_ARGS_SIZE as u32)
}

/// Request number of `APU_MDW_IOCTL_UTIL`.
pub fn apu_mdw_util_request() -> (req: u32)
    ensures
        req == apu_request(APU_MDW_UTIL_NR, MDW_UTIL_ARGS_SIZE),
        req == 0xc020_4123,
{
    proof {
        lemma_request_values();
    }
    request_code_readwrite(APUSYS_MAGICNO, APU_MDW_UTIL_NR, MDW_UTIL_ARGS_SIZE as u32)
}

/// The argument size a request number announces to the kernel is the byte
/// length of the argument this crate writes for every request of that ioctl,
/// and the request numbers carry the read-write direction, the `'A'` type
/// byte and their own sequence numbers.
pub proof fn lemma_requests_match_arguments(hs: MdwHsIn, mem: MdwMemIn, cmd: MdwCmdIn, util: MdwUtilIn)
    ensures
        ioc_size(apu_request(APU_MDW_HANDSHAKE_NR, MDW_HS_ARGS_SIZE)) == hs.args().len(),
        ioc_size(apu_request(APU_MDW_MEM_NR, MDW_MEM_ARGS_SIZE)) == mem.encoded().len(),
        ioc_size(apu_request(APU_MDW_CMD_NR, MDW_CMD_ARGS_SIZE)) == cmd.encoded().len(),
        ioc_size(apu_request(APU_MDW_UTIL_NR, MDW_UTIL_ARGS_SIZE)) == util.encoded().len(),
        ioc_dir(apu_request(APU_MDW_HANDSHAKE_NR, MDW_HS_ARGS_SIZE)) == IOC_READ | IOC_WRITE,
        ioc_type(apu_request(APU_MDW_HANDSHAKE_NR, MDW_HS_ARGS_SIZE)) == APUSYS_MAGICNO,
        ioc_nr(apu_request(APU_MDW_HANDSHAKE_NR, MDW_HS_ARGS_SIZE)) == APU_MDW_HANDSHAKE_NR,
        ioc_dir(apu_request(APU_MDW_MEM_NR, MDW_MEM_ARGS_SIZE)) == IOC_READ | IOC_WRITE,
        ioc_type(apu_request(APU_MDW_MEM_NR, MDW_MEM_ARGS_SIZE)) == APUSYS_MAGICNO,
        ioc_nr(apu_request(APU_MDW_MEM_NR, MDW_MEM_ARGS_SIZE)) == APU_MDW_MEM_NR,
        ioc_dir(apu_request(APU_MDW_CMD_NR, MDW_CMD_ARGS_SIZE)) == IOC_READ | IOC_WRITE,
        ioc_type(apu_request(APU_MDW_CMD_NR, MDW_CMD_ARGS_SIZE)) == APUSYS_MAGICNO,
        ioc_nr(apu_request(APU_MDW_CMD_NR, MDW_CMD_ARGS_SIZE)) == APU_MDW_CMD_NR,
        ioc_dir(apu_request(APU_MDW_UTIL_NR, MDW_UTIL_ARGS_SIZE)) == IOC_READ | IOC_WRITE,
        ioc_type(apu_request(APU_MDW_UTIL_NR, MDW_UTIL_ARGS_SIZE)) == APUSYS_MAGICNO,
        ioc_nr(apu_request(APU_MDW_UTIL_NR, MDW_UTIL_ARGS_SIZE)) == APU_MDW_UTIL_NR,
{
    hs.lemma_args_fields();
    mem.lemma_args_fields();
    util.lemma_args_fields();
    assert(cmd.encoded().len() == MDW_CMD_ARGS_SIZE);
    assert(IOC_READ | IOC_WRITE == 3 && 3u32 & 0x3 == 3 && 40u32 & 0x3fff == 40 && 120u32 & 0x3fff
        == 120 && 32u32 & 0x3fff == 32) by (bit_vector);
    lemma_ioc_fields(3, APUSYS_MAGICNO, APU_MDW_HANDSHAKE_NR, 40);
    lemma_ioc_fields(3, APUSYS_MAGICNO, APU_MDW_MEM_NR, 40);
    lemma_ioc_fields(3, APUSYS_MAGICNO, APU_MDW_CMD_NR, 120);
    lemma_ioc_fields(3, APUSYS_MAGICNO, APU_MDW_UTIL_NR, 32);
}

/// The four request numbers are pairwise distinct.
pub proof fn lemma_requests_distinct()
    ensures
        apu_request(APU_MDW_HANDSHAKE_NR, MDW_HS_ARGS_SIZE) != apu_request(APU_MDW_MEM_NR, MDW_MEM_ARGS_SIZE),
        apu_request(APU_MDW_HANDSHAKE_NR, MDW_HS_ARGS_SIZE) != apu_request(APU_MDW_CMD_NR, MDW_CMD_ARGS_SIZE),
        apu_request(APU_MDW_HANDSHAKE_NR, MDW_HS_ARGS_SIZE) != apu_request(APU_MDW_UTIL_NR, MDW_UTIL_ARGS_SIZE),
        apu_request(APU_MDW_MEM_NR, MDW_MEM_ARGS_SIZE) != apu_request(APU_MDW_CMD_NR, MDW_CMD_ARGS_SIZE),
        apu_request(APU_MDW_MEM_NR, MDW_MEM_ARGS_SIZE) != apu_request(APU_MDW_UTIL_NR, MDW_UTIL_ARGS_SIZE),
        apu_request(APU_MDW_CMD_NR, MDW_CMD_ARGS_SIZE) != apu_request(APU_MDW_UTIL_NR, MDW_UTIL_ARGS_SIZE),
{
    lemma_request_values();
}

/// The four request numbers as the kernel header defines them.
pub proof fn lemma_request_values()
    ensures
        apu_request(APU_MDW_HANDSHAKE_NR, MDW_HS_ARGS_SIZE) == 0xc028_4120,
        apu_request(APU_MDW_MEM_NR, MDW_MEM_ARGS_SIZE) == 0xc028_4121,
        apu_request(APU_MDW_CMD_NR, MDW_CMD_ARGS_SIZE) == 0xc078_4122,
        apu_request(APU_MDW_UTIL_NR, MDW_UTIL_ARGS_SIZE) == 0xc020_4123,
{
    assert(IOC_READ | IOC_WRITE == 3) by (bit_vector);
    assert(((3u32 & 0x3) << 30u32) | ((40u32 & 0x3fff) << 16u32) | ((0x41u32 & 0xff) << 8u32) | (
    32u32 & 0xff) == 0xc028_4120) by (bit_vector);
    assert(((3u32 & 0x3) << 30u32) | ((40u32 & 0x3fff) << 16u32) | ((0x41u32 & 0xff) << 8u32) | (
    33u32 & 0xff) == 0xc028_4121) by (bit_vector);
    assert(((3u32 & 0x3) << 30u32) | ((120u32 & 0x3fff) << 16u32) | ((0x41u32 & 0xff) << 8u32) | (
    34u32 & 0xff) == 0xc078_4122) by (bit_vector);
    assert(((3u32 & 0x3) << 30u32) | ((32u32 & 0x3fff) << 16u32) | ((0x41u32 & 0xff) << 8u32) | (
    35u32 & 0xff) == 0xc020_4123) by (bit_vector);
}

} // verus!
