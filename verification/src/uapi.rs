//! The argument structures of the APU midware ioctls and their byte layout.
//!
//! Each structure mirrors one C structure of the kernel header; `encoded`
//! states its exact bytes (fields in order, little-endian, C padding as
//! zeros) and `parsed` states how a structure is read from bytes.
use vstd::prelude::*;
use crate::wire::{
    le32, le64, u32_at, u64_at, zeros, push_u32, push_u64, push_zeros, read_u32, read_u64,
    lemma_join32_of_bytes, lemma_join64_of_bytes, lemma_bytes_of_join32, lemma_bytes_of_join64,
    lemma_i32_bits, lemma_i64_bits, lemma_u32_bits, lemma_u64_bits, lemma_u32_at_within,
    lemma_u64_at_within, lemma_subrange_within,
};

verus! {

/// The ioctl "type" byte of every midware ioctl: `'A'`.
pub const APUSYS_MAGICNO: u8 = 0x41;

/// Size of the per-device metadata blob in a handshake `Dev` reply.
pub const MDW_DEV_META_SIZE: usize = 32;

/// Allocation flag: CPU-cacheable buffer.
pub const F_MDW_MEM_CACHEABLE: u64 = 1 << 0;
/// Allocation flag: 32-bit device address range.
pub const F_MDW_MEM_32BIT: u64 = 1 << 1;
/// Allocation flag: high device address range.
pub const F_MDW_MEM_HIGHADDR: u64 = 1 << 2;

/// Command-buffer direction: read and written by the device.
pub const MDW_CB_BIDIRECTIONAL: u32 = 0;
/// Command-buffer direction: read by the device.
pub const MDW_CB_IN: u32 = 1;
/// Command-buffer direction: written by the device.
pub const MDW_CB_OUT: u32 = 2;

/// Largest boost value the driver accepts.
pub const MDW_BOOST_MAX: u32 = 100;
/// Default buffer alignment.
pub const MDW_DEFAULT_ALIGN: u32 = 16;
/// Default command time limit, in milliseconds.
pub const MDW_DEFAULT_TIMEOUT_MS: u32 = 30 * 1000;

/// Byte size of the handshake ioctl argument (C `sizeof(union mdw_hs_args)`).
pub const MDW_HS_ARGS_SIZE: usize = 40;
/// Byte size of the memory ioctl argument (C `sizeof(union mdw_mem_args)`).
pub const MDW_MEM_ARGS_SIZE: usize = 40;
/// Byte size of the command ioctl argument (C `sizeof(union mdw_cmd_args)`).
pub const MDW_CMD_ARGS_SIZE: usize = 120;
/// Byte size of the util ioctl argument (C `sizeof(union mdw_util_args)`).
pub const MDW_UTIL_ARGS_SIZE: usize = 32;

/// Operations of the handshake ioctl (`APU_MDW_IOCTL_HANDSHAKE`).
#[derive(Copy, Clone, Debug)]
pub enum MdwHsOp {
    Basic,
    Dev,
    Mem,
}

impl MdwHsOp {
    /// The number the kernel uses for this value.
    pub open spec fn value(self) -> u32 {
        match self {
            MdwHsOp::Basic => 0,
            MdwHsOp::Dev => 1,
            MdwHsOp::Mem => 2,
        }
    }

    /// The value the kernel number `c` stands for, if any.
    pub open spec fn from_value(c: u32) -> Option<Self> {
        if c == 0 {
            Some(MdwHsOp::Basic)
        } else if c == 1 {
            Some(MdwHsOp::Dev)
        } else if c == 2 {
            Some(MdwHsOp::Mem)
        } else {
            None
        }
    }

    /// The number the kernel uses for this value.
    pub fn code(&self) -> (c: u32)
        ensures
            c == self.value(),
    {
        match self {
            MdwHsOp::Basic => 0,
            MdwHsOp::Dev => 1,
            MdwHsOp::Mem => 2,
        }
    }

    /// The value the kernel number `c` stands for; `None` for an unknown number.
    pub fn from_code(c: u32) -> (r: Option<Self>)
        ensures
            r == Self::from_value(c),
    {
        if c == 0 {
            Some(MdwHsOp::Basic)
        } else if c == 1 {
            Some(MdwHsOp::Dev)
        } else if c == 2 {
            Some(MdwHsOp::Mem)
        } else {
            None
        }
    }

    /// Numbering is one-to-one: a value is recovered from its number, and
    /// every number that stands for a value is that value's number.
    pub proof fn lemma_value_roundtrip(self, c: u32)
        ensures
            Self::from_value(self.value()) == Some(self),
            Self::from_value(c) == Some(self) ==> c == self.value(),
    {
    }
}

/// Operations of the memory ioctl (`APU_MDW_IOCTL_MEM`).
#[derive(Copy, Clone, Debug)]
pub enum MdwMemOp {
    Alloc,
    Free,
    MapBuffer,
    Unmap,
    Flush,
    Invalidate,
}

impl MdwMemOp {
    /// The number the kernel uses for this value.
    pub open spec fn value(self) -> u32 {
        match self {
            MdwMemOp::Alloc => 0,
            MdwMemOp::Free => 1,
            MdwMemOp::MapBuffer => 2,
            MdwMemOp::Unmap => 3,
            MdwMemOp::Flush => 4,
            MdwMemOp::Invalidate => 5,
        }
    }

    /// The value the kernel number `c` stands for, if any.
    pub open spec fn from_value(c: u32) -> Option<Self> {
        if c == 0 {
            Some(MdwMemOp::Alloc)
        } else if c == 1 {
            Some(MdwMemOp::Free)
        } else if c == 2 {
            Some(MdwMemOp::MapBuffer)
        } else if c == 3 {
            Some(MdwMemOp::Unmap)
        } else if c == 4 {
            Some(MdwMemOp::Flush)
        } else if c == 5 {
            Some(MdwMemOp::Invalidate)
        } else {
            None
        }
    }

    /// The number the kernel uses for this value.
    pub fn code(&self) -> (c: u32)
        ensures
            c == self.value(),
    {
        match self {
            MdwMemOp::Alloc => 0,
            MdwMemOp::Free => 1,
            MdwMemOp::MapBuffer => 2,
            MdwMemOp::Unmap => 3,
            MdwMemOp::Flush => 4,
            MdwMemOp::Invalidate => 5,
        }
    }

    /// The value the kernel number `c` stands for; `None` for an unknown number.
    pub fn from_code(c: u32) -> (r: Option<Self>)
        ensures
            r == Self::from_value(c),
    {
        if c == 0 {
            Some(MdwMemOp::Alloc)
        } else if c == 1 {
            Some(MdwMemOp::Free)
        } else if c == 2 {
            Some(MdwMemOp::MapBuffer)
        } else if c == 3 {
            Some(MdwMemOp::Unmap)
        } else if c == 4 {
            Some(MdwMemOp::Flush)
        } else if c == 5 {
            Some(MdwMemOp::Invalidate)
        } else {
            None
        }
    }

    /// Numbering is one-to-one: a value is recovered from its number, and
    /// every number that stands for a value is that value's number.
    pub proof fn lemma_value_roundtrip(self, c: u32)
        ensures
            Self::from_value(self.value()) == Some(self),
            Self::from_value(c) == Some(self) ==> c == self.value(),
    {
    }
}

/// Memory pools an allocation can be served from.
#[derive(Copy, Clone, Debug)]
pub enum MdwMemType {
    Main,
    Vlm,
    Local,
    System,
    SystemIsp,
    SystemApu,
}

impl MdwMemType {
    /// The number the kernel uses for this value.
    pub open spec fn value(self) -> u32 {
        match self {
            MdwMemType::Main => 0,
            MdwMemType::Vlm => 1,
            MdwMemType::Local => 2,
            MdwMemType::System => 3,
            MdwMemType::SystemIsp => 4,
            MdwMemType::SystemApu => 5,
        }
    }

    /// The value the kernel number `c` stands for, if any.
    pub open spec fn from_value(c: u32) -> Option<Self> {
        if c == 0 {
            Some(MdwMemType::Main)
        } else if c == 1 {
            Some(MdwMemType::Vlm)
        } else if c == 2 {
            Some(MdwMemType::Local)
        } else if c == 3 {
            Some(MdwMemType::System)
        } else if c == 4 {
            Some(MdwMemType::SystemIsp)
        } else if c == 5 {
            Some(MdwMemType::SystemApu)
        } else {
            None
        }
    }

    /// The number the kernel uses for this value.
    pub fn code(&self) -> (c: u32)
        ensures
            c == self.value(),
    {
        match self {
            MdwMemType::Main => 0,
            MdwMemType::Vlm => 1,
            MdwMemType::Local => 2,
            MdwMemType::System => 3,
            MdwMemType::SystemIsp => 4,
            MdwMemType::SystemApu => 5,
        }
    }

    /// The value the kernel number `c` stands for; `None` for an unknown number.
    pub fn from_code(c: u32) -> (r: Option<Self>)
        ensures
            r == Self::from_value(c),
    {
        if c == 0 {
            Some(MdwMemType::Main)
        } else if c == 1 {
            Some(MdwMemType::Vlm)
        } else if c == 2 {
            Some(MdwMemType::Local)
        } else if c == 3 {
            Some(MdwMemType::System)
        } else if c == 4 {
            Some(MdwMemType::SystemIsp)
        } else if c == 5 {
            Some(MdwMemType::SystemApu)
        } else {
            None
        }
    }

    /// Numbering is one-to-one: a value is recovered from its number, and
    /// every number that stands for a value is that value's number.
    pub proof fn lemma_value_roundtrip(self, c: u32)
        ensures
            Self::from_value(self.value()) == Some(self),
            Self::from_value(c) == Some(self) ==> c == self.value(),
    {
    }
}

/// Operations of the command ioctl (`APU_MDW_IOCTL_CMD`).
#[derive(Copy, Clone, Debug)]
pub enum MdwCmdOp {
    Run,
    RunStale,
    Del,
}

impl MdwCmdOp {
    /// The number the kernel uses for this value.
    pub open spec fn value(self) -> u32 {
        match self {
            MdwCmdOp::Run => 0,
            MdwCmdOp::RunStale => 1,
            MdwCmdOp::Del => 2,
        }
    }

    /// The value the kernel number `c` stands for, if any.
    pub open spec fn from_value(c: u32) -> Option<Self> {
        if c == 0 {
            Some(MdwCmdOp::Run)
        } else if c == 1 {
            Some(MdwCmdOp::RunStale)
        } else if c == 2 {
            Some(MdwCmdOp::Del)
        } else {
            None
        }
    }

    /// The number the kernel uses for this value.
    pub fn code(&self) -> (c: u32)
        ensures
            c == self.value(),
    {
        match self {
            MdwCmdOp::Run => 0,
            MdwCmdOp::RunStale => 1,
            MdwCmdOp::Del => 2,
        }
    }

    /// The value the kernel number `c` stands for; `None` for an unknown number.
    pub fn from_code(c: u32) -> (r: Option<Self>)
        ensures
            r == Self::from_value(c),
    {
        if c == 0 {
            Some(MdwCmdOp::Run)
        } else if c == 1 {
            Some(MdwCmdOp::RunStale)
        } else if c == 2 {
            Some(MdwCmdOp::Del)
        } else {
            None
        }
    }

    /// Numbering is one-to-one: a value is recovered from its number, and
    /// every number that stands for a value is that value's number.
    pub proof fn lemma_value_roundtrip(self, c: u32)
        ensures
            Self::from_value(self.value()) == Some(self),
            Self::from_value(c) == Some(self) ==> c == self.value(),
    {
    }
}

/// Operations of the util ioctl (`APU_MDW_IOCTL_UTIL`).
#[derive(Copy, Clone, Debug)]
pub enum MdwUtilOp {
    SetPower,
    Ucmd,
}

impl MdwUtilOp {
    /// The number the kernel uses for this value.
    pub open spec fn value(self) -> u32 {
        match self {
            MdwUtilOp::SetPower => 0,
            MdwUtilOp::Ucmd => 1,
        }
    }

    /// The value the kernel number `c` stands for, if any.
    pub open spec fn from_value(c: u32) -> Option<Self> {
        if c == 0 {
            Some(MdwUtilOp::SetPower)
        } else if c == 1 {
            Some(MdwUtilOp::Ucmd)
        } else {
            None
        }
    }

    /// The number the kernel uses for this value.
    pub fn code(&self) -> (c: u32)
        ensures
            c == self.value(),
    {
        match self {
            MdwUtilOp::SetPower => 0,
            MdwUtilOp::Ucmd => 1,
        }
    }

    /// The value the kernel number `c` stands for; `None` for an unknown number.
    pub fn from_code(c: u32) -> (r: Option<Self>)
        ensures
            r == Self::from_value(c),
    {
        if c == 0 {
            Some(MdwUtilOp::SetPower)
        } else if c == 1 {
            Some(MdwUtilOp::Ucmd)
        } else {
            None
        }
    }

    /// Numbering is one-to-one: a value is recovered from its number, and
    /// every number that stands for a value is that value's number.
    pub proof fn lemma_value_roundtrip(self, c: u32)
        ensures
            Self::from_value(self.value()) == Some(self),
            Self::from_value(c) == Some(self) ==> c == self.value(),
    {
    }
}

/// Input of the handshake `Dev` op: the device class to describe.
#[derive(Copy, Clone, Debug)]
pub struct MdwHsInDev {
    pub type_: u32,
}

impl MdwHsInDev {
    /// The 4 bytes of this structure as the kernel lays them out: fields in
    /// declaration order, little-endian, with C alignment padding as zero bytes.
    pub open spec fn encoded(self) -> Seq<u8> {
        le32(self.type_)
    }

    /// The structure whose fields are read from the first 4 bytes of `s`.
    pub open spec fn parsed(s: Seq<u8>) -> Self {
        MdwHsInDev {
            type_: u32_at(s, 0),
        }
    }

    /// Reading a structure back from its own bytes gives it back unchanged.
    pub proof fn lemma_parse_encoded(self)
        ensures
            self.encoded().len() == 4,
            Self::parsed(self.encoded()) == self,
    {
        lemma_join32_of_bytes(self.type_);
    }

    /// Where each field of a structure is read from: the little-endian field at
    /// its C offset.
    pub proof fn lemma_parsed_offsets(s: Seq<u8>)
        ensures
            Self::parsed(s).type_ == u32_at(s, 0),
    {
    }

    /// Where each field of a structure is written: every field as little-endian
    /// bytes at its C offset, padding as zero bytes, 4 bytes in all.
    pub proof fn lemma_field_offsets(self)
        ensures
            self.encoded().len() == 4,
            u32_at(self.encoded(), 0) == self.type_,
    {
        self.lemma_parse_encoded();
        Self::lemma_parsed_offsets(self.encoded());
    }

    /// Every field of this structure is significant (no padding), so writing
    /// back what was read reproduces the bytes that were read.
    pub proof fn lemma_encode_parsed(s: Seq<u8>)
        requires
            s.len() >= 4,
        ensures
            Self::parsed(s).encoded() == s.subrange(0, 4),
    {
        lemma_bytes_of_join32(s[0], s[1], s[2], s[3]);
        assert(Self::parsed(s).encoded() =~= s.subrange(0, 4));
    }

    /// Writes the 4-byte layout of this structure.
    pub fn encode(&self) -> (out: Vec<u8>)
        ensures
            out@ == self.encoded(),
    {
        let mut out = Vec::new();
        push_u32(&mut out, self.type_);
        assert(out@ =~= le32(self.type_));
        out
    }

    /// Reads a structure from the first 4 bytes of `s`; `None` when `s`
    /// is shorter than that.
    pub fn decode(s: &[u8]) -> (r: Option<Self>)
        ensures
            r == (if s@.len() >= 4 { Some(Self::parsed(s@)) } else { None::<Self> }),
    {
        if s.len() < 4 {
            return None;
        }
        Some(MdwHsInDev {
            type_: read_u32(s, 0),
        })
    }
}

/// Input of the handshake `Mem` op: the memory pool to describe.
#[derive(Copy, Clone, Debug)]
pub struct MdwHsInMem {
    pub type_: u32,
}

impl MdwHsInMem {
    /// The 4 bytes of this structure as the kernel lays them out: fields in
    /// declaration order, little-endian, with C alignment padding as zero bytes.
    pub open spec fn encoded(self) -> Seq<u8> {
        le32(self.type_)
    }

    /// The structure whose fields are read from the first 4 bytes of `s`.
    pub open spec fn parsed(s: Seq<u8>) -> Self {
        MdwHsInMem {
            type_: u32_at(s, 0),
        }
    }

    /// Reading a structure back from its own bytes gives it back unchanged.
    pub proof fn lemma_parse_encoded(self)
        ensures
            self.encoded().len() == 4,
            Self::parsed(self.encoded()) == self,
    {
        lemma_join32_of_bytes(self.type_);
    }

    /// Where each field of a structure is read from: the little-endian field at
    /// its C offset.
    pub proof fn lemma_parsed_offsets(s: Seq<u8>)
        ensures
            Self::parsed(s).type_ == u32_at(s, 0),
    {
    }

    /// Where each field of a structure is written: every field as little-endian
    /// bytes at its C offset, padding as zero bytes, 4 bytes in all.
    pub proof fn lemma_field_offsets(self)
        ensures
            self.encoded().len() == 4,
            u32_at(self.encoded(), 0) == self.type_,
    {
        self.lemma_parse_encoded();
        Self::lemma_parsed_offsets(self.encoded());
    }

    /// Every field of this structure is significant (no padding), so writing
    /// back what was read reproduces the bytes that were read.
    pub proof fn lemma_encode_parsed(s: Seq<u8>)
        requires
            s.len() >= 4,
        ensures
            Self::parsed(s).encoded() == s.subrange(0, 4),
    {
        lemma_bytes_of_join32(s[0], s[1], s[2], s[3]);
        assert(Self::parsed(s).encoded() =~= s.subrange(0, 4));
    }

    /// Writes the 4-byte layout of this structure.
    pub fn encode(&self) -> (out: Vec<u8>)
        ensures
            out@ == self.encoded(),
    {
        let mut out = Vec::new();
        push_u32(&mut out, self.type_);
        assert(out@ =~= le32(self.type_));
        out
    }

    /// Reads a structure from the first 4 bytes of `s`; `None` when `s`
    /// is shorter than that.
    pub fn decode(s: &[u8]) -> (r: Option<Self>)
        ensures
            r == (if s@.len() >= 4 { Some(Self::parsed(s@)) } else { None::<Self> }),
    {
        if s.len() < 4 {
            return None;
        }
        Some(MdwHsInMem {
            type_: read_u32(s, 0),
        })
    }
}

/// Reply of the handshake `Basic` op.
#[derive(Copy, Clone, Debug)]
pub struct MdwHsOutBasic {
    /// `mdev->uapi_ver`: the driver-internal user ABI version stamp.
    pub version: u64,
    /// Bitmask of the device classes the driver advertises (DSP/DLA/DMA/...).
    pub dev_bitmask: u64,
    /// Bitmask of the memory pools (`MdwMemType`) the driver advertises.
    pub mem_bitmask: u64,
    /// Reserved flags echoed by the driver.
    pub flags: u64,
    /// Always `MDW_DEV_META_SIZE` (32) on this revision.
    pub meta_size: u32,
    pub reserved: u32,
}

impl MdwHsOutBasic {
    /// The 40 bytes of this reply as the kernel lays them out: fields in
    /// declaration order, little-endian, with C alignment padding as zero bytes.
    pub open spec fn encoded(self) -> Seq<u8> {
        le64(self.version)
            + le64(self.dev_bitmask)
            + le64(self.mem_bitmask)
            + le64(self.flags)
            + le32(self.meta_size)
            + le32(self.reserved)
    }

    /// The reply whose fields are read from the first 40 bytes of `s`.
    pub open spec fn parsed(s: Seq<u8>) -> Self {
        MdwHsOutBasic {
            version: u64_at(s, 0),
            dev_bitmask: u64_at(s, 8),
            mem_bitmask: u64_at(s, 16),
            flags: u64_at(s, 24),
            meta_size: u32_at(s, 32),
            reserved: u32_at(s, 36),
        }
    }

    /// Reading a reply back from its own bytes gives it back unchanged.
    pub proof fn lemma_parse_encoded(self)
        ensures
            self.encoded().len() == 40,
            Self::parsed(self.encoded()) == self,
    {
        lemma_join64_of_bytes(self.version);
        lemma_join64_of_bytes(self.dev_bitmask);
        lemma_join64_of_bytes(self.mem_bitmask);
        lemma_join64_of_bytes(self.flags);
        lemma_join32_of_bytes(self.meta_size);
        lemma_join32_of_bytes(self.reserved);
    }

    /// Where each field of a reply is read from: the little-endian field at
    /// its C offset.
    pub proof fn lemma_parsed_offsets(s: Seq<u8>)
        ensures
            Self::parsed(s).version == u64_at(s, 0),
            Self::parsed(s).dev_bitmask == u64_at(s, 8),
            Self::parsed(s).mem_bitmask == u64_at(s, 16),
            Self::parsed(s).flags == u64_at(s, 24),
            Self::parsed(s).meta_size == u32_at(s, 32),
            Self::parsed(s).reserved == u32_at(s, 36),
    {
    }

    /// Where each field of a reply is written: every field as little-endian
    /// bytes at its C offset, padding as zero bytes, 40 bytes in all.
    pub proof fn lemma_field_offsets(self)
        ensures
            self.encoded().len() == 40,
            u64_at(self.encoded(), 0) == self.version,
            u64_at(self.encoded(), 8) == self.dev_bitmask,
            u64_at(self.encoded(), 16) == self.mem_bitmask,
            u64_at(self.encoded(), 24) == self.flags,
            u32_at(self.encoded(), 32) == self.meta_size,
            u32_at(self.encoded(), 36) == self.reserved,
    {
        self.lemma_parse_encoded();
        Self::lemma_parsed_offsets(self.encoded());
    }

    /// Every field of this reply is significant (no padding), so writing
    /// back what was read reproduces the bytes that were read.
    pub proof fn lemma_encode_parsed(s: Seq<u8>)
        requires
            s.len() >= 40,
        ensures
            Self::parsed(s).encoded() == s.subrange(0, 40),
    {
        lemma_bytes_of_join64(s[0], s[1], s[2], s[3], s[4], s[5], s[6], s[7]);
        lemma_bytes_of_join64(s[8], s[9], s[10], s[11], s[12], s[13], s[14], s[15]);
        lemma_bytes_of_join64(s[16], s[17], s[18], s[19], s[20], s[21], s[22], s[23]);
        lemma_bytes_of_join64(s[24], s[25], s[26], s[27], s[28], s[29], s[30], s[31]);
        lemma_bytes_of_join32(s[32], s[33], s[34], s[35]);
        lemma_bytes_of_join32(s[36], s[37], s[38], s[39]);
        assert(Self::parsed(s).encoded() =~= s.subrange(0, 40));
    }

    /// Writes the 40-byte layout of this reply.
    pub fn encode(&self) -> (out: Vec<u8>)
        ensures
            out@ == self.encoded(),
    {
        let mut out = Vec::new();
        push_u64(&mut out, self.version);
        assert(out@ =~= le64(self.version));
        push_u64(&mut out, self.dev_bitmask);
        push_u64(&mut out, self.mem_bitmask);
        push_u64(&mut out, self.flags);
        push_u32(&mut out, self.meta_size);
        push_u32(&mut out, self.reserved);
        out
    }

    /// Reads a reply from the first 40 bytes of `s`; `None` when `s`
    /// is shorter than that.
    pub fn decode(s: &[u8]) -> (r: Option<Self>)
        ensures
            r == (if s@.len() >= 40 { Some(Self::parsed(s@)) } else { None::<Self> }),
    {
        if s.len() < 40 {
            return None;
        }
        Some(MdwHsOutBasic {
            version: read_u64(s, 0),
            dev_bitmask: read_u64(s, 8),
            mem_bitmask: read_u64(s, 16),
            flags: read_u64(s, 24),
            meta_size: read_u32(s, 32),
            reserved: read_u32(s, 36),
        })
    }
}

impl Default for MdwHsOutBasic {
    /// The all-zero reply.
    fn default() -> (r: Self)
        ensures
            r == (MdwHsOutBasic { version: 0, dev_bitmask: 0, mem_bitmask: 0, flags: 0, meta_size: 0, reserved: 0 }),
    {
        MdwHsOutBasic { version: 0, dev_bitmask: 0, mem_bitmask: 0, flags: 0, meta_size: 0, reserved: 0 }
    }
}

/// Reply of the handshake `Mem` op.
#[derive(Copy, Clone, Debug)]
pub struct MdwHsOutMem {
    pub type_: u32,
    pub reserved: u32,
    /// `minfos[type].device_va`: base device VA of that memory region.
    pub start: u64,
    /// `minfos[type].dva_size`: its size in bytes.
    pub size: u32,
}

impl MdwHsOutMem {
    /// The 24 bytes of this reply as the kernel lays them out: fields in
    /// declaration order, little-endian, with C alignment padding as zero bytes.
    pub open spec fn encoded(self) -> Seq<u8> {
        le32(self.type_)
            + le32(self.reserved)
            + le64(self.start)
            + le32(self.size)
            + zeros(4)
    }

    /// The reply whose fields are read from the first 24 bytes of `s`.
    pub open spec fn parsed(s: Seq<u8>) -> Self {
        MdwHsOutMem {
            type_: u32_at(s, 0),
            reserved: u32_at(s, 4),
            start: u64_at(s, 8),
            size: u32_at(s, 16),
        }
    }

    /// Reading a reply back from its own bytes gives it back unchanged.
    pub proof fn lemma_parse_encoded(self)
        ensures
            self.encoded().len() == 24,
            Self::parsed(self.encoded()) == self,
    {
        lemma_join32_of_bytes(self.type_);
        lemma_join32_of_bytes(self.reserved);
        lemma_join64_of_bytes(self.start);
        lemma_join32_of_bytes(self.size);
    }

    /// Where each field of a reply is read from: the little-endian field at
    /// its C offset.
    pub proof fn lemma_parsed_offsets(s: Seq<u8>)
        ensures
            Self::parsed(s).type_ == u32_at(s, 0),
            Self::parsed(s).reserved == u32_at(s, 4),
            Self::parsed(s).start == u64_at(s, 8),
            Self::parsed(s).size == u32_at(s, 16),
    {
    }

    /// Where each field of a reply is written: every field as little-endian
    /// bytes at its C offset, padding as zero bytes, 24 bytes in all.
    pub proof fn lemma_field_offsets(self)
        ensures
            self.encoded().len() == 24,
            u32_at(self.encoded(), 0) == self.type_,
            u32_at(self.encoded(), 4) == self.reserved,
            u64_at(self.encoded(), 8) == self.start,
            u32_at(self.encoded(), 16) == self.size,
            self.encoded().subrange(20, 24) == zeros(4),
    {
        self.lemma_parse_encoded();
        Self::lemma_parsed_offsets(self.encoded());
        assert(self.encoded().subrange(20, 24) =~= zeros(4));
    }

    /// Writes the 24-byte layout of this reply.
    pub fn encode(&self) -> (out: Vec<u8>)
        ensures
            out@ == self.encoded(),
    {
        let mut out = Vec::new();
        push_u32(&mut out, self.type_);
        assert(out@ =~= le32(self.type_));
        push_u32(&mut out, self.reserved);
        push_u64(&mut out, self.start);
        push_u32(&mut out, self.size);
        push_zeros(&mut out, 4);
        out
    }

    /// Reads a reply from the first 24 bytes of `s`; `None` when `s`
    /// is shorter than that.
    pub fn decode(s: &[u8]) -> (r: Option<Self>)
        ensures
            r == (if s@.len() >= 24 { Some(Self::parsed(s@)) } else { None::<Self> }),
    {
        if s.len() < 24 {
            return None;
        }
        Some(MdwHsOutMem {
            type_: read_u32(s, 0),
            reserved: read_u32(s, 4),
            start: read_u64(s, 8),
            size: read_u32(s, 16),
        })
    }
}

impl Default for MdwHsOutMem {
    /// The all-zero reply.
    fn default() -> (r: Self)
        ensures
            r == (MdwHsOutMem { type_: 0, reserved: 0, start: 0, size: 0 }),
    {
        MdwHsOutMem { type_: 0, reserved: 0, start: 0, size: 0 }
    }
}

/// Input of the memory `Alloc` op.
#[derive(Copy, Clone, Debug)]
pub struct MdwMemInAlloc {
    /// `MdwMemType` selecting the allocator pool.
    pub type_: u32,
    pub size: u32,
    pub align: u32,
    /// `F_MDW_MEM_*`: cacheability and DVA-range hints.
    pub flags: u64,
}

impl MdwMemInAlloc {
    /// The 24 bytes of this structure as the kernel lays them out: fields in
    /// declaration order, little-endian, with C alignment padding as zero bytes.
    pub open spec fn encoded(self) -> Seq<u8> {
        le32(self.type_)
            + le32(self.size)
            + le32(self.align)
            + zeros(4)
            + le64(self.flags)
    }

    /// The structure whose fields are read from the first 24 bytes of `s`.
    pub open spec fn parsed(s: Seq<u8>) -> Self {
        MdwMemInAlloc {
            type_: u32_at(s, 0),
            size: u32_at(s, 4),
            align: u32_at(s, 8),
            flags: u64_at(s, 16),
        }
    }

    /// Reading a structure back from its own bytes gives it back unchanged.
    pub proof fn lemma_parse_encoded(self)
        ensures
            self.encoded().len() == 24,
            Self::parsed(self.encoded()) == self,
    {
        lemma_join32_of_bytes(self.type_);
        lemma_join32_of_bytes(self.size);
        lemma_join32_of_bytes(self.align);
        lemma_join64_of_bytes(self.flags);
    }

    /// Where each field of a structure is read from: the little-endian field at
    /// its C offset.
    pub proof fn lemma_parsed_offsets(s: Seq<u8>)
        ensures
            Self::parsed(s).type_ == u32_at(s, 0),
            Self::parsed(s).size == u32_at(s, 4),
            Self::parsed(s).align == u32_at(s, 8),
            Self::parsed(s).flags == u64_at(s, 16),
    {
    }

    /// Where each field of a structure is written: every field as little-endian
    /// bytes at its C offset, padding as zero bytes, 24 bytes in all.
    pub proof fn lemma_field_offsets(self)
        ensures
            self.encoded().len() == 24,
            u32_at(self.encoded(), 0) == self.type_,
            u32_at(self.encoded(), 4) == self.size,
            u32_at(self.encoded(), 8) == self.align,
            self.encoded().subrange(12, 16) == zeros(4),
            u64_at(self.encoded(), 16) == self.flags,
    {
        self.lemma_parse_encoded();
        Self::lemma_parsed_offsets(self.encoded());
        assert(self.encoded().subrange(12, 16) =~= zeros(4));
    }

    /// Writes the 24-byte layout of this structure.
    pub fn encode(&self) -> (out: Vec<u8>)
        ensures
            out@ == self.encoded(),
    {
        let mut out = Vec::new();
        push_u32(&mut out, self.type_);
        assert(out@ =~= le32(self.type_));
        push_u32(&mut out, self.size);
        push_u32(&mut out, self.align);
        push_zeros(&mut out, 4);
        push_u64(&mut out, self.flags);
        out
    }

    /// Reads a structure from the first 24 bytes of `s`; `None` when `s`
    /// is shorter than that.
    pub fn decode(s: &[u8]) -> (r: Option<Self>)
        ensures
            r == (if s@.len() >= 24 { Some(Self::parsed(s@)) } else { None::<Self> }),
    {
        if s.len() < 24 {
            return None;
        }
        Some(MdwMemInAlloc {
            type_: read_u32(s, 0),
            size: read_u32(s, 4),
            align: read_u32(s, 8),
            flags: read_u64(s, 16),
        })
    }
}

impl Default for MdwMemInAlloc {
    /// The all-zero structure.
    fn default() -> (r: Self)
        ensures
            r == (MdwMemInAlloc { type_: 0, size: 0, align: 0, flags: 0 }),
    {
        MdwMemInAlloc { type_: 0, size: 0, align: 0, flags: 0 }
    }
}

/// Input of the memory `Free` and `Unmap` ops.
#[derive(Copy, Clone, Debug)]
pub struct MdwMemInHandle {
    /// dma-buf-fd-shaped handle returned by `Alloc`.
    pub handle: u64,
}

impl MdwMemInHandle {
    /// The 8 bytes of this structure as the kernel lays them out: fields in
    /// declaration order, little-endian, with C alignment padding as zero bytes.
    pub open spec fn encoded(self) -> Seq<u8> {
        le64(self.handle)
    }

    /// The structure whose fields are read from the first 8 bytes of `s`.
    pub open spec fn parsed(s: Seq<u8>) -> Self {
        MdwMemInHandle {
            handle: u64_at(s, 0),
        }
    }

    /// Reading a structure back from its own bytes gives it back unchanged.
    pub proof fn lemma_parse_encoded(self)
        ensures
            self.encoded().len() == 8,
            Self::parsed(self.encoded()) == self,
    {
        lemma_join64_of_bytes(self.handle);
    }

    /// Where each field of a structure is read from: the little-endian field at
    /// its C offset.
    pub proof fn lemma_parsed_offsets(s: Seq<u8>)
        ensures
            Self::parsed(s).handle == u64_at(s, 0),
    {
    }

    /// Where each field of a structure is written: every field as little-endian
    /// bytes at its C offset, padding as zero bytes, 8 bytes in all.
    pub proof fn lemma_field_offsets(self)
        ensures
            self.encoded().len() == 8,
            u64_at(self.encoded(), 0) == self.handle,
    {
        self.lemma_parse_encoded();
        Self::lemma_parsed_offsets(self.encoded());
    }

    /// Every field of this structure is significant (no padding), so writing
    /// back what was read reproduces the bytes that were read.
    pub proof fn lemma_encode_parsed(s: Seq<u8>)
        requires
            s.len() >= 8,
        ensures
            Self::parsed(s).encoded() == s.subrange(0, 8),
    {
        lemma_bytes_of_join64(s[0], s[1], s[2], s[3], s[4], s[5], s[6], s[7]);
        assert(Self::parsed(s).encoded() =~= s.subrange(0, 8));
    }

    /// Writes the 8-byte layout of this structure.
    pub fn encode(&self) -> (out: Vec<u8>)
        ensures
            out@ == self.encoded(),
    {
        let mut out = Vec::new();
        push_u64(&mut out, self.handle);
        assert(out@ =~= le64(self.handle));
        out
    }

    /// Reads a structure from the first 8 bytes of `s`; `None` when `s`
    /// is shorter than that.
    pub fn decode(s: &[u8]) -> (r: Option<Self>)
        ensures
            r == (if s@.len() >= 8 { Some(Self::parsed(s@)) } else { None::<Self> }),
    {
        if s.len() < 8 {
            return None;
        }
        Some(MdwMemInHandle {
            handle: read_u64(s, 0),
        })
    }
}

impl Default for MdwMemInHandle {
    /// The all-zero structure.
    fn default() -> (r: Self)
        ensures
            r == (MdwMemInHandle { handle: 0 }),
    {
        MdwMemInHandle { handle: 0 }
    }
}

/// Input of the memory `Map` op.
#[derive(Copy, Clone, Debug)]
pub struct MdwMemInMap {
    pub handle: u64,
    pub size: u32,
}

impl MdwMemInMap {
    /// The 16 bytes of this structure as the kernel lays them out: fields in
    /// declaration order, little-endian, with C alignment padding as zero bytes.
    pub open spec fn encoded(self) -> Seq<u8> {
        le64(self.handle)
            + le32(self.size)
            + zeros(4)
    }

    /// The structure whose fields are read from the first 16 bytes of `s`.
    pub open spec fn parsed(s: Seq<u8>) -> Self {
        MdwMemInMap {
            handle: u64_at(s, 0),
            size: u32_at(s, 8),
        }
    }

    /// Reading a structure back from its own bytes gives it back unchanged.
    pub proof fn lemma_parse_encoded(self)
        ensures
            self.encoded().len() == 16,
            Self::parsed(self.encoded()) == self,
    {
        lemma_join64_of_bytes(self.handle);
        lemma_join32_of_bytes(self.size);
    }

    /// Where each field of a structure is read from: the little-endian field at
    /// its C offset.
    pub proof fn lemma_parsed_offsets(s: Seq<u8>)
        ensures
            Self::parsed(s).handle == u64_at(s, 0),
            Self::parsed(s).size == u32_at(s, 8),
    {
    }

    /// Where each field of a structure is written: every field as little-endian
    /// bytes at its C offset, padding as zero bytes, 16 bytes in all.
    pub proof fn lemma_field_offsets(self)
        ensures
            self.encoded().len() == 16,
            u64_at(self.encoded(), 0) == self.handle,
            u32_at(self.encoded(), 8) == self.size,
            self.encoded().subrange(12, 16) == zeros(4),
    {
        self.lemma_parse_encoded();
        Self::lemma_parsed_offsets(self.encoded());
        assert(self.encoded().subrange(12, 16) =~= zeros(4));
    }

    /// Writes the 16-byte layout of this structure.
    pub fn encode(&self) -> (out: Vec<u8>)
        ensures
            out@ == self.encoded(),
    {
        let mut out = Vec::new();
        push_u64(&mut out, self.handle);
        assert(out@ =~= le64(self.handle));
        push_u32(&mut out, self.size);
        push_zeros(&mut out, 4);
        out
    }

    /// Reads a structure from the first 16 bytes of `s`; `None` when `s`
    /// is shorter than that.
    pub fn decode(s: &[u8]) -> (r: Option<Self>)
        ensures
            r == (if s@.len() >= 16 { Some(Self::parsed(s@)) } else { None::<Self> }),
    {
        if s.len() < 16 {
            return None;
        }
        Some(MdwMemInMap {
            handle: read_u64(s, 0),
            size: read_u32(s, 8),
        })
    }
}

impl Default for MdwMemInMap {
    /// The all-zero structure.
    fn default() -> (r: Self)
        ensures
            r == (MdwMemInMap { handle: 0, size: 0 }),
    {
        MdwMemInMap { handle: 0, size: 0 }
    }
}

/// Input of the memory `Flush` and `Invalidate` ops.
#[derive(Copy, Clone, Debug)]
pub struct MdwMemInRange {
    pub handle: u64,
    pub offset: u32,
    pub size: u32,
}

impl MdwMemInRange {
    /// The 16 bytes of this structure as the kernel lays them out: fields in
    /// declaration order, little-endian, with C alignment padding as zero bytes.
    pub open spec fn encoded(self) -> Seq<u8> {
        le64(self.handle)
            + le32(self.offset)
            + le32(self.size)
    }

    /// The structure whose fields are read from the first 16 bytes of `s`.
    pub open spec fn parsed(s: Seq<u8>) -> Self {
        MdwMemInRange {
            handle: u64_at(s, 0),
            offset: u32_at(s, 8),
            size: u32_at(s, 12),
        }
    }

    /// Reading a structure back from its own bytes gives it back unchanged.
    pub proof fn lemma_parse_encoded(self)
        ensures
            self.encoded().len() == 16,
            Self::parsed(self.encoded()) == self,
    {
        lemma_join64_of_bytes(self.handle);
        lemma_join32_of_bytes(self.offset);
        lemma_join32_of_bytes(self.size);
    }

    /// Where each field of a structure is read from: the little-endian field at
    /// its C offset.
    pub proof fn lemma_parsed_offsets(s: Seq<u8>)
        ensures
            Self::parsed(s).handle == u64_at(s, 0),
            Self::parsed(s).offset == u32_at(s, 8),
            Self::parsed(s).size == u32_at(s, 12),
    {
    }

    /// Where each field of a structure is written: every field as little-endian
    /// bytes at its C offset, padding as zero bytes, 16 bytes in all.
    pub proof fn lemma_field_offsets(self)
        ensures
            self.encoded().len() == 16,
            u64_at(self.encoded(), 0) == self.handle,
            u32_at(self.encoded(), 8) == self.offset,
            u32_at(self.encoded(), 12) == self.size,
    {
        self.lemma_parse_encoded();
        Self::lemma_parsed_offsets(self.encoded());
    }

    /// Every field of this structure is significant (no padding), so writing
    /// back what was read reproduces the bytes that were read.
    pub proof fn lemma_encode_parsed(s: Seq<u8>)
        requires
            s.len() >= 16,
        ensures
            Self::parsed(s).encoded() == s.subrange(0, 16),
    {
        lemma_bytes_of_join64(s[0], s[1], s[2], s[3], s[4], s[5], s[6], s[7]);
        lemma_bytes_of_join32(s[8], s[9], s[10], s[11]);
        lemma_bytes_of_join32(s[12], s[13], s[14], s[15]);
        assert(Self::parsed(s).encoded() =~= s.subrange(0, 16));
    }

    /// Writes the 16-byte layout of this structure.
    pub fn encode(&self) -> (out: Vec<u8>)
        ensures
            out@ == self.encoded(),
    {
        let mut out = Vec::new();
        push_u64(&mut out, self.handle);
        assert(out@ =~= le64(self.handle));
        push_u32(&mut out, self.offset);
        push_u32(&mut out, self.size);
        out
    }

    /// Reads a structure from the first 16 bytes of `s`; `None` when `s`
    /// is shorter than that.
    pub fn decode(s: &[u8]) -> (r: Option<Self>)
        ensures
            r == (if s@.len() >= 16 { Some(Self::parsed(s@)) } else { None::<Self> }),
    {
        if s.len() < 16 {
            return None;
        }
        Some(MdwMemInRange {
            handle: read_u64(s, 0),
            offset: read_u32(s, 8),
            size: read_u32(s, 12),
        })
    }
}

impl Default for MdwMemInRange {
    /// The all-zero structure.
    fn default() -> (r: Self)
        ensures
            r == (MdwMemInRange { handle: 0, offset: 0, size: 0 }),
    {
        MdwMemInRange { handle: 0, offset: 0, size: 0 }
    }
}

/// Reply of the memory `Alloc` op.
#[derive(Copy, Clone, Debug)]
pub struct MdwMemOutAlloc {
    pub handle: u64,
}

impl MdwMemOutAlloc {
    /// The 8 bytes of this reply as the kernel lays them out: fields in
    /// declaration order, little-endian, with C alignment padding as zero bytes.
    pub open spec fn encoded(self) -> Seq<u8> {
        le64(self.handle)
    }

    /// The reply whose fields are read from the first 8 bytes of `s`.
    pub open spec fn parsed(s: Seq<u8>) -> Self {
        MdwMemOutAlloc {
            handle: u64_at(s, 0),
        }
    }

    /// Reading a reply back from its own bytes gives it back unchanged.
    pub proof fn lemma_parse_encoded(self)
        ensures
            self.encoded().len() == 8,
            Self::parsed(self.encoded()) == self,
    {
        lemma_join64_of_bytes(self.handle);
    }

    /// Where each field of a reply is read from: the little-endian field at
    /// its C offset.
    pub proof fn lemma_parsed_offsets(s: Seq<u8>)
        ensures
            Self::parsed(s).handle == u64_at(s, 0),
    {
    }

    /// Where each field of a reply is written: every field as little-endian
    /// bytes at its C offset, padding as zero bytes, 8 bytes in all.
    pub proof fn lemma_field_offsets(self)
        ensures
            self.encoded().len() == 8,
            u64_at(self.encoded(), 0) == self.handle,
    {
        self.lemma_parse_encoded();
        Self::lemma_parsed_offsets(self.encoded());
    }

    /// Every field of this reply is significant (no padding), so writing
    /// back what was read reproduces the bytes that were read.
    pub proof fn lemma_encode_parsed(s: Seq<u8>)
        requires
            s.len() >= 8,
        ensures
            Self::parsed(s).encoded() == s.subrange(0, 8),
    {
        lemma_bytes_of_join64(s[0], s[1], s[2], s[3], s[4], s[5], s[6], s[7]);
        assert(Self::parsed(s).encoded() =~= s.subrange(0, 8));
    }

    /// Writes the 8-byte layout of this reply.
    pub fn encode(&self) -> (out: Vec<u8>)
        ensures
            out@ == self.encoded(),
    {
        let mut out = Vec::new();
        push_u64(&mut out, self.handle);
        assert(out@ =~= le64(self.handle));
        out
    }

    /// Reads a reply from the first 8 bytes of `s`; `None` when `s`
    /// is shorter than that.
    pub fn decode(s: &[u8]) -> (r: Option<Self>)
        ensures
            r == (if s@.len() >= 8 { Some(Self::parsed(s@)) } else { None::<Self> }),
    {
        if s.len() < 8 {
            return None;
        }
        Some(MdwMemOutAlloc {
            handle: read_u64(s, 0),
        })
    }
}

impl Default for MdwMemOutAlloc {
    /// The all-zero reply.
    fn default() -> (r: Self)
        ensures
            r == (MdwMemOutAlloc { handle: 0 }),
    {
        MdwMemOutAlloc { handle: 0 }
    }
}

/// Reply of the memory `Map` op.
#[derive(Copy, Clone, Debug)]
pub struct MdwMemOutMap {
    pub type_: u32,
    pub device_va: u64,
}

impl MdwMemOutMap {
    /// The 16 bytes of this reply as the kernel lays them out: fields in
    /// declaration order, little-endian, with C alignment padding as zero bytes.
    pub open spec fn encoded(self) -> Seq<u8> {
        le32(self.type_)
            + zeros(4)
            + le64(self.device_va)
    }

    /// The reply whose fields are read from the first 16 bytes of `s`.
    pub open spec fn parsed(s: Seq<u8>) -> Self {
        MdwMemOutMap {
            type_: u32_at(s, 0),
            device_va: u64_at(s, 8),
        }
    }

    /// Reading a reply back from its own bytes gives it back unchanged.
    pub proof fn lemma_parse_encoded(self)
        ensures
            self.encoded().len() == 16,
            Self::parsed(self.encoded()) == self,
    {
        lemma_join32_of_bytes(self.type_);
        lemma_join64_of_bytes(self.device_va);
    }

    /// Where each field of a reply is read from: the little-endian field at
    /// its C offset.
    pub proof fn lemma_parsed_offsets(s: Seq<u8>)
        ensures
            Self::parsed(s).type_ == u32_at(s, 0),
            Self::parsed(s).device_va == u64_at(s, 8),
    {
    }

    /// Where each field of a reply is written: every field as little-endian
    /// bytes at its C offset, padding as zero bytes, 16 bytes in all.
    pub proof fn lemma_field_offsets(self)
        ensures
            self.encoded().len() == 16,
            u32_at(self.encoded(), 0) == self.type_,
            self.encoded().subrange(4, 8) == zeros(4),
            u64_at(self.encoded(), 8) == self.device_va,
    {
        self.lemma_parse_encoded();
        Self::lemma_parsed_offsets(self.encoded());
        assert(self.encoded().subrange(4, 8) =~= zeros(4));
    }

    /// Writes the 16-byte layout of this reply.
    pub fn encode(&self) -> (out: Vec<u8>)
        ensures
            out@ == self.encoded(),
    {
        let mut out = Vec::new();
        push_u32(&mut out, self.type_);
        assert(out@ =~= le32(self.type_));
        push_zeros(&mut out, 4);
        push_u64(&mut out, self.device_va);
        out
    }

    /// Reads a reply from the first 16 bytes of `s`; `None` when `s`
    /// is shorter than that.
    pub fn decode(s: &[u8]) -> (r: Option<Self>)
        ensures
            r == (if s@.len() >= 16 { Some(Self::parsed(s@)) } else { None::<Self> }),
    {
        if s.len() < 16 {
            return None;
        }
        Some(MdwMemOutMap {
            type_: read_u32(s, 0),
            device_va: read_u64(s, 8),
        })
    }
}

impl Default for MdwMemOutMap {
    /// The all-zero reply.
    fn default() -> (r: Self)
        ensures
            r == (MdwMemOutMap { type_: 0, device_va: 0 }),
    {
        MdwMemOutMap { type_: 0, device_va: 0 }
    }
}

/// Reply of an imported buffer.
#[derive(Copy, Clone, Debug)]
pub struct MdwMemOutImport {
    pub device_va: u64,
    pub size: u32,
}

impl MdwMemOutImport {
    /// The 16 bytes of this reply as the kernel lays them out: fields in
    /// declaration order, little-endian, with C alignment padding as zero bytes.
    pub open spec fn encoded(self) -> Seq<u8> {
        le64(self.device_va)
            + le32(self.size)
            + zeros(4)
    }

    /// The reply whose fields are read from the first 16 bytes of `s`.
    pub open spec fn parsed(s: Seq<u8>) -> Self {
        MdwMemOutImport {
            device_va: u64_at(s, 0),
            size: u32_at(s, 8),
        }
    }

    /// Reading a reply back from its own bytes gives it back unchanged.
    pub proof fn lemma_parse_encoded(self)
        ensures
            self.encoded().len() == 16,
            Self::parsed(self.encoded()) == self,
    {
        lemma_join64_of_bytes(self.device_va);
        lemma_join32_of_bytes(self.size);
    }

    /// Where each field of a reply is read from: the little-endian field at
    /// its C offset.
    pub proof fn lemma_parsed_offsets(s: Seq<u8>)
        ensures
            Self::parsed(s).device_va == u64_at(s, 0),
            Self::parsed(s).size == u32_at(s, 8),
    {
    }

    /// Where each field of a reply is written: every field as little-endian
    /// bytes at its C offset, padding as zero bytes, 16 bytes in all.
    pub proof fn lemma_field_offsets(self)
        ensures
            self.encoded().len() == 16,
            u64_at(self.encoded(), 0) == self.device_va,
            u32_at(self.encoded(), 8) == self.size,
            self.encoded().subrange(12, 16) == zeros(4),
    {
        self.lemma_parse_encoded();
        Self::lemma_parsed_offsets(self.encoded());
        assert(self.encoded().subrange(12, 16) =~= zeros(4));
    }

    /// Writes the 16-byte layout of this reply.
    pub fn encode(&self) -> (out: Vec<u8>)
        ensures
            out@ == self.encoded(),
    {
        let mut out = Vec::new();
        push_u64(&mut out, self.device_va);
        assert(out@ =~= le64(self.device_va));
        push_u32(&mut out, self.size);
        push_zeros(&mut out, 4);
        out
    }

    /// Reads a reply from the first 16 bytes of `s`; `None` when `s`
    /// is shorter than that.
    pub fn decode(s: &[u8]) -> (r: Option<Self>)
        ensures
            r == (if s@.len() >= 16 { Some(Self::parsed(s@)) } else { None::<Self> }),
    {
        if s.len() < 16 {
            return None;
        }
        Some(MdwMemOutImport {
            device_va: read_u64(s, 0),
            size: read_u32(s, 8),
        })
    }
}

impl Default for MdwMemOutImport {
    /// The all-zero reply.
    fn default() -> (r: Self)
        ensures
            r == (MdwMemOutImport { device_va: 0, size: 0 }),
    {
        MdwMemOutImport { device_va: 0, size: 0 }
    }
}

/// Per-subcommand timing and return code, written by the driver.
#[derive(Copy, Clone, Debug)]
pub struct MdwSubcmdExecInfo {
    pub driver_time: u32,
    pub ip_time: u32,
    pub ip_start_ts: u32,
    pub ip_end_ts: u32,
    pub bw: u32,
    pub boost: u32,
    pub tcm_usage: u32,
    pub ret: i32,
}

impl MdwSubcmdExecInfo {
    /// The 32 bytes of this record as the kernel lays them out: fields in
    /// declaration order, little-endian, with C alignment padding as zero bytes.
    pub open spec fn encoded(self) -> Seq<u8> {
        le32(self.driver_time)
            + le32(self.ip_time)
            + le32(self.ip_start_ts)
            + le32(self.ip_end_ts)
            + le32(self.bw)
            + le32(self.boost)
            + le32(self.tcm_usage)
            + le32(self.ret as u32)
    }

    /// The record whose fields are read from the first 32 bytes of `s`.
    pub open spec fn parsed(s: Seq<u8>) -> Self {
        MdwSubcmdExecInfo {
            driver_time: u32_at(s, 0),
            ip_time: u32_at(s, 4),
            ip_start_ts: u32_at(s, 8),
            ip_end_ts: u32_at(s, 12),
            bw: u32_at(s, 16),
            boost: u32_at(s, 20),
            tcm_usage: u32_at(s, 24),
            ret: u32_at(s, 28) as i32,
        }
    }

    /// Reading a record back from its own bytes gives it back unchanged.
    pub proof fn lemma_parse_encoded(self)
        ensures
            self.encoded().len() == 32,
            Self::parsed(self.encoded()) == self,
    {
        lemma_join32_of_bytes(self.driver_time);
        lemma_join32_of_bytes(self.ip_time);
        lemma_join32_of_bytes(self.ip_start_ts);
        lemma_join32_of_bytes(self.ip_end_ts);
        lemma_join32_of_bytes(self.bw);
        lemma_join32_of_bytes(self.boost);
        lemma_join32_of_bytes(self.tcm_usage);
        lemma_join32_of_bytes(self.ret as u32);
        lemma_i32_bits(self.ret);
    }

    /// Where each field of a record is read from: the little-endian field at
    /// its C offset.
    pub proof fn lemma_parsed_offsets(s: Seq<u8>)
        ensures
            Self::parsed(s).driver_time == u32_at(s, 0),
            Self::parsed(s).ip_time == u32_at(s, 4),
            Self::parsed(s).ip_start_ts == u32_at(s, 8),
            Self::parsed(s).ip_end_ts == u32_at(s, 12),
            Self::parsed(s).bw == u32_at(s, 16),
            Self::parsed(s).boost == u32_at(s, 20),
            Self::parsed(s).tcm_usage == u32_at(s, 24),
            Self::parsed(s).ret == u32_at(s, 28) as i32,
    {
    }

    /// Where each field of a record is written: every field as little-endian
    /// bytes at its C offset, padding as zero bytes, 32 bytes in all.
    pub proof fn lemma_field_offsets(self)
        ensures
            self.encoded().len() == 32,
            u32_at(self.encoded(), 0) == self.driver_time,
            u32_at(self.encoded(), 4) == self.ip_time,
            u32_at(self.encoded(), 8) == self.ip_start_ts,
            u32_at(self.encoded(), 12) == self.ip_end_ts,
            u32_at(self.encoded(), 16) == self.bw,
            u32_at(self.encoded(), 20) == self.boost,
            u32_at(self.encoded(), 24) == self.tcm_usage,
            u32_at(self.encoded(), 28) == self.ret as u32,
    {
        self.lemma_parse_encoded();
        Self::lemma_parsed_offsets(self.encoded());
        lemma_u32_bits(u32_at(self.encoded(), 28));
    }

    /// Every field of this record is significant (no padding), so writing
    /// back what was read reproduces the bytes that were read.
    pub proof fn lemma_encode_parsed(s: Seq<u8>)
        requires
            s.len() >= 32,
        ensures
            Self::parsed(s).encoded() == s.subrange(0, 32),
    {
        lemma_bytes_of_join32(s[0], s[1], s[2], s[3]);
        lemma_bytes_of_join32(s[4], s[5], s[6], s[7]);
        lemma_bytes_of_join32(s[8], s[9], s[10], s[11]);
        lemma_bytes_of_join32(s[12], s[13], s[14], s[15]);
        lemma_bytes_of_join32(s[16], s[17], s[18], s[19]);
        lemma_bytes_of_join32(s[20], s[21], s[22], s[23]);
        lemma_bytes_of_join32(s[24], s[25], s[26], s[27]);
        lemma_bytes_of_join32(s[28], s[29], s[30], s[31]);
        lemma_u32_bits(u32_at(s, 28));
        assert(Self::parsed(s).encoded() =~= s.subrange(0, 32));
    }

    /// Writes the 32-byte layout of this record.
    pub fn encode(&self) -> (out: Vec<u8>)
        ensures
            out@ == self.encoded(),
    {
        let mut out = Vec::new();
        push_u32(&mut out, self.driver_time);
        assert(out@ =~= le32(self.driver_time));
        push_u32(&mut out, self.ip_time);
        push_u32(&mut out, self.ip_start_ts);
        push_u32(&mut out, self.ip_end_ts);
        push_u32(&mut out, self.bw);
        push_u32(&mut out, self.boost);
        push_u32(&mut out, self.tcm_usage);
        push_u32(&mut out, self.ret as u32);
        out
    }

    /// Reads a record from the first 32 bytes of `s`; `None` when `s`
    /// is shorter than that.
    pub fn decode(s: &[u8]) -> (r: Option<Self>)
        ensures
            r == (if s@.len() >= 32 { Some(Self::parsed(s@)) } else { None::<Self> }),
    {
        if s.len() < 32 {
            return None;
        }
        Some(MdwSubcmdExecInfo {
            driver_time: read_u32(s, 0),
            ip_time: read_u32(s, 4),
            ip_start_ts: read_u32(s, 8),
            ip_end_ts: read_u32(s, 12),
            bw: read_u32(s, 16),
            boost: read_u32(s, 20),
            tcm_usage: read_u32(s, 24),
            ret: read_u32(s, 28) as i32,
        })
    }
}

impl Default for MdwSubcmdExecInfo {
    /// The all-zero record.
    fn default() -> (r: Self)
        ensures
            r == (MdwSubcmdExecInfo { driver_time: 0, ip_time: 0, ip_start_ts: 0, ip_end_ts: 0, bw: 0, boost: 0, tcm_usage: 0, ret: 0 }),
    {
        MdwSubcmdExecInfo { driver_time: 0, ip_time: 0, ip_start_ts: 0, ip_end_ts: 0, bw: 0, boost: 0, tcm_usage: 0, ret: 0 }
    }
}

/// Whole-command timing and return code, written by the driver.
#[derive(Copy, Clone, Debug)]
pub struct MdwCmdExecInfo {
    pub sc_rets: u64,
    pub ret: i64,
    pub total_us: u64,
    pub reserved: u64,
}

impl MdwCmdExecInfo {
    /// The 32 bytes of this record as the kernel lays them out: fields in
    /// declaration order, little-endian, with C alignment padding as zero bytes.
    pub open spec fn encoded(self) -> Seq<u8> {
        le64(self.sc_rets)
            + le64(self.ret as u64)
            + le64(self.total_us)
            + le64(self.reserved)
    }

    /// The record whose fields are read from the first 32 bytes of `s`.
    pub open spec fn parsed(s: Seq<u8>) -> Self {
        MdwCmdExecInfo {
            sc_rets: u64_at(s, 0),
            ret: u64_at(s, 8) as i64,
            total_us: u64_at(s, 16),
            reserved: u64_at(s, 24),
        }
    }

    /// Reading a record back from its own bytes gives it back unchanged.
    pub proof fn lemma_parse_encoded(self)
        ensures
            self.encoded().len() == 32,
            Self::parsed(self.encoded()) == self,
    {
        lemma_join64_of_bytes(self.sc_rets);
        lemma_join64_of_bytes(self.ret as u64);
        lemma_i64_bits(self.ret);
        lemma_join64_of_bytes(self.total_us);
        lemma_join64_of_bytes(self.reserved);
    }

    /// Where each field of a record is read from: the little-endian field at
    /// its C offset.
    pub proof fn lemma_parsed_offsets(s: Seq<u8>)
        ensures
            Self::parsed(s).sc_rets == u64_at(s, 0),
            Self::parsed(s).ret == u64_at(s, 8) as i64,
            Self::parsed(s).total_us == u64_at(s, 16),
            Self::parsed(s).reserved == u64_at(s, 24),
    {
    }

    /// Where each field of a record is written: every field as little-endian
    /// bytes at its C offset, padding as zero bytes, 32 bytes in all.
    pub proof fn lemma_field_offsets(self)
        ensures
            self.encoded().len() == 32,
            u64_at(self.encoded(), 0) == self.sc_rets,
            u64_at(self.encoded(), 8) == self.ret as u64,
            u64_at(self.encoded(), 16) == self.total_us,
            u64_at(self.encoded(), 24) == self.reserved,
    {
        self.lemma_parse_encoded();
        Self::lemma_parsed_offsets(self.encoded());
        lemma_u64_bits(u64_at(self.encoded(), 8));
    }

    /// Every field of this record is significant (no padding), so writing
    /// back what was read reproduces the bytes that were read.
    pub proof fn lemma_encode_parsed(s: Seq<u8>)
        requires
            s.len() >= 32,
        ensures
            Self::parsed(s).encoded() == s.subrange(0, 32),
    {
        lemma_bytes_of_join64(s[0], s[1], s[2], s[3], s[4], s[5], s[6], s[7]);
        lemma_bytes_of_join64(s[8], s[9], s[10], s[11], s[12], s[13], s[14], s[15]);
        lemma_u64_bits(u64_at(s, 8));
        lemma_bytes_of_join64(s[16], s[17], s[18], s[19], s[20], s[21], s[22], s[23]);
        lemma_bytes_of_join64(s[24], s[25], s[26], s[27], s[28], s[29], s[30], s[31]);
        assert(Self::parsed(s).encoded() =~= s.subrange(0, 32));
    }

    /// Writes the 32-byte layout of this record.
    pub fn encode(&self) -> (out: Vec<u8>)
        ensures
            out@ == self.encoded(),
    {
        let mut out = Vec::new();
        push_u64(&mut out, self.sc_rets);
        assert(out@ =~= le64(self.sc_rets));
        push_u64(&mut out, self.ret as u64);
        push_u64(&mut out, self.total_us);
        push_u64(&mut out, self.reserved);
        out
    }

    /// Reads a record from the first 32 bytes of `s`; `None` when `s`
    /// is shorter than that.
    pub fn decode(s: &[u8]) -> (r: Option<Self>)
        ensures
            r == (if s@.len() >= 32 { Some(Self::parsed(s@)) } else { None::<Self> }),
    {
        if s.len() < 32 {
            return None;
        }
        Some(MdwCmdExecInfo {
            sc_rets: read_u64(s, 0),
            ret: read_u64(s, 8) as i64,
            total_us: read_u64(s, 16),
            reserved: read_u64(s, 24),
        })
    }
}

impl Default for MdwCmdExecInfo {
    /// The all-zero record.
    fn default() -> (r: Self)
        ensures
            r == (MdwCmdExecInfo { sc_rets: 0, ret: 0, total_us: 0, reserved: 0 }),
    {
        MdwCmdExecInfo { sc_rets: 0, ret: 0, total_us: 0, reserved: 0 }
    }
}

/// One command buffer of a subcommand.
#[derive(Copy, Clone, Debug)]
pub struct MdwSubcmdCmdbuf {
    /// Handle returned by the memory `Alloc` op.
    pub handle: u64,
    pub size: u32,
    pub align: u32,
    /// `MDW_CB_BIDIRECTIONAL`, `MDW_CB_IN` or `MDW_CB_OUT`.
    pub direction: u32,
}

impl MdwSubcmdCmdbuf {
    /// The 24 bytes of this structure as the kernel lays them out: fields in
    /// declaration order, little-endian, with C alignment padding as zero bytes.
    pub open spec fn encoded(self) -> Seq<u8> {
        le64(self.handle)
            + le32(self.size)
            + le32(self.align)
            + le32(self.direction)
            + zeros(4)
    }

    /// The structure whose fields are read from the first 24 bytes of `s`.
    pub open spec fn parsed(s: Seq<u8>) -> Self {
        MdwSubcmdCmdbuf {
            handle: u64_at(s, 0),
            size: u32_at(s, 8),
            align: u32_at(s, 12),
            direction: u32_at(s, 16),
        }
    }

    /// Reading a structure back from its own bytes gives it back unchanged.
    pub proof fn lemma_parse_encoded(self)
        ensures
            self.encoded().len() == 24,
            Self::parsed(self.encoded()) == self,
    {
        lemma_join64_of_bytes(self.handle);
        lemma_join32_of_bytes(self.size);
        lemma_join32_of_bytes(self.align);
        lemma_join32_of_bytes(self.direction);
    }

    /// Where each field of a structure is read from: the little-endian field at
    /// its C offset.
    pub proof fn lemma_parsed_offsets(s: Seq<u8>)
        ensures
            Self::parsed(s).handle == u64_at(s, 0),
            Self::parsed(s).size == u32_at(s, 8),
            Self::parsed(s).align == u32_at(s, 12),
            Self::parsed(s).direction == u32_at(s, 16),
    {
    }

    /// Where each field of a structure is written: every field as little-endian
    /// bytes at its C offset, padding as zero bytes, 24 bytes in all.
    pub proof fn lemma_field_offsets(self)
        ensures
            self.encoded().len() == 24,
            u64_at(self.encoded(), 0) == self.handle,
            u32_at(self.encoded(), 8) == self.size,
            u32_at(self.encoded(), 12) == self.align,
            u32_at(self.encoded(), 16) == self.direction,
            self.encoded().subrange(20, 24) == zeros(4),
    {
        self.lemma_parse_encoded();
        Self::lemma_parsed_offsets(self.encoded());
        assert(self.encoded().subrange(20, 24) =~= zeros(4));
    }

    /// Writes the 24-byte layout of this structure.
    pub fn encode(&self) -> (out: Vec<u8>)
        ensures
            out@ == self.encoded(),
    {
        let mut out = Vec::new();
        push_u64(&mut out, self.handle);
        assert(out@ =~= le64(self.handle));
        push_u32(&mut out, self.size);
        push_u32(&mut out, self.align);
        push_u32(&mut out, self.direction);
        push_zeros(&mut out, 4);
        out
    }

    /// Reads a structure from the first 24 bytes of `s`; `None` when `s`
    /// is shorter than that.
    pub fn decode(s: &[u8]) -> (r: Option<Self>)
        ensures
            r == (if s@.len() >= 24 { Some(Self::parsed(s@)) } else { None::<Self> }),
    {
        if s.len() < 24 {
            return None;
        }
        Some(MdwSubcmdCmdbuf {
            handle: read_u64(s, 0),
            size: read_u32(s, 8),
            align: read_u32(s, 12),
            direction: read_u32(s, 16),
        })
    }
}

impl Default for MdwSubcmdCmdbuf {
    /// The all-zero structure.
    fn default() -> (r: Self)
        ensures
            r == (MdwSubcmdCmdbuf { handle: 0, size: 0, align: 0, direction: 0 }),
    {
        MdwSubcmdCmdbuf { handle: 0, size: 0, align: 0, direction: 0 }
    }
}

/// One subcommand of a command graph.
#[derive(Copy, Clone, Debug)]
pub struct MdwSubcmdInfo {
    /// Device class (`MDW_DEV_*`) this subcommand runs on.
    pub type_: u32,
    pub suggest_time: u32,
    pub vlm_usage: u32,
    pub vlm_ctx_id: u32,
    pub vlm_force: u32,
    pub boost: u32,
    pub turbo_boost: u32,
    pub min_boost: u32,
    pub max_boost: u32,
    pub hse_en: u32,
    pub pack_id: u32,
    pub driver_time: u32,
    pub ip_time: u32,
    pub bw: u32,
    pub affinity: u32,
    pub num_cmdbufs: u32,
    /// User address of the `MdwSubcmdCmdbuf` array (`num_cmdbufs` entries).
    pub cmdbufs: u64,
}

impl MdwSubcmdInfo {
    /// The 72 bytes of this structure as the kernel lays them out: fields in
    /// declaration order, little-endian, with C alignment padding as zero bytes.
    pub open spec fn encoded(self) -> Seq<u8> {
        (le32(self.type_) + le32(self.suggest_time) + le32(self.vlm_usage) + le32(self.vlm_ctx_id))
            + (le32(self.vlm_force) + le32(self.boost) + le32(self.turbo_boost) + le32(self.min_boost))
            + (le32(self.max_boost) + le32(self.hse_en) + le32(self.pack_id) + le32(self.driver_time))
            + (le32(self.ip_time) + le32(self.bw) + le32(self.affinity) + le32(self.num_cmdbufs))
            + (le64(self.cmdbufs))
    }

    /// The structure whose fields are read from the first 72 bytes of `s`.
    pub open spec fn parsed(s: Seq<u8>) -> Self {
        MdwSubcmdInfo {
            type_: u32_at(s, 0),
            suggest_time: u32_at(s, 4),
            vlm_usage: u32_at(s, 8),
            vlm_ctx_id: u32_at(s, 12),
            vlm_force: u32_at(s, 16),
            boost: u32_at(s, 20),
            turbo_boost: u32_at(s, 24),
            min_boost: u32_at(s, 28),
            max_boost: u32_at(s, 32),
            hse_en: u32_at(s, 36),
            pack_id: u32_at(s, 40),
            driver_time: u32_at(s, 44),
            ip_time: u32_at(s, 48),
            bw: u32_at(s, 52),
            affinity: u32_at(s, 56),
            num_cmdbufs: u32_at(s, 60),
            cmdbufs: u64_at(s, 64),
        }
    }

    /// Reading a structure back from its own bytes gives it back unchanged.
    #[verifier::spinoff_prover]
    #[verifier::rlimit(50)]
    pub proof fn lemma_parse_encoded(self)
        ensures
            self.encoded().len() == 72,
            Self::parsed(self.encoded()) == self,
    {
        lemma_join32_of_bytes(self.type_);
        lemma_join32_of_bytes(self.suggest_time);
        lemma_join32_of_bytes(self.vlm_usage);
        lemma_join32_of_bytes(self.vlm_ctx_id);
        lemma_join32_of_bytes(self.vlm_force);
        lemma_join32_of_bytes(self.boost);
        lemma_join32_of_bytes(self.turbo_boost);
        lemma_join32_of_bytes(self.min_boost);
        lemma_join32_of_bytes(self.max_boost);
        lemma_join32_of_bytes(self.hse_en);
        lemma_join32_of_bytes(self.pack_id);
        lemma_join32_of_bytes(self.driver_time);
        lemma_join32_of_bytes(self.ip_time);
        lemma_join32_of_bytes(self.bw);
        lemma_join32_of_bytes(self.affinity);
        lemma_join32_of_bytes(self.num_cmdbufs);
        lemma_join64_of_bytes(self.cmdbufs);
    }

    /// Where each field of a structure is read from: the little-endian field at
    /// its C offset.
    pub proof fn lemma_parsed_offsets(s: Seq<u8>)
        ensures
            Self::parsed(s).type_ == u32_at(s, 0),
            Self::parsed(s).suggest_time == u32_at(s, 4),
            Self::parsed(s).vlm_usage == u32_at(s, 8),
            Self::parsed(s).vlm_ctx_id == u32_at(s, 12),
            Self::parsed(s).vlm_force == u32_at(s, 16),
            Self::parsed(s).boost == u32_at(s, 20),
            Self::parsed(s).turbo_boost == u32_at(s, 24),
            Self::parsed(s).min_boost == u32_at(s, 28),
            Self::parsed(s).max_boost == u32_at(s, 32),
            Self::parsed(s).hse_en == u32_at(s, 36),
            Self::parsed(s).pack_id == u32_at(s, 40),
            Self::parsed(s).driver_time == u32_at(s, 44),
            Self::parsed(s).ip_time == u32_at(s, 48),
            Self::parsed(s).bw == u32_at(s, 52),
            Self::parsed(s).affinity == u32_at(s, 56),
            Self::parsed(s).num_cmdbufs == u32_at(s, 60),
            Self::parsed(s).cmdbufs == u64_at(s, 64),
    {
    }

    /// Where each field of a structure is written: every field as little-endian
    /// bytes at its C offset, padding as zero bytes, 72 bytes in all.
    pub proof fn lemma_field_offsets(self)
        ensures
            self.encoded().len() == 72,
            u32_at(self.encoded(), 0) == self.type_,
            u32_at(self.encoded(), 4) == self.suggest_time,
            u32_at(self.encoded(), 8) == self.vlm_usage,
            u32_at(self.encoded(), 12) == self.vlm_ctx_id,
            u32_at(self.encoded(), 16) == self.vlm_force,
            u32_at(self.encoded(), 20) == self.boost,
            u32_at(self.encoded(), 24) == self.turbo_boost,
            u32_at(self.encoded(), 28) == self.min_boost,
            u32_at(self.encoded(), 32) == self.max_boost,
            u32_at(self.encoded(), 36) == self.hse_en,
            u32_at(self.encoded(), 40) == self.pack_id,
            u32_at(self.encoded(), 44) == self.driver_time,
            u32_at(self.encoded(), 48) == self.ip_time,
            u32_at(self.encoded(), 52) == self.bw,
            u32_at(self.encoded(), 56) == self.affinity,
            u32_at(self.encoded(), 60) == self.num_cmdbufs,
            u64_at(self.encoded(), 64) == self.cmdbufs,
    {
        self.lemma_parse_encoded();
        Self::lemma_parsed_offsets(self.encoded());
    }

    /// Every field of this structure is significant (no padding), so writing
    /// back what was read reproduces the bytes that were read.
    pub proof fn lemma_encode_parsed(s: Seq<u8>)
        requires
            s.len() >= 72,
        ensures
            Self::parsed(s).encoded() == s.subrange(0, 72),
    {
        lemma_bytes_of_join32(s[0], s[1], s[2], s[3]);
        lemma_bytes_of_join32(s[4], s[5], s[6], s[7]);
        lemma_bytes_of_join32(s[8], s[9], s[10], s[11]);
        lemma_bytes_of_join32(s[12], s[13], s[14], s[15]);
        lemma_bytes_of_join32(s[16], s[17], s[18], s[19]);
        lemma_bytes_of_join32(s[20], s[21], s[22], s[23]);
        lemma_bytes_of_join32(s[24], s[25], s[26], s[27]);
        lemma_bytes_of_join32(s[28], s[29], s[30], s[31]);
        lemma_bytes_of_join32(s[32], s[33], s[34], s[35]);
        lemma_bytes_of_join32(s[36], s[37], s[38], s[39]);
        lemma_bytes_of_join32(s[40], s[41], s[42], s[43]);
        lemma_bytes_of_join32(s[44], s[45], s[46], s[47]);
        lemma_bytes_of_join32(s[48], s[49], s[50], s[51]);
        lemma_bytes_of_join32(s[52], s[53], s[54], s[55]);
        lemma_bytes_of_join32(s[56], s[57], s[58], s[59]);
        lemma_bytes_of_join32(s[60], s[61], s[62], s[63]);
        lemma_bytes_of_join64(s[64], s[65], s[66], s[67], s[68], s[69], s[70], s[71]);
        assert(Self::parsed(s).encoded() =~= s.subrange(0, 72));
    }

    /// Writes the 72-byte layout of this structure.
    pub fn encode(&self) -> (out: Vec<u8>)
        ensures
            out@ == self.encoded(),
    {
        let mut out = Vec::new();
        push_u32(&mut out, self.type_);
        assert(out@ =~= le32(self.type_));
        push_u32(&mut out, self.suggest_time);
        push_u32(&mut out, self.vlm_usage);
        push_u32(&mut out, self.vlm_ctx_id);
        {
            let mut part = Vec::new();
            push_u32(&mut part, self.vlm_force);
            assert(part@ =~= le32(self.vlm_force));
            push_u32(&mut part, self.boost);
            push_u32(&mut part, self.turbo_boost);
            push_u32(&mut part, self.min_boost);
            out.append(&mut part);
        }
        {
            let mut part = Vec::new();
            push_u32(&mut part, self.max_boost);
            assert(part@ =~= le32(self.max_boost));
            push_u32(&mut part, self.hse_en);
            push_u32(&mut part, self.pack_id);
            push_u32(&mut part, self.driver_time);
            out.append(&mut part);
        }
        {
            let mut part = Vec::new();
            push_u32(&mut part, self.ip_time);
            assert(part@ =~= le32(self.ip_time));
            push_u32(&mut part, self.bw);
            push_u32(&mut part, self.affinity);
            push_u32(&mut part, self.num_cmdbufs);
            out.append(&mut part);
        }
        {
            let mut part = Vec::new();
            push_u64(&mut part, self.cmdbufs);
            assert(part@ =~= le64(self.cmdbufs));
            out.append(&mut part);
        }
        out
    }

    /// Reads a structure from the first 72 bytes of `s`; `None` when `s`
    /// is shorter than that.
    pub fn decode(s: &[u8]) -> (r: Option<Self>)
        ensures
            r == (if s@.len() >= 72 { Some(Self::parsed(s@)) } else { None::<Self> }),
    {
        if s.len() < 72 {
            return None;
        }
        Some(MdwSubcmdInfo {
            type_: read_u32(s, 0),
            suggest_time: read_u32(s, 4),
            vlm_usage: read_u32(s, 8),
            vlm_ctx_id: read_u32(s, 12),
            vlm_force: read_u32(s, 16),
            boost: read_u32(s, 20),
            turbo_boost: read_u32(s, 24),
            min_boost: read_u32(s, 28),
            max_boost: read_u32(s, 32),
            hse_en: read_u32(s, 36),
            pack_id: read_u32(s, 40),
            driver_time: read_u32(s, 44),
            ip_time: read_u32(s, 48),
            bw: read_u32(s, 52),
            affinity: read_u32(s, 56),
            num_cmdbufs: read_u32(s, 60),
            cmdbufs: read_u64(s, 64),
        })
    }
}

impl Default for MdwSubcmdInfo {
    /// The all-zero structure.
    fn default() -> (r: Self)
        ensures
            r == (MdwSubcmdInfo { type_: 0, suggest_time: 0, vlm_usage: 0, vlm_ctx_id: 0, vlm_force: 0, boost: 0, turbo_boost: 0, min_boost: 0, max_boost: 0, hse_en: 0, pack_id: 0, driver_time: 0, ip_time: 0, bw: 0, affinity: 0, num_cmdbufs: 0, cmdbufs: 0 }),
    {
        MdwSubcmdInfo { type_: 0, suggest_time: 0, vlm_usage: 0, vlm_ctx_id: 0, vlm_force: 0, boost: 0, turbo_boost: 0, min_boost: 0, max_boost: 0, hse_en: 0, pack_id: 0, driver_time: 0, ip_time: 0, bw: 0, affinity: 0, num_cmdbufs: 0, cmdbufs: 0 }
    }
}

/// A producer/consumer link between two subcommands.
#[derive(Copy, Clone, Debug)]
pub struct MdwSubcmdLinkV1 {
    pub producer_idx: u32,
    pub consumer_idx: u32,
    pub vid: u32,
    pub va: u64,
    pub x: u64,
    pub y: u64,
}

impl MdwSubcmdLinkV1 {
    /// The 40 bytes of this structure as the kernel lays them out: fields in
    /// declaration order, little-endian, with C alignment padding as zero bytes.
    pub open spec fn encoded(self) -> Seq<u8> {
        le32(self.producer_idx)
            + le32(self.consumer_idx)
            + le32(self.vid)
            + zeros(4)
            + le64(self.va)
            + le64(self.x)
            + le64(self.y)
    }

    /// The structure whose fields are read from the first 40 bytes of `s`.
    pub open spec fn parsed(s: Seq<u8>) -> Self {
        MdwSubcmdLinkV1 {
            producer_idx: u32_at(s, 0),
            consumer_idx: u32_at(s, 4),
            vid: u32_at(s, 8),
            va: u64_at(s, 16),
            x: u64_at(s, 24),
            y: u64_at(s, 32),
        }
    }

    /// Reading a structure back from its own bytes gives it back unchanged.
    pub proof fn lemma_parse_encoded(self)
        ensures
            self.encoded().len() == 40,
            Self::parsed(self.encoded()) == self,
    {
        lemma_join32_of_bytes(self.producer_idx);
        lemma_join32_of_bytes(self.consumer_idx);
        lemma_join32_of_bytes(self.vid);
        lemma_join64_of_bytes(self.va);
        lemma_join64_of_bytes(self.x);
        lemma_join64_of_bytes(self.y);
    }

    /// Where each field of a structure is read from: the little-endian field at
    /// its C offset.
    pub proof fn lemma_parsed_offsets(s: Seq<u8>)
        ensures
            Self::parsed(s).producer_idx == u32_at(s, 0),
            Self::parsed(s).consumer_idx == u32_at(s, 4),
            Self::parsed(s).vid == u32_at(s, 8),
            Self::parsed(s).va == u64_at(s, 16),
            Self::parsed(s).x == u64_at(s, 24),
            Self::parsed(s).y == u64_at(s, 32),
    {
    }

    /// Where each field of a structure is written: every field as little-endian
    /// bytes at its C offset, padding as zero bytes, 40 bytes in all.
    pub proof fn lemma_field_offsets(self)
        ensures
            self.encoded().len() == 40,
            u32_at(self.encoded(), 0) == self.producer_idx,
            u32_at(self.encoded(), 4) == self.consumer_idx,
            u32_at(self.encoded(), 8) == self.vid,
            self.encoded().subrange(12, 16) == zeros(4),
            u64_at(self.encoded(), 16) == self.va,
            u64_at(self.encoded(), 24) == self.x,
            u64_at(self.encoded(), 32) == self.y,
    {
        self.lemma_parse_encoded();
        Self::lemma_parsed_offsets(self.encoded());
        assert(self.encoded().subrange(12, 16) =~= zeros(4));
    }

    /// Writes the 40-byte layout of this structure.
    pub fn encode(&self) -> (out: Vec<u8>)
        ensures
            out@ == self.encoded(),
    {
        let mut out = Vec::new();
        push_u32(&mut out, self.producer_idx);
        assert(out@ =~= le32(self.producer_idx));
        push_u32(&mut out, self.consumer_idx);
        push_u32(&mut out, self.vid);
        push_zeros(&mut out, 4);
        push_u64(&mut out, self.va);
        push_u64(&mut out, self.x);
        push_u64(&mut out, self.y);
        out
    }

    /// Reads a structure from the first 40 bytes of `s`; `None` when `s`
    /// is shorter than that.
    pub fn decode(s: &[u8]) -> (r: Option<Self>)
        ensures
            r == (if s@.len() >= 40 { Some(Self::parsed(s@)) } else { None::<Self> }),
    {
        if s.len() < 40 {
            return None;
        }
        Some(MdwSubcmdLinkV1 {
            producer_idx: read_u32(s, 0),
            consumer_idx: read_u32(s, 4),
            vid: read_u32(s, 8),
            va: read_u64(s, 16),
            x: read_u64(s, 24),
            y: read_u64(s, 32),
        })
    }
}

impl Default for MdwSubcmdLinkV1 {
    /// The all-zero structure.
    fn default() -> (r: Self)
        ensures
            r == (MdwSubcmdLinkV1 { producer_idx: 0, consumer_idx: 0, vid: 0, va: 0, x: 0, y: 0 }),
    {
        MdwSubcmdLinkV1 { producer_idx: 0, consumer_idx: 0, vid: 0, va: 0, x: 0, y: 0 }
    }
}

/// The command graph submitted by the command `Run` op.
#[derive(Copy, Clone, Debug)]
pub struct MdwCmdInExec {
    pub uid: u64,
    pub priority: u32,
    pub hardlimit: u32,
    pub softlimit: u32,
    pub fastmem_ms: u32,
    pub power_save: u32,
    pub power_plcy: u32,
    pub power_dtime: u32,
    pub app_type: u32,
    pub flags: u32,
    pub num_subcmds: u32,
    /// User address of the `MdwSubcmdInfo` array (`num_subcmds` entries).
    pub subcmd_infos: u64,
    /// User address of the adjacency-matrix bytes.
    pub adj_matrix: u64,
    /// Inbound dma-fence fd to wait on.
    pub fence: u64,
    /// User address of the execution-record array.
    pub exec_infos: u64,
    pub num_links: u32,
    /// User address of the `MdwSubcmdLinkV1` array (`num_links` entries).
    pub links: u64,
}

impl MdwCmdInExec {
    /// The 96 bytes of this structure as the kernel lays them out: fields in
    /// declaration order, little-endian, with C alignment padding as zero bytes.
    pub open spec fn encoded(self) -> Seq<u8> {
        (le64(self.uid) + le32(self.priority) + le32(self.hardlimit) + le32(self.softlimit))
            + (le32(self.fastmem_ms) + le32(self.power_save) + le32(self.power_plcy) + le32(self.power_dtime))
            + (le32(self.app_type) + le32(self.flags) + le32(self.num_subcmds) + le64(self.subcmd_infos))
            + (le64(self.adj_matrix) + le64(self.fence) + le64(self.exec_infos) + le32(self.num_links))
            + (zeros(4) + le64(self.links))
    }

    /// The structure whose fields are read from the first 96 bytes of `s`.
    pub open spec fn parsed(s: Seq<u8>) -> Self {
        MdwCmdInExec {
            uid: u64_at(s, 0),
            priority: u32_at(s, 8),
            hardlimit: u32_at(s, 12),
            softlimit: u32_at(s, 16),
            fastmem_ms: u32_at(s, 20),
            power_save: u32_at(s, 24),
            power_plcy: u32_at(s, 28),
            power_dtime: u32_at(s, 32),
            app_type: u32_at(s, 36),
            flags: u32_at(s, 40),
            num_subcmds: u32_at(s, 44),
            subcmd_infos: u64_at(s, 48),
            adj_matrix: u64_at(s, 56),
            fence: u64_at(s, 64),
            exec_infos: u64_at(s, 72),
            num_links: u32_at(s, 80),
            links: u64_at(s, 88),
        }
    }

    /// Reading a structure back from its own bytes gives it back unchanged.
    #[verifier::spinoff_prover]
    #[verifier::rlimit(100)]
    pub proof fn lemma_parse_encoded(self)
        ensures
            self.encoded().len() == 96,
            Self::parsed(self.encoded()) == self,
    {
        lemma_join64_of_bytes(self.uid);
        lemma_join32_of_bytes(self.priority);
        lemma_join32_of_bytes(self.hardlimit);
        lemma_join32_of_bytes(self.softlimit);
        lemma_join32_of_bytes(self.fastmem_ms);
        lemma_join32_of_bytes(self.power_save);
        lemma_join32_of_bytes(self.power_plcy);
        lemma_join32_of_bytes(self.power_dtime);
        lemma_join32_of_bytes(self.app_type);
        lemma_join32_of_bytes(self.flags);
        lemma_join32_of_bytes(self.num_subcmds);
        lemma_join64_of_bytes(self.subcmd_infos);
        lemma_join64_of_bytes(self.adj_matrix);
        lemma_join64_of_bytes(self.fence);
        lemma_join64_of_bytes(self.exec_infos);
        lemma_join32_of_bytes(self.num_links);
        lemma_join64_of_bytes(self.links);
    }

    /// Where each field of a structure is read from: the little-endian field at
    /// its C offset.
    pub proof fn lemma_parsed_offsets(s: Seq<u8>)
        ensures
            Self::parsed(s).uid == u64_at(s, 0),
            Self::parsed(s).priority == u32_at(s, 8),
            Self::parsed(s).hardlimit == u32_at(s, 12),
            Self::parsed(s).softlimit == u32_at(s, 16),
            Self::parsed(s).fastmem_ms == u32_at(s, 20),
            Self::parsed(s).power_save == u32_at(s, 24),
            Self::parsed(s).power_plcy == u32_at(s, 28),
            Self::parsed(s).power_dtime == u32_at(s, 32),
            Self::parsed(s).app_type == u32_at(s, 36),
            Self::parsed(s).flags == u32_at(s, 40),
            Self::parsed(s).num_subcmds == u32_at(s, 44),
            Self::parsed(s).subcmd_infos == u64_at(s, 48),
            Self::parsed(s).adj_matrix == u64_at(s, 56),
            Self::parsed(s).fence == u64_at(s, 64),
            Self::parsed(s).exec_infos == u64_at(s, 72),
            Self::parsed(s).num_links == u32_at(s, 80),
            Self::parsed(s).links == u64_at(s, 88),
    {
    }

    /// Where each field of a structure is written: every field as little-endian
    /// bytes at its C offset, padding as zero bytes, 96 bytes in all.
    pub proof fn lemma_field_offsets(self)
        ensures
            self.encoded().len() == 96,
            u64_at(self.encoded(), 0) == self.uid,
            u32_at(self.encoded(), 8) == self.priority,
            u32_at(self.encoded(), 12) == self.hardlimit,
            u32_at(self.encoded(), 16) == self.softlimit,
            u32_at(self.encoded(), 20) == self.fastmem_ms,
            u32_at(self.encoded(), 24) == self.power_save,
            u32_at(self.encoded(), 28) == self.power_plcy,
            u32_at(self.encoded(), 32) == self.power_dtime,
            u32_at(self.encoded(), 36) == self.app_type,
            u32_at(self.encoded(), 40) == self.flags,
            u32_at(self.encoded(), 44) == self.num_subcmds,
            u64_at(self.encoded(), 48) == self.subcmd_infos,
            u64_at(self.encoded(), 56) == self.adj_matrix,
            u64_at(self.encoded(), 64) == self.fence,
            u64_at(self.encoded(), 72) == self.exec_infos,
            u32_at(self.encoded(), 80) == self.num_links,
            self.encoded().subrange(84, 88) == zeros(4),
            u64_at(self.encoded(), 88) == self.links,
    {
        self.lemma_parse_encoded();
        Self::lemma_parsed_offsets(self.encoded());
        assert(self.encoded().subrange(84, 88) =~= zeros(4));
    }

    /// Writes the 96-byte layout of this structure.
    pub fn encode(&self) -> (out: Vec<u8>)
        ensures
            out@ == self.encoded(),
    {
        let mut out = Vec::new();
        push_u64(&mut out, self.uid);
        assert(out@ =~= le64(self.uid));
        push_u32(&mut out, self.priority);
        push_u32(&mut out, self.hardlimit);
        push_u32(&mut out, self.softlimit);
        {
            let mut part = Vec::new();
            push_u32(&mut part, self.fastmem_ms);
            assert(part@ =~= le32(self.fastmem_ms));
            push_u32(&mut part, self.power_save);
            push_u32(&mut part, self.power_plcy);
            push_u32(&mut part, self.power_dtime);
            out.append(&mut part);
        }
        {
            let mut part = Vec::new();
            push_u32(&mut part, self.app_type);
            assert(part@ =~= le32(self.app_type));
            push_u32(&mut part, self.flags);
            push_u32(&mut part, self.num_subcmds);
            push_u64(&mut part, self.subcmd_infos);
            out.append(&mut part);
        }
        {
            let mut part = Vec::new();
            push_u64(&mut part, self.adj_matrix);
            assert(part@ =~= le64(self.adj_matrix));
            push_u64(&mut part, self.fence);
            push_u64(&mut part, self.exec_infos);
            push_u32(&mut part, self.num_links);
            out.append(&mut part);
        }
        {
            let mut part = Vec::new();
            push_zeros(&mut part, 4);
            assert(part@ =~= zeros(4));
            push_u64(&mut part, self.links);
            out.append(&mut part);
        }
        out
    }

    /// Reads a structure from the first 96 bytes of `s`; `None` when `s`
    /// is shorter than that.
    pub fn decode(s: &[u8]) -> (r: Option<Self>)
        ensures
            r == (if s@.len() >= 96 { Some(Self::parsed(s@)) } else { None::<Self> }),
    {
        if s.len() < 96 {
            return None;
        }
        Some(MdwCmdInExec {
            uid: read_u64(s, 0),
            priority: read_u32(s, 8),
            hardlimit: read_u32(s, 12),
            softlimit: read_u32(s, 16),
            fastmem_ms: read_u32(s, 20),
            power_save: read_u32(s, 24),
            power_plcy: read_u32(s, 28),
            power_dtime: read_u32(s, 32),
            app_type: read_u32(s, 36),
            flags: read_u32(s, 40),
            num_subcmds: read_u32(s, 44),
            subcmd_infos: read_u64(s, 48),
            adj_matrix: read_u64(s, 56),
            fence: read_u64(s, 64),
            exec_infos: read_u64(s, 72),
            num_links: read_u32(s, 80),
            links: read_u64(s, 88),
        })
    }
}

impl Default for MdwCmdInExec {
    /// The all-zero structure.
    fn default() -> (r: Self)
        ensures
            r == (MdwCmdInExec { uid: 0, priority: 0, hardlimit: 0, softlimit: 0, fastmem_ms: 0, power_save: 0, power_plcy: 0, power_dtime: 0, app_type: 0, flags: 0, num_subcmds: 0, subcmd_infos: 0, adj_matrix: 0, fence: 0, exec_infos: 0, num_links: 0, links: 0 }),
    {
        MdwCmdInExec { uid: 0, priority: 0, hardlimit: 0, softlimit: 0, fastmem_ms: 0, power_save: 0, power_plcy: 0, power_dtime: 0, app_type: 0, flags: 0, num_subcmds: 0, subcmd_infos: 0, adj_matrix: 0, fence: 0, exec_infos: 0, num_links: 0, links: 0 }
    }
}

/// Reply of the command `Run` op.
#[derive(Copy, Clone, Debug)]
pub struct MdwCmdOutExec {
    pub id: u64,
    /// dma-fence fd that user space can poll or wait on.
    pub fence: u64,
}

impl MdwCmdOutExec {
    /// The 16 bytes of this reply as the kernel lays them out: fields in
    /// declaration order, little-endian, with C alignment padding as zero bytes.
    pub open spec fn encoded(self) -> Seq<u8> {
        le64(self.id)
            + le64(self.fence)
    }

    /// The reply whose fields are read from the first 16 bytes of `s`.
    pub open spec fn parsed(s: Seq<u8>) -> Self {
        MdwCmdOutExec {
            id: u64_at(s, 0),
            fence: u64_at(s, 8),
        }
    }

    /// Reading a reply back from its own bytes gives it back unchanged.
    pub proof fn lemma_parse_encoded(self)
        ensures
            self.encoded().len() == 16,
            Self::parsed(self.encoded()) == self,
    {
        lemma_join64_of_bytes(self.id);
        lemma_join64_of_bytes(self.fence);
    }

    /// Where each field of a reply is read from: the little-endian field at
    /// its C offset.
    pub proof fn lemma_parsed_offsets(s: Seq<u8>)
        ensures
            Self::parsed(s).id == u64_at(s, 0),
            Self::parsed(s).fence == u64_at(s, 8),
    {
    }

    /// Where each field of a reply is written: every field as little-endian
    /// bytes at its C offset, padding as zero bytes, 16 bytes in all.
    pub proof fn lemma_field_offsets(self)
        ensures
            self.encoded().len() == 16,
            u64_at(self.encoded(), 0) == self.id,
            u64_at(self.encoded(), 8) == self.fence,
    {
        self.lemma_parse_encoded();
        Self::lemma_parsed_offsets(self.encoded());
    }

    /// Every field of this reply is significant (no padding), so writing
    /// back what was read reproduces the bytes that were read.
    pub proof fn lemma_encode_parsed(s: Seq<u8>)
        requires
            s.len() >= 16,
        ensures
            Self::parsed(s).encoded() == s.subrange(0, 16),
    {
        lemma_bytes_of_join64(s[0], s[1], s[2], s[3], s[4], s[5], s[6], s[7]);
        lemma_bytes_of_join64(s[8], s[9], s[10], s[11], s[12], s[13], s[14], s[15]);
        assert(Self::parsed(s).encoded() =~= s.subrange(0, 16));
    }

    /// Writes the 16-byte layout of this reply.
    pub fn encode(&self) -> (out: Vec<u8>)
        ensures
            out@ == self.encoded(),
    {
        let mut out = Vec::new();
        push_u64(&mut out, self.id);
        assert(out@ =~= le64(self.id));
        push_u64(&mut out, self.fence);
        out
    }

    /// Reads a reply from the first 16 bytes of `s`; `None` when `s`
    /// is shorter than that.
    pub fn decode(s: &[u8]) -> (r: Option<Self>)
        ensures
            r == (if s@.len() >= 16 { Some(Self::parsed(s@)) } else { None::<Self> }),
    {
        if s.len() < 16 {
            return None;
        }
        Some(MdwCmdOutExec {
            id: read_u64(s, 0),
            fence: read_u64(s, 8),
        })
    }
}

impl Default for MdwCmdOutExec {
    /// The all-zero reply.
    fn default() -> (r: Self)
        ensures
            r == (MdwCmdOutExec { id: 0, fence: 0 }),
    {
        MdwCmdOutExec { id: 0, fence: 0 }
    }
}

/// Input of the util `SetPower` op.
#[derive(Copy, Clone, Debug)]
pub struct MdwUtilInPower {
    pub dev_type: u32,
    pub core_idx: u32,
    /// 0..=`MDW_BOOST_MAX` (100); the driver clamps.
    pub boost: u32,
    pub reserve: u64,
}

impl MdwUtilInPower {
    /// The 24 bytes of this structure as the kernel lays them out: fields in
    /// declaration order, little-endian, with C alignment padding as zero bytes.
    pub open spec fn encoded(self) -> Seq<u8> {
        le32(self.dev_type)
            + le32(self.core_idx)
            + le32(self.boost)
            + zeros(4)
            + le64(self.reserve)
    }

    /// The structure whose fields are read from the first 24 bytes of `s`.
    pub open spec fn parsed(s: Seq<u8>) -> Self {
        MdwUtilInPower {
            dev_type: u32_at(s, 0),
            core_idx: u32_at(s, 4),
            boost: u32_at(s, 8),
            reserve: u64_at(s, 16),
        }
    }

    /// Reading a structure back from its own bytes gives it back unchanged.
    pub proof fn lemma_parse_encoded(self)
        ensures
            self.encoded().len() == 24,
            Self::parsed(self.encoded()) == self,
    {
        lemma_join32_of_bytes(self.dev_type);
        lemma_join32_of_bytes(self.core_idx);
        lemma_join32_of_bytes(self.boost);
        lemma_join64_of_bytes(self.reserve);
    }

    /// Where each field of a structure is read from: the little-endian field at
    /// its C offset.
    pub proof fn lemma_parsed_offsets(s: Seq<u8>)
        ensures
            Self::parsed(s).dev_type == u32_at(s, 0),
            Self::parsed(s).core_idx == u32_at(s, 4),
            Self::parsed(s).boost == u32_at(s, 8),
            Self::parsed(s).reserve == u64_at(s, 16),
    {
    }

    /// Where each field of a structure is written: every field as little-endian
    /// bytes at its C offset, padding as zero bytes, 24 bytes in all.
    pub proof fn lemma_field_offsets(self)
        ensures
            self.encoded().len() == 24,
            u32_at(self.encoded(), 0) == self.dev_type,
            u32_at(self.encoded(), 4) == self.core_idx,
            u32_at(self.encoded(), 8) == self.boost,
            self.encoded().subrange(12, 16) == zeros(4),
            u64_at(self.encoded(), 16) == self.reserve,
    {
        self.lemma_parse_encoded();
        Self::lemma_parsed_offsets(self.encoded());
        assert(self.encoded().subrange(12, 16) =~= zeros(4));
    }

    /// Writes the 24-byte layout of this structure.
    pub fn encode(&self) -> (out: Vec<u8>)
        ensures
            out@ == self.encoded(),
    {
        let mut out = Vec::new();
        push_u32(&mut out, self.dev_type);
        assert(out@ =~= le32(self.dev_type));
        push_u32(&mut out, self.core_idx);
        push_u32(&mut out, self.boost);
        push_zeros(&mut out, 4);
        push_u64(&mut out, self.reserve);
        out
    }

    /// Reads a structure from the first 24 bytes of `s`; `None` when `s`
    /// is shorter than that.
    pub fn decode(s: &[u8]) -> (r: Option<Self>)
        ensures
            r == (if s@.len() >= 24 { Some(Self::parsed(s@)) } else { None::<Self> }),
    {
        if s.len() < 24 {
            return None;
        }
        Some(MdwUtilInPower {
            dev_type: read_u32(s, 0),
            core_idx: read_u32(s, 4),
            boost: read_u32(s, 8),
            reserve: read_u64(s, 16),
        })
    }
}

impl Default for MdwUtilInPower {
    /// The all-zero structure.
    fn default() -> (r: Self)
        ensures
            r == (MdwUtilInPower { dev_type: 0, core_idx: 0, boost: 0, reserve: 0 }),
    {
        MdwUtilInPower { dev_type: 0, core_idx: 0, boost: 0, reserve: 0 }
    }
}

/// Input of the util `Ucmd` op.
#[derive(Copy, Clone, Debug)]
pub struct MdwUtilInUcmd {
    pub dev_type: u32,
    pub size: u32,
    /// Handle of an allocated buffer carrying the opaque user-command payload.
    pub handle: u64,
}

impl MdwUtilInUcmd {
    /// The 16 bytes of this structure as the kernel lays them out: fields in
    /// declaration order, little-endian, with C alignment padding as zero bytes.
    pub open spec fn encoded(self) -> Seq<u8> {
        le32(self.dev_type)
            + le32(self.size)
            + le64(self.handle)
    }

    /// The structure whose fields are read from the first 16 bytes of `s`.
    pub open spec fn parsed(s: Seq<u8>) -> Self {
        MdwUtilInUcmd {
            dev_type: u32_at(s, 0),
            size: u32_at(s, 4),
            handle: u64_at(s, 8),
        }
    }

    /// Reading a structure back from its own bytes gives it back unchanged.
    pub proof fn lemma_parse_encoded(self)
        ensures
            self.encoded().len() == 16,
            Self::parsed(self.encoded()) == self,
    {
        lemma_join32_of_bytes(self.dev_type);
        lemma_join32_of_bytes(self.size);
        lemma_join64_of_bytes(self.handle);
    }

    /// Where each field of a structure is read from: the little-endian field at
    /// its C offset.
    pub proof fn lemma_parsed_offsets(s: Seq<u8>)
        ensures
            Self::parsed(s).dev_type == u32_at(s, 0),
            Self::parsed(s).size == u32_at(s, 4),
            Self::parsed(s).handle == u64_at(s, 8),
    {
    }

    /// Where each field of a structure is written: every field as little-endian
    /// bytes at its C offset, padding as zero bytes, 16 bytes in all.
    pub proof fn lemma_field_offsets(self)
        ensures
            self.encoded().len() == 16,
            u32_at(self.encoded(), 0) == self.dev_type,
            u32_at(self.encoded(), 4) == self.size,
            u64_at(self.encoded(), 8) == self.handle,
    {
        self.lemma_parse_encoded();
        Self::lemma_parsed_offsets(self.encoded());
    }

    /// Every field of this structure is significant (no padding), so writing
    /// back what was read reproduces the bytes that were read.
    pub proof fn lemma_encode_parsed(s: Seq<u8>)
        requires
            s.len() >= 16,
        ensures
            Self::parsed(s).encoded() == s.subrange(0, 16),
    {
        lemma_bytes_of_join32(s[0], s[1], s[2], s[3]);
        lemma_bytes_of_join32(s[4], s[5], s[6], s[7]);
        lemma_bytes_of_join64(s[8], s[9], s[10], s[11], s[12], s[13], s[14], s[15]);
        assert(Self::parsed(s).encoded() =~= s.subrange(0, 16));
    }

    /// Writes the 16-byte layout of this structure.
    pub fn encode(&self) -> (out: Vec<u8>)
        ensures
            out@ == self.encoded(),
    {
        let mut out = Vec::new();
        push_u32(&mut out, self.dev_type);
        assert(out@ =~= le32(self.dev_type));
        push_u32(&mut out, self.size);
        push_u64(&mut out, self.handle);
        out
    }

    /// Reads a structure from the first 16 bytes of `s`; `None` when `s`
    /// is shorter than that.
    pub fn decode(s: &[u8]) -> (r: Option<Self>)
        ensures
            r == (if s@.len() >= 16 { Some(Self::parsed(s@)) } else { None::<Self> }),
    {
        if s.len() < 16 {
            return None;
        }
        Some(MdwUtilInUcmd {
            dev_type: read_u32(s, 0),
            size: read_u32(s, 4),
            handle: read_u64(s, 8),
        })
    }
}

impl Default for MdwUtilInUcmd {
    /// The all-zero structure.
    fn default() -> (r: Self)
        ensures
            r == (MdwUtilInUcmd { dev_type: 0, size: 0, handle: 0 }),
    {
        MdwUtilInUcmd { dev_type: 0, size: 0, handle: 0 }
    }
}


/// Reply of the handshake `Dev` op.
#[derive(Copy, Clone)]
pub struct MdwHsOutDev {
    /// Echoes the input device class.
    pub type_: u32,
    /// `dinfos[type]->num`: number of cores of that device class.
    pub num: u32,
    /// `dinfos[type]->meta`: opaque per-device metadata blob.
    pub meta: [u8; MDW_DEV_META_SIZE],
}

impl MdwHsOutDev {
    /// The 40 bytes of this reply as the kernel lays them out.
    pub open spec fn encoded(self) -> Seq<u8> {
        le32(self.type_) + le32(self.num) + self.meta@
    }

    /// `r` is the reply whose fields are read from the first 40 bytes of `s`.
    pub open spec fn read_from(s: Seq<u8>, r: Self) -> bool {
        &&& r.type_ == u32_at(s, 0)
        &&& r.num == u32_at(s, 4)
        &&& r.meta@ == s.subrange(8, 40)
    }

    /// Reading a reply back from its own bytes gives it back unchanged.
    pub proof fn lemma_parse_encoded(self)
        ensures
            self.encoded().len() == 40,
            Self::read_from(self.encoded(), self),
    {
        lemma_join32_of_bytes(self.type_);
        lemma_join32_of_bytes(self.num);
        assert(self.encoded().subrange(8, 40) =~= self.meta@);
    }

    /// Where each field of a reply is written: the class at bytes 0..4, the
    /// core count at 4..8 (little-endian), the metadata blob at 8..40.
    pub proof fn lemma_field_offsets(self)
        ensures
            self.encoded().len() == 40,
            u32_at(self.encoded(), 0) == self.type_,
            u32_at(self.encoded(), 4) == self.num,
            self.encoded().subrange(8, 40) == self.meta@,
    {
        self.lemma_parse_encoded();
    }

    /// The bytes determine the reply: two replies read from the same bytes
    /// are equal.
    pub proof fn lemma_read_unique(s: Seq<u8>, a: Self, b: Self)
        requires
            Self::read_from(s, a),
            Self::read_from(s, b),
        ensures
            a == b,
    {
        assert(a.meta =~= b.meta) by {
            assert forall|i: int| 0 <= i < MDW_DEV_META_SIZE implies a.meta[i] == b.meta[i] by {
                assert(a.meta@[i] == b.meta@[i]);
            }
        }
    }

    /// Every byte of this reply is significant (no padding), so writing back
    /// what was read reproduces the bytes that were read.
    pub proof fn lemma_encode_parsed(s: Seq<u8>, r: Self)
        requires
            s.len() >= 40,
            Self::read_from(s, r),
        ensures
            r.encoded() == s.subrange(0, 40),
    {
        lemma_bytes_of_join32(s[0], s[1], s[2], s[3]);
        lemma_bytes_of_join32(s[4], s[5], s[6], s[7]);
        assert(r.encoded() =~= s.subrange(0, 40));
    }

    /// Writes the 40-byte layout of this reply.
    pub fn encode(&self) -> (out: Vec<u8>)
        ensures
            out@ == self.encoded(),
    {
        let mut out = Vec::new();
        push_u32(&mut out, self.type_);
        assert(out@ =~= le32(self.type_));
        push_u32(&mut out, self.num);
        let ghost start = out@;
        let mut i: usize = 0;
        while i < MDW_DEV_META_SIZE
            invariant
                i <= MDW_DEV_META_SIZE,
                out@ =~= start + self.meta@.subrange(0, i as int),
            decreases MDW_DEV_META_SIZE - i,
        {
            out.push(self.meta[i]);
            i = i + 1;
        }
        assert(self.meta@.subrange(0, MDW_DEV_META_SIZE as int) =~= self.meta@);
        out
    }

    /// Reads a reply from the first 40 bytes of `s`; `None` when `s` is
    /// shorter than that.
    pub fn decode(s: &[u8]) -> (r: Option<Self>)
        ensures
            r is Some <==> s@.len() >= 40,
            r matches Some(d) ==> Self::read_from(s@, d),
    {
        if s.len() < 40 {
            return None;
        }
        let mut meta = [0u8; MDW_DEV_META_SIZE];
        let mut i: usize = 0;
        while i < MDW_DEV_META_SIZE
            invariant
                i <= MDW_DEV_META_SIZE,
                s@.len() >= 40,
                forall|j: int| 0 <= j < i ==> meta@[j] == s@[8 + j],
            decreases MDW_DEV_META_SIZE - i,
        {
            meta[i] = s[8 + i];
            i = i + 1;
        }
        let r = MdwHsOutDev { type_: read_u32(s, 0), num: read_u32(s, 4), meta };
        assert(r.meta@ =~= s@.subrange(8, 40));
        Some(r)
    }
}

/// The op-dependent part of a handshake request.
#[derive(Copy, Clone, Debug)]
pub enum MdwHsInPayload {
    Dev(MdwHsInDev),
    Mem(MdwHsInMem),
}

impl MdwHsInPayload {
    /// The 8 bytes of the payload: the chosen member, then zero filler.
    pub open spec fn encoded(self) -> Seq<u8> {
        match self {
            MdwHsInPayload::Dev(d) => d.encoded() + zeros(4),
            MdwHsInPayload::Mem(m) => m.encoded() + zeros(4),
        }
    }

    /// Writes the 8-byte payload.
    pub fn encode(&self) -> (out: Vec<u8>)
        ensures
            out@ == self.encoded(),
    {
        let mut out = match self {
            MdwHsInPayload::Dev(d) => d.encode(),
            MdwHsInPayload::Mem(m) => m.encode(),
        };
        push_zeros(&mut out, 4);
        out
    }
}

/// A handshake request.
#[derive(Copy, Clone, Debug)]
pub struct MdwHsIn {
    /// One of `MdwHsOp`; the driver dispatches on it.
    pub op: u32,
    /// Reserved on input; preserved as flags.
    pub flags: u64,
    pub payload: MdwHsInPayload,
}

impl MdwHsIn {
    /// The 24 bytes of the request as the kernel lays them out.
    pub open spec fn encoded(self) -> Seq<u8> {
        le32(self.op) + zeros(4) + le64(self.flags) + self.payload.encoded()
    }

    /// The whole ioctl argument: the request, zero-filled to the size of the
    /// argument union.
    pub open spec fn args(self) -> Seq<u8> {
        self.encoded() + zeros(16)
    }

    /// Where each field of a request stands in its argument bytes.
    pub proof fn lemma_args_fields(self)
        ensures
            self.args().len() == MDW_HS_ARGS_SIZE,
            u32_at(self.args(), 0) == self.op,
            u64_at(self.args(), 8) == self.flags,
            self.args().subrange(16, 24) == self.payload.encoded(),
            u32_at(self.args(), 16) == match self.payload {
                MdwHsInPayload::Dev(d) => d.type_,
                MdwHsInPayload::Mem(m) => m.type_,
            },
            self.args().subrange(4, 8) == zeros(4),
            self.args().subrange(20, 40) == zeros(20),
    {
        lemma_join32_of_bytes(self.op);
        lemma_join64_of_bytes(self.flags);
        match self.payload {
            MdwHsInPayload::Dev(d) => lemma_join32_of_bytes(d.type_),
            MdwHsInPayload::Mem(m) => lemma_join32_of_bytes(m.type_),
        }
        assert(self.args().subrange(16, 24) =~= self.payload.encoded());
        assert(self.args().subrange(4, 8) =~= zeros(4));
        assert(self.args().subrange(20, 40) =~= zeros(20));
    }

    /// The request of the `Basic` op, as the probe sends it.
    pub fn basic() -> (r: Self)
        ensures
            r == (MdwHsIn {
                op: MdwHsOp::Basic.value(),
                flags: 0,
                payload: MdwHsInPayload::Dev(MdwHsInDev { type_: 0 }),
            }),
    {
        MdwHsIn {
            op: MdwHsOp::Basic.code(),
            flags: 0,
            payload: MdwHsInPayload::Dev(MdwHsInDev { type_: 0 }),
        }
    }

    /// The request of the `Dev` op for device class `ty`.
    pub fn dev(ty: u32) -> (r: Self)
        ensures
            r == (MdwHsIn {
                op: MdwHsOp::Dev.value(),
                flags: 0,
                payload: MdwHsInPayload::Dev(MdwHsInDev { type_: ty }),
            }),
    {
        MdwHsIn {
            op: MdwHsOp::Dev.code(),
            flags: 0,
            payload: MdwHsInPayload::Dev(MdwHsInDev { type_: ty }),
        }
    }

    /// The request of the `Mem` op for memory pool `ty`.
    pub fn mem(ty: u32) -> (r: Self)
        ensures
            r == (MdwHsIn {
                op: MdwHsOp::Mem.value(),
                flags: 0,
                payload: MdwHsInPayload::Mem(MdwHsInMem { type_: ty }),
            }),
    {
        MdwHsIn {
            op: MdwHsOp::Mem.code(),
            flags: 0,
            payload: MdwHsInPayload::Mem(MdwHsInMem { type_: ty }),
        }
    }

    /// Writes the 24-byte request.
    pub fn encode(&self) -> (out: Vec<u8>)
        ensures
            out@ == self.encoded(),
    {
        let mut out = Vec::new();
        push_u32(&mut out, self.op);
        assert(out@ =~= le32(self.op));
        push_zeros(&mut out, 4);
        push_u64(&mut out, self.flags);
        let mut p = self.payload.encode();
        out.append(&mut p);
        out
    }

    /// Writes the whole 40-byte ioctl argument for this request.
    pub fn to_args(&self) -> (out: Vec<u8>)
        ensures
            out@ == self.args(),
            out@.len() == MDW_HS_ARGS_SIZE,
    {
        let mut out = self.encode();
        push_zeros(&mut out, 16);
        out
    }
}

/// The op-dependent part of a memory request.
#[derive(Copy, Clone)]
pub enum MdwMemInPayload {
    Alloc(MdwMemInAlloc),
    Free(MdwMemInHandle),
    MapBuffer(MdwMemInMap),
    Unmap(MdwMemInHandle),
    Flush(MdwMemInRange),
    Invalidate(MdwMemInRange),
}

impl MdwMemInPayload {
    /// The 24 bytes of the payload: the chosen member, then zero filler.
    pub open spec fn encoded(self) -> Seq<u8> {
        match self {
            MdwMemInPayload::Alloc(a) => a.encoded(),
            MdwMemInPayload::Free(h) => h.encoded() + zeros(16),
            MdwMemInPayload::MapBuffer(m) => m.encoded() + zeros(8),
            MdwMemInPayload::Unmap(h) => h.encoded() + zeros(16),
            MdwMemInPayload::Flush(r) => r.encoded() + zeros(8),
            MdwMemInPayload::Invalidate(r) => r.encoded() + zeros(8),
        }
    }

    /// Where each field of the chosen member stands in the 24 payload bytes;
    /// the bytes after the member are zero.
    pub proof fn lemma_payload_offsets(self)
        ensures
            self.encoded().len() == 24,
            match self {
                MdwMemInPayload::Alloc(a) => {
                    &&& u32_at(self.encoded(), 0) == a.type_
                    &&& u32_at(self.encoded(), 4) == a.size
                    &&& u32_at(self.encoded(), 8) == a.align
                    &&& self.encoded().subrange(12, 16) == zeros(4)
                    &&& u64_at(self.encoded(), 16) == a.flags
                },
                MdwMemInPayload::Free(h) => {
                    &&& u64_at(self.encoded(), 0) == h.handle
                    &&& self.encoded().subrange(8, 24) == zeros(16)
                },
                MdwMemInPayload::MapBuffer(m) => {
                    &&& u64_at(self.encoded(), 0) == m.handle
                    &&& u32_at(self.encoded(), 8) == m.size
                    &&& self.encoded().subrange(12, 24) == zeros(12)
                },
                MdwMemInPayload::Unmap(h) => {
                    &&& u64_at(self.encoded(), 0) == h.handle
                    &&& self.encoded().subrange(8, 24) == zeros(16)
                },
                MdwMemInPayload::Flush(r) => {
                    &&& u64_at(self.encoded(), 0) == r.handle
                    &&& u32_at(self.encoded(), 8) == r.offset
                    &&& u32_at(self.encoded(), 12) == r.size
                    &&& self.encoded().subrange(16, 24) == zeros(8)
                },
                MdwMemInPayload::Invalidate(r) => {
                    &&& u64_at(self.encoded(), 0) == r.handle
                    &&& u32_at(self.encoded(), 8) == r.offset
                    &&& u32_at(self.encoded(), 12) == r.size
                    &&& self.encoded().subrange(16, 24) == zeros(8)
                },
            },
    {
        let p = self.encoded();
        match self {
            MdwMemInPayload::Alloc(a) => {
                a.lemma_field_offsets();
            },
            MdwMemInPayload::Free(h) => {
                h.lemma_field_offsets();
                assert(p.subrange(0, 8) =~= h.encoded());
                lemma_u64_at_within(p, 0, h.encoded(), 0);
                assert(p.subrange(8, 24) =~= zeros(16));
            },
            MdwMemInPayload::MapBuffer(m) => {
                m.lemma_field_offsets();
                assert(p.subrange(0, 16) =~= m.encoded());
                lemma_u64_at_within(p, 0, m.encoded(), 0);
                lemma_u32_at_within(p, 0, m.encoded(), 8);
                lemma_subrange_within(p, 0, m.encoded(), 12, 4);
                assert(p.subrange(12, 24) =~= zeros(12)) by {
                    assert forall|i: int| 0 <= i < 12 implies #[trigger] p.subrange(12, 24)[i]
                        == 0u8 by {
                        if i < 4 {
                            assert(p.subrange(12, 16)[i] == 0u8);
                        }
                    }
                }
            },
            MdwMemInPayload::Unmap(h) => {
                h.lemma_field_offsets();
                assert(p.subrange(0, 8) =~= h.encoded());
                lemma_u64_at_within(p, 0, h.encoded(), 0);
                assert(p.subrange(8, 24) =~= zeros(16));
            },
            MdwMemInPayload::Flush(r) => {
                r.lemma_field_offsets();
                assert(p.subrange(0, 16) =~= r.encoded());
                lemma_u64_at_within(p, 0, r.encoded(), 0);
                lemma_u32_at_within(p, 0, r.encoded(), 8);
                lemma_u32_at_within(p, 0, r.encoded(), 12);
                assert(p.subrange(16, 24) =~= zeros(8));
            },
            MdwMemInPayload::Invalidate(r) => {
                r.lemma_field_offsets();
                assert(p.subrange(0, 16) =~= r.encoded());
                lemma_u64_at_within(p, 0, r.encoded(), 0);
                lemma_u32_at_within(p, 0, r.encoded(), 8);
                lemma_u32_at_within(p, 0, r.encoded(), 12);
                assert(p.subrange(16, 24) =~= zeros(8));
            },
        }
    }

    /// Writes the 24-byte payload.
    pub fn encode(&self) -> (out: Vec<u8>)
        ensures
            out@ == self.encoded(),
    {
        match self {
            MdwMemInPayload::Alloc(a) => a.encode(),
            MdwMemInPayload::Free(h) => {
                let mut out = h.encode();
                push_zeros(&mut out, 16);
                out
            },
            MdwMemInPayload::MapBuffer(m) => {
                let mut out = m.encode();
                push_zeros(&mut out, 8);
                out
            },
            MdwMemInPayload::Unmap(h) => {
                let mut out = h.encode();
                push_zeros(&mut out, 16);
                out
            },
            MdwMemInPayload::Flush(r) => {
                let mut out = r.encode();
                push_zeros(&mut out, 8);
                out
            },
            MdwMemInPayload::Invalidate(r) => {
                let mut out = r.encode();
                push_zeros(&mut out, 8);
                out
            },
        }
    }
}

/// A memory request.
#[derive(Copy, Clone)]
pub struct MdwMemIn {
    /// One of `MdwMemOp`.
    pub op: u32,
    /// Top-level flags; per-op flags live inside the alloc member.
    pub flags: u64,
    pub payload: MdwMemInPayload,
}

impl MdwMemIn {
    /// The 40 bytes of the request as the kernel lays them out; this is also
    /// the whole ioctl argument.
    pub open spec fn encoded(self) -> Seq<u8> {
        le32(self.op) + zeros(4) + le64(self.flags) + self.payload.encoded()
    }

    /// Where each field of a request stands in its bytes.
    pub proof fn lemma_args_fields(self)
        ensures
            self.encoded().len() == MDW_MEM_ARGS_SIZE,
            u32_at(self.encoded(), 0) == self.op,
            u64_at(self.encoded(), 8) == self.flags,
            self.encoded().subrange(16, 40) == self.payload.encoded(),
    {
        lemma_join32_of_bytes(self.op);
        lemma_join64_of_bytes(self.flags);
        assert(self.encoded().subrange(16, 40) =~= self.payload.encoded());
    }

    /// Where each field of a request stands in its 40 argument bytes: the op
    /// at 0..4, zero padding at 4..8, the flags at 8..16, and the fields of
    /// the chosen payload member from byte 16 on, with zeros after it.
    pub proof fn lemma_request_offsets(self)
        ensures
            self.encoded().len() == MDW_MEM_ARGS_SIZE,
            u32_at(self.encoded(), 0) == self.op,
            self.encoded().subrange(4, 8) == zeros(4),
            u64_at(self.encoded(), 8) == self.flags,
            match self.payload {
                MdwMemInPayload::Alloc(a) => {
                    &&& u32_at(self.encoded(), 16) == a.type_
                    &&& u32_at(self.encoded(), 20) == a.size
                    &&& u32_at(self.encoded(), 24) == a.align
                    &&& self.encoded().subrange(28, 32) == zeros(4)
                    &&& u64_at(self.encoded(), 32) == a.flags
                },
                MdwMemInPayload::Free(h) => {
                    &&& u64_at(self.encoded(), 16) == h.handle
                    &&& self.encoded().subrange(24, 40) == zeros(16)
                },
                MdwMemInPayload::MapBuffer(m) => {
                    &&& u64_at(self.encoded(), 16) == m.handle
                    &&& u32_at(self.encoded(), 24) == m.size
                    &&& self.encoded().subrange(28, 40) == zeros(12)
                },
                MdwMemInPayload::Unmap(h) => {
                    &&& u64_at(self.encoded(), 16) == h.handle
                    &&& self.encoded().subrange(24, 40) == zeros(16)
                },
                MdwMemInPayload::Flush(r) => {
                    &&& u64_at(self.encoded(), 16) == r.handle
                    &&& u32_at(self.encoded(), 24) == r.offset
                    &&& u32_at(self.encoded(), 28) == r.size
                    &&& self.encoded().subrange(32, 40) == zeros(8)
                },
                MdwMemInPayload::Invalidate(r) => {
                    &&& u64_at(self.encoded(), 16) == r.handle
                    &&& u32_at(self.encoded(), 24) == r.offset
                    &&& u32_at(self.encoded(), 28) == r.size
                    &&& self.encoded().subrange(32, 40) == zeros(8)
                },
            },
    {
        let e = self.encoded();
        let p = self.payload.encoded();
        self.lemma_args_fields();
        self.payload.lemma_payload_offsets();
        assert(e.subrange(4, 8) =~= zeros(4));
        match self.payload {
            MdwMemInPayload::Alloc(a) => {
                lemma_u32_at_within(e, 16, p, 0);
                lemma_u32_at_within(e, 16, p, 4);
                lemma_u32_at_within(e, 16, p, 8);
                lemma_subrange_within(e, 16, p, 12, 4);
                lemma_u64_at_within(e, 16, p, 16);
            },
            MdwMemInPayload::Free(h) => {
                lemma_u64_at_within(e, 16, p, 0);
                lemma_subrange_within(e, 16, p, 8, 16);
            },
            MdwMemInPayload::MapBuffer(m) => {
                lemma_u64_at_within(e, 16, p, 0);
                lemma_u32_at_within(e, 16, p, 8);
                lemma_subrange_within(e, 16, p, 12, 12);
            },
            MdwMemInPayload::Unmap(h) => {
                lemma_u64_at_within(e, 16, p, 0);
                lemma_subrange_within(e, 16, p, 8, 16);
            },
            MdwMemInPayload::Flush(r) => {
                lemma_u64_at_within(e, 16, p, 0);
                lemma_u32_at_within(e, 16, p, 8);
                lemma_u32_at_within(e, 16, p, 12);
                lemma_subrange_within(e, 16, p, 16, 8);
            },
            MdwMemInPayload::Invalidate(r) => {
                lemma_u64_at_within(e, 16, p, 0);
                lemma_u32_at_within(e, 16, p, 8);
                lemma_u32_at_within(e, 16, p, 12);
                lemma_subrange_within(e, 16, p, 16, 8);
            },
        }
    }

    /// The `Alloc` request of the runner: `size` bytes from pool `mem_type`,
    /// default alignment, with allocation flags `flags`.
    pub fn allocate(size: u32, mem_type: u32, flags: u64) -> (r: Self)
        ensures
            r == (MdwMemIn {
                op: MdwMemOp::Alloc.value(),
                flags: 0,
                payload: MdwMemInPayload::Alloc(
                    MdwMemInAlloc { type_: mem_type, size, align: MDW_DEFAULT_ALIGN, flags },
                ),
            }),
    {
        MdwMemIn {
            op: MdwMemOp::Alloc.code(),
            flags: 0,
            payload: MdwMemInPayload::Alloc(
                MdwMemInAlloc { type_: mem_type, size, align: MDW_DEFAULT_ALIGN, flags },
            ),
        }
    }

    /// The `Free` request for `handle`.
    pub fn free(handle: u64) -> (r: Self)
        ensures
            r == (MdwMemIn {
                op: MdwMemOp::Free.value(),
                flags: 0,
                payload: MdwMemInPayload::Free(MdwMemInHandle { handle }),
            }),
    {
        MdwMemIn {
            op: MdwMemOp::Free.code(),
            flags: 0,
            payload: MdwMemInPayload::Free(MdwMemInHandle { handle }),
        }
    }

    /// A cache-sync request (`op` is `Flush` or `Invalidate` in practice) for
    /// the first `size` bytes of `handle`.
    pub fn sync(handle: u64, size: u32, op: MdwMemOp) -> (r: Self)
        ensures
            r.op == op.value(),
            r.flags == 0,
            r.payload.encoded() == (MdwMemInPayload::Flush(
                MdwMemInRange { handle, offset: 0, size },
            )).encoded(),
            op is Invalidate ==> r.payload == MdwMemInPayload::Invalidate(
                MdwMemInRange { handle, offset: 0, size },
            ),
            !(op is Invalidate) ==> r.payload == MdwMemInPayload::Flush(
                MdwMemInRange { handle, offset: 0, size },
            ),
    {
        let range = MdwMemInRange { handle, offset: 0, size };
        let payload = match op {
            MdwMemOp::Invalidate => MdwMemInPayload::Invalidate(range),
            _ => MdwMemInPayload::Flush(range),
        };
        MdwMemIn { op: op.code(), flags: 0, payload }
    }

    /// The CPU-to-device `Flush` request for the first `size` bytes of `handle`.
    pub fn flush(handle: u64, size: u32) -> (r: Self)
        ensures
            r == (MdwMemIn {
                op: MdwMemOp::Flush.value(),
                flags: 0,
                payload: MdwMemInPayload::Flush(MdwMemInRange { handle, offset: 0, size }),
            }),
    {
        Self::sync(handle, size, MdwMemOp::Flush)
    }

    /// The device-to-CPU `Invalidate` request for the first `size` bytes of
    /// `handle`.
    pub fn invalidate(handle: u64, size: u32) -> (r: Self)
        ensures
            r == (MdwMemIn {
                op: MdwMemOp::Invalidate.value(),
                flags: 0,
                payload: MdwMemInPayload::Invalidate(MdwMemInRange { handle, offset: 0, size }),
            }),
    {
        Self::sync(handle, size, MdwMemOp::Invalidate)
    }

    /// Writes the whole 40-byte ioctl argument for this request.
    pub fn to_args(&self) -> (out: Vec<u8>)
        ensures
            out@ == self.encoded(),
            out@.len() == MDW_MEM_ARGS_SIZE,
    {
        let mut out = Vec::new();
        push_u32(&mut out, self.op);
        assert(out@ =~= le32(self.op));
        push_zeros(&mut out, 4);
        push_u64(&mut out, self.flags);
        let mut p = self.payload.encode();
        out.append(&mut p);
        out
    }
}

/// A command request.
#[derive(Copy, Clone)]
pub struct MdwCmdIn {
    /// One of `MdwCmdOp`.
    pub op: u32,
    pub reserved: u64,
    /// On `Del` and `RunStale`: the kernel-assigned command id.
    pub id: i64,
    pub exec_: MdwCmdInExec,
}

impl MdwCmdIn {
    /// The 120 bytes of the request as the kernel lays them out; this is also
    /// the whole ioctl argument.
    pub open spec fn encoded(self) -> Seq<u8> {
        le32(self.op) + zeros(4) + le64(self.reserved) + le64(self.id as u64) + self.exec_.encoded()
    }

    /// The request whose fields are read from the first 120 bytes of `s`.
    pub open spec fn parsed(s: Seq<u8>) -> Self {
        MdwCmdIn {
            op: u32_at(s, 0),
            reserved: u64_at(s, 8),
            id: u64_at(s, 16) as i64,
            exec_: MdwCmdInExec::parsed(s.subrange(24, 120)),
        }
    }

    /// Reading a request back from its own bytes gives it back unchanged.
    pub proof fn lemma_parse_encoded(self)
        ensures
            self.encoded().len() == MDW_CMD_ARGS_SIZE,
            Self::parsed(self.encoded()) == self,
    {
        lemma_join32_of_bytes(self.op);
        lemma_join64_of_bytes(self.reserved);
        lemma_join64_of_bytes(self.id as u64);
        lemma_i64_bits(self.id);
        self.exec_.lemma_parse_encoded();
        assert(self.encoded().subrange(24, 120) =~= self.exec_.encoded());
    }

    /// Where each field of a command request stands in its 120 argument
    /// bytes: the op at 0..4, zero padding at 4..8, the reserved word at
    /// 8..16, the id at 16..24, and the fields of the command graph from
    /// byte 24 on, in their C places.
    #[verifier::spinoff_prover]
    #[verifier::rlimit(50)]
    pub proof fn lemma_field_offsets(self)
        ensures
            self.encoded().len() == MDW_CMD_ARGS_SIZE,
            u32_at(self.encoded(), 0) == self.op,
            self.encoded().subrange(4, 8) == zeros(4),
            u64_at(self.encoded(), 8) == self.reserved,
            u64_at(self.encoded(), 16) == self.id as u64,
            u64_at(self.encoded(), 24) == self.exec_.uid,
            u32_at(self.encoded(), 32) == self.exec_.priority,
            u32_at(self.encoded(), 36) == self.exec_.hardlimit,
            u32_at(self.encoded(), 40) == self.exec_.softlimit,
            u32_at(self.encoded(), 44) == self.exec_.fastmem_ms,
            u32_at(self.encoded(), 48) == self.exec_.power_save,
            u32_at(self.encoded(), 52) == self.exec_.power_plcy,
            u32_at(self.encoded(), 56) == self.exec_.power_dtime,
            u32_at(self.encoded(), 60) == self.exec_.app_type,
            u32_at(self.encoded(), 64) == self.exec_.flags,
            u32_at(self.encoded(), 68) == self.exec_.num_subcmds,
            u64_at(self.encoded(), 72) == self.exec_.subcmd_infos,
            u64_at(self.encoded(), 80) == self.exec_.adj_matrix,
            u64_at(self.encoded(), 88) == self.exec_.fence,
            u64_at(self.encoded(), 96) == self.exec_.exec_infos,
            u32_at(self.encoded(), 104) == self.exec_.num_links,
            u64_at(self.encoded(), 112) == self.exec_.links,
            self.encoded().subrange(108, 112) == zeros(4),
    {
        let e = self.encoded();
        let x = self.exec_.encoded();
        lemma_join32_of_bytes(self.op);
        lemma_join64_of_bytes(self.reserved);
        lemma_join64_of_bytes(self.id as u64);
        self.exec_.lemma_field_offsets();
        assert(e.subrange(4, 8) =~= zeros(4));
        assert(e.subrange(24, 120) =~= x);
        lemma_u64_at_within(e, 24, x, 0);
        lemma_u32_at_within(e, 24, x, 8);
        lemma_u32_at_within(e, 24, x, 12);
        lemma_u32_at_within(e, 24, x, 16);
        lemma_u32_at_within(e, 24, x, 20);
        lemma_u32_at_within(e, 24, x, 24);
        lemma_u32_at_within(e, 24, x, 28);
        lemma_u32_at_within(e, 24, x, 32);
        lemma_u32_at_within(e, 24, x, 36);
        lemma_u32_at_within(e, 24, x, 40);
        lemma_u32_at_within(e, 24, x, 44);
        lemma_u64_at_within(e, 24, x, 48);
        lemma_u64_at_within(e, 24, x, 56);
        lemma_u64_at_within(e, 24, x, 64);
        lemma_u64_at_within(e, 24, x, 72);
        lemma_u32_at_within(e, 24, x, 80);
        lemma_u64_at_within(e, 24, x, 88);
        lemma_subrange_within(e, 24, x, 84, 4);
    }

    /// The `Run` request of the runner: `num_subcmds` subcommands at user
    /// address `subcmd_infos`, execution records at `exec_infos`, hard time
    /// limit `timeout_ms`, no adjacency matrix, no inbound fence, no links.
    pub fn run(num_subcmds: u32, subcmd_infos: u64, exec_infos: u64, timeout_ms: u32) -> (r: Self)
        ensures
            r == (MdwCmdIn {
                op: MdwCmdOp::Run.value(),
                reserved: 0,
                id: 0,
                exec_: MdwCmdInExec {
                    uid: 0,
                    priority: 0,
                    hardlimit: timeout_ms,
                    softlimit: 0,
                    fastmem_ms: 0,
                    power_save: 0,
                    power_plcy: 0,
                    power_dtime: 0,
                    app_type: 0,
                    flags: 0,
                    num_subcmds,
                    subcmd_infos,
                    adj_matrix: 0,
                    fence: 0,
                    exec_infos,
                    num_links: 0,
                    links: 0,
                },
            }),
    {
        MdwCmdIn {
            op: MdwCmdOp::Run.code(),
            reserved: 0,
            id: 0,
            exec_: MdwCmdInExec {
                uid: 0,
                priority: 0,
                hardlimit: timeout_ms,
                softlimit: 0,
                fastmem_ms: 0,
                power_save: 0,
                power_plcy: 0,
                power_dtime: 0,
                app_type: 0,
                flags: 0,
                num_subcmds,
                subcmd_infos,
                adj_matrix: 0,
                fence: 0,
                exec_infos,
                num_links: 0,
                links: 0,
            },
        }
    }

    /// Writes the whole 120-byte ioctl argument for this request.
    pub fn to_args(&self) -> (out: Vec<u8>)
        ensures
            out@ == self.encoded(),
            out@.len() == MDW_CMD_ARGS_SIZE,
    {
        let mut out = Vec::new();
        push_u32(&mut out, self.op);
        assert(out@ =~= le32(self.op));
        push_zeros(&mut out, 4);
        push_u64(&mut out, self.reserved);
        push_u64(&mut out, self.id as u64);
        let mut e = self.exec_.encode();
        out.append(&mut e);
        proof {
            self.lemma_parse_encoded();
        }
        out
    }
}

/// The op-dependent part of a util request.
#[derive(Copy, Clone)]
pub enum MdwUtilInPayload {
    Power(MdwUtilInPower),
    Ucmd(MdwUtilInUcmd),
}

impl MdwUtilInPayload {
    /// The 24 bytes of the payload: the chosen member, then zero filler.
    pub open spec fn encoded(self) -> Seq<u8> {
        match self {
            MdwUtilInPayload::Power(p) => p.encoded(),
            MdwUtilInPayload::Ucmd(u) => u.encoded() + zeros(8),
        }
    }

    /// Where each field of the chosen member stands in the 24 payload bytes;
    /// the bytes after the member are zero.
    pub proof fn lemma_payload_offsets(self)
        ensures
            self.encoded().len() == 24,
            match self {
                MdwUtilInPayload::Power(p) => {
                    &&& u32_at(self.encoded(), 0) == p.dev_type
                    &&& u32_at(self.encoded(), 4) == p.core_idx
                    &&& u32_at(self.encoded(), 8) == p.boost
                    &&& self.encoded().subrange(12, 16) == zeros(4)
                    &&& u64_at(self.encoded(), 16) == p.reserve
                },
                MdwUtilInPayload::Ucmd(u) => {
                    &&& u32_at(self.encoded(), 0) == u.dev_type
                    &&& u32_at(self.encoded(), 4) == u.size
                    &&& u64_at(self.encoded(), 8) == u.handle
                    &&& self.encoded().subrange(16, 24) == zeros(8)
                },
            },
    {
        let q = self.encoded();
        match self {
            MdwUtilInPayload::Power(p) => {
                p.lemma_field_offsets();
            },
            MdwUtilInPayload::Ucmd(u) => {
                u.lemma_field_offsets();
                assert(q.subrange(0, 16) =~= u.encoded());
                lemma_u32_at_within(q, 0, u.encoded(), 0);
                lemma_u32_at_within(q, 0, u.encoded(), 4);
                lemma_u64_at_within(q, 0, u.encoded(), 8);
                assert(q.subrange(16, 24) =~= zeros(8));
            },
        }
    }

    /// Writes the 24-byte payload.
    pub fn encode(&self) -> (out: Vec<u8>)
        ensures
            out@ == self.encoded(),
    {
        match self {
            MdwUtilInPayload::Power(p) => p.encode(),
            MdwUtilInPayload::Ucmd(u) => {
                let mut out = u.encode();
                push_zeros(&mut out, 8);
                out
            },
        }
    }
}

/// A util request.
#[derive(Copy, Clone)]
pub struct MdwUtilIn {
    /// One of `MdwUtilOp`.
    pub op: u32,
    pub payload: MdwUtilInPayload,
}

impl MdwUtilIn {
    /// The 32 bytes of the request as the kernel lays them out; this is also
    /// the whole ioctl argument.
    pub open spec fn encoded(self) -> Seq<u8> {
        le32(self.op) + zeros(4) + self.payload.encoded()
    }

    /// Where each field of a request stands in its bytes.
    pub proof fn lemma_args_fields(self)
        ensures
            self.encoded().len() == MDW_UTIL_ARGS_SIZE,
            u32_at(self.encoded(), 0) == self.op,
            self.encoded().subrange(8, 32) == self.payload.encoded(),
    {
        lemma_join32_of_bytes(self.op);
        assert(self.encoded().subrange(8, 32) =~= self.payload.encoded());
    }

    /// Where each field of a request stands in its 32 argument bytes: the op
    /// at 0..4, zero padding at 4..8, and the fields of the chosen payload
    /// member from byte 8 on, with zeros after it.
    pub proof fn lemma_request_offsets(self)
        ensures
            self.encoded().len() == MDW_UTIL_ARGS_SIZE,
            u32_at(self.encoded(), 0) == self.op,
            self.encoded().subrange(4, 8) == zeros(4),
            match self.payload {
                MdwUtilInPayload::Power(p) => {
                    &&& u32_at(self.encoded(), 8) == p.dev_type
                    &&& u32_at(self.encoded(), 12) == p.core_idx
                    &&& u32_at(self.encoded(), 16) == p.boost
                    &&& self.encoded().subrange(20, 24) == zeros(4)
                    &&& u64_at(self.encoded(), 24) == p.reserve
                },
                MdwUtilInPayload::Ucmd(u) => {
                    &&& u32_at(self.encoded(), 8) == u.dev_type
                    &&& u32_at(self.encoded(), 12) == u.size
                    &&& u64_at(self.encoded(), 16) == u.handle
                    &&& self.encoded().subrange(24, 32) == zeros(8)
                },
            },
    {
        let e = self.encoded();
        let q = self.payload.encoded();
        self.lemma_args_fields();
        self.payload.lemma_payload_offsets();
        assert(e.subrange(4, 8) =~= zeros(4));
        match self.payload {
            MdwUtilInPayload::Power(p) => {
                lemma_u32_at_within(e, 8, q, 0);
                lemma_u32_at_within(e, 8, q, 4);
                lemma_u32_at_within(e, 8, q, 8);
                lemma_subrange_within(e, 8, q, 12, 4);
                lemma_u64_at_within(e, 8, q, 16);
            },
            MdwUtilInPayload::Ucmd(u) => {
                lemma_u32_at_within(e, 8, q, 0);
                lemma_u32_at_within(e, 8, q, 4);
                lemma_u64_at_within(e, 8, q, 8);
                lemma_subrange_within(e, 8, q, 16, 8);
            },
        }
    }

    /// Writes the whole 32-byte ioctl argument for this request.
    pub fn to_args(&self) -> (out: Vec<u8>)
        ensures
            out@ == self.encoded(),
            out@.len() == MDW_UTIL_ARGS_SIZE,
    {
        let mut out = Vec::new();
        push_u32(&mut out, self.op);
        assert(out@ =~= le32(self.op));
        push_zeros(&mut out, 4);
        let mut p = self.payload.encode();
        out.append(&mut p);
        out
    }
}

} // verus!
