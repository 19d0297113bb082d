//! Reading the headers of a 64-bit little-endian ELF image.
//!
//! Only what loading needs is read: the file header up to the program header
//! table, and the program headers themselves.

use crate::memory::{lemma_le_bound, pow256, read_le, spec_le};
use vstd::prelude::*;

verus! {

/// Size of the file header.
pub const ELF_HEADER_SIZE: usize = 64;

/// Size of one program header.
pub const PROGRAM_HEADER_SIZE: usize = 56;

/// Program header type of a loadable segment.
pub const PT_LOAD: u32 = 1;

/// Segment may be executed.
pub const PF_X: u32 = 1;

/// Segment may be written.
pub const PF_W: u32 = 2;

/// Segment may be read.
pub const PF_R: u32 = 4;

/// One program header.
#[derive(Copy, Clone, Debug, PartialEq, Eq, Structural)]
pub struct ProgramHeader {
    pub type_: u32,
    pub flags: u32,
    pub offset: u64,
    pub virtual_addr: u64,
    pub physical_addr: u64,
    pub file_size: u64,
    pub mem_size: u64,
    pub align: u64,
}

impl ProgramHeader {
    /// Whether the segment is to be loaded.
    pub fn is_load(&self) -> (b: bool)
        ensures
            b == (self.type_ == PT_LOAD),
    {
        self.type_ == PT_LOAD
    }
}

/// Whether `data` starts with the four magic bytes and is marked as a 64-bit
/// image long enough to hold a file header.
pub open spec fn spec_is_elf64(data: Seq<u8>) -> bool {
    &&& data.len() >= 64
    &&& data[0] == 0x7f
    &&& data[1] == 0x45
    &&& data[2] == 0x4c
    &&& data[3] == 0x46
    &&& data[4] == 2
}

/// File offset of the program header table.
pub open spec fn spec_ph_offset(data: Seq<u8>) -> int {
    spec_le(data, 32, 8)
}

/// Size of one entry of the program header table.
pub open spec fn spec_ph_entry_size(data: Seq<u8>) -> int {
    spec_le(data, 54, 2)
}

/// Number of entries of the program header table.
pub open spec fn spec_ph_count(data: Seq<u8>) -> int {
    spec_le(data, 56, 2)
}

/// Whether `data` is a 64-bit image whose program header table lies inside
/// it, with entries large enough to hold a program header.
pub open spec fn spec_valid_image(data: Seq<u8>) -> bool {
    &&& spec_is_elf64(data)
    &&& (spec_ph_count(data) > 0 ==> {
        &&& spec_ph_entry_size(data) >= 56
        &&& spec_ph_offset(data) > 0
        &&& spec_ph_offset(data) + spec_ph_count(data) * spec_ph_entry_size(data) <= data.len()
    })
}

/// The program header that starts at file offset `at`.
pub open spec fn spec_program_header_at(data: Seq<u8>, at: int) -> ProgramHeader {
    ProgramHeader {
        type_: spec_le(data, at, 4) as u32,
        flags: spec_le(data, at + 4, 4) as u32,
        offset: spec_le(data, at + 8, 8) as u64,
        virtual_addr: spec_le(data, at + 16, 8) as u64,
        physical_addr: spec_le(data, at + 24, 8) as u64,
        file_size: spec_le(data, at + 32, 8) as u64,
        mem_size: spec_le(data, at + 40, 8) as u64,
        align: spec_le(data, at + 48, 8) as u64,
    }
}

/// Entry `i` of the program header table.
pub open spec fn spec_program_header(data: Seq<u8>, i: int) -> ProgramHeader {
    spec_program_header_at(data, spec_ph_offset(data) + i * spec_ph_entry_size(data))
}

/// The program header table of a valid image.
pub open spec fn spec_program_headers(data: Seq<u8>) -> Seq<ProgramHeader> {
    Seq::new(spec_ph_count(data) as nat, |i: int| spec_program_header(data, i))
}

/// The little-endian value of `data[at..at + n]`, with its bound.
fn field(data: &[u8], at: usize, n: u8) -> (v: u64)
    requires
        1 <= n <= 8,
        at + n <= data@.len(),
    ensures
        v == spec_le(data@, at as int, n as nat),
        v < pow256(n as nat),
{
    proof {
        lemma_le_bound(data@, at as int, n as nat);
    }
    read_le(data, at, n)
}

/// Reads the program header table of `data`, or `None` where `data` is no
/// valid 64-bit image.
pub fn read_program_headers(data: &[u8]) -> (phs: Option<Vec<ProgramHeader>>)
    ensures
        phs is Some <==> spec_valid_image(data@),
        phs matches Some(v) ==> v@ == spec_program_headers(data@),
{
    let len: usize = data.len();
    if len < 64 {
        return None;
    }
    if data[0] != 0x7f || data[1] != 0x45 || data[2] != 0x4c || data[3] != 0x46 || data[4] != 2 {
        return None;
    }
    proof {
        reveal_with_fuel(pow256, 9);
    }
    let ph_offset: u64 = field(data, 32, 8);
    let ph_entry_size: u64 = field(data, 54, 2);
    let ph_count: u64 = field(data, 56, 2);
    let mut phs: Vec<ProgramHeader> = Vec::new();
    if ph_count == 0 {
        assert(phs@ =~= spec_program_headers(data@));
        return Some(phs);
    }
    if ph_entry_size < 56 || ph_offset == 0 {
        return None;
    }
    assert(ph_count * ph_entry_size <= 65535 * 65535) by (nonlinear_arith)
        requires
            ph_count <= 65535,
            ph_entry_size <= 65535,
    ;
    let table: u64 = ph_count * ph_entry_size;
    if ph_offset > len as u64 || table > len as u64 - ph_offset {
        return None;
    }
    let mut i: u64 = 0;
    while i < ph_count
        invariant
            i <= ph_count,
            len == data@.len(),
            ph_offset == spec_ph_offset(data@),
            ph_entry_size == spec_ph_entry_size(data@),
            ph_count == spec_ph_count(data@),
            ph_entry_size >= 56,
            ph_count < 65536,
            ph_entry_size < 65536,
            ph_offset + ph_count * ph_entry_size <= len,
            phs@.len() == i,
            forall|k: int| 0 <= k < i ==> phs@[k] == spec_program_header(data@, k),
        decreases ph_count - i,
    {
        assert(i * ph_entry_size + 56 <= ph_count * ph_entry_size) by (nonlinear_arith)
            requires
                i < ph_count,
                ph_entry_size >= 56,
        ;
        let at: usize = (ph_offset + i * ph_entry_size) as usize;
        proof {
            reveal_with_fuel(pow256, 9);
        }
        let ph = ProgramHeader {
            type_: field(data, at, 4) as u32,
            flags: field(data, at + 4, 4) as u32,
            offset: field(data, at + 8, 8),
            virtual_addr: field(data, at + 16, 8),
            physical_addr: field(data, at + 24, 8),
            file_size: field(data, at + 32, 8),
            mem_size: field(data, at + 40, 8),
            align: field(data, at + 48, 8),
        };
        phs.push(ph);
        i = i + 1;
    }
    assert(phs@ =~= spec_program_headers(data@));
    Some(phs)
}

} // verus!
