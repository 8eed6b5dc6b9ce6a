//! Block devices and what is laid out on them.

pub mod fs;
pub mod partition;

use vstd::prelude::*;

verus! {

/// Bytes in a block.
pub const BLOCK_SIZE: usize = 512;

/// Why an operation on storage failed.
#[derive(Clone, Copy, Debug, PartialEq, Eq, Structural)]
pub enum FsError {
    FileNotFound,
    InvalidOperation,
    BadCluster,
    EndOfFile,
    NotInSector,
    NotADirectory,
    NotAFile,
    InvalidOffset,
    DeviceError,
    FileNameError,
}

/// One block of a device.
pub struct Block {
    pub bytes: Vec<u8>,
}

impl Block {
    /// A block holds `BLOCK_SIZE` bytes.
    pub open spec fn wf(&self) -> bool {
        self.bytes@.len() == BLOCK_SIZE
    }

    /// A block of zeros.
    pub fn new() -> (block: Block)
        ensures
            block.wf(),
            forall|i: int| 0 <= i < BLOCK_SIZE ==> block.bytes@[i] == 0u8,
    {
        let mut bytes: Vec<u8> = Vec::new();
        let mut i: usize = 0;
        while i < BLOCK_SIZE
            invariant
                i <= BLOCK_SIZE,
                bytes@.len() == i,
                forall|j: int| 0 <= j < i ==> bytes@[j] == 0u8,
            decreases BLOCK_SIZE - i,
        {
            bytes.push(0u8);
            i = i + 1;
        }
        Block { bytes }
    }
}

/// The two bytes of `bytes` at `at`, read as a little-endian number.
pub open spec fn le16(bytes: Seq<u8>, at: int) -> int {
    bytes[at] + 256 * bytes[at + 1]
}

/// The four bytes of `bytes` at `at`, read as a little-endian number.
pub open spec fn le32(bytes: Seq<u8>, at: int) -> int {
    bytes[at] + 256 * bytes[at + 1] + 65536 * bytes[at + 2] + 16777216 * bytes[at + 3]
}

/// Reads two bytes as a little-endian number.
pub fn read_le16(bytes: &Vec<u8>, at: usize) -> (value: u16)
    requires
        at + 2 <= bytes.len(),
    ensures
        value == le16(bytes@, at as int),
{
    let low: u16 = bytes[at] as u16;
    let high: u16 = bytes[at + 1] as u16;
    low + 256 * high
}

/// Reads four bytes as a little-endian number.
pub fn read_le32(bytes: &Vec<u8>, at: usize) -> (value: u32)
    requires
        at + 4 <= bytes.len(),
    ensures
        value == le32(bytes@, at as int),
{
    let b0: u32 = bytes[at] as u32;
    let b1: u32 = bytes[at + 1] as u32;
    let b2: u32 = bytes[at + 2] as u32;
    let b3: u32 = bytes[at + 3] as u32;
    b0 + 256 * b1 + 65536 * b2 + 16777216 * b3
}

/// A device that is read block by block.
///
/// The functions say nothing of what a block holds: that is for the device
/// to know.
pub trait BlockDevice {
    /// The number of blocks of the device.
    fn block_count(&self) -> Result<usize, FsError>;

    /// Reads the block number `offset` into `block`.
    fn read_block(&self, offset: usize, block: &mut Block) -> Result<(), FsError>;
}

/// What a read makes of the answer of a device and of the block that the
/// device has filled: the block, when the device reports success and the
/// block is one block long; `DeviceError`, when it reports success and the
/// block has another length; and else the error that the device reports.
pub open spec fn accepted(answer: Result<(), FsError>, block: Block) -> Result<Block, FsError> {
    match answer {
        Ok(()) => if block.wf() {
            Ok(block)
        } else {
            Err(FsError::DeviceError)
        },
        Err(e) => Err(e),
    }
}

/// Decides what a read returns, given the answer of the device and the
/// block that the device has filled; see [`accepted`].
pub fn accept_block(answer: Result<(), FsError>, block: Block) -> (result: Result<Block, FsError>)
    ensures
        result == accepted(answer, block),
{
    match answer {
        Ok(()) => if block.bytes.len() == BLOCK_SIZE {
            Ok(block)
        } else {
            Err(FsError::DeviceError)
        },
        Err(e) => Err(e),
    }
}

/// Reads the block number `offset` of `device`. The error is that of the
/// device, or `DeviceError` when the device hands over something that is
/// not one block long; see [`accept_block`], which decides on the answer
/// of the device.
pub fn read_whole_block<T: BlockDevice>(
    device: &T,
    offset: usize,
) -> (result: Result<Block, FsError>)
    ensures
        result matches Ok(block) ==> block.wf(),
{
    let mut block = Block::new();
    let answer = device.read_block(offset, &mut block);
    accept_block(answer, block)
}

} // verus!
