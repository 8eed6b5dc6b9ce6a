//! Partitions: a run of blocks of a device, seen as a device of its own.

pub mod mbr;

use super::Block;
use super::BlockDevice;
use super::FsError;
use vstd::prelude::*;

verus! {

/// A table of the partitions of a device.
pub trait PartitionTable<T: BlockDevice>: Sized {
    /// Reads the table from the device.
    fn parse(inner: T) -> Result<Self, FsError>;

    /// The partitions that the table lists.
    fn partitions(&self) -> Result<Vec<Partition<T>>, FsError>;
}

/// A run of `size` blocks of the device `inner`, beginning with the block
/// number `offset`.
pub struct Partition<T: BlockDevice> {
    pub inner: T,
    pub offset: usize,
    pub size: usize,
}

impl<T: BlockDevice> Partition<T> {
    /// The partition of `inner` that begins at block `offset` and has
    /// `size` blocks.
    pub fn new(inner: T, offset: usize, size: usize) -> (partition: Partition<T>)
        ensures
            partition.inner == inner,
            partition.offset == offset,
            partition.size == size,
    {
        Partition { inner, offset, size }
    }

    /// The number that the device gives to block `offset` of the partition.
    /// `InvalidOffset` for a block beyond the partition's size, and for one
    /// whose number on the device no `usize` holds.
    pub fn translate(&self, offset: usize) -> (result: Result<usize, FsError>)
        ensures
            result == self.translate_spec(offset),
    {
        if offset >= self.size {
            return Err(FsError::InvalidOffset);
        }
        match self.offset.checked_add(offset) {
            Some(block_offset) => Ok(block_offset),
            None => Err(FsError::InvalidOffset),
        }
    }
}

impl<T: BlockDevice> BlockDevice for Partition<T> {
    /// The number of blocks of the device that holds the partition.
    fn block_count(&self) -> Result<usize, FsError> {
        self.inner.block_count()
    }

    /// Reads block `offset` of the partition: the block of the device that
    /// `translate` names. Without such a block the result is
    /// `InvalidOffset`, and `block` is as it was.
    fn read_block(&self, offset: usize, block: &mut Block) -> (result: Result<(), FsError>)
        ensures
            self.translate_spec(offset) is Err ==> result == Err::<(), FsError>(
                FsError::InvalidOffset,
            ) && *final(block) == *old(block),
    {
        match self.translate(offset) {
            Ok(block_offset) => self.inner.read_block(block_offset, block),
            Err(e) => Err(e),
        }
    }
}

impl<T: BlockDevice> Partition<T> {
    /// What `translate(offset)` returns.
    pub open spec fn translate_spec(&self, offset: usize) -> Result<usize, FsError> {
        if offset < self.size && self.offset + offset <= usize::MAX {
            Ok((self.offset + offset) as usize)
        } else {
            Err(FsError::InvalidOffset)
        }
    }
}

} // verus!
