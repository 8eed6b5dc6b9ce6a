//! The partition table of a master boot record.
//!
//! The first block of a disk ends with four entries of sixteen bytes, one
//! for each partition, from byte 446 on.

use super::Partition;
use super::PartitionTable;
use crate::storage::le32;
use crate::storage::read_le32;
use crate::storage::read_whole_block;
use crate::storage::Block;
use crate::storage::BlockDevice;
use crate::storage::FsError;
use vstd::prelude::*;

verus! {

/// Where the first entry begins in the block.
pub const TABLE_START: usize = 446;

/// Bytes in an entry.
pub const ENTRY_SIZE: usize = 16;

/// The status byte of a partition that can be booted from.
pub const ACTIVE: u8 = 0x80;

/// One entry of the table.
#[derive(Clone, Copy, Debug, PartialEq, Eq, Structural)]
pub struct MbrPartition {
    /// The status byte: `ACTIVE` for a partition to boot from.
    pub status: u8,
    /// The type of the partition.
    pub partition_type: u8,
    /// The number of the partition's first block.
    pub begin_lba: u32,
    /// The number of blocks in the partition.
    pub total_lba: u32,
}

/// The entry that the sixteen bytes of `bytes` from `at` on hold.
pub open spec fn entry_at(bytes: Seq<u8>, at: int) -> MbrPartition {
    MbrPartition {
        status: bytes[at],
        partition_type: bytes[at + 4],
        begin_lba: le32(bytes, at + 8) as u32,
        total_lba: le32(bytes, at + 12) as u32,
    }
}

impl MbrPartition {
    /// Reads the entry that begins at byte `at` of `bytes`.
    pub fn parse(bytes: &Vec<u8>, at: usize) -> (entry: MbrPartition)
        requires
            at + ENTRY_SIZE <= bytes.len(),
        ensures
            entry == entry_at(bytes@, at as int),
    {
        MbrPartition {
            status: bytes[at],
            partition_type: bytes[at + 4],
            begin_lba: read_le32(bytes, at + 8),
            total_lba: read_le32(bytes, at + 12),
        }
    }

    /// True when the partition is marked as the one to boot from.
    pub fn is_active(&self) -> (active: bool)
        ensures
            active == (self.status == ACTIVE),
    {
        self.status == ACTIVE
    }

    /// The number of the partition's first block.
    pub fn begin_lba(&self) -> (lba: u32)
        ensures
            lba == self.begin_lba,
    {
        self.begin_lba
    }

    /// The number of blocks in the partition.
    pub fn total_lba(&self) -> (lba: u32)
        ensures
            lba == self.total_lba,
    {
        self.total_lba
    }
}

/// The four entries of the table in `block`.
pub fn parse_entries(block: &Block) -> (entries: Vec<MbrPartition>)
    requires
        block.wf(),
    ensures
        entries@.len() == 4,
        forall|i: int|
            0 <= i < 4 ==> #[trigger] entries@[i] == entry_at(block.bytes@, TABLE_START + i * ENTRY_SIZE),
{
    let mut entries: Vec<MbrPartition> = Vec::new();
    let mut i: usize = 0;
    while i < 4
        invariant
            i <= 4,
            block.wf(),
            entries@.len() == i,
            forall|j: int|
                0 <= j < i ==> #[trigger] entries@[j] == entry_at(
                    block.bytes@,
                    TABLE_START + j * ENTRY_SIZE,
                ),
        decreases 4 - i,
    {
        let entry_offset: usize = TABLE_START + i * ENTRY_SIZE;
        entries.push(MbrPartition::parse(&block.bytes, entry_offset));
        i = i + 1;
    }
    entries
}

/// The places in `entries` of the active partitions among the first `n`,
/// in rising order.
pub open spec fn active_among(entries: Seq<MbrPartition>, n: nat) -> Seq<int>
    decreases n,
{
    if n == 0 {
        Seq::empty()
    } else {
        let before = active_among(entries, (n - 1) as nat);
        if entries[n - 1].status == ACTIVE {
            before.push(n - 1)
        } else {
            before
        }
    }
}

/// The partition table of a device.
pub struct MbrTable<T: BlockDevice + Clone> {
    pub inner: T,
    pub partitions: Vec<MbrPartition>,
}

impl<T: BlockDevice + Clone> MbrTable<T> {
    /// The table lists four partitions.
    pub open spec fn wf(&self) -> bool {
        self.partitions@.len() == 4
    }

    /// The table that `block`, the first block of `inner`, holds.
    pub fn from_block(inner: T, block: &Block) -> (table: MbrTable<T>)
        requires
            block.wf(),
        ensures
            table.wf(),
            table.inner == inner,
            forall|i: int|
                0 <= i < 4 ==> #[trigger] table.partitions@[i] == entry_at(
                    block.bytes@,
                    TABLE_START + i * ENTRY_SIZE,
                ),
    {
        MbrTable { inner, partitions: parse_entries(block) }
    }

    /// Where the active partitions lie: for each of them, in the order of
    /// the table, the number of its first block and the number of its
    /// blocks.
    pub fn active_extents(&self) -> (extents: Vec<(usize, usize)>)
        requires
            self.wf(),
        ensures
            extents@.len() == active_among(self.partitions@, 4).len(),
            forall|k: int|
                0 <= k < extents@.len() ==> #[trigger] extents@[k] == (
                    self.partitions@[active_among(self.partitions@, 4)[k]].begin_lba as usize,
                    self.partitions@[active_among(self.partitions@, 4)[k]].total_lba as usize,
                ),
    {
        let mut extents: Vec<(usize, usize)> = Vec::new();
        let mut i: usize = 0;
        while i < 4
            invariant
                i <= 4,
                self.wf(),
                extents@.len() == active_among(self.partitions@, i as nat).len(),
                forall|k: int|
                    0 <= k < extents@.len() ==> #[trigger] extents@[k] == (
                        self.partitions@[active_among(self.partitions@, i as nat)[k]].begin_lba as usize,
                        self.partitions@[active_among(self.partitions@, i as nat)[k]].total_lba as usize,
                    ),
            decreases 4 - i,
        {
            let part: MbrPartition = self.partitions[i];
            if part.is_active() {
                extents.push((part.begin_lba() as usize, part.total_lba() as usize));
            }
            i = i + 1;
        }
        extents
    }
}

impl<T: BlockDevice + Clone> PartitionTable<T> for MbrTable<T> {
    /// Reads the first block of `inner` and the table in it. The error is
    /// that of the device.
    fn parse(inner: T) -> (result: Result<Self, FsError>)
        ensures
            result matches Ok(table) ==> table.wf() && table.inner == inner,
    {
        match read_whole_block(&inner, 0) {
            Ok(block) => Ok(MbrTable::from_block(inner, &block)),
            Err(e) => Err(e),
        }
    }

    /// The active partitions of the table, in its order, each on a clone of
    /// the device: every partition begins at the block and has the number
    /// of blocks that its entry names. `InvalidOperation` for a table that
    /// does not list four partitions.
    fn partitions(&self) -> (result: Result<Vec<Partition<T>>, FsError>)
        ensures
            result is Ok <==> self.partitions@.len() == 4,
            result matches Err(e) ==> e == FsError::InvalidOperation,
            result matches Ok(parts) ==> {
                let active = active_among(self.partitions@, 4);
                &&& parts@.len() == active.len()
                &&& forall|k: int|
                    0 <= k < parts@.len() ==> (#[trigger] parts@[k]).offset
                        == self.partitions@[active[k]].begin_lba as usize && parts@[k].size
                        == self.partitions@[active[k]].total_lba as usize
            },
    {
        if self.partitions.len() != 4 {
            return Err(FsError::InvalidOperation);
        }
        let extents = self.active_extents();
        let mut parts: Vec<Partition<T>> = Vec::new();
        let mut k: usize = 0;
        while k < extents.len()
            invariant
                k <= extents.len(),
                parts@.len() == k,
                forall|j: int|
                    0 <= j < k ==> (#[trigger] parts@[j]).offset == extents@[j].0 && parts@[j].size
                        == extents@[j].1,
            decreases extents.len() - k,
        {
            let (begin, total) = extents[k];
            parts.push(Partition::new(self.inner.clone(), begin, total));
            k = k + 1;
        }
        Ok(parts)
    }
}

} // verus!
