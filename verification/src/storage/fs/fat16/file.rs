//! An open file of a FAT16 volume.

use super::directory::DirEntry;
use super::Cluster;
use super::Fat16Bpb;
use super::Fat16Impl;
use crate::storage::read_whole_block;
use crate::storage::Block;
use crate::storage::BlockDevice;
use crate::storage::FsError;
use crate::storage::BLOCK_SIZE;
use vstd::prelude::*;

verus! {

/// A file that is being read: how far the reader has come, and in which
/// cluster that place lies.
#[derive(Clone, Copy, Debug, PartialEq, Eq)]
pub struct File {
    /// Bytes read so far.
    pub offset: usize,
    /// The cluster that holds the next byte.
    pub current_cluster: Cluster,
    /// What the directory says about the file.
    pub entry: DirEntry,
}

/// Bytes in a cluster of the volume that `bpb` describes.
pub open spec fn cluster_bytes(bpb: Fat16Bpb) -> int {
    bpb.sectors_per_cluster * 512
}

/// The part of a sector that one step of a read takes: the sector, the
/// place of the first byte in it, and the number of bytes.
pub struct Chunk {
    pub sector: usize,
    pub from: usize,
    pub count: usize,
}

/// `buf` with the bytes of `bytes` put in from the place `at` on.
pub open spec fn patched(buf: Seq<u8>, at: int, bytes: Seq<u8>) -> Seq<u8> {
    Seq::new(
        buf.len(),
        |i: int|
            if at <= i < at + bytes.len() {
                bytes[i - at]
            } else {
                buf[i]
            },
    )
}

/// Puts `count` bytes of `block`, from the place `from` on, into `buf` from
/// the place `at` on. All other bytes of `buf` stay as they are.
pub fn copy_from_block(block: &Block, from: usize, buf: &mut Vec<u8>, at: usize, count: usize)
    requires
        block.wf(),
        from + count <= BLOCK_SIZE,
        at + count <= old(buf).len(),
    ensures
        final(buf)@ == patched(old(buf)@, at as int, block.bytes@.subrange(from as int, from + count)),
{
    let mut k: usize = 0;
    while k < count
        invariant
            k <= count,
            block.wf(),
            from + count <= BLOCK_SIZE,
            at + count <= buf.len(),
            buf@.len() == old(buf)@.len(),
            buf@ == patched(old(buf)@, at as int, block.bytes@.subrange(from as int, from + k)),
        decreases count - k,
    {
        buf.set(at + k, block.bytes[from + k]);
        k = k + 1;
        assert(buf@ =~= patched(
            old(buf)@,
            at as int,
            block.bytes@.subrange(from as int, from + k),
        ));
    }
}

/// The number of bytes that a read at `offset` of a file of `length` bytes
/// delivers at most into a buffer of `wanted` bytes: what is left of the
/// file, and no more than the buffer holds.
pub open spec fn readable_bytes(offset: usize, length: usize, wanted: usize) -> int {
    if offset >= length {
        0
    } else if wanted <= length - offset {
        wanted as int
    } else {
        length - offset
    }
}

impl File {
    /// The file of `entry`, with nothing read yet.
    pub fn new(entry: DirEntry) -> (file: File)
        ensures
            file.offset == 0,
            file.current_cluster == entry.cluster,
            file.entry == entry,
    {
        File { offset: 0, current_cluster: entry.cluster, entry }
    }

    /// The file's length in bytes.
    pub fn length(&self) -> (bytes: usize)
        ensures
            bytes == self.entry.size as usize,
    {
        self.entry.size as usize
    }

    /// The number of bytes that a read into a buffer of `wanted` bytes
    /// delivers at most; see [`readable_bytes`].
    pub fn readable(&self, wanted: usize) -> (bytes: usize)
        ensures
            bytes == readable_bytes(self.offset, self.entry.size as usize, wanted),
    {
        if self.offset >= self.length() {
            return 0;
        }
        let remaining_bytes: usize = self.length() - self.offset;
        if wanted <= remaining_bytes {
            wanted
        } else {
            remaining_bytes
        }
    }

    /// Where the next bytes of the file lie, and how many of them the next
    /// read of a sector delivers when `wanted` bytes are asked for: the
    /// sector of the current cluster that holds the file's offset, the
    /// place of the offset in that sector, and as many bytes as are wanted
    /// and left in the sector.
    pub fn chunk<T: BlockDevice>(&self, volume: &Fat16Impl<T>, wanted: usize) -> (chunk: Chunk)
        requires
            volume.wf(),
            volume.bpb.sectors_per_cluster > 0,
            2 <= self.current_cluster.0 <= 0xFFFF,
            wanted > 0,
        ensures
            chunk.from == ((self.offset as int) % cluster_bytes(volume.bpb)) % 512,
            chunk.sector == (self.current_cluster.0 - 2) * volume.bpb.sectors_per_cluster
                + volume.first_data_sector + ((self.offset as int) % cluster_bytes(volume.bpb)) / 512,
            chunk.count == (if wanted <= 512 - chunk.from {
                wanted as int
            } else {
                512 - chunk.from
            }),
            1 <= chunk.count,
            chunk.from + chunk.count <= BLOCK_SIZE,
    {
        let per_cluster: usize = volume.bpb.sectors_per_cluster as usize;
        let cluster_size: usize = per_cluster * BLOCK_SIZE;
        let offset_in_cluster: usize = self.offset % cluster_size;
        let offset_in_sector: usize = offset_in_cluster % BLOCK_SIZE;
        let bytes_left_in_sector: usize = BLOCK_SIZE - offset_in_sector;
        let mut count: usize = wanted;
        if bytes_left_in_sector < count {
            count = bytes_left_in_sector;
        }
        let sector: usize = volume.cluster_to_sector(&self.current_cluster) + offset_in_cluster
            / BLOCK_SIZE;
        Chunk { sector, from: offset_in_sector, count }
    }

    /// Reads from the file into the front of `buf`, beginning where the
    /// last read ended, and returns the number of bytes read.
    ///
    /// The read goes sector by sector through the file's clusters: it asks
    /// the device for the sector that [`Self::chunk`] names and takes the
    /// bytes over with [`copy_from_block`]. It ends when the buffer is full,
    /// the file is at its end, or, at the end of a cluster, the allocation
    /// table names no next cluster. What is behind the bytes read in `buf`
    /// stays as it was.
    ///
    /// - When nothing is left to read or the buffer is empty, the result is
    ///   0 and nothing changes.
    /// - Else `InvalidOperation`, with nothing changed, for a volume whose
    ///   clusters have no sectors.
    /// - Else `BadCluster`, with nothing changed, when the file's current
    ///   cluster is no cluster of data.
    /// - Else the device decides. A read that succeeds delivers at least
    ///   one byte. An error of the device ends the read; the bytes read
    ///   before it stay read.
    pub fn read<T: BlockDevice>(&mut self, volume: &Fat16Impl<T>, buf: &mut Vec<u8>) -> (result:
        Result<usize, FsError>)
        requires
            volume.wf(),
        ensures
            final(buf)@.len() == old(buf)@.len(),
            final(self).entry == old(self).entry,
            old(self).offset <= final(self).offset,
            final(self).offset - old(self).offset <= readable_bytes(
                old(self).offset,
                old(self).entry.size as usize,
                old(buf).len(),
            ),
            final(self).offset == old(self).offset ==> final(self).current_cluster == old(
                self,
            ).current_cluster && final(buf)@ == old(buf)@,
            forall|i: int|
                final(self).offset - old(self).offset <= i < old(buf)@.len() ==> final(buf)@[i]
                    == old(buf)@[i],
            readable_bytes(old(self).offset, old(self).entry.size as usize, old(buf).len())
                == 0 ==> result == Ok::<usize, FsError>(0),
            readable_bytes(old(self).offset, old(self).entry.size as usize, old(buf).len()) > 0
                && volume.bpb.sectors_per_cluster == 0 ==> result == Err::<usize, FsError>(
                FsError::InvalidOperation,
            ),
            readable_bytes(old(self).offset, old(self).entry.size as usize, old(buf).len()) > 0
                && volume.bpb.sectors_per_cluster > 0 && !(2 <= old(self).current_cluster.0
                <= 0xFFFF) ==> result == Err::<usize, FsError>(FsError::BadCluster),
            result is Err ==> readable_bytes(
                old(self).offset,
                old(self).entry.size as usize,
                old(buf).len(),
            ) > 0,
            result matches Ok(count) ==> {
                &&& count == final(self).offset - old(self).offset
                &&& readable_bytes(
                    old(self).offset,
                    old(self).entry.size as usize,
                    old(buf).len(),
                ) > 0 ==> count >= 1
                &&& count == readable_bytes(
                    old(self).offset,
                    old(self).entry.size as usize,
                    old(buf).len(),
                ) || (final(self).offset as int) % cluster_bytes(volume.bpb) == 0
            },
    {
        let bytes_to_read: usize = self.readable(buf.len());
        if bytes_to_read == 0 {
            return Ok(0);
        }
        let per_cluster: usize = volume.bpb.sectors_per_cluster as usize;
        if per_cluster == 0 {
            return Err(FsError::InvalidOperation);
        }
        let cluster_size: usize = per_cluster * BLOCK_SIZE;
        let length: usize = self.length();
        let start: usize = self.offset;
        let mut bytes_read: usize = 0;
        while bytes_read < bytes_to_read
            invariant
                volume.wf(),
                bytes_read <= bytes_to_read,
                0 < bytes_to_read,
                bytes_to_read == readable_bytes(
                    old(self).offset,
                    old(self).entry.size as usize,
                    old(buf).len(),
                ),
                bytes_to_read <= buf@.len(),
                bytes_to_read <= length - start,
                start == old(self).offset,
                length == old(self).entry.size as usize,
                self.entry == old(self).entry,
                self.offset == start + bytes_read,
                buf@.len() == old(buf)@.len(),
                0 < per_cluster <= 255,
                per_cluster == volume.bpb.sectors_per_cluster,
                cluster_size == cluster_bytes(volume.bpb),
                bytes_read == 0 ==> self.current_cluster == old(self).current_cluster && buf@
                    == old(buf)@,
                bytes_read > 0 ==> 2 <= old(self).current_cluster.0 <= 0xFFFF,
                forall|i: int| bytes_read <= i < old(buf)@.len() ==> buf@[i] == old(buf)@[i],
            ensures
                1 <= bytes_read <= bytes_to_read,
                2 <= old(self).current_cluster.0 <= 0xFFFF,
                self.offset == start + bytes_read,
                self.entry == old(self).entry,
                buf@.len() == old(buf)@.len(),
                bytes_read == bytes_to_read || self.offset % cluster_size == 0,
                forall|i: int| bytes_read <= i < old(buf)@.len() ==> buf@[i] == old(buf)@[i],
            decreases bytes_to_read - bytes_read,
        {
            if self.current_cluster.0 < 2 || self.current_cluster.0 > 0xFFFF {
                return Err(FsError::BadCluster);
            }
            let chunk: Chunk = self.chunk(volume, bytes_to_read - bytes_read);
            let sector_buffer: Block = match read_whole_block(&volume.inner, chunk.sector) {
                Ok(block) => block,
                Err(e) => {
                    return Err(e);
                },
            };
            copy_from_block(&sector_buffer, chunk.from, buf, bytes_read, chunk.count);
            self.offset = self.offset + chunk.count;
            bytes_read = bytes_read + chunk.count;
            if self.offset % cluster_size == 0 {
                match volume.next_cluster(&self.current_cluster) {
                    Ok(next_cluster) => {
                        self.current_cluster = next_cluster;
                    },
                    Err(_) => {
                        break ;
                    },
                }
            }
        }
        Ok(bytes_read)
    }
}

} // verus!
