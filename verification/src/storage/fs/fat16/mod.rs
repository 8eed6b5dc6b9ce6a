//! The FAT16 file system: where its parts lie on the volume, and how the
//! clusters of a file follow each other.

pub mod directory;
pub mod file;

use self::directory::find_in_block;
use self::directory::list_block;
use self::directory::short_name;
use self::directory::DirEntry;
use self::directory::Directory;
use self::directory::ShortFileName;
use crate::storage::le16;
use crate::storage::read_le16;
use crate::storage::read_whole_block;
use crate::storage::Block;
use crate::storage::BlockDevice;
use crate::storage::FsError;
use crate::storage::BLOCK_SIZE;
use vstd::prelude::*;

verus! {

/// The number that stands for the root directory where a cluster is
/// expected.
pub const ROOT_DIR: u32 = 0xFFFF_FFFC;

/// The entry of the allocation table that marks a bad cluster.
pub const BAD_CLUSTER: u16 = 0xFFF7;

/// The lowest entry of the allocation table that marks the end of a file.
pub const END_OF_FILE: u16 = 0xFFF8;

/// The number of a cluster.
#[derive(Clone, Copy, Debug, PartialEq, Eq, Structural)]
pub struct Cluster(pub u32);

/// What the first block of a FAT16 volume says about the volume.
#[derive(Clone, Copy, Debug, PartialEq, Eq, Structural)]
pub struct Fat16Bpb {
    pub bytes_per_sector: u16,
    pub sectors_per_cluster: u8,
    pub reserved_sector_count: u16,
    pub fat_count: u8,
    pub root_entries_count: u16,
    pub sectors_per_fat: u16,
}

/// True when `bytes` ends as a boot block must: with the bytes 0x55 and
/// 0xAA.
pub open spec fn has_signature(bytes: Seq<u8>) -> bool {
    bytes[510] == 0x55 && bytes[511] == 0xAA
}

/// What the boot block `bytes` says about its volume.
pub open spec fn bpb_of(bytes: Seq<u8>) -> Fat16Bpb {
    Fat16Bpb {
        bytes_per_sector: le16(bytes, 11) as u16,
        sectors_per_cluster: bytes[13],
        reserved_sector_count: le16(bytes, 14) as u16,
        fat_count: bytes[16],
        root_entries_count: le16(bytes, 17) as u16,
        sectors_per_fat: le16(bytes, 22) as u16,
    }
}

impl Fat16Bpb {
    /// Reads the description of a volume from its first block.
    /// `InvalidOperation` when the block does not end with the signature.
    pub fn new(block: &Block) -> (result: Result<Fat16Bpb, FsError>)
        requires
            block.wf(),
        ensures
            result == (if has_signature(block.bytes@) {
                Ok(bpb_of(block.bytes@))
            } else {
                Err(FsError::InvalidOperation)
            }),
    {
        if block.bytes[510] != 0x55 || block.bytes[511] != 0xAA {
            return Err(FsError::InvalidOperation);
        }
        Ok(
            Fat16Bpb {
                bytes_per_sector: read_le16(&block.bytes, 11),
                sectors_per_cluster: block.bytes[13],
                reserved_sector_count: read_le16(&block.bytes, 14),
                fat_count: block.bytes[16],
                root_entries_count: read_le16(&block.bytes, 17),
                sectors_per_fat: read_le16(&block.bytes, 22),
            },
        )
    }
}

/// Where the allocation table keeps the entry of a cluster: the sector, and
/// the byte in it.
pub struct FatLocation {
    pub sector: usize,
    pub offset: usize,
}

/// What an entry of the allocation table says comes after a cluster.
pub open spec fn successor(fat_entry: u16) -> Result<Cluster, FsError> {
    if fat_entry == BAD_CLUSTER {
        Err(FsError::BadCluster)
    } else if fat_entry >= END_OF_FILE {
        Err(FsError::EndOfFile)
    } else {
        Ok(Cluster(fat_entry as u32))
    }
}

/// Reads the entry at byte `offset` of a sector of the allocation table
/// and says what comes after the cluster it belongs to: `BadCluster` for
/// the entry 0xFFF7, `EndOfFile` for one from 0xFFF8 on, and else the
/// cluster of that number.
pub fn decode_fat_entry(block: &Block, offset: usize) -> (next: Result<Cluster, FsError>)
    requires
        block.wf(),
        offset + 2 <= BLOCK_SIZE,
    ensures
        next == successor(le16(block.bytes@, offset as int) as u16),
{
    let fat_entry: u16 = read_le16(&block.bytes, offset);
    if fat_entry == BAD_CLUSTER {
        Err(FsError::BadCluster)
    } else if fat_entry >= END_OF_FILE {
        Err(FsError::EndOfFile)
    } else {
        Ok(Cluster(fat_entry as u32))
    }
}

/// A FAT16 volume on the device `inner`.
pub struct Fat16Impl<T: BlockDevice> {
    pub inner: T,
    pub bpb: Fat16Bpb,
    /// The first sector of the allocation table.
    pub fat_start: usize,
    /// The first sector of the clusters.
    pub first_data_sector: usize,
    /// The first sector of the root directory.
    pub first_root_dir_sector: usize,
}

/// The sectors that the root directory takes: as many as hold all its
/// entries.
pub open spec fn root_dir_sectors(bpb: Fat16Bpb) -> int {
    (bpb.root_entries_count * 32 + 511) / 512
}

/// The first sector of the root directory: behind the reserved sectors and
/// the allocation tables.
pub open spec fn root_dir_start(bpb: Fat16Bpb) -> int {
    bpb.reserved_sector_count + bpb.fat_count * bpb.sectors_per_fat
}

impl<T: BlockDevice> Fat16Impl<T> {
    /// The three sector numbers are those that the description of the
    /// volume gives.
    pub open spec fn wf(&self) -> bool {
        &&& self.fat_start == self.bpb.reserved_sector_count
        &&& self.first_root_dir_sector == root_dir_start(self.bpb)
        &&& self.first_data_sector == root_dir_start(self.bpb) + root_dir_sectors(self.bpb)
    }

    /// The volume that `bpb` describes, on `inner`.
    pub fn with_bpb(inner: T, bpb: Fat16Bpb) -> (volume: Fat16Impl<T>)
        ensures
            volume.wf(),
            volume.inner == inner,
            volume.bpb == bpb,
    {
        let fat_start: usize = bpb.reserved_sector_count as usize;
        let root_entries: usize = bpb.root_entries_count as usize;
        let root_dir_size: usize = (root_entries * directory::ENTRY_LEN + (BLOCK_SIZE - 1)) / BLOCK_SIZE;
        let fat_count: usize = bpb.fat_count as usize;
        let sectors_per_fat: usize = bpb.sectors_per_fat as usize;
        assert(fat_count * sectors_per_fat <= 255 * 65535) by (nonlinear_arith)
            requires
                fat_count <= 255,
                sectors_per_fat <= 65535,
        ;
        let first_root_dir_sector: usize = fat_start + fat_count * sectors_per_fat;
        let first_data_sector: usize = first_root_dir_sector + root_dir_size;
        Fat16Impl { inner, bpb, fat_start, first_data_sector, first_root_dir_sector }
    }

    /// The volume on `inner` whose first block is `block`: the volume that
    /// the block describes, or `InvalidOperation` for a block without the
    /// signature.
    pub fn from_boot_block(inner: T, block: &Block) -> (result: Result<Fat16Impl<T>, FsError>)
        requires
            block.wf(),
        ensures
            result is Ok <==> has_signature(block.bytes@),
            result matches Ok(volume) ==> volume.wf() && volume.inner == inner && volume.bpb
                == bpb_of(block.bytes@),
            result matches Err(e) ==> e == FsError::InvalidOperation,
    {
        match Fat16Bpb::new(block) {
            Ok(bpb) => Ok(Fat16Impl::with_bpb(inner, bpb)),
            Err(e) => Err(e),
        }
    }

    /// Opens the volume on `inner`: reads its first block and takes the
    /// description from it, see [`Self::from_boot_block`]. The error is that
    /// of the device, or `InvalidOperation` for a block without the
    /// signature.
    pub fn new(inner: T) -> (result: Result<Fat16Impl<T>, FsError>)
        ensures
            result matches Ok(volume) ==> volume.wf() && volume.inner == inner,
    {
        match read_whole_block(&inner, 0) {
            Ok(block) => Fat16Impl::from_boot_block(inner, &block),
            Err(e) => Err(e),
        }
    }

    /// The first sector of `cluster`. The root directory begins at its own
    /// first sector; cluster number `n` begins `n - 2` clusters behind the
    /// first data sector.
    pub fn cluster_to_sector(&self, cluster: &Cluster) -> (sector: usize)
        requires
            self.wf(),
            cluster.0 == ROOT_DIR || 2 <= cluster.0 <= 0xFFFF,
        ensures
            sector == (if cluster.0 == ROOT_DIR {
                self.first_root_dir_sector as int
            } else {
                (cluster.0 - 2) * self.bpb.sectors_per_cluster + self.first_data_sector
            }),
            sector < 0x2000_0000,
    {
        assert(self.bpb.fat_count * self.bpb.sectors_per_fat <= 255 * 65535) by (nonlinear_arith)
            requires
                self.bpb.fat_count <= 255,
                self.bpb.sectors_per_fat <= 65535,
        ;
        if cluster.0 == ROOT_DIR {
            self.first_root_dir_sector
        } else {
            let index: usize = (cluster.0 - 2) as usize;
            let per_cluster: usize = self.bpb.sectors_per_cluster as usize;
            assert(index * per_cluster <= 0xFFFD * 255) by (nonlinear_arith)
                requires
                    index <= 0xFFFD,
                    per_cluster <= 255,
            ;
            index * per_cluster + self.first_data_sector
        }
    }

    /// Where the allocation table keeps the entry of `cluster`: two bytes
    /// for every cluster, from the table's first sector on.
    pub fn fat_location(&self, cluster: &Cluster) -> (location: FatLocation)
        requires
            self.wf(),
            cluster.0 <= 0xFFFF,
        ensures
            location.sector == self.fat_start + (cluster.0 * 2) / 512,
            location.offset == (cluster.0 * 2) % 512,
            location.offset + 2 <= BLOCK_SIZE,
    {
        let fat_offset: usize = (cluster.0 * 2) as usize;
        FatLocation { sector: self.fat_start + fat_offset / BLOCK_SIZE, offset: fat_offset % BLOCK_SIZE }
    }

    /// The cluster that follows `cluster` in its file: reads the sector of
    /// the allocation table that holds the cluster's entry and decodes the
    /// entry, see [`decode_fat_entry`]. The error may also be that of the
    /// device.
    pub fn next_cluster(&self, cluster: &Cluster) -> (next: Result<Cluster, FsError>)
        requires
            self.wf(),
            cluster.0 <= 0xFFFF,
        ensures
            next matches Ok(following) ==> following.0 < BAD_CLUSTER,
    {
        let location = self.fat_location(cluster);
        match read_whole_block(&self.inner, location.sector) {
            Ok(block) => decode_fat_entry(&block, location.offset),
            Err(e) => Err(e),
        }
    }
}

/// The byte that separates the parts of a path.
pub const PATH_SEPARATOR: u8 = 0x2F;

/// The most clusters that a chain can have.
pub const MAX_CLUSTERS: u32 = 0x1_0000;

/// True when `cluster` can be the place of data: the root directory, or a
/// cluster from number 2 on that sixteen bits can name.
pub open spec fn data_cluster(cluster: Cluster) -> bool {
    cluster.0 == ROOT_DIR || 2 <= cluster.0 <= 0xFFFF
}

/// True when `path` names nothing: it is empty or made of separators.
pub open spec fn names_nothing(path: Seq<u8>) -> bool {
    forall|i: int| 0 <= i < path.len() ==> path[i] == PATH_SEPARATOR
}

/// The part of `path` behind its last separator, or all of it when it has
/// none.
pub open spec fn last_part(path: Seq<u8>) -> Seq<u8>
    decreases path.len(),
{
    if path.len() == 0 || path.last() == PATH_SEPARATOR {
        Seq::empty()
    } else {
        last_part(path.drop_last()).push(path.last())
    }
}

impl<T: BlockDevice> Fat16Impl<T> {
    /// The number of sectors that a directory takes in one piece: the whole
    /// root directory, or one cluster of any other.
    pub fn dir_sectors(&self, dir: &Directory) -> (sectors: usize)
        requires
            self.wf(),
        ensures
            sectors == (if dir.cluster.0 == ROOT_DIR {
                self.first_data_sector - self.first_root_dir_sector
            } else {
                self.bpb.sectors_per_cluster as int
            }),
            sectors <= 4096,
    {
        if dir.cluster.0 == ROOT_DIR {
            self.first_data_sector - self.first_root_dir_sector
        } else {
            self.bpb.sectors_per_cluster as usize
        }
    }

    /// Looks for `match_name` among the entries of the sector `sector`; see
    /// [`find_in_block`]. The error may also be that of the device.
    pub fn find_entry_in_sector(
        &self,
        match_name: &ShortFileName,
        sector: usize,
    ) -> (result: Result<DirEntry, FsError>)
        ensures
            result matches Ok(entry) ==> entry.filename.bytes@ == match_name.bytes@,
    {
        match read_whole_block(&self.inner, sector) {
            Ok(block) => find_in_block(&block, match_name),
            Err(e) => Err(e),
        }
    }

    /// True when `cluster` can be the place of data; see [`data_cluster`].
    fn is_data_cluster(cluster: &Cluster) -> (ok: bool)
        ensures
            ok == data_cluster(*cluster),
    {
        cluster.0 == ROOT_DIR || (2 <= cluster.0 && cluster.0 <= 0xFFFF)
    }

    /// Looks for the entry called `name` in the directory `dir`.
    ///
    /// The search goes through the sectors of the directory, cluster after
    /// cluster as the allocation table chains them, and returns the first
    /// entry with that name. `FileNameError` for a name that a directory
    /// cannot store, before anything is read; `FileNotFound` when the
    /// directory ends without the name. The error may also be that of the
    /// device.
    pub fn find_directory_entry(
        &self,
        dir: &Directory,
        name: &Vec<u8>,
    ) -> (result: Result<DirEntry, FsError>)
        requires
            self.wf(),
        ensures
            short_name(name@) is None ==> result == Err::<DirEntry, FsError>(FsError::FileNameError),
            result matches Ok(entry) ==> short_name(name@) == Some(entry.filename.bytes@),
    {
        let match_name: ShortFileName = match ShortFileName::parse(name) {
            Ok(match_name) => match_name,
            Err(e) => {
                return Err(e);
            },
        };
        let dir_size: usize = self.dir_sectors(dir);
        let mut cluster: Cluster = dir.cluster;
        let mut remaining: u32 = MAX_CLUSTERS;
        while remaining > 0
            invariant
                self.wf(),
                dir_size <= 4096,
                short_name(name@) == Some(match_name.bytes@),
            decreases remaining,
        {
            remaining = remaining - 1;
            if !Self::is_data_cluster(&cluster) {
                return Err(FsError::FileNotFound);
            }
            let dir_sector_num: usize = self.cluster_to_sector(&cluster);
            let mut sector: usize = dir_sector_num;
            while sector < dir_sector_num + dir_size
                invariant
                    dir_sector_num <= sector <= dir_sector_num + dir_size,
                    dir_sector_num + dir_size < usize::MAX,
                    short_name(name@) == Some(match_name.bytes@),
                decreases dir_sector_num + dir_size - sector,
            {
                match self.find_entry_in_sector(&match_name, sector) {
                    Err(FsError::NotInSector) => {},
                    Ok(entry) => {
                        return Ok(entry);
                    },
                    Err(e) => {
                        return Err(e);
                    },
                }
                sector = sector + 1;
            }
            if cluster.0 == ROOT_DIR {
                return Err(FsError::FileNotFound);
            }
            match self.next_cluster(&cluster) {
                Ok(n) => {
                    cluster = n;
                },
                Err(_) => {
                    return Err(FsError::FileNotFound);
                },
            }
        }
        Err(FsError::FileNotFound)
    }

    /// The entries of the directory `dir` that name something under a short
    /// name, in the order of the directory, up to the entry that ends it;
    /// see [`list_block`], which lists what a block of the directory holds.
    ///
    /// Every entry of the result names something under a short name. A
    /// directory whose first cluster is no place of data has no entries, and
    /// neither has a root directory without sectors; nothing is read for
    /// them. The error is that of the device.
    pub fn iterate_dir(&self, dir: &Directory) -> (result: Result<Vec<DirEntry>, FsError>)
        requires
            self.wf(),
        ensures
            result matches Ok(entries) ==> forall|k: int|
                0 <= k < entries@.len() ==> (#[trigger] entries@[k]).listed(),
            !data_cluster(dir.cluster) ==> (result matches Ok(entries) && entries@.len() == 0),
            dir.cluster.0 == ROOT_DIR && self.first_data_sector == self.first_root_dir_sector ==> (
            result matches Ok(entries) && entries@.len() == 0),
    {
        let mut entries: Vec<DirEntry> = Vec::new();
        let dir_size: usize = self.dir_sectors(dir);
        let mut cluster: Cluster = dir.cluster;
        let mut remaining: u32 = MAX_CLUSTERS;
        while remaining > 0
            invariant
                self.wf(),
                remaining <= MAX_CLUSTERS,
                dir_size <= 4096,
                dir_size == (if dir.cluster.0 == ROOT_DIR {
                    self.first_data_sector - self.first_root_dir_sector
                } else {
                    self.bpb.sectors_per_cluster as int
                }),
                remaining == MAX_CLUSTERS ==> cluster == dir.cluster && entries@.len() == 0,
                remaining < MAX_CLUSTERS ==> data_cluster(dir.cluster) && dir.cluster.0 != ROOT_DIR,
                forall|k: int| 0 <= k < entries@.len() ==> (#[trigger] entries@[k]).listed(),
            decreases remaining,
        {
            let ghost first: bool = remaining == MAX_CLUSTERS;
            remaining = remaining - 1;
            if !Self::is_data_cluster(&cluster) {
                return Ok(entries);
            }
            let dir_sector_num: usize = self.cluster_to_sector(&cluster);
            let ghost listed_before = entries@.len();
            let mut sector: usize = dir_sector_num;
            while sector < dir_sector_num + dir_size
                invariant
                    dir_sector_num <= sector <= dir_sector_num + dir_size,
                    dir_sector_num + dir_size < usize::MAX,
                    data_cluster(dir.cluster),
                    !first ==> dir.cluster.0 != ROOT_DIR,
                    dir_size == (if dir.cluster.0 == ROOT_DIR {
                        self.first_data_sector - self.first_root_dir_sector
                    } else {
                        self.bpb.sectors_per_cluster as int
                    }),
                    sector == dir_sector_num ==> entries@.len() == listed_before,
                    forall|k: int| 0 <= k < entries@.len() ==> (#[trigger] entries@[k]).listed(),
                decreases dir_sector_num + dir_size - sector,
            {
                let block: Block = match read_whole_block(&self.inner, sector) {
                    Ok(block) => block,
                    Err(e) => {
                        return Err(e);
                    },
                };
                if list_block(&block, &mut entries) {
                    return Ok(entries);
                }
                sector = sector + 1;
            }
            if cluster.0 == ROOT_DIR {
                return Ok(entries);
            }
            match self.next_cluster(&cluster) {
                Ok(n) => {
                    cluster = n;
                },
                Err(_) => {
                    return Ok(entries);
                },
            }
        }
        Ok(entries)
    }

    /// The directory that a path leads into: the directory that the path
    /// names, or, for the path of a file, the directory that holds the
    /// file.
    ///
    /// The path is followed part by part from the root directory; empty
    /// parts are skipped. A path that names nothing leads into the root
    /// directory. `NotADirectory` when a file stands where the path goes
    /// on; the other errors are those of [`Self::find_directory_entry`].
    pub fn get_parent_dir(&self, path: &Vec<u8>) -> (result: Result<Directory, FsError>)
        requires
            self.wf(),
        ensures
            names_nothing(path@) ==> result == Ok::<Directory, FsError>(
                Directory { cluster: Cluster(ROOT_DIR), entry: None },
            ),
            result matches Ok(dir) ==> (dir.entry matches Some(entry) ==> entry.cluster
                == dir.cluster && entry.attributes & directory::ATTR_DIRECTORY != 0),
    {
        let mut current: Directory = Directory::root();
        let mut i: usize = 0;
        let ghost mut seen: bool = false;
        while i < path.len()
            invariant
                self.wf(),
                i <= path.len(),
                !seen ==> current == (Directory { cluster: Cluster(ROOT_DIR), entry: None }),
                seen ==> !names_nothing(path@),
                current.entry matches Some(entry) ==> entry.cluster == current.cluster
                    && entry.attributes & directory::ATTR_DIRECTORY != 0,
            decreases path.len() - i,
        {
            if path[i] == PATH_SEPARATOR {
                i = i + 1;
                continue ;
            }
            let mut part: Vec<u8> = Vec::new();
            let mut end: usize = i;
            while end < path.len() && path[end] != PATH_SEPARATOR
                invariant
                    i <= end <= path.len(),
                decreases path.len() - end,
            {
                part.push(path[end]);
                end = end + 1;
            }
            let entry: DirEntry = match self.find_directory_entry(&current, &part) {
                Ok(entry) => entry,
                Err(e) => {
                    return Err(e);
                },
            };
            if entry.is_directory() {
                current = Directory::from_entry(entry);
            } else if end < path.len() {
                return Err(FsError::NotADirectory);
            } else {
                assert(!names_nothing(path@)) by {
                    assert(path@[i as int] != PATH_SEPARATOR);
                }
                return Ok(current);
            }
            proof {
                assert(path@[i as int] != PATH_SEPARATOR);
                seen = true;
            }
            i = end;
        }
        Ok(current)
    }

    /// The entry that a path names: the entry called like the last part of
    /// the path, in the directory that the path leads into. See
    /// [`Self::get_parent_dir`] and [`Self::find_directory_entry`].
    pub fn get_dir_entry(&self, path: &Vec<u8>) -> (result: Result<DirEntry, FsError>)
        requires
            self.wf(),
        ensures
            result matches Ok(entry) ==> short_name(last_part(path@)) == Some(entry.filename.bytes@),
            names_nothing(path@) ==> result == Err::<DirEntry, FsError>(FsError::FileNameError),
    {
        let parent: Directory = match self.get_parent_dir(path) {
            Ok(parent) => parent,
            Err(e) => {
                return Err(e);
            },
        };
        let mut start: usize = path.len();
        while start > 0 && path[start - 1] != PATH_SEPARATOR
            invariant
                start <= path.len(),
                forall|j: int| start <= j < path.len() ==> path@[j] != PATH_SEPARATOR,
            decreases start,
        {
            start = start - 1;
        }
        let mut name: Vec<u8> = Vec::new();
        let mut k: usize = start;
        while k < path.len()
            invariant
                start <= k <= path.len(),
                name@ == path@.subrange(start as int, k as int),
            decreases path.len() - k,
        {
            name.push(path[k]);
            k = k + 1;
            assert(name@ =~= path@.subrange(start as int, k as int));
        }
        proof {
            lemma_last_part(path@, start as int);
            if names_nothing(path@) {
                if start < path.len() {
                    assert(path@[start as int] == PATH_SEPARATOR);
                }
                assert(name@ =~= Seq::<u8>::empty());
                assert(short_name(name@) is None);
            }
        }
        self.find_directory_entry(&parent, &name)
    }
}

/// The last part of a path begins behind its last separator.
pub proof fn lemma_last_part(path: Seq<u8>, start: int)
    requires
        0 <= start <= path.len(),
        forall|j: int| start <= j < path.len() ==> path[j] != PATH_SEPARATOR,
        start > 0 ==> path[start - 1] == PATH_SEPARATOR,
    ensures
        last_part(path) == path.subrange(start, path.len() as int),
    decreases path.len(),
{
    if path.len() == 0 || path.last() == PATH_SEPARATOR {
        assert(path.subrange(start, path.len() as int) =~= Seq::<u8>::empty());
    } else {
        lemma_last_part(path.drop_last(), start);
        assert(path.drop_last().subrange(start, path.len() - 1).push(path.last()) =~= path.subrange(
            start,
            path.len() as int,
        ));
    }
}

} // verus!
