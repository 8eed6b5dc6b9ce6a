use ysos::storage::fs::fat16::decode_fat_entry;
use ysos::storage::fs::fat16::directory::decode_timestamp;
use ysos::storage::fs::fat16::directory::find_in_block;
use ysos::storage::fs::fat16::directory::list_block;
use ysos::storage::fs::fat16::directory::DirEntry;
use ysos::storage::fs::fat16::directory::Directory;
use ysos::storage::fs::fat16::directory::ShortFileName;
use ysos::storage::fs::fat16::directory::Timestamp;
use ysos::storage::fs::fat16::file::copy_from_block;
use ysos::storage::fs::fat16::file::File;
use ysos::storage::fs::fat16::Cluster;
use ysos::storage::fs::fat16::Fat16Bpb;
use ysos::storage::fs::fat16::Fat16Impl;
use ysos::storage::fs::fat16::ROOT_DIR;
use ysos::storage::partition::mbr::MbrPartition;
use ysos::storage::partition::mbr::MbrTable;
use ysos::storage::partition::Partition;
use ysos::storage::partition::PartitionTable;
use ysos::storage::accept_block;
use ysos::storage::read_le16;
use ysos::storage::read_le32;
use ysos::storage::read_whole_block;
use ysos::storage::Block;
use ysos::storage::BlockDevice;
use ysos::storage::FsError;

/// A disk in memory.
#[derive(Clone)]
struct RamDisk {
    blocks: Vec<Vec<u8>>,
}

impl BlockDevice for RamDisk {
    fn block_count(&self) -> Result<usize, FsError> {
        Ok(self.blocks.len())
    }

    fn read_block(&self, offset: usize, block: &mut Block) -> Result<(), FsError> {
        match self.blocks.get(offset) {
            Some(bytes) => {
                block.bytes = bytes.clone();
                Ok(())
            }
            None => Err(FsError::DeviceError),
        }
    }
}

fn boot_sector() -> Vec<u8> {
    let mut bytes = vec![0u8; 512];
    bytes[11] = 0x00;
    bytes[12] = 0x02; // 512 bytes per sector
    bytes[13] = 4; // sectors per cluster
    bytes[14] = 1; // reserved sectors
    bytes[16] = 2; // allocation tables
    bytes[17] = 0x00;
    bytes[18] = 0x02; // 512 root entries
    bytes[22] = 0x20; // 32 sectors per table
    bytes[510] = 0x55;
    bytes[511] = 0xAA;
    bytes
}

fn mbr_sector() -> Vec<u8> {
    let mut bytes = vec![0u8; 512];
    // first entry: active, begins at 63, 0x0102_0304 blocks
    bytes[446] = 0x80;
    bytes[446 + 4] = 0x06;
    bytes[446 + 8] = 63;
    bytes[446 + 12] = 0x04;
    bytes[446 + 13] = 0x03;
    bytes[446 + 14] = 0x02;
    bytes[446 + 15] = 0x01;
    // third entry: active, begins at 0x1000, 8 blocks
    bytes[478] = 0x80;
    bytes[478 + 9] = 0x10;
    bytes[478 + 12] = 8;
    // fourth entry: not active
    bytes[494 + 8] = 9;
    bytes[510] = 0x55;
    bytes[511] = 0xAA;
    bytes
}

#[test]
fn little_endian_numbers() {
    let bytes = vec![0x34, 0x12, 0x78, 0x56, 0xFF];
    assert_eq!(read_le16(&bytes, 0), 0x1234);
    assert_eq!(read_le16(&bytes, 3), 0xFF56);
    assert_eq!(read_le32(&bytes, 0), 0x5678_1234);
    assert_eq!(read_le32(&bytes, 1), 0xFF56_7812);
}

/// A device that hands over blocks of the wrong size.
struct ShortDisk;

impl BlockDevice for ShortDisk {
    fn block_count(&self) -> Result<usize, FsError> {
        Ok(1)
    }

    fn read_block(&self, _offset: usize, block: &mut Block) -> Result<(), FsError> {
        block.bytes.truncate(100);
        Ok(())
    }
}

#[test]
fn blocks_of_the_wrong_size_are_refused() {
    assert!(matches!(read_whole_block(&ShortDisk, 0), Err(FsError::DeviceError)));
    assert!(matches!(MbrTable::parse(CloneableShort), Err(FsError::DeviceError)));
    let disk = RamDisk { blocks: vec![vec![7u8; 512]] };
    assert_eq!(read_whole_block(&disk, 0).unwrap().bytes, vec![7u8; 512]);
    assert!(matches!(read_whole_block(&disk, 1), Err(FsError::DeviceError)));
}

#[derive(Clone)]
struct CloneableShort;

impl BlockDevice for CloneableShort {
    fn block_count(&self) -> Result<usize, FsError> {
        Ok(1)
    }

    fn read_block(&self, _offset: usize, block: &mut Block) -> Result<(), FsError> {
        block.bytes.push(0);
        Ok(())
    }
}

#[test]
fn block_starts_zeroed() {
    let block = Block::new();
    assert_eq!(block.bytes, vec![0u8; 512]);
}

#[test]
fn mbr_entries_are_read_from_their_places() {
    let bytes = mbr_sector();
    let entry = MbrPartition::parse(&bytes, 446);
    assert!(entry.is_active());
    assert_eq!(entry.partition_type, 6);
    assert_eq!(entry.begin_lba(), 63);
    assert_eq!(entry.total_lba(), 0x0102_0304);
    let disk = RamDisk { blocks: vec![bytes] };
    let table = MbrTable::parse(disk).unwrap();
    assert_eq!(table.partitions.len(), 4);
    assert!(!table.partitions[1].is_active());
    assert_eq!(table.partitions[2].begin_lba(), 0x1000);
    assert_eq!(table.partitions[3].begin_lba(), 9);
    assert_eq!(table.active_extents(), vec![(63, 0x0102_0304), (0x1000, 8)]);
    let parts = table.partitions().unwrap();
    assert_eq!(parts.len(), 2);
    assert_eq!((parts[0].offset, parts[0].size), (63, 0x0102_0304));
    assert_eq!((parts[1].offset, parts[1].size), (0x1000, 8));
}

#[test]
fn mbr_parse_passes_device_errors_on() {
    let disk = RamDisk { blocks: Vec::new() };
    assert!(matches!(MbrTable::parse(disk), Err(FsError::DeviceError)));
}

#[test]
fn partition_translates_block_numbers() {
    let mut blocks = vec![vec![0u8; 512]; 8];
    blocks[5][0] = 0xEE;
    let partition = Partition::new(RamDisk { blocks }, 3, 4);
    assert_eq!(partition.translate(0), Ok(3));
    assert_eq!(partition.translate(3), Ok(6));
    assert_eq!(partition.translate(4), Err(FsError::InvalidOffset));
    assert_eq!(partition.block_count(), Ok(8));
    let mut block = Block::new();
    assert_eq!(partition.read_block(2, &mut block), Ok(()));
    assert_eq!(block.bytes[0], 0xEE);
    assert_eq!(partition.read_block(4, &mut block), Err(FsError::InvalidOffset));
    assert_eq!(block.bytes[0], 0xEE);
    let far = Partition::new(RamDisk { blocks: Vec::new() }, usize::MAX, 4);
    assert_eq!(far.translate(0), Ok(usize::MAX));
    assert_eq!(far.translate(1), Err(FsError::InvalidOffset));
}

#[test]
fn bpb_needs_the_signature() {
    let mut bytes = boot_sector();
    let bpb = Fat16Bpb::new(&Block { bytes: bytes.clone() }).unwrap();
    assert_eq!(bpb.bytes_per_sector, 512);
    assert_eq!(bpb.sectors_per_cluster, 4);
    assert_eq!(bpb.reserved_sector_count, 1);
    assert_eq!(bpb.fat_count, 2);
    assert_eq!(bpb.root_entries_count, 512);
    assert_eq!(bpb.sectors_per_fat, 32);
    bytes[511] = 0;
    assert_eq!(Fat16Bpb::new(&Block { bytes }), Err(FsError::InvalidOperation));
}

#[test]
fn volume_layout_follows_the_bpb() {
    let disk = RamDisk { blocks: vec![boot_sector()] };
    let volume = Fat16Impl::new(disk).unwrap();
    assert_eq!(volume.fat_start, 1);
    assert_eq!(volume.first_root_dir_sector, 1 + 2 * 32);
    assert_eq!(volume.first_data_sector, 65 + 32);
    assert_eq!(volume.cluster_to_sector(&Cluster(ROOT_DIR)), 65);
    assert_eq!(volume.cluster_to_sector(&Cluster(2)), 97);
    assert_eq!(volume.cluster_to_sector(&Cluster(3)), 101);
    assert_eq!(volume.cluster_to_sector(&Cluster(10)), 97 + 8 * 4);
    let location = volume.fat_location(&Cluster(0x105));
    assert_eq!((location.sector, location.offset), (2, 10));
    assert!(matches!(Fat16Impl::new(RamDisk { blocks: vec![vec![0u8; 512]] }), Err(FsError::InvalidOperation)));
    assert!(matches!(Fat16Impl::new(RamDisk { blocks: Vec::new() }), Err(FsError::DeviceError)));
}

#[test]
fn root_directory_size_rounds_up() {
    let mut bytes = boot_sector();
    bytes[17] = 17;
    bytes[18] = 0; // 17 entries need two sectors
    let bpb = Fat16Bpb::new(&Block { bytes }).unwrap();
    let volume = Fat16Impl::with_bpb(RamDisk { blocks: Vec::new() }, bpb);
    assert_eq!(volume.first_data_sector - volume.first_root_dir_sector, 2);
}

#[test]
fn allocation_table_entries_decode() {
    let mut fat = vec![0u8; 512];
    fat[4] = 0x03;
    fat[5] = 0x00; // cluster 2 -> 3
    fat[6] = 0xF8;
    fat[7] = 0xFF; // cluster 3 -> end
    fat[8] = 0xF7;
    fat[9] = 0xFF; // cluster 4 is bad
    fat[10] = 0xFF;
    fat[11] = 0xFF; // cluster 5 -> end
    fat[12] = 0xF6;
    fat[13] = 0xFF; // cluster 6 -> 0xFFF6
    let block = Block { bytes: fat.clone() };
    assert_eq!(decode_fat_entry(&block, 4), Ok(Cluster(3)));
    assert_eq!(decode_fat_entry(&block, 6), Err(FsError::EndOfFile));
    assert_eq!(decode_fat_entry(&block, 8), Err(FsError::BadCluster));
    assert_eq!(decode_fat_entry(&block, 10), Err(FsError::EndOfFile));
    assert_eq!(decode_fat_entry(&block, 12), Ok(Cluster(0xFFF6)));
    let volume = Fat16Impl::new(RamDisk { blocks: vec![boot_sector(), fat] }).unwrap();
    assert_eq!(volume.next_cluster(&Cluster(2)), Ok(Cluster(3)));
    assert_eq!(volume.next_cluster(&Cluster(3)), Err(FsError::EndOfFile));
    assert_eq!(volume.next_cluster(&Cluster(4)), Err(FsError::BadCluster));
    assert_eq!(volume.next_cluster(&Cluster(0x100)), Err(FsError::DeviceError));
}

fn stored(name: &str) -> [u8; 11] {
    let mut bytes = [0x20u8; 11];
    bytes[..name.len()].copy_from_slice(name.as_bytes());
    bytes
}

fn entry_bytes(name: &[u8; 11], attributes: u8, cluster: u16, size: u32) -> [u8; 32] {
    let mut bytes = [0u8; 32];
    bytes[..11].copy_from_slice(name);
    bytes[11] = attributes;
    bytes[26..28].copy_from_slice(&cluster.to_le_bytes());
    bytes[28..32].copy_from_slice(&size.to_le_bytes());
    bytes
}

/// A small volume: one reserved sector, one allocation table of one sector,
/// a root directory of one sector, clusters of one sector.
///
/// `/HELLO.TXT` has 700 bytes in the clusters 2 and 3, `/SUB` is a
/// directory in cluster 4, `/SUB/A.BIN` has 3 bytes in cluster 5.
fn volume() -> Fat16Impl<RamDisk> {
    let mut boot = vec![0u8; 512];
    boot[12] = 0x02;
    boot[13] = 1;
    boot[14] = 1;
    boot[16] = 1;
    boot[17] = 16;
    boot[22] = 1;
    boot[510] = 0x55;
    boot[511] = 0xAA;
    let mut fat = vec![0u8; 512];
    fat[4..6].copy_from_slice(&3u16.to_le_bytes());
    fat[6..8].copy_from_slice(&0xFFFFu16.to_le_bytes());
    fat[8..10].copy_from_slice(&0xFFF8u16.to_le_bytes());
    fat[10..12].copy_from_slice(&0xFFFFu16.to_le_bytes());
    let mut root = vec![0u8; 512];
    root[0..32].copy_from_slice(&entry_bytes(&stored("HELLO   TXT"), 0x20, 2, 700));
    let mut deleted = entry_bytes(&stored("GONE    TXT"), 0x20, 9, 1);
    deleted[0] = 0xE5;
    root[32..64].copy_from_slice(&deleted);
    root[64..96].copy_from_slice(&entry_bytes(&stored("LONGNAMEPAR"), 0x0F, 0, 0));
    root[96..128].copy_from_slice(&entry_bytes(&stored("SUB"), 0x10, 4, 0));
    let mut first = vec![0u8; 512];
    let mut second = vec![0u8; 512];
    for i in 0..512 {
        first[i] = (i % 251) as u8;
        second[i] = ((512 + i) % 251) as u8;
    }
    let mut sub = vec![0u8; 512];
    sub[0..32].copy_from_slice(&entry_bytes(&stored("A       BIN"), 0x20, 5, 3));
    let mut small = vec![0u8; 512];
    small[0] = 1;
    small[1] = 2;
    small[2] = 3;
    small[3] = 4;
    let volume = Fat16Impl::new(RamDisk { blocks: vec![boot, fat, root, first, second, sub, small] }).unwrap();
    assert_eq!(volume.fat_start, 1);
    assert_eq!(volume.first_root_dir_sector, 2);
    assert_eq!(volume.first_data_sector, 3);
    volume
}

#[test]
fn short_names_are_padded_and_upper_case() {
    assert_eq!(ShortFileName::parse(&b"hello.txt".to_vec()).unwrap().bytes, stored("HELLO   TXT"));
    assert_eq!(ShortFileName::parse(&b"SUB".to_vec()).unwrap().bytes, stored("SUB"));
    assert_eq!(ShortFileName::parse(&b"a.b".to_vec()).unwrap().bytes, stored("A       B"));
    assert_eq!(ShortFileName::parse(&b"12345678.abc".to_vec()).unwrap().bytes, stored("12345678ABC"));
    assert_eq!(ShortFileName::parse(&b"x.".to_vec()).unwrap().bytes, stored("X"));
    assert_eq!(ShortFileName::parse(&b"a~1-_z".to_vec()).unwrap().bytes, stored("A~1-_Z"));
}

#[test]
fn short_names_refuse_what_cannot_be_stored() {
    for name in ["", ".", ".txt", "a.b.c", "123456789", "a.text", "a b", "a/b", "a*", "a?", "a:b", "a[b", "a|b", "a\"b", "a+b", "a,b", "a..b", "abcdefgh.ijkl"] {
        assert_eq!(ShortFileName::parse(&name.as_bytes().to_vec()), Err(FsError::FileNameError), "{}", name);
    }
    let a = ShortFileName::parse(&b"a".to_vec()).unwrap();
    let b = ShortFileName::parse(&b"A".to_vec()).unwrap();
    let c = ShortFileName::parse(&b"A.A".to_vec()).unwrap();
    assert!(a.matches(&b));
    assert!(!a.matches(&c));
}

#[test]
fn directory_entries_are_read_from_their_places() {
    let bytes = entry_bytes(&stored("HELLO   TXT"), 0x20, 0x1234, 0x0A0B_0C0D).to_vec();
    let entry = DirEntry::parse(&bytes, 0);
    assert_eq!(entry.filename.bytes, stored("HELLO   TXT"));
    assert_eq!(entry.attributes, 0x20);
    assert_eq!(entry.cluster, Cluster(0x1234));
    assert_eq!(entry.size, 0x0A0B_0C0D);
    assert!(entry.is_valid());
    assert!(!entry.is_eod());
    assert!(!entry.is_long_name());
    assert!(!entry.is_directory());
    let end = DirEntry::parse(&vec![0u8; 32], 0);
    assert!(end.is_eod());
    assert!(!end.is_valid());
    let mut unused = bytes.clone();
    unused[0] = 0xE5;
    assert!(!DirEntry::parse(&unused, 0).is_valid());
    assert!(DirEntry::parse(&entry_bytes(&stored("X"), 0x0F, 0, 0).to_vec(), 0).is_long_name());
    assert!(DirEntry::parse(&entry_bytes(&stored("X"), 0x10, 0, 0).to_vec(), 0).is_directory());
    assert_eq!(Directory::root().cluster, Cluster(ROOT_DIR));
    assert_eq!(Directory::from_entry(entry).cluster, Cluster(0x1234));
}

#[test]
fn timestamps_are_taken_apart() {
    // 2024-07-15 13:45:58
    let date: u16 = ((2024 - 1980) << 9) | (7 << 5) | 15;
    let time: u16 = (13 << 11) | (45 << 5) | 29;
    assert_eq!(
        decode_timestamp(date, time),
        Timestamp { year: 2024, month: 7, day: 15, hour: 13, minute: 45, second: 58 }
    );
    assert_eq!(decode_timestamp(0, 0), Timestamp { year: 1980, month: 0, day: 0, hour: 0, minute: 0, second: 0 });
    assert_eq!(
        decode_timestamp(0xFFFF, 0xFFFF),
        Timestamp { year: 2107, month: 15, day: 31, hour: 31, minute: 63, second: 62 }
    );
    let mut bytes = entry_bytes(&stored("A"), 0x20, 2, 1).to_vec();
    bytes[22..24].copy_from_slice(&time.to_le_bytes());
    bytes[24..26].copy_from_slice(&date.to_le_bytes());
    assert_eq!(DirEntry::parse(&bytes, 0).modified.year, 2024);
    assert_eq!(DirEntry::parse(&bytes, 0).modified.second, 58);
}

#[test]
fn blocks_are_searched_and_listed() {
    let volume = volume();
    let mut block = Block::new();
    volume.inner.read_block(2, &mut block).unwrap();
    let name = ShortFileName::parse(&b"sub".to_vec()).unwrap();
    let found = find_in_block(&block, &name).unwrap();
    assert_eq!(found.cluster, Cluster(4));
    let missing = ShortFileName::parse(&b"nope".to_vec()).unwrap();
    assert_eq!(find_in_block(&block, &missing), Err(FsError::NotInSector));
    let mut entries = Vec::new();
    assert!(list_block(&block, &mut entries));
    assert_eq!(entries.len(), 2);
    assert_eq!(entries[0].filename.bytes, stored("HELLO   TXT"));
    assert_eq!(entries[1].filename.bytes, stored("SUB"));
    let mut full = Block::new();
    for i in 0..16 {
        full.bytes[i * 32..i * 32 + 32].copy_from_slice(&entry_bytes(&stored("F"), 0x20, i as u16, 0));
    }
    assert!(!list_block(&full, &mut entries));
    assert_eq!(entries.len(), 18);
    assert_eq!(entries[17].cluster, Cluster(15));
}

#[test]
fn entries_are_found_by_name_and_path() {
    let volume = volume();
    let root = Directory::root();
    let hello = volume.find_directory_entry(&root, &b"hello.txt".to_vec()).unwrap();
    assert_eq!(hello.cluster, Cluster(2));
    assert_eq!(hello.size, 700);
    assert_eq!(volume.find_directory_entry(&root, &b"other.txt".to_vec()), Err(FsError::FileNotFound));
    assert_eq!(volume.find_directory_entry(&root, &b"gone.txt".to_vec()), Err(FsError::FileNotFound));
    assert_eq!(volume.find_directory_entry(&root, &b"a b".to_vec()), Err(FsError::FileNameError));
    assert_eq!(volume.get_dir_entry(&b"/hello.txt".to_vec()).unwrap().size, 700);
    assert_eq!(volume.get_dir_entry(&b"hello.txt".to_vec()).unwrap().size, 700);
    assert_eq!(volume.get_dir_entry(&b"/sub/a.bin".to_vec()).unwrap().cluster, Cluster(5));
    assert_eq!(volume.get_dir_entry(&b"//sub//a.bin".to_vec()).unwrap().size, 3);
    assert_eq!(volume.get_dir_entry(&b"/sub/b.bin".to_vec()), Err(FsError::FileNotFound));
    assert_eq!(volume.get_dir_entry(&b"/hello.txt/x".to_vec()), Err(FsError::NotADirectory));
    assert_eq!(volume.get_dir_entry(&b"/".to_vec()), Err(FsError::FileNameError));
    assert_eq!(volume.get_dir_entry(&b"".to_vec()), Err(FsError::FileNameError));
}

#[test]
fn paths_lead_into_directories() {
    let volume = volume();
    assert_eq!(volume.get_parent_dir(&b"/".to_vec()), Ok(Directory::root()));
    assert_eq!(volume.get_parent_dir(&b"".to_vec()), Ok(Directory::root()));
    assert_eq!(volume.get_parent_dir(&b"/hello.txt".to_vec()), Ok(Directory::root()));
    assert_eq!(volume.get_parent_dir(&b"/sub".to_vec()).unwrap().cluster, Cluster(4));
    assert_eq!(volume.get_parent_dir(&b"/sub/".to_vec()).unwrap().cluster, Cluster(4));
    assert_eq!(volume.get_parent_dir(&b"/sub/a.bin".to_vec()).unwrap().cluster, Cluster(4));
    assert_eq!(volume.get_parent_dir(&b"/hello.txt/".to_vec()), Err(FsError::NotADirectory));
    assert_eq!(volume.get_parent_dir(&b"/nothing/a".to_vec()), Err(FsError::FileNotFound));
}

#[test]
fn directories_are_listed() {
    let volume = volume();
    let root = volume.iterate_dir(&Directory::root()).unwrap();
    assert_eq!(root.len(), 2);
    assert_eq!(root[0].filename.bytes, stored("HELLO   TXT"));
    assert_eq!(root[1].filename.bytes, stored("SUB"));
    let sub = volume.iterate_dir(&Directory::from_entry(root[1])).unwrap();
    assert_eq!(sub.len(), 1);
    assert_eq!(sub[0].filename.bytes, stored("A       BIN"));
    assert_eq!(volume.dir_sectors(&Directory::root()), 1);
}

#[test]
fn file_knows_its_length() {
    let volume = volume();
    let entry = volume.get_dir_entry(&b"/hello.txt".to_vec()).unwrap();
    let mut file = File::new(entry);
    assert_eq!(file.length(), 700);
    assert_eq!(file.offset, 0);
    assert_eq!(file.current_cluster, Cluster(2));
    assert_eq!(file.readable(512), 512);
    assert_eq!(file.readable(2000), 700);
    file.offset = 690;
    assert_eq!(file.readable(512), 10);
    file.offset = 700;
    assert_eq!(file.readable(512), 0);
}

#[test]
fn file_is_read_across_clusters() {
    let volume = volume();
    let entry = volume.get_dir_entry(&b"/hello.txt".to_vec()).unwrap();
    let mut file = File::new(entry);
    let mut content = Vec::new();
    let mut buf = vec![0xEEu8; 300];
    assert_eq!(file.read(&volume, &mut buf), Ok(300));
    content.extend_from_slice(&buf);
    assert_eq!(file.read(&volume, &mut buf), Ok(300));
    content.extend_from_slice(&buf);
    assert_eq!(file.current_cluster, Cluster(3));
    buf = vec![0xEEu8; 300];
    assert_eq!(file.read(&volume, &mut buf), Ok(100));
    content.extend_from_slice(&buf[..100]);
    assert_eq!(buf[100], 0xEE);
    assert_eq!(file.read(&volume, &mut buf), Ok(0));
    assert_eq!(file.offset, 700);
    assert_eq!(content.len(), 700);
    for (i, byte) in content.iter().enumerate() {
        assert_eq!(*byte, (i % 251) as u8);
    }
}

#[test]
fn file_read_into_a_large_or_empty_buffer() {
    let volume = volume();
    let mut small = File::new(volume.get_dir_entry(&b"/sub/a.bin".to_vec()).unwrap());
    let mut buf = vec![0u8; 1024];
    assert_eq!(small.read(&volume, &mut buf), Ok(3));
    assert_eq!(&buf[..4], &[1, 2, 3, 0]);
    let mut hello = File::new(volume.get_dir_entry(&b"/hello.txt".to_vec()).unwrap());
    assert_eq!(hello.read(&volume, &mut Vec::new()), Ok(0));
    assert_eq!(hello.read(&volume, &mut buf), Ok(700));
    assert_eq!(buf[699], (699 % 251) as u8);
    assert_eq!(buf[700], 0);
}

#[test]
fn the_answer_of_the_device_decides_what_a_read_returns() {
    let whole = Block { bytes: vec![3u8; 512] };
    assert_eq!(accept_block(Ok(()), whole).unwrap().bytes, vec![3u8; 512]);
    let short = Block { bytes: vec![3u8; 511] };
    assert!(matches!(accept_block(Ok(()), short), Err(FsError::DeviceError)));
    let long = Block { bytes: vec![3u8; 513] };
    assert!(matches!(accept_block(Ok(()), long), Err(FsError::DeviceError)));
    let unread = Block { bytes: vec![3u8; 512] };
    assert!(matches!(accept_block(Err(FsError::InvalidOffset), unread), Err(FsError::InvalidOffset)));
}

#[test]
fn volume_is_made_from_its_boot_block() {
    let good = Block { bytes: boot_sector() };
    let volume = Fat16Impl::from_boot_block(RamDisk { blocks: Vec::new() }, &good).unwrap();
    assert_eq!(volume.bpb.sectors_per_cluster, 4);
    assert_eq!(volume.bpb.sectors_per_fat, 32);
    assert_eq!(volume.first_data_sector, 97);
    let mut bytes = boot_sector();
    bytes[510] = 0;
    let bad = Block { bytes };
    assert!(matches!(
        Fat16Impl::from_boot_block(RamDisk { blocks: Vec::new() }, &bad),
        Err(FsError::InvalidOperation)
    ));
}

#[test]
fn partitions_need_a_table_of_four() {
    let disk = RamDisk { blocks: vec![mbr_sector()] };
    let mut table = MbrTable::parse(disk).unwrap();
    table.partitions.pop();
    assert!(matches!(table.partitions(), Err(FsError::InvalidOperation)));
    let none = MbrTable::parse(RamDisk { blocks: vec![vec![0u8; 512]] }).unwrap();
    assert_eq!(none.partitions().unwrap().len(), 0);
}

#[test]
fn bytes_are_copied_out_of_a_block() {
    let mut block = Block::new();
    for i in 0..512 {
        block.bytes[i] = (i % 256) as u8;
    }
    let mut buf = vec![0xEEu8; 8];
    copy_from_block(&block, 510, &mut buf, 3, 2);
    assert_eq!(buf, vec![0xEE, 0xEE, 0xEE, 254, 255, 0xEE, 0xEE, 0xEE]);
    copy_from_block(&block, 7, &mut buf, 0, 0);
    assert_eq!(buf[0], 0xEE);
    copy_from_block(&block, 1, &mut buf, 0, 8);
    assert_eq!(buf, vec![1, 2, 3, 4, 5, 6, 7, 8]);
}

#[test]
fn chunks_follow_the_offset_through_the_cluster() {
    let disk = RamDisk { blocks: vec![boot_sector()] };
    let volume = Fat16Impl::new(disk).unwrap();
    let entry = DirEntry::parse(&entry_bytes(&stored("F"), 0x20, 5, 100_000).to_vec(), 0);
    let mut file = File::new(entry);
    let first = file.chunk(&volume, 1000);
    assert_eq!((first.sector, first.from, first.count), (97 + 3 * 4, 0, 512));
    file.offset = 700;
    let second = file.chunk(&volume, 1000);
    assert_eq!((second.sector, second.from, second.count), (97 + 3 * 4 + 1, 188, 324));
    let few = file.chunk(&volume, 10);
    assert_eq!((few.sector, few.from, few.count), (97 + 3 * 4 + 1, 188, 10));
    file.offset = 2048 + 513;
    let wrapped = file.chunk(&volume, 1);
    assert_eq!((wrapped.sector, wrapped.from, wrapped.count), (97 + 3 * 4 + 1, 1, 1));
}

#[test]
fn reads_fail_before_the_device_is_asked() {
    let volume = volume();
    let entry = volume.get_dir_entry(&b"/hello.txt".to_vec()).unwrap();
    let mut lost = File::new(entry);
    lost.current_cluster = Cluster(1);
    let mut buf = vec![9u8; 16];
    assert_eq!(lost.read(&volume, &mut buf), Err(FsError::BadCluster));
    assert_eq!(lost.offset, 0);
    assert_eq!(buf, vec![9u8; 16]);
    lost.current_cluster = Cluster(0x1_0000);
    assert_eq!(lost.read(&volume, &mut buf), Err(FsError::BadCluster));
    let mut boot = boot_sector();
    boot[13] = 0;
    let flat = Fat16Impl::new(RamDisk { blocks: vec![boot] }).unwrap();
    let mut file = File::new(entry);
    assert_eq!(file.read(&flat, &mut buf), Err(FsError::InvalidOperation));
    assert_eq!(file.read(&flat, &mut Vec::new()), Ok(0));
    assert_eq!(file.offset, 0);
}

#[test]
fn reads_stop_where_the_chain_of_clusters_ends() {
    let volume = volume();
    let mut entry = volume.get_dir_entry(&b"/hello.txt".to_vec()).unwrap();
    entry.size = 5000;
    let mut file = File::new(entry);
    let mut buf = vec![0u8; 5000];
    assert_eq!(file.read(&volume, &mut buf), Ok(1024));
    assert_eq!(file.offset, 1024);
    assert_eq!(buf[1023], (1023 % 251) as u8);
    assert_eq!(buf[1024], 0);
}

#[test]
fn directories_without_a_place_have_no_entries() {
    let volume = volume();
    let nowhere = Directory { cluster: Cluster(0), entry: None };
    assert_eq!(volume.iterate_dir(&nowhere), Ok(Vec::new()));
    let beyond = Directory { cluster: Cluster(0x2_0000), entry: None };
    assert_eq!(volume.iterate_dir(&beyond), Ok(Vec::new()));
    let mut boot = boot_sector();
    boot[17] = 0;
    boot[18] = 0;
    let rootless = Fat16Impl::new(RamDisk { blocks: vec![boot] }).unwrap();
    assert_eq!(rootless.iterate_dir(&Directory::root()), Ok(Vec::new()));
    for entry in volume.iterate_dir(&Directory::root()).unwrap() {
        assert!(entry.is_valid());
        assert!(!entry.is_long_name());
    }
}
