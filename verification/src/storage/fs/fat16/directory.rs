//! Directories of a FAT16 volume: entries of 32 bytes, each with a name of
//! eight characters and an extension of three.

use super::Cluster;
use crate::storage::le16;
use crate::storage::le32;
use crate::storage::read_le16;
use crate::storage::read_le32;
use crate::storage::Block;
use crate::storage::FsError;
use vstd::prelude::*;

verus! {

/// Bytes in a directory entry.
pub const ENTRY_LEN: usize = 32;

/// Entries in a block.
pub const ENTRIES_PER_BLOCK: usize = 16;

/// The attribute bits of a directory.
pub const ATTR_DIRECTORY: u8 = 0x10;

/// The attribute bits of a part of a long name.
pub const ATTR_LONG_NAME: u8 = 0x0F;

/// The first byte of the entry that ends a directory.
pub const END_OF_DIRECTORY: u8 = 0x00;

/// The first byte of an entry that is not in use.
pub const UNUSED_ENTRY: u8 = 0xE5;

/// A name as a directory stores it: eight characters, then three of the
/// extension, in upper case, padded with spaces.
#[derive(Clone, Copy, Debug, PartialEq, Eq)]
pub struct ShortFileName {
    pub bytes: [u8; 11],
}

/// How far the reading of a name has come.
pub struct NameState {
    /// The eleven bytes so far.
    pub bytes: Seq<u8>,
    /// The place of the next character: below 8 in the name, from 8 on in
    /// the extension.
    pub idx: int,
    /// True once the period has been read.
    pub seen_dot: bool,
}

/// True when `ch` cannot be part of a name.
pub open spec fn forbidden(ch: u8) -> bool {
    ||| ch <= 0x20
    ||| ch == 0x22
    ||| ch == 0x2A
    ||| ch == 0x2B
    ||| ch == 0x2C
    ||| ch == 0x2F
    ||| (0x3A <= ch <= 0x3F)
    ||| (0x5B <= ch <= 0x5D)
    ||| ch == 0x7C
}

/// The upper-case form of a lower-case ASCII letter, and any other byte as
/// it is.
pub open spec fn upper(ch: u8) -> u8 {
    if 0x61 <= ch <= 0x7A {
        (ch - 0x20) as u8
    } else {
        ch
    }
}

/// The state after one more character of a name, or `None` when the
/// character cannot stand there: a forbidden character, a second period or
/// one at the start, a ninth character of the name or a fourth of the
/// extension.
pub open spec fn name_step(state: NameState, ch: u8) -> Option<NameState> {
    if forbidden(ch) {
        None
    } else if ch == 0x2E {
        if 1 <= state.idx <= 8 && !state.seen_dot {
            Some(NameState { bytes: state.bytes, idx: 8, seen_dot: true })
        } else {
            None
        }
    } else if state.seen_dot {
        if 8 <= state.idx < 11 {
            Some(
                NameState {
                    bytes: state.bytes.update(state.idx, upper(ch)),
                    idx: state.idx + 1,
                    seen_dot: true,
                },
            )
        } else {
            None
        }
    } else if state.idx < 8 {
        Some(
            NameState {
                bytes: state.bytes.update(state.idx, upper(ch)),
                idx: state.idx + 1,
                seen_dot: false,
            },
        )
    } else {
        None
    }
}

/// Eleven spaces.
pub open spec fn blank_name() -> Seq<u8> {
    Seq::new(11, |i: int| 0x20u8)
}

/// The state after the first `n` characters of `name`.
pub open spec fn name_state(name: Seq<u8>, n: nat) -> Option<NameState>
    decreases n,
{
    if n == 0 {
        Some(NameState { bytes: blank_name(), idx: 0, seen_dot: false })
    } else {
        match name_state(name, (n - 1) as nat) {
            Some(state) => name_step(state, name[n - 1]),
            None => None,
        }
    }
}

/// The eleven bytes that a directory stores for `name`, or `None` for a
/// name that is empty or cannot be stored.
pub open spec fn short_name(name: Seq<u8>) -> Option<Seq<u8>> {
    match name_state(name, name.len()) {
        Some(state) => if state.idx == 0 {
            None
        } else {
            Some(state.bytes)
        },
        None => None,
    }
}

/// Once a character could not stand where it is, the name is lost.
pub proof fn lemma_name_stays_invalid(name: Seq<u8>, i: nat, n: nat)
    requires
        i <= n,
        name_state(name, i) is None,
    ensures
        name_state(name, n) is None,
    decreases n,
{
    if i < n {
        lemma_name_stays_invalid(name, i, (n - 1) as nat);
    }
}

impl ShortFileName {
    /// The name that a directory stores for `name`, which is written as
    /// `NAME.EXT` or `NAME`. `FileNameError` for a name that cannot be
    /// stored.
    pub fn parse(name: &Vec<u8>) -> (result: Result<ShortFileName, FsError>)
        ensures
            result is Ok <==> short_name(name@) is Some,
            result matches Ok(sfn) ==> sfn.bytes@ == short_name(name@)->0,
            result matches Err(e) ==> e == FsError::FileNameError,
    {
        let mut bytes: [u8; 11] = [0x20u8; 11];
        let mut idx: usize = 0;
        let mut seen_dot: bool = false;
        let mut i: usize = 0;
        assert(bytes@ =~= blank_name());
        while i < name.len()
            invariant
                i <= name.len(),
                idx <= 11,
                name_state(name@, i as nat) == Some(NameState { bytes: bytes@, idx: idx as int, seen_dot }),
            decreases name.len() - i,
        {
            let ch: u8 = name[i];
            let bad: bool = ch <= 0x20 || ch == 0x22 || ch == 0x2A || ch == 0x2B || ch == 0x2C
                || ch == 0x2F || (0x3A <= ch && ch <= 0x3F) || (0x5B <= ch && ch <= 0x5D) || ch
                == 0x7C;
            let ghost before = NameState { bytes: bytes@, idx: idx as int, seen_dot };
            if bad {
                proof {
                    assert(name_state(name@, (i + 1) as nat) is None);
                    lemma_name_stays_invalid(name@, (i + 1) as nat, name@.len());
                }
                return Err(FsError::FileNameError);
            } else if ch == 0x2E {
                if 1 <= idx && idx <= 8 && !seen_dot {
                    seen_dot = true;
                    idx = 8;
                } else {
                    proof {
                        assert(name_state(name@, (i + 1) as nat) is None);
                        lemma_name_stays_invalid(name@, (i + 1) as nat, name@.len());
                    }
                    return Err(FsError::FileNameError);
                }
            } else {
                let up: u8 = if 0x61 <= ch && ch <= 0x7A {
                    ch - 0x20
                } else {
                    ch
                };
                let fits: bool = if seen_dot {
                    8 <= idx && idx < 11
                } else {
                    idx < 8
                };
                if !fits {
                    proof {
                        assert(name_state(name@, (i + 1) as nat) is None);
                        lemma_name_stays_invalid(name@, (i + 1) as nat, name@.len());
                    }
                    return Err(FsError::FileNameError);
                }
                bytes[idx] = up;
                idx = idx + 1;
            }
            i = i + 1;
            assert(name_state(name@, i as nat) == name_step(before, ch));
        }
        if idx == 0 {
            return Err(FsError::FileNameError);
        }
        Ok(ShortFileName { bytes })
    }

    /// True when the two names are the same, byte for byte.
    pub fn matches(&self, other: &ShortFileName) -> (same: bool)
        ensures
            same == (self.bytes@ == other.bytes@),
    {
        let mut i: usize = 0;
        while i < 11
            invariant
                i <= 11,
                forall|j: int| 0 <= j < i ==> self.bytes@[j] == other.bytes@[j],
            decreases 11 - i,
        {
            if self.bytes[i] != other.bytes[i] {
                return false;
            }
            i = i + 1;
        }
        assert(self.bytes@ =~= other.bytes@);
        true
    }
}

/// A moment as a directory records it: a date from 1980 on and a time of
/// day in steps of two seconds.
#[derive(Clone, Copy, Debug, PartialEq, Eq, Structural)]
pub struct Timestamp {
    pub year: u16,
    pub month: u8,
    pub day: u8,
    pub hour: u8,
    pub minute: u8,
    pub second: u8,
}

/// The moment that the two numbers of a directory entry stand for. The
/// date holds the day in its low five bits, the month in the next four and
/// the years since 1980 above them; the time holds half the seconds in its
/// low five bits, the minutes in the next six and the hours above them.
pub open spec fn timestamp_of(date: u16, time: u16) -> Timestamp {
    Timestamp {
        year: (1980 + date / 512) as u16,
        month: ((date / 32) % 16) as u8,
        day: (date % 32) as u8,
        hour: (time / 2048) as u8,
        minute: ((time / 32) % 64) as u8,
        second: ((time % 32) * 2) as u8,
    }
}

/// Takes apart the date and the time of a directory entry; see
/// [`timestamp_of`].
pub fn decode_timestamp(date: u16, time: u16) -> (stamp: Timestamp)
    ensures
        stamp == timestamp_of(date, time),
        1980 <= stamp.year <= 2107,
        stamp.month <= 15,
        stamp.day <= 31,
        stamp.hour <= 31,
        stamp.minute <= 63,
        stamp.second <= 62,
{
    Timestamp {
        year: 1980 + date / 512,
        month: ((date / 32) % 16) as u8,
        day: (date % 32) as u8,
        hour: (time / 2048) as u8,
        minute: ((time / 32) % 64) as u8,
        second: ((time % 32) * 2) as u8,
    }
}

/// What a directory says about a file or a directory in it.
#[derive(Clone, Copy, Debug, PartialEq, Eq)]
pub struct DirEntry {
    /// The name.
    pub filename: ShortFileName,
    /// The attribute bits.
    pub attributes: u8,
    /// When the entry was last written.
    pub modified: Timestamp,
    /// The first cluster.
    pub cluster: Cluster,
    /// The length in bytes.
    pub size: u32,
}

impl DirEntry {
    /// True when the entry ends the directory: its name begins with a zero
    /// byte.
    pub open spec fn eod(self) -> bool {
        self.filename.bytes@[0] == END_OF_DIRECTORY
    }

    /// True when the entry names something: it neither ends the directory
    /// nor is marked as unused.
    pub open spec fn valid(self) -> bool {
        self.filename.bytes@[0] != END_OF_DIRECTORY && self.filename.bytes@[0] != UNUSED_ENTRY
    }

    /// True when the entry is a part of a long name.
    pub open spec fn long_name(self) -> bool {
        self.attributes & ATTR_LONG_NAME == ATTR_LONG_NAME
    }

    /// True when the entry is listed: it names something under a short
    /// name.
    pub open spec fn listed(self) -> bool {
        self.valid() && !self.long_name()
    }

    /// Reads the entry that begins at byte `at` of `bytes`.
    pub fn parse(bytes: &Vec<u8>, at: usize) -> (entry: DirEntry)
        requires
            at + ENTRY_LEN <= bytes.len(),
        ensures
            entry.filename.bytes@ == bytes@.subrange(at as int, at + 11),
            entry.attributes == bytes@[at + 11],
            entry.modified == timestamp_of(
                le16(bytes@, at + 24) as u16,
                le16(bytes@, at + 22) as u16,
            ),
            entry.cluster == Cluster(le16(bytes@, at + 26) as u32),
            entry.size == le32(bytes@, at + 28) as u32,
    {
        let mut name: [u8; 11] = [0x20u8; 11];
        let mut i: usize = 0;
        while i < 11
            invariant
                i <= 11,
                at + ENTRY_LEN <= bytes.len(),
                forall|j: int| 0 <= j < i ==> name@[j] == bytes@[at + j],
            decreases 11 - i,
        {
            name[i] = bytes[at + i];
            i = i + 1;
        }
        assert(name@ =~= bytes@.subrange(at as int, at + 11));
        DirEntry {
            filename: ShortFileName { bytes: name },
            attributes: bytes[at + 11],
            modified: decode_timestamp(read_le16(bytes, at + 24), read_le16(bytes, at + 22)),
            cluster: Cluster(read_le16(bytes, at + 26) as u32),
            size: read_le32(bytes, at + 28),
        }
    }

    /// True when the entry ends the directory.
    pub fn is_eod(&self) -> (eod: bool)
        ensures
            eod == self.eod(),
    {
        self.filename.bytes[0] == END_OF_DIRECTORY
    }

    /// True when the entry names something.
    pub fn is_valid(&self) -> (valid: bool)
        ensures
            valid == self.valid(),
    {
        self.filename.bytes[0] != END_OF_DIRECTORY && self.filename.bytes[0] != UNUSED_ENTRY
    }

    /// True when the entry is a part of a long name.
    pub fn is_long_name(&self) -> (long: bool)
        ensures
            long == self.long_name(),
    {
        self.attributes & ATTR_LONG_NAME == ATTR_LONG_NAME
    }

    /// True when the entry names a directory.
    pub fn is_directory(&self) -> (directory: bool)
        ensures
            directory == (self.attributes & ATTR_DIRECTORY != 0),
    {
        self.attributes & ATTR_DIRECTORY != 0
    }
}

/// A directory: the cluster it begins with, and its own entry in the
/// directory above, which the root directory does not have.
#[derive(Clone, Copy, Debug, PartialEq, Eq)]
pub struct Directory {
    pub cluster: Cluster,
    pub entry: Option<DirEntry>,
}

impl Directory {
    /// The root directory.
    pub fn root() -> (dir: Directory)
        ensures
            dir.cluster == Cluster(super::ROOT_DIR),
            dir.entry is None,
    {
        Directory { cluster: Cluster(super::ROOT_DIR), entry: None }
    }

    /// The directory that `entry` names.
    pub fn from_entry(entry: DirEntry) -> (dir: Directory)
        ensures
            dir.cluster == entry.cluster,
            dir.entry == Some(entry),
    {
        Directory { cluster: entry.cluster, entry: Some(entry) }
    }
}

/// True when the entry number `i` of a block of a directory has the name
/// `name`.
pub open spec fn named_at(bytes: Seq<u8>, name: Seq<u8>, i: int) -> bool {
    bytes.subrange(i * 32, i * 32 + 11) == name
}

/// Looks for the name `match_name` among the sixteen entries of `block`.
/// Returns the first entry with that name; `NotInSector` when no entry has
/// it.
pub fn find_in_block(
    block: &Block,
    match_name: &ShortFileName,
) -> (result: Result<DirEntry, FsError>)
    requires
        block.wf(),
    ensures
        result is Ok <==> exists|i: int|
            0 <= i < ENTRIES_PER_BLOCK && #[trigger] named_at(block.bytes@, match_name.bytes@, i),
        result matches Err(e) ==> e == FsError::NotInSector,
        result matches Ok(entry) ==> exists|i: int|
            0 <= i < ENTRIES_PER_BLOCK && #[trigger] named_at(block.bytes@, match_name.bytes@, i)
                && (forall|j: int| 0 <= j < i ==> !named_at(block.bytes@, match_name.bytes@, j))
                && entry.filename.bytes@ == match_name.bytes@ && entry.attributes
                == block.bytes@[i * 32 + 11] && entry.modified == timestamp_of(
                le16(block.bytes@, i * 32 + 24) as u16,
                le16(block.bytes@, i * 32 + 22) as u16,
            ) && entry.cluster == Cluster(le16(block.bytes@, i * 32 + 26) as u32) && entry.size
                == le32(block.bytes@, i * 32 + 28) as u32,
{
    let mut i: usize = 0;
    while i < ENTRIES_PER_BLOCK
        invariant
            i <= ENTRIES_PER_BLOCK,
            block.wf(),
            forall|j: int| 0 <= j < i ==> !named_at(block.bytes@, match_name.bytes@, j),
        decreases ENTRIES_PER_BLOCK - i,
    {
        let entry = DirEntry::parse(&block.bytes, i * ENTRY_LEN);
        if entry.filename.matches(match_name) {
            assert(named_at(block.bytes@, match_name.bytes@, i as int));
            return Ok(entry);
        }
        i = i + 1;
    }
    Err(FsError::NotInSector)
}

/// What listing the first `n` entries of a block gives: the entries that
/// are listed, in their order, up to the one that ends the directory.
pub open spec fn listing(bytes: Seq<u8>, n: nat) -> Seq<int>
    decreases n,
{
    if n == 0 {
        Seq::empty()
    } else if ended_before(bytes, (n - 1) as nat) || first_byte(bytes, n - 1) == END_OF_DIRECTORY {
        listing(bytes, (n - 1) as nat)
    } else if bytes[(n - 1) * 32] != UNUSED_ENTRY && bytes[(n - 1) * 32 + 11] & ATTR_LONG_NAME
        != ATTR_LONG_NAME {
        listing(bytes, (n - 1) as nat).push(n - 1)
    } else {
        listing(bytes, (n - 1) as nat)
    }
}

/// The first byte of entry number `i` of a block.
pub open spec fn first_byte(bytes: Seq<u8>, i: int) -> u8 {
    bytes[i * 32]
}

/// True when one of the first `n` entries of a block ends the directory.
pub open spec fn ended_before(bytes: Seq<u8>, n: nat) -> bool {
    exists|i: int| 0 <= i < n && #[trigger] first_byte(bytes, i) == END_OF_DIRECTORY
}

/// Appends to `entries` the listed entries of `block`, in their order, up
/// to the entry that ends the directory. Returns true when the directory
/// ends in this block.
pub fn list_block(block: &Block, entries: &mut Vec<DirEntry>) -> (ended: bool)
    requires
        block.wf(),
    ensures
        ended == ended_before(block.bytes@, ENTRIES_PER_BLOCK as nat),
        final(entries)@.len() == old(entries)@.len() + listing(
            block.bytes@,
            ENTRIES_PER_BLOCK as nat,
        ).len(),
        forall|k: int| 0 <= k < old(entries)@.len() ==> final(entries)@[k] == old(entries)@[k],
        forall|k: int|
            old(entries)@.len() <= k < final(entries)@.len() ==> (
            #[trigger] final(entries)@[k]).listed(),
        forall|k: int|
            0 <= k < listing(block.bytes@, ENTRIES_PER_BLOCK as nat).len() ==> {
                let i = listing(block.bytes@, ENTRIES_PER_BLOCK as nat)[k];
                let entry = #[trigger] final(entries)@[old(entries)@.len() + k];
                &&& entry.filename.bytes@ == block.bytes@.subrange(i * 32, i * 32 + 11)
                &&& entry.attributes == block.bytes@[i * 32 + 11]
                &&& entry.modified == timestamp_of(
                    le16(block.bytes@, i * 32 + 24) as u16,
                    le16(block.bytes@, i * 32 + 22) as u16,
                )
                &&& entry.cluster == Cluster(le16(block.bytes@, i * 32 + 26) as u32)
                &&& entry.size == le32(block.bytes@, i * 32 + 28) as u32
            },
{
    let ghost bytes = block.bytes@;
    let mut i: usize = 0;
    while i < ENTRIES_PER_BLOCK
        invariant
            i <= ENTRIES_PER_BLOCK,
            block.wf(),
            bytes == block.bytes@,
            !ended_before(bytes, i as nat),
            entries@.len() == old(entries)@.len() + listing(bytes, i as nat).len(),
            forall|k: int| 0 <= k < old(entries)@.len() ==> entries@[k] == old(entries)@[k],
            forall|k: int|
                old(entries)@.len() <= k < entries@.len() ==> (#[trigger] entries@[k]).listed(),
            forall|k: int|
                0 <= k < listing(bytes, i as nat).len() ==> {
                    let j = listing(bytes, i as nat)[k];
                    let entry = #[trigger] entries@[old(entries)@.len() + k];
                    &&& entry.filename.bytes@ == bytes.subrange(j * 32, j * 32 + 11)
                    &&& entry.attributes == bytes[j * 32 + 11]
                    &&& entry.modified == timestamp_of(
                        le16(bytes, j * 32 + 24) as u16,
                        le16(bytes, j * 32 + 22) as u16,
                    )
                    &&& entry.cluster == Cluster(le16(bytes, j * 32 + 26) as u32)
                    &&& entry.size == le32(bytes, j * 32 + 28) as u32
                },
        decreases ENTRIES_PER_BLOCK - i,
    {
        let entry = DirEntry::parse(&block.bytes, i * ENTRY_LEN);
        assert(entry.filename.bytes@[0] == first_byte(bytes, i as int));
        if entry.is_eod() {
            proof {
                lemma_listing_stops(bytes, i as nat, ENTRIES_PER_BLOCK as nat);
            }
            return true;
        } else if entry.is_valid() && !entry.is_long_name() {
            entries.push(entry);
        }
        i = i + 1;
    }
    false
}

/// Behind the entry that ends the directory nothing is listed.
pub proof fn lemma_listing_stops(bytes: Seq<u8>, i: nat, n: nat)
    requires
        i < n,
        first_byte(bytes, i as int) == END_OF_DIRECTORY,
    ensures
        listing(bytes, n) == listing(bytes, i),
        ended_before(bytes, n),
    decreases n,
{
    if n > i + 1 {
        lemma_listing_stops(bytes, i, (n - 1) as nat);
    }
}

} // verus!
