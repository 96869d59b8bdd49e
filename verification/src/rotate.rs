//! The rotating writer's state machine: configuration, size tracking, the
//! rotation trigger, and the rename plan a rotation executes.

use vstd::prelude::*;
use vstd::string::StringExecFns;

use crate::disk::{appended, apply_plan, write_step, SlotDisk};

verus! {

/// Default rotation threshold: 10 MiB.
pub const DEFAULT_FILESIZE: u64 = 10 * 1024 * 1024;

/// Default number of retained backup generations.
pub const DEFAULT_GENERATIONS: u64 = 5;

/// Mode bits applied to the active file on open: owner read-write only.
pub const FILE_MODE: u32 = 0o600;

/// Permission bit for read access in an access-control-list entry.
pub const PERM_READ: u32 = 4;

/// Permission bit for write access in an access-control-list entry.
pub const PERM_WRITE: u32 = 2;

/// Whether the active file is currently open, and if so how many bytes have
/// been written to it since it was opened (initialized from the end-of-file
/// position at open time).
pub enum FileState {
    Closed,
    Open { offset: u64 },
}

/// One step of a rotation: rename the file with suffix `from` to suffix
/// `to`, overwriting the target, but only if the source exists. Suffix `0`
/// stands for the active (unsuffixed) file.
#[derive(Clone, Copy, PartialEq, Eq, Structural, Debug)]
pub struct RenameStep {
    pub from: u64,
    pub to: u64,
}

/// An access-control-list entry granting permission bits `perm` to the user
/// identified by `uid`.
#[derive(Clone, Copy, PartialEq, Eq, Structural, Debug)]
pub struct AclEntry {
    pub uid: u32,
    pub perm: u32,
}

/// Everything the shell must apply to the active file right after creating
/// it: the mode bits, the owner/group/other base permissions of the
/// access-control list, and one read-only entry per extra reader. No entry
/// beyond these is part of the plan.
pub struct OpenPlan {
    pub mode: u32,
    pub owner_perm: u32,
    pub group_perm: u32,
    pub other_perm: u32,
    pub readers: Vec<AclEntry>,
}

/// The character for one decimal digit.
pub open spec fn digit_char(d: int) -> char {
    if d == 0 {
        '0'
    } else if d == 1 {
        '1'
    } else if d == 2 {
        '2'
    } else if d == 3 {
        '3'
    } else if d == 4 {
        '4'
    } else if d == 5 {
        '5'
    } else if d == 6 {
        '6'
    } else if d == 7 {
        '7'
    } else if d == 8 {
        '8'
    } else {
        '9'
    }
}

/// The usual decimal rendering of `n`: most significant digit first, no
/// leading zero except for `n == 0` itself.
pub open spec fn dec_chars(n: int) -> Seq<char>
    recommends
        n >= 0,
    decreases n,
{
    if n < 10 {
        seq![digit_char(n)]
    } else {
        dec_chars(n / 10).push(digit_char(n % 10))
    }
}

/// The on-disk name of generation `k` over the base name `base`: the base
/// name itself for the active file (`k == 0`), else the base name with a
/// dot and `k` in decimal appended.
pub open spec fn backup_name_chars(base: Seq<char>, k: u64) -> Seq<char> {
    if k == 0 {
        base
    } else {
        base + seq!['.'] + dec_chars(k as int)
    }
}

/// The one-character string for one decimal digit.
fn digit_str(d: u64) -> (r: &'static str)
    requires
        d < 10,
    ensures
        r@ == seq![digit_char(d as int)],
{
    let r: &'static str = if d == 0 {
        "0"
    } else if d == 1 {
        "1"
    } else if d == 2 {
        "2"
    } else if d == 3 {
        "3"
    } else if d == 4 {
        "4"
    } else if d == 5 {
        "5"
    } else if d == 6 {
        "6"
    } else if d == 7 {
        "7"
    } else if d == 8 {
        "8"
    } else {
        "9"
    };
    proof {
        reveal_strlit("0");
        reveal_strlit("1");
        reveal_strlit("2");
        reveal_strlit("3");
        reveal_strlit("4");
        reveal_strlit("5");
        reveal_strlit("6");
        reveal_strlit("7");
        reveal_strlit("8");
        reveal_strlit("9");
        assert(r@ =~= seq![digit_char(d as int)]);
    }
    r
}

/// Renders `n` in decimal, most significant digit first.
pub fn decimal(n: u64) -> (r: String)
    ensures
        r@ == dec_chars(n as int),
    decreases n,
{
    if n < 10 {
        String::from_str(digit_str(n))
    } else {
        let mut s = decimal(n / 10);
        s.append(digit_str(n % 10));
        proof {
            assert(s@ =~= dec_chars(n as int));
        }
        s
    }
}

/// A rotating (log) file writer.
///
/// The writer rotates once more than `filesize` bytes have been written to
/// the main file; up to `generations` backup files are kept around, named by
/// appending `.1`, `.2`, ... to `basename`.
pub struct FileRotate {
    /// The name for the main file. Backup generations append `.1`, `.2`,
    /// `.3` etc. to this name.
    pub basename: String,
    /// When a write pushes the tracked offset strictly above this size, a
    /// rotation is triggered.
    pub filesize: u64,
    /// Maximum number of retained backup generations.
    pub generations: u64,
    /// User identities granted read-only access via access-control-list
    /// entries.
    pub uids: Vec<u32>,
    /// Whether the main file is open, and the tracked offset when it is.
    /// Mutated only through [`FileRotate::opened`], [`FileRotate::note_write`]
    /// and [`FileRotate::rotate`].
    pub state: FileState,
}

/// The byte offset at which a write to `w` starts: the tracked offset when
/// the main file is open, else the end of the active file that the lazy
/// open will seek to (zero when no active file exists yet).
pub open spec fn write_start(w: &FileRotate, disk: Map<int, Seq<u8>>) -> int {
    if w.spec_is_open() {
        w.spec_offset() as int
    } else if disk.contains_key(0) {
        disk[0].len() as int
    } else {
        0
    }
}

/// The rename chain of one rotation over `g` retained generations, in the
/// order it must be executed: suffixes are shifted from the top down
/// (`g-1 -> g`, ..., `1 -> 2`, `0 -> 1`) so that no file is overwritten
/// before it has itself been moved.
pub open spec fn rotation_plan(g: u64) -> Seq<RenameStep> {
    Seq::new(g as nat, |i: int| RenameStep { from: (g - 1 - i) as u64, to: (g - i) as u64 })
}

/// The read-only access-control-list entries for a list of extra readers:
/// one read entry per configured user identity, in order.
pub open spec fn reader_entries(uids: Seq<u32>) -> Seq<AclEntry> {
    uids.map(|i: int, u: u32| AclEntry { uid: u, perm: PERM_READ })
}

impl FileRotate {
    /// True when the writer currently holds an open file.
    pub open spec fn spec_is_open(&self) -> bool {
        self.state is Open
    }

    /// The tracked byte offset of the open file (zero when closed).
    pub open spec fn spec_offset(&self) -> u64 {
        match self.state {
            FileState::Open { offset } => offset,
            FileState::Closed => 0,
        }
    }

    /// The configuration fields of `self` and `other` agree; only the
    /// open-file state may differ.
    pub open spec fn same_config(&self, other: &FileRotate) -> bool {
        &&& self.basename@ == other.basename@
        &&& self.filesize == other.filesize
        &&& self.generations == other.generations
        &&& self.uids@ == other.uids@
    }

    /// Creates a new writer for `path` with the default threshold and
    /// retention and no extra readers. Performs no I/O: the main file is
    /// only created when the first write happens.
    pub fn new(path: String) -> (r: Self)
        ensures
            r.basename@ == path@,
            r.filesize == DEFAULT_FILESIZE,
            r.generations == DEFAULT_GENERATIONS,
            r.uids@ == Seq::<u32>::empty(),
            !r.spec_is_open(),
    {
        FileRotate {
            basename: path,
            filesize: DEFAULT_FILESIZE,
            generations: DEFAULT_GENERATIONS,
            uids: Vec::new(),
            state: FileState::Closed,
        }
    }

    /// Sets the rotation threshold in bytes.
    pub fn with_filesize(self, p: u64) -> (r: Self)
        ensures
            r == (FileRotate { filesize: p, ..self }),
    {
        FileRotate { filesize: p, ..self }
    }

    /// Sets the number of retained backup generations.
    pub fn with_generations(self, p: u64) -> (r: Self)
        ensures
            r == (FileRotate { generations: p, ..self }),
    {
        FileRotate { generations: p, ..self }
    }

    /// Appends one extra reader identity to be granted read-only access.
    pub fn with_uid(self, uid: u32) -> (r: Self)
        ensures
            r.uids@ == self.uids@.push(uid),
            r.basename@ == self.basename@,
            r.filesize == self.filesize,
            r.generations == self.generations,
            r.state == self.state,
    {
        let mut s = self;
        s.uids.push(uid);
        s
    }

    /// True when the writer currently holds an open file.
    pub fn is_open(&self) -> (r: bool)
        ensures
            r == self.spec_is_open(),
    {
        match self.state {
            FileState::Open { .. } => true,
            FileState::Closed => false,
        }
    }

    /// The tracked byte offset of the open file (zero when closed).
    pub fn offset(&self) -> (r: u64)
        ensures
            r == self.spec_offset(),
    {
        match self.state {
            FileState::Open { offset } => offset,
            FileState::Closed => 0,
        }
    }

    /// Records that the main file has been opened with its end-of-file
    /// position at `offset`: the tracked running total starts there.
    pub fn opened(&mut self, offset: u64)
        ensures
            final(self).same_config(old(self)),
            final(self).spec_is_open(),
            final(self).spec_offset() == offset,
    {
        self.state = FileState::Open { offset };
    }

    /// Records that `n` bytes were appended to the open file and reports
    /// whether this write pushed the file over the threshold, so that the
    /// caller must now rotate. The decision is made after the write: a
    /// single write may push the file past `filesize` before rotation
    /// occurs.
    pub fn note_write(&mut self, n: u64) -> (rotate_now: bool)
        requires
            old(self).spec_is_open(),
            old(self).spec_offset() + n <= u64::MAX,
        ensures
            final(self).same_config(old(self)),
            final(self).spec_is_open(),
            final(self).spec_offset() == old(self).spec_offset() + n,
            rotate_now <==> old(self).spec_offset() + n > old(self).filesize,
    {
        let off = self.offset();
        let new_off = off + n;
        self.state = FileState::Open { offset: new_off };
        new_off > self.filesize
    }

    /// Closes the main file and returns the backup rotation's rename chain,
    /// top suffix first. The caller executes each step in order, skipping a
    /// step whose source does not exist; the file previously at suffix
    /// `generations` is overwritten and thereby discarded. With zero
    /// retained generations the chain is empty.
    pub fn rotate(&mut self) -> (plan: Vec<RenameStep>)
        ensures
            final(self).same_config(old(self)),
            !final(self).spec_is_open(),
            plan@ == rotation_plan(old(self).generations),
    {
        let g = self.generations;
        let mut plan: Vec<RenameStep> = Vec::new();
        let mut i: u64 = 0;
        while i < g
            invariant
                i <= g,
                plan@.len() == i as int,
                plan@ == rotation_plan(g).take(i as int),
            decreases g - i,
        {
            plan.push(RenameStep { from: g - 1 - i, to: g - i });
            proof {
                assert(plan@ =~= rotation_plan(g).take(i + 1));
            }
            i = i + 1;
        }
        proof {
            assert(plan@ =~= rotation_plan(g));
        }
        self.state = FileState::Closed;
        plan
    }

    /// The read-only access-control-list entries for the configured extra
    /// readers, in configuration order.
    pub fn acl_entries(&self) -> (r: Vec<AclEntry>)
        ensures
            r@ == reader_entries(self.uids@),
    {
        let mut r: Vec<AclEntry> = Vec::new();
        let mut i: usize = 0;
        while i < self.uids.len()
            invariant
                i <= self.uids@.len(),
                r@ == reader_entries(self.uids@.take(i as int)),
            decreases self.uids@.len() - i,
        {
            r.push(AclEntry { uid: self.uids[i], perm: PERM_READ });
            proof {
                assert(r@ =~= reader_entries(self.uids@.take(i + 1)));
            }
            i = i + 1;
        }
        proof {
            assert(self.uids@.take(self.uids@.len() as int) =~= self.uids@);
        }
        r
    }

    /// The full permission setup applied to the active file at creation
    /// time: mode bits `0o600`, base access-control entries granting the
    /// owner read-write and nobody else anything, and one read-only entry
    /// per extra reader. No other entry is ever part of the plan.
    pub fn open_plan(&self) -> (r: OpenPlan)
        ensures
            r.mode == FILE_MODE,
            r.owner_perm == PERM_READ | PERM_WRITE,
            r.group_perm == 0,
            r.other_perm == 0,
            r.readers@ == reader_entries(self.uids@),
    {
        OpenPlan {
            mode: FILE_MODE,
            owner_perm: PERM_READ | PERM_WRITE,
            group_perm: 0,
            other_perm: 0,
            readers: self.acl_entries(),
        }
    }

    /// The on-disk name of generation `k`: exactly `basename` for the
    /// active file, else `basename` with `.k` appended.
    pub fn backup_name(&self, k: u64) -> (r: String)
        ensures
            r@ == backup_name_chars(self.basename@, k),
    {
        let mut name = self.basename.clone();
        if k > 0 {
            name.append(".");
            let digits = decimal(k);
            name.append(digits.as_str());
            proof {
                reveal_strlit(".");
                assert(name@ =~= backup_name_chars(self.basename@, k));
            }
        }
        name
    }

    /// One write against the in-memory disk model, exactly as the shell
    /// performs it against the real filesystem: the active file is created
    /// and opened lazily if needed, `buf` is appended, and if the new offset
    /// strictly exceeds the threshold the file is closed and the generation
    /// shift runs before returning. Returns the number of bytes written.
    ///
    /// The tracked offset always equals the size of the open active file:
    /// this holds on open (the offset is read from the end of the file) and
    /// is preserved by every write.
    pub fn write_model(&mut self, disk: &mut SlotDisk, buf: &Vec<u8>) -> (n: usize)
        requires
            old(self).spec_is_open() ==> old(disk).contents().contains_key(0)
                && old(disk).contents()[0].len() == old(self).spec_offset(),
            write_start(old(self), old(disk).contents()) + buf@.len() <= u64::MAX,
            old(self).generations < usize::MAX as u64,
        ensures
            n == buf@.len(),
            final(self).same_config(old(self)),
            final(disk).contents() == write_step(
                old(disk).contents(),
                buf@,
                old(self).filesize,
                old(self).generations as int,
            ),
            ({
                let end = write_start(old(self), old(disk).contents()) + buf@.len();
                if end > old(self).filesize {
                    !final(self).spec_is_open()
                } else {
                    &&& final(self).spec_is_open()
                    &&& final(self).spec_offset() == end
                    &&& final(disk).contents().contains_key(0)
                    &&& final(disk).contents()[0].len() == final(self).spec_offset()
                }
            }),
    {
        let ghost orig = disk.contents();
        if !self.is_open() {
            disk.ensure_at(0);
            let len0 = disk.size_at(0);
            self.opened(len0 as u64);
        }
        proof {
            assert(disk.contents().contains_key(0));
            assert(disk.contents()[0].len() == self.spec_offset());
            assert(self.spec_offset() == write_start(old(self), orig));
        }
        disk.append_at(0, buf);
        proof {
            assert(disk.contents() =~= appended(orig, buf@));
        }
        let n = buf.len();
        let rotate_now = self.note_write(n as u64);
        if rotate_now {
            let plan = self.rotate();
            apply_plan(disk, &plan);
        }
        n
    }
}

} // verus!
