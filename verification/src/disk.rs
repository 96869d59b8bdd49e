//! An in-memory model of the set of files the writer manages: one slot per
//! backup suffix, slot `0` being the active file. The rotation algorithm is
//! executed and proved against this model; the unverified shell performs the
//! same conditional renames with real filesystem calls.

use vstd::prelude::*;

use crate::rotate::{rotation_plan, RenameStep};

verus! {

/// The effect of one conditional rename on a disk: if a file exists at
/// suffix `s`, it moves to suffix `s + 1`, overwriting whatever was there;
/// if not, nothing happens.
pub open spec fn shift_step(disk: Map<int, Seq<u8>>, s: int) -> Map<int, Seq<u8>> {
    if disk.contains_key(s) {
        disk.remove(s).insert(s + 1, disk[s])
    } else {
        disk
    }
}

/// The effect of a full rotation over `g` retained generations: the
/// conditional renames `g-1 -> g`, ..., `1 -> 2`, `0 -> 1`, applied in that
/// (strictly descending) order.
pub open spec fn rotated(disk: Map<int, Seq<u8>>, g: int) -> Map<int, Seq<u8>>
    decreases g,
{
    if g <= 0 {
        disk
    } else {
        rotated(shift_step(disk, g - 1), g - 1)
    }
}

/// The effect of `n` successive rotations, each over `g` generations.
pub open spec fn rotated_n(disk: Map<int, Seq<u8>>, g: int, n: nat) -> Map<int, Seq<u8>>
    decreases n,
{
    if n == 0 {
        disk
    } else {
        rotated(rotated_n(disk, g, (n - 1) as nat), g)
    }
}

/// The effect of one append on a disk: `data` is added at the end of the
/// active file (suffix `0`), which is created empty first if absent.
pub open spec fn appended(disk: Map<int, Seq<u8>>, data: Seq<u8>) -> Map<int, Seq<u8>> {
    if disk.contains_key(0) {
        disk.insert(0, disk[0] + data)
    } else {
        disk.insert(0, data)
    }
}

/// One whole write of `data` at the disk level, with threshold `t` and
/// retention `g`: the bytes are appended to the active file (created first
/// if absent), and when the file's size then strictly exceeds `t`, the
/// generation shift runs. This is the disk effect of
/// [`crate::rotate::FileRotate::write_model`].
pub open spec fn write_step(
    disk: Map<int, Seq<u8>>,
    data: Seq<u8>,
    t: u64,
    g: int,
) -> Map<int, Seq<u8>> {
    let d1 = appended(disk, data);
    if d1[0].len() > t {
        rotated(d1, g)
    } else {
        d1
    }
}

/// Any number of writes, performed in order.
pub open spec fn write_run(
    disk: Map<int, Seq<u8>>,
    datas: Seq<Seq<u8>>,
    t: u64,
    g: int,
) -> Map<int, Seq<u8>>
    decreases datas.len(),
{
    if datas.len() == 0 {
        disk
    } else {
        write_step(write_run(disk, datas.drop_last(), t, g), datas.last(), t, g)
    }
}

/// A disk holding at most one file per backup suffix, with the file's bytes
/// as its contents. Slot `0` is the active file; slot `k` models the file
/// named with suffix `.k`.
pub struct SlotDisk {
    slots: Vec<Option<Vec<u8>>>,
}

impl SlotDisk {
    /// The disk as a map from each occupied suffix to that file's bytes.
    pub closed spec fn contents(&self) -> Map<int, Seq<u8>> {
        Map::new(
            |i: int| 0 <= i < self.slots@.len() && self.slots@[i] is Some,
            |i: int| self.slots@[i]->0@,
        )
    }

    /// An empty disk: no file exists at any suffix.
    pub fn empty() -> (r: Self)
        ensures
            r.contents() == Map::<int, Seq<u8>>::empty(),
    {
        let r = SlotDisk { slots: Vec::new() };
        proof {
            assert(r.contents() =~= Map::<int, Seq<u8>>::empty());
        }
        r
    }

    /// Whether a file exists at suffix `i`.
    pub fn exists_at(&self, i: usize) -> (r: bool)
        ensures
            r == self.contents().contains_key(i as int),
    {
        i < self.slots.len() && self.slots[i].is_some()
    }

    /// The size in bytes of the file at suffix `i`.
    pub fn size_at(&self, i: usize) -> (r: usize)
        requires
            self.contents().contains_key(i as int),
        ensures
            r == self.contents()[i as int].len(),
    {
        match &self.slots[i] {
            Some(data) => data.len(),
            None => unreached(),
        }
    }

    /// The bytes of the file at suffix `i`.
    pub fn read_at(&self, i: usize) -> (r: &Vec<u8>)
        requires
            self.contents().contains_key(i as int),
        ensures
            r@ == self.contents()[i as int],
    {
        match &self.slots[i] {
            Some(data) => data,
            None => unreached(),
        }
    }

    /// Creates an empty file at suffix `i` if none exists there; an existing
    /// file is left untouched.
    pub fn ensure_at(&mut self, i: usize)
        ensures
            final(self).contents() == (if old(self).contents().contains_key(i as int) {
                old(self).contents()
            } else {
                old(self).contents().insert(i as int, Seq::<u8>::empty())
            }),
    {
        let ghost orig = self.contents();
        while self.slots.len() <= i
            invariant
                self.contents() == orig,
            decreases i + 1 - self.slots@.len(),
        {
            self.slots.push(None);
            proof {
                assert(self.contents() =~= orig);
            }
        }
        if self.slots[i].is_none() {
            self.slots[i] = Some(Vec::new());
            proof {
                assert(self.contents() =~= orig.insert(i as int, Seq::<u8>::empty()));
            }
        }
    }

    /// Appends `data` to the file at suffix `i`.
    pub fn append_at(&mut self, i: usize, data: &Vec<u8>)
        requires
            old(self).contents().contains_key(i as int),
        ensures
            final(self).contents() == old(self).contents().insert(
                i as int,
                old(self).contents()[i as int] + data@,
            ),
    {
        let ghost orig = self.contents();
        let slot = &mut self.slots[i];
        match slot {
            Some(bytes) => {
                let mut j: usize = 0;
                while j < data.len()
                    invariant
                        j <= data@.len(),
                        bytes@ == orig[i as int] + data@.take(j as int),
                    decreases data@.len() - j,
                {
                    bytes.push(data[j]);
                    proof {
                        assert(bytes@ =~= orig[i as int] + data@.take(j + 1));
                    }
                    j = j + 1;
                }
                proof {
                    assert(data@.take(data@.len() as int) =~= data@);
                }
            },
            None => {
                unreached::<()>();
            },
        }
        proof {
            assert(self.contents() =~= orig.insert(i as int, orig[i as int] + data@));
        }
    }

    /// Renames the file at suffix `from` to suffix `to`, overwriting any
    /// file already there. The source must exist.
    pub fn rename(&mut self, from: usize, to: usize)
        requires
            old(self).contents().contains_key(from as int),
            from != to,
            to < usize::MAX,
        ensures
            final(self).contents() == old(self).contents().remove(from as int).insert(
                to as int,
                old(self).contents()[from as int],
            ),
    {
        let ghost orig = self.contents();
        self.ensure_at(to);
        proof {
            assert(self.contents().contains_key(from as int));
            assert(self.contents().contains_key(to as int));
            assert(from < self.slots@.len());
            assert(to < self.slots@.len());
        }
        let ghost mid = self.contents();
        let moved = self.slots[from].take();
        proof {
            assert(self.contents() =~= mid.remove(from as int));
        }
        self.slots[to] = moved;
        proof {
            assert(self.contents() =~= mid.remove(from as int).insert(
                to as int,
                mid[from as int],
            ));
            assert(self.contents() =~= orig.remove(from as int).insert(
                to as int,
                orig[from as int],
            ));
        }
    }
}

/// Executes a rotation's rename chain on the disk model: each step in order,
/// skipped when its source suffix holds no file. The result is exactly the
/// rotation of the original disk over `plan.len()` generations.
pub fn apply_plan(disk: &mut SlotDisk, plan: &Vec<RenameStep>)
    requires
        plan@ == rotation_plan(plan@.len() as u64),
        plan@.len() < usize::MAX,
    ensures
        final(disk).contents() == rotated(old(disk).contents(), plan@.len() as int),
{
    let ghost orig = disk.contents();
    let g = plan.len();
    let mut i: usize = 0;
    while i < g
        invariant
            i <= g,
            g == plan@.len(),
            g < usize::MAX,
            plan@ == rotation_plan(g as u64),
            rotated(disk.contents(), g - i) == rotated(orig, g as int),
        decreases g - i,
    {
        let s = g - 1 - i;
        assert(plan@[i as int] == (RenameStep { from: s as u64, to: (s + 1) as u64 }));
        let ghost before = disk.contents();
        if disk.exists_at(s) {
            disk.rename(s, s + 1);
            proof {
                assert(disk.contents() =~= shift_step(before, s as int));
            }
        }
        proof {
            assert(disk.contents() == shift_step(before, s as int));
            assert(rotated(disk.contents(), s as int) == rotated(before, s + 1)) by {
                reveal_with_fuel(rotated, 2);
            }
        }
        i = i + 1;
    }
    assert(rotated(disk.contents(), 0) == disk.contents());
}

} // verus!
