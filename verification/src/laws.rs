//! The guarantees of the rotation algorithm and of the threshold trigger,
//! stated and proved over the disk model and the write-run model.

use vstd::prelude::*;

use crate::disk::{appended, rotated, rotated_n, shift_step, write_run, write_step};
use crate::rotate::{rotation_plan, RenameStep};

verus! {

/// Full characterization of one rotation over `g >= 1` generations:
/// the active file's slot is vacated; every suffix `j` strictly below `g`
/// is afterwards occupied exactly when `j - 1` was occupied before, by that
/// file; suffix `g` receives the file from `g - 1` (overwriting and thereby
/// discarding its previous occupant), or keeps its occupant when `g - 1`
/// was empty; and no suffix above `g` is touched.
pub proof fn lemma_rotated_at(disk: Map<int, Seq<u8>>, g: int)
    requires
        1 <= g,
    ensures
        !rotated(disk, g).contains_key(0),
        forall|j: int|
            1 <= j < g ==> (#[trigger] rotated(disk, g).contains_key(j) <==> disk.contains_key(
                j - 1,
            )),
        forall|j: int|
            1 <= j < g && disk.contains_key(j - 1) ==> #[trigger] rotated(disk, g)[j] == disk[j
                - 1],
        rotated(disk, g).contains_key(g) <==> (disk.contains_key(g - 1) || disk.contains_key(g)),
        disk.contains_key(g - 1) ==> rotated(disk, g)[g] == disk[g - 1],
        !disk.contains_key(g - 1) && disk.contains_key(g) ==> rotated(disk, g)[g] == disk[g],
        forall|j: int|
            (j < 0 || j > g) ==> (#[trigger] rotated(disk, g).contains_key(j)
                <==> disk.contains_key(j)),
        forall|j: int|
            (j < 0 || j > g) && disk.contains_key(j) ==> #[trigger] rotated(disk, g)[j] == disk[j],
    decreases g,
{
    let d1 = shift_step(disk, g - 1);
    if g == 1 {
        assert(rotated(disk, 1) == d1) by {
            reveal_with_fuel(rotated, 3);
        }
    } else {
        lemma_rotated_at(d1, g - 1);
        assert(rotated(disk, g) == rotated(d1, g - 1)) by {
            reveal_with_fuel(rotated, 2);
        }
    }
}

/// Rotation ordering: with the active file and backups present for every
/// suffix `0..=k` and retention `g >= k + 1`, rotating moves former suffix
/// `i` to suffix `i + 1` for every `i` up to `k` (the active file becomes
/// suffix `1`), vacates the active slot, and creates no suffix above `g`.
pub proof fn lemma_rotation_ordering(disk: Map<int, Seq<u8>>, g: int, k: int)
    requires
        0 <= k,
        k + 1 <= g,
        forall|i: int| 0 <= i <= k ==> #[trigger] disk.contains_key(i),
    ensures
        forall|j: int| 1 <= j <= k + 1 ==> #[trigger] rotated(disk, g).contains_key(j),
        forall|j: int| 1 <= j <= k + 1 ==> #[trigger] rotated(disk, g)[j] == disk[j - 1],
        !rotated(disk, g).contains_key(0),
        forall|j: int|
            j > g ==> (#[trigger] rotated(disk, g).contains_key(j) <==> disk.contains_key(j)),
{
    lemma_rotated_at(disk, g);
    assert forall|j: int| 1 <= j <= k + 1 implies #[trigger] rotated(disk, g).contains_key(j)
        && rotated(disk, g)[j] == disk[j - 1] by {
        assert(disk.contains_key(j - 1));
    }
}

/// Bounded retention, one step: if every file sits at a suffix in
/// `0..=g`, then after one rotation every file sits at a suffix in `1..=g`
/// (in `0..=g` when `g == 0`): at most `g` backup files exist, and the file
/// that would have become suffix `g + 1` is gone.
pub proof fn lemma_bounded_retention(disk: Map<int, Seq<u8>>, g: int)
    requires
        0 <= g,
        forall|j: int| #[trigger] disk.contains_key(j) ==> 0 <= j <= g,
    ensures
        forall|j: int| #[trigger] rotated(disk, g).contains_key(j) ==> 0 <= j <= g,
        g >= 1 ==> !rotated(disk, g).contains_key(0),
{
    if g >= 1 {
        lemma_rotated_at(disk, g);
    }
}

/// Bounded retention, any number of rotations: the suffixes in use never
/// leave `0..=g`, however many rotations run.
pub proof fn lemma_bounded_retention_many(disk: Map<int, Seq<u8>>, g: int, n: nat)
    requires
        0 <= g,
        forall|j: int| #[trigger] disk.contains_key(j) ==> 0 <= j <= g,
    ensures
        forall|j: int| #[trigger] rotated_n(disk, g, n).contains_key(j) ==> 0 <= j <= g,
        n >= 1 && g >= 1 ==> !rotated_n(disk, g, n).contains_key(0),
    decreases n,
{
    if n >= 1 {
        lemma_bounded_retention_many(disk, g, (n - 1) as nat);
        lemma_bounded_retention(rotated_n(disk, g, (n - 1) as nat), g);
    }
}

/// Missing-generation tolerance: rotating with an absent intermediate
/// suffix `m` simply leaves slot `m + 1` vacant, while every occupied
/// suffix below `g` still moves up by one.
pub proof fn lemma_missing_generation(disk: Map<int, Seq<u8>>, g: int, m: int)
    requires
        0 <= m,
        m + 1 < g,
        !disk.contains_key(m),
    ensures
        !rotated(disk, g).contains_key(m + 1),
        forall|i: int|
            0 <= i < g && #[trigger] disk.contains_key(i) ==> rotated(disk, g).contains_key(i + 1)
                && rotated(disk, g)[i + 1] == disk[i],
{
    lemma_rotated_at(disk, g);
}

/// No gaps: when the active file and the backups occupy exactly the
/// suffixes `0..=k` with `k <= g`, one rotation leaves exactly the
/// suffixes `1..=k+1` occupied (`1..=g` when `k == g`): the chain stays
/// contiguous and never exceeds `g` backups.
pub proof fn lemma_contiguous_generations(disk: Map<int, Seq<u8>>, g: int, k: int)
    requires
        1 <= g,
        0 <= k <= g,
        forall|j: int| #[trigger] disk.contains_key(j) <==> 0 <= j <= k,
    ensures
        forall|j: int|
            #[trigger] rotated(disk, g).contains_key(j) <==> 1 <= j <= (if k + 1 <= g {
                k + 1
            } else {
                g
            }),
{
    lemma_rotated_at(disk, g);
    let top: int = if k + 1 <= g { k + 1 } else { g };
    assert forall|j: int| #[trigger] rotated(disk, g).contains_key(j) <==> 1 <= j <= top by {
        assert(disk.contains_key(j - 1) <==> 0 <= j - 1 <= k);
        assert(disk.contains_key(j) <==> 0 <= j <= k);
    }
}

/// Lazy creation: appending to an empty disk creates exactly the active
/// file, holding exactly the appended bytes; no other file appears.
pub proof fn lemma_lazy_creation(data: Seq<u8>)
    ensures
        forall|j: int|
            #[trigger] appended(Map::<int, Seq<u8>>::empty(), data).contains_key(j) <==> j == 0,
        appended(Map::<int, Seq<u8>>::empty(), data)[0] == data,
{
}

/// A healthy disk for retention `g`: every file sits at a suffix in
/// `0..=g`, and the backups are contiguous — every occupied suffix from
/// `2` upward has its predecessor occupied too.
pub open spec fn chain_inv(disk: Map<int, Seq<u8>>, g: int) -> bool {
    &&& forall|j: int| #[trigger] disk.contains_key(j) ==> 0 <= j <= g
    &&& forall|j: int| j >= 2 && #[trigger] disk.contains_key(j) ==> disk.contains_key(j - 1)
}

/// One write keeps the disk healthy: appending cannot break the chain, and
/// a rotation that follows a write moves a chain with its active file
/// present, which shifts it up without tearing a gap or passing `g`.
pub proof fn lemma_write_step_keeps_chain(disk: Map<int, Seq<u8>>, data: Seq<u8>, t: u64, g: int)
    requires
        1 <= g,
        chain_inv(disk, g),
    ensures
        chain_inv(write_step(disk, data, t, g), g),
{
    let d1 = appended(disk, data);
    assert(chain_inv(d1, g));
    if d1[0].len() > t {
        lemma_rotated_at(d1, g);
        let r = rotated(d1, g);
        assert forall|j: int| #[trigger] r.contains_key(j) implies 0 <= j <= g by {
            if j < 0 || j > g {
                assert(d1.contains_key(j));
            }
        }
        assert forall|j: int| j >= 2 && #[trigger] r.contains_key(j) implies r.contains_key(
            j - 1,
        ) by {
            assert(0 <= j <= g);
            if j < g {
                assert(d1.contains_key(j - 1));
            } else {
                if !d1.contains_key(g - 1) {
                    assert(d1.contains_key(g));
                    assert(d1.contains_key(g - 1));
                }
            }
            if j - 1 >= 2 {
                assert(d1.contains_key(j - 2));
            } else {
                assert(d1.contains_key(0));
            }
        }
    }
}

/// Any number of writes keeps the disk healthy: however many rotations a
/// write run triggers, the backups stay contiguous and never number more
/// than `g`.
pub proof fn lemma_write_run_keeps_chain(
    disk: Map<int, Seq<u8>>,
    datas: Seq<Seq<u8>>,
    t: u64,
    g: int,
)
    requires
        1 <= g,
        chain_inv(disk, g),
    ensures
        chain_inv(write_run(disk, datas, t, g), g),
    decreases datas.len(),
{
    if datas.len() > 0 {
        lemma_write_run_keeps_chain(disk, datas.drop_last(), t, g);
        lemma_write_step_keeps_chain(write_run(disk, datas.drop_last(), t, g), datas.last(), t, g);
    }
}

/// Zero retained generations: the rename chain is empty, so any number of
/// rotations leaves the disk exactly as it was.
pub proof fn lemma_zero_generations(disk: Map<int, Seq<u8>>, n: nat)
    ensures
        rotation_plan(0) == Seq::<RenameStep>::empty(),
        rotated_n(disk, 0, n) == disk,
    decreases n,
{
    assert(rotation_plan(0) =~= Seq::<RenameStep>::empty());
    if n >= 1 {
        lemma_zero_generations(disk, (n - 1) as nat);
    }
}

/// Total number of bytes in a run of writes.
pub open spec fn total(sizes: Seq<u64>) -> int
    decreases sizes.len(),
{
    if sizes.len() == 0 {
        0
    } else {
        total(sizes.drop_last()) + sizes.last()
    }
}

/// Tracked offset after a fresh writer performs the writes in `sizes`
/// against threshold `t`: each write adds its size, and a write that pushes
/// the offset strictly above `t` rotates, after which the next write finds
/// a fresh, empty active file, so the offset restarts at zero. This is the
/// offset evolution of [`crate::rotate::FileRotate::note_write`].
pub open spec fn run_offset(sizes: Seq<u64>, t: u64) -> int
    decreases sizes.len(),
{
    if sizes.len() == 0 {
        0
    } else {
        let o = run_offset(sizes.drop_last(), t) + sizes.last();
        if o > t {
            0
        } else {
            o
        }
    }
}

/// Number of rotations triggered while a fresh writer performs the writes
/// in `sizes` against threshold `t`.
pub open spec fn run_rotations(sizes: Seq<u64>, t: u64) -> nat
    decreases sizes.len(),
{
    if sizes.len() == 0 {
        0
    } else if run_offset(sizes.drop_last(), t) + sizes.last() > t {
        run_rotations(sizes.drop_last(), t) + 1
    } else {
        run_rotations(sizes.drop_last(), t)
    }
}

/// Threshold trigger, lower half: while the cumulative bytes written stay
/// at or below the threshold, no rotation happens at all, and the tracked
/// offset is exactly the cumulative byte count.
pub proof fn lemma_no_rotation_below_threshold(sizes: Seq<u64>, t: u64)
    requires
        total(sizes) <= t,
    ensures
        run_rotations(sizes, t) == 0,
        run_offset(sizes, t) == total(sizes),
    decreases sizes.len(),
{
    if sizes.len() > 0 {
        lemma_no_rotation_below_threshold(sizes.drop_last(), t);
    }
}

/// Threshold trigger, upper half: when the final write makes the
/// cumulative byte count cross the threshold for the first time, exactly
/// one rotation happens, on that write and not before.
pub proof fn lemma_one_rotation_at_crossing(sizes: Seq<u64>, t: u64)
    requires
        sizes.len() >= 1,
        total(sizes.drop_last()) <= t,
        total(sizes) > t,
    ensures
        run_rotations(sizes.drop_last(), t) == 0,
        run_rotations(sizes, t) == 1,
        run_offset(sizes, t) == 0,
{
    lemma_no_rotation_below_threshold(sizes.drop_last(), t);
}

} // verus!
