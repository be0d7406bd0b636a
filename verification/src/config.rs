//! Loading and saving the configuration partitions.
//!
//! A partition is an image here: what is in it, and how it is sealed against
//! corruption, is for the caller, who hands in a sealed image to save and a
//! verdict on each image that was read.
use vstd::prelude::*;

use crate::port::{ConfigStorage, Partition, RamConfigStorage};

verus! {

/// The partitions, in the order they are loaded.
pub const LOAD_ORDER: [Partition; 3] = [Partition::User, Partition::System, Partition::Hardware];

/// The three partitions' images.
#[derive(Debug)]
pub struct Images {
    /// Settings of the user.
    pub user: Vec<u8>,
    /// Settings of the system.
    pub system: Vec<u8>,
    /// Settings of the hardware.
    pub hardware: Vec<u8>,
}

impl Images {
    /// One partition's image.
    pub open spec fn image(self, partition: Partition) -> Seq<u8> {
        match partition {
            Partition::User => self.user@,
            Partition::System => self.system@,
            Partition::Hardware => self.hardware@,
        }
    }
}

/// Where a partition comes in [`LOAD_ORDER`].
pub open spec fn slot(partition: Partition) -> int {
    match partition {
        Partition::User => 0,
        Partition::System => 1,
        Partition::Hardware => 2,
    }
}

/// What reading the three partitions does to a storage, one after the other.
pub open spec fn reads<S: ConfigStorage>(
    before: &S,
    first: &S,
    second: &S,
    after: &S,
    old_images: Images,
    images: Images,
    timeout_ms: u32,
    r: [bool; 3],
) -> bool {
    &&& S::has_read(
        before,
        first,
        Partition::User,
        0,
        old_images.user@,
        timeout_ms,
        images.user@,
        r[0],
    )
    &&& S::has_read(
        first,
        second,
        Partition::System,
        0,
        old_images.system@,
        timeout_ms,
        images.system@,
        r[1],
    )
    &&& S::has_read(
        second,
        after,
        Partition::Hardware,
        0,
        old_images.hardware@,
        timeout_ms,
        images.hardware@,
        r[2],
    )
}

/// Read every partition, in order. Says which of them could be read.
///
/// A partition that could not be read keeps whatever bytes the read left
/// behind.
pub fn read_partitions<S: ConfigStorage>(
    images: &mut Images,
    storage: &mut S,
    timeout_ms: u32,
) -> (r: [bool; 3])
    ensures
        exists|first: S, second: S|
            #[trigger] reads(
                old(storage),
                &first,
                &second,
                final(storage),
                *old(images),
                *final(images),
                timeout_ms,
                r,
            ),
        final(images).user@.len() == old(images).user@.len(),
        final(images).system@.len() == old(images).system@.len(),
        final(images).hardware@.len() == old(images).hardware@.len(),
{
    let ghost before = *storage;
    let user = storage.read(Partition::User, 0, images.user.as_mut_slice(), timeout_ms);
    let ghost first = *storage;
    let system = storage.read(Partition::System, 0, images.system.as_mut_slice(), timeout_ms);
    let ghost second = *storage;
    let hardware = storage.read(
        Partition::Hardware,
        0,
        images.hardware.as_mut_slice(),
        timeout_ms,
    );
    let read = [user, system, hardware];
    assert(reads(
        &before,
        &first,
        &second,
        storage,
        *old(images),
        *images,
        timeout_ms,
        read,
    ));
    read
}

/// Which partitions are loaded: those that could be read and whose image
/// verifies. The others count as empty.
#[must_use]
pub fn loaded(read: [bool; 3], verifies: [bool; 3]) -> (r: [bool; 3])
    ensures
        forall|i: int| 0 <= i < 3 ==> #[trigger] r@[i] == (read@[i] && verifies@[i]),
{
    [read[0] && verifies[0], read[1] && verifies[1], read[2] && verifies[2]]
}

/// What `verify` says of three images.
pub open spec fn judged<V: Fn(&Vec<u8>) -> bool>(
    verify: V,
    images: Images,
    verifies: [bool; 3],
) -> bool {
    &&& call_ensures(verify, (&images.user,), verifies[0])
    &&& call_ensures(verify, (&images.system,), verifies[1])
    &&& call_ensures(verify, (&images.hardware,), verifies[2])
}

/// Load every partition, in order. Says which of them were loaded: a partition
/// that cannot be read, or whose image `verify` refuses, is not.
pub fn config_init<S: ConfigStorage, V: Fn(&Vec<u8>) -> bool>(
    images: &mut Images,
    storage: &mut S,
    timeout_ms: u32,
    verify: V,
) -> (r: [bool; 3])
    requires
        forall|image: &Vec<u8>| #[trigger] call_requires(verify, (image,)),
    ensures
        exists|first: S, second: S, read: [bool; 3], verifies: [bool; 3]|
            {
                &&& #[trigger] reads(
                    old(storage),
                    &first,
                    &second,
                    final(storage),
                    *old(images),
                    *final(images),
                    timeout_ms,
                    read,
                )
                &&& #[trigger] judged(verify, *final(images), verifies)
                &&& forall|i: int| 0 <= i < 3 ==> #[trigger] r@[i] == (read@[i] && verifies@[i])
            },
        final(images).user@.len() == old(images).user@.len(),
        final(images).system@.len() == old(images).system@.len(),
        final(images).hardware@.len() == old(images).hardware@.len(),
{
    let read = read_partitions(images, storage, timeout_ms);
    let user = verify(&images.user);
    let system = verify(&images.system);
    let hardware = verify(&images.hardware);
    let verifies = [user, system, hardware];
    assert(judged(verify, *images, verifies));
    loaded(read, verifies)
}

/// What follows a write to storage.
#[derive(Debug, Clone, Copy, PartialEq, Eq, Structural)]
pub struct Saved {
    /// Reset the processor, so that the saved configuration takes effect.
    pub reset: bool,
    /// Clear the partition's uncommitted flag, once that is done.
    pub committed: bool,
    /// What the save reports.
    pub ok: bool,
}

/// What follows from a write that succeeded or not: a partition counts as
/// committed only once it is in storage, and only then is a restart asked for.
#[must_use]
pub fn after_write(written: bool, restart: bool) -> (r: Saved)
    ensures
        r.ok == written,
        r.committed == written,
        r.reset == (written && restart),
{
    if !written {
        return Saved { reset: false, committed: false, ok: false };
    }
    Saved { reset: restart, committed: true, ok: true }
}

/// What saving a sealed image does to a storage: it is written, and once that
/// has succeeded, the processor is reset if that was asked for.
pub open spec fn saves<S: ConfigStorage>(
    before: &S,
    written: &S,
    after: &S,
    partition: Partition,
    sealed: Seq<u8>,
    restart: bool,
    timeout_ms: u32,
    r: bool,
) -> bool {
    &&& S::has_written(before, written, partition, 0, sealed, timeout_ms, r)
    &&& if r && restart {
        S::has_reset(written, after)
    } else {
        *after == *written
    }
}

/// Save a partition: write its sealed image, and on success reset if that was
/// asked for, and then clear its uncommitted flag.
pub fn save_config<S: ConfigStorage>(
    sealed: &[u8],
    needs_commit: &mut bool,
    partition: Partition,
    storage: &mut S,
    restart: bool,
    timeout_ms: u32,
) -> (r: bool)
    ensures
        exists|written: S|
            #[trigger] saves(
                old(storage),
                &written,
                final(storage),
                partition,
                sealed@,
                restart,
                timeout_ms,
                r,
            ),
        *final(needs_commit) == (*old(needs_commit) && !r),
{
    let ghost before = *storage;
    let ok = storage.write(partition, 0, sealed, timeout_ms);
    let ghost written = *storage;
    let follow = after_write(ok, restart);
    if follow.reset {
        storage.reset();
    }
    if follow.committed {
        *needs_commit = false;
    }
    assert(saves(&before, &written, storage, partition, sealed@, restart, timeout_ms, ok));
    follow.ok
}

/// A saved partition survives a reload: what was written into storage that is
/// large enough is what is read back, restart or not.
pub proof fn law_a_saved_partition_survives_a_reload(
    before: RamConfigStorage,
    written: RamConfigStorage,
    saved: RamConfigStorage,
    loaded: RamConfigStorage,
    partition: Partition,
    sealed: Seq<u8>,
    restart: bool,
    timeout_ms: u32,
    buf: Seq<u8>,
    filled: Seq<u8>,
    r: bool,
)
    requires
        saves(&before, &written, &saved, partition, sealed, restart, timeout_ms, true),
        buf.len() == sealed.len(),
        RamConfigStorage::has_read(&saved, &loaded, partition, 0, buf, timeout_ms, filled, r),
    ensures
        r,
        filled == sealed,
{
    assert(saved.image(partition) == written.image(partition));
    assert(filled =~= sealed);
}

/// After a reload of everything, a saved partition's image is the one that was
/// saved, and it is loaded as its verdict has it: if `verify` accepts the image
/// that was saved, and not if it refuses it.
pub proof fn law_a_saved_partition_is_loaded_if_it_verifies<V: Fn(&Vec<u8>) -> bool>(
    before: RamConfigStorage,
    written: RamConfigStorage,
    saved: RamConfigStorage,
    first: RamConfigStorage,
    second: RamConfigStorage,
    after: RamConfigStorage,
    partition: Partition,
    sealed: Seq<u8>,
    restart: bool,
    save_timeout_ms: u32,
    load_timeout_ms: u32,
    old_images: Images,
    images: Images,
    verify: V,
    read: [bool; 3],
    verifies: [bool; 3],
    accepted: bool,
)
    requires
        saves(&before, &written, &saved, partition, sealed, restart, save_timeout_ms, true),
        old_images.image(partition).len() == sealed.len(),
        reads(&saved, &first, &second, &after, old_images, images, load_timeout_ms, read),
        judged(verify, images, verifies),
        forall|image: &Vec<u8>, verdict: bool|
            image@ == sealed && #[trigger] call_ensures(verify, (image,), verdict) ==> verdict
                == accepted,
    ensures
        images.image(partition) == sealed,
        (read@[slot(partition)] && verifies@[slot(partition)]) == accepted,
        forall|other: Partition|
            other != partition && #[trigger] read@[slot(other)] ==> images.image(other)
                == before.image(other).take(old_images.image(other).len() as int),
{
    assert(saved.image(partition) == written.image(partition));
    assert(first.image(partition) == saved.image(partition));
    assert(second.image(partition) == first.image(partition));
    assert(images.image(partition) =~= sealed);
    assert forall|other: Partition|
        other != partition && #[trigger] read@[slot(other)] implies images.image(other)
        == before.image(other).take(old_images.image(other).len() as int) by {
        assert(written.image(other) == before.image(other));
        assert(saved.image(other) == written.image(other));
        assert(first.image(other) == saved.image(other));
        assert(second.image(other) == first.image(other));
    }
}

/// Saving one partition leaves the others as they were.
pub proof fn law_a_save_leaves_the_other_partitions_alone(
    before: RamConfigStorage,
    written: RamConfigStorage,
    saved: RamConfigStorage,
    partition: Partition,
    other: Partition,
    sealed: Seq<u8>,
    restart: bool,
    timeout_ms: u32,
    r: bool,
)
    requires
        saves(&before, &written, &saved, partition, sealed, restart, timeout_ms, r),
        other != partition,
    ensures
        saved.image(other) == before.image(other),
{
    assert(written.image(other) == before.image(other));
    assert(saved.image(other) == written.image(other));
}

/// Loading reads each partition whole, from its start, once, in load order, and
/// gives the storage the time it was given. Each read finds the storage as the
/// one before it left it.
pub proof fn law_each_partition_is_read_once_from_its_start<S: ConfigStorage>(
    before: S,
    first: S,
    second: S,
    after: S,
    old_images: Images,
    images: Images,
    timeout_ms: u32,
    read: [bool; 3],
    partition: Partition,
)
    requires
        reads(&before, &first, &second, &after, old_images, images, timeout_ms, read),
    ensures
        LOAD_ORDER@[slot(partition)] == partition,
        ({
            let stages = seq![before, first, second, after];
            S::has_read(
                &stages[slot(partition)],
                &stages[slot(partition) + 1],
                partition,
                0,
                old_images.image(partition),
                timeout_ms,
                images.image(partition),
                read@[slot(partition)],
            )
        }),
{
}

/// Every verdict is on the image it stands for.
pub proof fn law_each_verdict_is_on_its_own_image<V: Fn(&Vec<u8>) -> bool>(
    verify: V,
    images: Images,
    verifies: [bool; 3],
)
    requires
        judged(verify, images, verifies),
    ensures
        call_ensures(verify, (&images.user,), verifies@[slot(Partition::User)]),
        call_ensures(verify, (&images.system,), verifies@[slot(Partition::System)]),
        call_ensures(verify, (&images.hardware,), verifies@[slot(Partition::Hardware)]),
{
}

/// Saving writes the sealed image whole, from the partition's start, in the
/// time it was given. The processor is reset afterwards if that was asked for
/// and the write succeeded, and otherwise nothing more happens to the storage.
pub proof fn law_a_save_writes_and_then_resets_if_asked<S: ConfigStorage>(
    before: S,
    written: S,
    after: S,
    partition: Partition,
    sealed: Seq<u8>,
    restart: bool,
    timeout_ms: u32,
    ok: bool,
)
    requires
        saves(&before, &written, &after, partition, sealed, restart, timeout_ms, ok),
    ensures
        S::has_written(&before, &written, partition, 0, sealed, timeout_ms, ok),
        ok && restart ==> S::has_reset(&written, &after),
        !ok || !restart ==> after == written,
{
}

} // verus!
