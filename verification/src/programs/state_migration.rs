//! Two versions of a packet counter. The first counts in 32 bits. The second
//! counts in 64 bits in a store of its own and, on its first packet, takes
//! over what the first had counted.

use crate::store::FixedArray;
use crate::verdict::FilterResult;
use vstd::prelude::*;

verus! {

/// Packets that a counter lets through before it drops.
pub const PACKET_LIMIT: u64 = 10;

/// The version that the second program's state has.
pub const VERSION_V2: u64 = 2;

/// The state of the earlier version could not be taken over.
#[derive(Copy, Clone, Debug, PartialEq, Eq, Structural)]
pub enum MigrationError {
    /// The store of the version has no place.
    MissingVersion,
    /// The earlier version's store is absent or has no place.
    MissingOldStore,
    /// The new store has no place.
    MissingNewStore,
}

/// The verdict on the packet that brought the count to `count`.
pub open spec fn verdict_at(count: u64) -> FilterResult {
    if count > PACKET_LIMIT {
        FilterResult::Drop
    } else {
        FilterResult::Pass
    }
}

/// `count` and one more, as far as 32 bits go.
pub open spec fn bumped32(count: u32) -> u32 {
    if count == u32::MAX {
        count
    } else {
        (count + 1) as u32
    }
}

/// `count` and one more, as far as 64 bits go.
pub open spec fn bumped64(count: u64) -> u64 {
    if count == u64::MAX {
        count
    } else {
        (count + 1) as u64
    }
}

/// The first version: counts the packet and lets the first ten through.
/// Without a counter it aborts.
pub fn main_v1(counter: &mut FixedArray<u32>) -> (r: FilterResult)
    ensures
        old(counter)@.len() == 0 ==> r == FilterResult::Abort && final(counter)@ == old(counter)@,
        old(counter)@.len() > 0 ==> r == verdict_at(bumped32(old(counter)@[0]) as u64) && final(counter)@ == old(counter)@.update(0, bumped32(old(counter)@[0])),
{
    match counter.get_mut(0) {
        None => FilterResult::Abort,
        Some(slot) => {
            let count: u32 = *slot;
            let next: u32 = if count == u32::MAX {
                count
            } else {
                count + 1
            };
            *slot = next;
            if next as u64 > PACKET_LIMIT {
                FilterResult::Drop
            } else {
                FilterResult::Pass
            }
        },
    }
}

/// Whether state written under version `stored` has yet to be taken over.
pub open spec fn needs_migration(stored: u64) -> bool {
    stored < VERSION_V2
}

/// The first place of a store that may be absent.
pub open spec fn first_of(store: Option<Seq<u32>>) -> Option<u32> {
    match store {
        Some(s) => if s.len() > 0 {
            Some(s[0])
        } else {
            None
        },
        None => None,
    }
}

/// What taking over does: its answer, the store of the version and the new
/// counter afterwards.
pub open spec fn migration_step(version: Seq<u64>, old_counter: Option<Seq<u32>>, counter: Seq<u64>)
    -> (Result<(), MigrationError>, Seq<u64>, Seq<u64>) {
    if version.len() == 0 {
        (Err(MigrationError::MissingVersion), version, counter)
    } else if !needs_migration(version[0]) {
        (Ok(()), version, counter)
    } else if first_of(old_counter).is_none() {
        (Err(MigrationError::MissingOldStore), version, counter)
    } else if counter.len() == 0 {
        (Err(MigrationError::MissingNewStore), version, counter)
    } else {
        (
            Ok(()),
            version.update(0, VERSION_V2),
            counter.update(0, first_of(old_counter).unwrap() as u64),
        )
    }
}

/// Takes over the earlier version's count, once: where the stored version is
/// below 2, the count of `old_counter` is written to `counter` and the
/// version is set to 2. Where it is 2 already nothing is read or written.
/// Where a store is missing nothing is written.
pub fn handle_migration(
    version: &mut FixedArray<u64>,
    old_counter: Option<&FixedArray<u32>>,
    counter: &mut FixedArray<u64>,
) -> (r: Result<(), MigrationError>)
    ensures
        (r, final(version)@, final(counter)@) == migration_step(
            old(version)@,
            match old_counter {
                Some(s) => Some(s@),
                None => None,
            },
            old(counter)@,
        ),
{
    let stored: u64 = match version.get(0) {
        Some(v) => *v,
        None => {
            return Err(MigrationError::MissingVersion);
        },
    };
    if stored >= VERSION_V2 {
        return Ok(());
    }
    let old_count: u32 = match old_counter {
        Some(store) => match store.get(0) {
            Some(c) => *c,
            None => {
                return Err(MigrationError::MissingOldStore);
            },
        },
        None => {
            return Err(MigrationError::MissingOldStore);
        },
    };
    match counter.get_mut(0) {
        None => {
            return Err(MigrationError::MissingNewStore);
        },
        Some(slot) => {
            *slot = old_count as u64;
        },
    }
    match version.get_mut(0) {
        None => {},
        Some(slot) => {
            *slot = VERSION_V2;
        },
    }
    Ok(())
}

/// What the second version does with a packet: its verdict, the store of the
/// version and the new counter afterwards.
pub open spec fn v2_step(version: Seq<u64>, old_counter: Option<Seq<u32>>, counter: Seq<u64>) -> (
    FilterResult,
    Seq<u64>,
    Seq<u64>,
) {
    let migrated = migration_step(version, old_counter, counter);
    if migrated.0.is_err() || migrated.2.len() == 0 {
        (FilterResult::Abort, migrated.1, migrated.2)
    } else {
        (
            verdict_at(bumped64(migrated.2[0])),
            migrated.1,
            migrated.2.update(0, bumped64(migrated.2[0])),
        )
    }
}

/// The second version: takes over the earlier count if that is still to do,
/// then counts the packet and lets it through while the count is at most
/// ten. Where taking over fails the packet is aborted and nothing is
/// counted.
pub fn main_v2(
    version: &mut FixedArray<u64>,
    old_counter: Option<&FixedArray<u32>>,
    counter: &mut FixedArray<u64>,
) -> (r: FilterResult)
    ensures
        (r, final(version)@, final(counter)@) == v2_step(
            old(version)@,
            match old_counter {
                Some(s) => Some(s@),
                None => None,
            },
            old(counter)@,
        ),
{
    if handle_migration(version, old_counter, counter).is_err() {
        return FilterResult::Abort;
    }
    match counter.get_mut(0) {
        None => FilterResult::Abort,
        Some(slot) => {
            let count: u64 = *slot;
            let next: u64 = if count == u64::MAX {
                count
            } else {
                count + 1
            };
            *slot = next;
            if next > PACKET_LIMIT {
                FilterResult::Drop
            } else {
                FilterResult::Pass
            }
        },
    }
}

/// Taking over happens once: after it has succeeded, a second run changes
/// nothing and reads nothing of the earlier store, whatever that holds by
/// then or whether it is still there.
pub proof fn lemma_migration_once(
    version: Seq<u64>,
    old_counter: Option<Seq<u32>>,
    counter: Seq<u64>,
    later_old_counter: Option<Seq<u32>>,
)
    requires
        migration_step(version, old_counter, counter).0.is_ok(),
    ensures
        ({
            let first = migration_step(version, old_counter, counter);
            migration_step(first.1, later_old_counter, first.2) == (Ok::<(), MigrationError>(()), first.1, first.2)
        }),
        !needs_migration(migration_step(version, old_counter, counter).1[0]),
{
}

/// Taking over carries the earlier count into the new counter unchanged and
/// marks the state as version 2.
pub proof fn lemma_migration_carries_count(
    version: Seq<u64>,
    old_counter: Seq<u32>,
    counter: Seq<u64>,
)
    requires
        version.len() > 0,
        needs_migration(version[0]),
        old_counter.len() > 0,
        counter.len() > 0,
    ensures
        migration_step(version, Some(old_counter), counter).0.is_ok(),
        migration_step(version, Some(old_counter), counter).1[0] == VERSION_V2,
        migration_step(version, Some(old_counter), counter).2[0] == old_counter[0],
{
}

} // verus!
