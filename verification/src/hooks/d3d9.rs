//! Hooks of the older device interface: the tables that devices copy their functions
//! from, found in the image of their module.

use vstd::prelude::*;

use crate::hooks::vtable::{PatchedSlots, SavedSlot};

verus! {

/// Entry of the device's function table that presents.
pub const SLOT_DEVICE_PRESENT: u64 = 17;

/// Leading entries that identify a table.
pub const SIGNATURE_SLOTS: usize = 16;

/// Bytes of those entries.
pub const SIGNATURE_BYTES: usize = 128;

/// "MZ".
pub const DOS_MAGIC: u64 = 0x5A4D;

/// The number in `n` bytes of `image` from `at`, lowest byte first.
pub open spec fn le_at(image: Seq<u8>, at: int, n: nat) -> int
    decreases n,
{
    if n == 0 {
        0
    } else {
        image[at] + 256 * le_at(image, at + 1, (n - 1) as nat)
    }
}

proof fn lemma_le_bound(image: Seq<u8>, at: int, n: nat)
    ensures
        0 <= le_at(image, at, n),
        n == 1 ==> le_at(image, at, n) < 0x100,
        n == 2 ==> le_at(image, at, n) < 0x1_0000,
        n == 3 ==> le_at(image, at, n) < 0x100_0000,
        n == 4 ==> le_at(image, at, n) < 0x1_0000_0000,
        n == 5 ==> le_at(image, at, n) < 0x100_0000_0000,
        n == 6 ==> le_at(image, at, n) < 0x1_0000_0000_0000,
        n == 7 ==> le_at(image, at, n) < 0x100_0000_0000_0000,
        n == 8 ==> le_at(image, at, n) < 0x1_0000_0000_0000_0000,
    decreases n,
{
    if n > 0 {
        lemma_le_bound(image, at + 1, (n - 1) as nat);
    }
}

fn read_le(image: &Vec<u8>, at: usize, n: usize) -> (v: u64)
    requires
        at + n <= image.len(),
        n <= 8,
    ensures
        v == le_at(image@, at as int, n as nat),
    decreases n,
{
    proof {
        lemma_le_bound(image@, at as int, n as nat);
    }
    if n == 0 {
        0
    } else {
        let rest: u64 = read_le(image, at + 1, n - 1);
        image[at] as u64 + 256 * rest
    }
}

/// The size that the headers of an image give, where it has headers: the position of
/// the optional header stands at byte 60, and its magic number tells its kind.
pub open spec fn image_size(image: Seq<u8>) -> Option<int> {
    if image.len() < 64 || le_at(image, 0, 2) != DOS_MAGIC {
        None
    } else {
        let opt = le_at(image, 60, 4) + 24;
        if opt + 60 > image.len() || (le_at(image, opt, 2) != 0x20B && le_at(image, opt, 2)
            != 0x10B) {
            None
        } else {
            Some(le_at(image, opt + 56, 4))
        }
    }
}

fn size_of_image(image: &Vec<u8>) -> (size: Option<usize>)
    ensures
        size is Some == image_size(image@) is Some,
        size is Some ==> size->0 == image_size(image@)->0,
{
    if image.len() < 64 {
        return None;
    }
    if read_le(image, 0, 2) != DOS_MAGIC {
        return None;
    }
    proof {
        lemma_le_bound(image@, 60, 4);
    }
    let opt: u64 = read_le(image, 60, 4) + 24;
    if opt + 60 > image.len() as u64 {
        return None;
    }
    let at: usize = opt as usize;
    let kind: u64 = read_le(image, at, 2);
    if kind != 0x20B && kind != 0x10B {
        return None;
    }
    proof {
        lemma_le_bound(image@, at + 56, 4);
    }
    Some(read_le(image, at + 56, 4) as usize)
}

/// The entries `sig` stand in `image` at `at`.
pub open spec fn matches_at(image: Seq<u8>, sig: Seq<u64>, at: int) -> bool {
    forall|i: int| 0 <= i < sig.len() ==> le_at(image, at + 8 * i, 8) == #[trigger] sig[i]
}

fn is_match(image: &Vec<u8>, sig: &Vec<u64>, at: usize) -> (b: bool)
    requires
        at + 8 * sig@.len() <= image.len(),
    ensures
        b == matches_at(image@, sig@, at as int),
{
    let mut i: usize = 0;
    while i < sig.len()
        invariant
            i <= sig@.len(),
            at + 8 * sig@.len() <= image.len(),
            forall|j: int|
                0 <= j < i ==> le_at(image@, at + 8 * j, 8) == #[trigger] sig@[j],
        decreases sig@.len() - i,
    {
        if read_le(image, at + 8 * i, 8) != sig[i] {
            assert(le_at(image@, at + 8 * i, 8) != sig@[i as int]);
            return false;
        }
        i = i + 1;
    }
    true
}

/// The places in `image`, from `at` on and below `limit`, where `sig` stands: places are
/// multiples of 8 apart, and a place that was found is skipped whole.
pub open spec fn places(image: Seq<u8>, sig: Seq<u64>, at: int, limit: int) -> Seq<int>
    decreases limit - at,
{
    if at + SIGNATURE_BYTES > limit {
        Seq::empty()
    } else if matches_at(image, sig, at) {
        seq![at] + places(image, sig, at + SIGNATURE_BYTES, limit)
    } else {
        places(image, sig, at + 8, limit)
    }
}

/// How far an image is searched: as far as its headers say, and it reaches.
pub open spec fn search_limit(image: Seq<u8>) -> int {
    match image_size(image) {
        Some(size) => if size <= image.len() {
            size
        } else {
            image.len() as int
        },
        None => 0,
    }
}

/// Finds every table in the image of a module whose leading entries are those of a
/// device's own table: devices are made from these. Offsets into the image.
pub fn find_vtable_templates(image: &Vec<u8>, sig: &Vec<u64>) -> (found: Vec<usize>)
    requires
        sig@.len() == SIGNATURE_SLOTS,
    ensures
        found@.map_values(|o: usize| o as int) == places(image@, sig@, 0, search_limit(image@)),
{
    let mut found: Vec<usize> = Vec::new();
    let size: usize = match size_of_image(image) {
        Some(size) => size,
        None => {
            assert(found@.map_values(|o: usize| o as int) =~= Seq::empty());
            return found;
        },
    };
    let limit: usize = if size <= image.len() { size } else { image.len() };
    let mut at: usize = 0;
    let ghost all = places(image@, sig@, 0, limit as int);
    assert(all =~= found@.map_values(|o: usize| o as int) + places(
        image@,
        sig@,
        at as int,
        limit as int,
    ));
    while limit >= SIGNATURE_BYTES && at <= limit - SIGNATURE_BYTES
        invariant
            sig@.len() == SIGNATURE_SLOTS,
            limit <= image@.len(),
            at <= limit,
            all == found@.map_values(|o: usize| o as int) + places(
                image@,
                sig@,
                at as int,
                limit as int,
            ),
        decreases limit - at,
    {
        let ghost before = found@.map_values(|o: usize| o as int);
        if is_match(image, sig, at) {
            found.push(at);
            let ghost after = found@.map_values(|o: usize| o as int);
            assert(after =~= before.push(at as int));
            assert(all =~= after + places(image@, sig@, at + SIGNATURE_BYTES, limit as int));
            at = at + SIGNATURE_BYTES;
        } else {
            at = at + 8;
        }
    }
    assert(all =~= found@.map_values(|o: usize| o as int));
    found
}

/// Every place that is found holds the entries, lies on the grid and within the limit,
/// and no two overlap.
pub proof fn law_places_match_and_do_not_overlap(
    image: Seq<u8>,
    sig: Seq<u64>,
    at: int,
    limit: int,
)
    ensures
        ({
            let found = places(image, sig, at, limit);
            &&& forall|i: int|
                0 <= i < found.len() ==> {
                    &&& at <= #[trigger] found[i]
                    &&& found[i] + SIGNATURE_BYTES <= limit
                    &&& (found[i] - at) % 8 == 0
                    &&& matches_at(image, sig, found[i])
                }
            &&& forall|i: int, j: int|
                0 <= i < j < found.len() ==> found[i] + SIGNATURE_BYTES <= found[j]
        }),
    decreases limit - at,
{
    if at + SIGNATURE_BYTES <= limit {
        if matches_at(image, sig, at) {
            law_places_match_and_do_not_overlap(image, sig, at + SIGNATURE_BYTES, limit);
            let rest = places(image, sig, at + SIGNATURE_BYTES, limit);
            let found = places(image, sig, at, limit);
            assert(found[0] == at);
            assert forall|i: int| 0 <= i < found.len() implies at <= #[trigger] found[i]
                && found[i] + SIGNATURE_BYTES <= limit && (found[i] - at) % 8 == 0 && matches_at(
                image,
                sig,
                found[i],
            ) by {
                if i > 0 {
                    assert(found[i] == rest[i - 1]);
                }
            }
            assert forall|i: int, j: int| 0 <= i < j < found.len() implies found[i]
                + SIGNATURE_BYTES <= found[j] by {
                assert(found[j] == rest[j - 1]);
                if i > 0 {
                    assert(found[i] == rest[i - 1]);
                }
            }
        } else {
            law_places_match_and_do_not_overlap(image, sig, at + 8, limit);
            let found = places(image, sig, at + 8, limit);
            assert forall|i: int| 0 <= i < found.len() implies (#[trigger] found[i] - at) % 8
                == 0 by {
                assert((found[i] - (at + 8)) % 8 == 0);
            }
        }
    }
}

/// No table is missed: every place on the grid that holds the entries is found, or
/// overlaps one that is.
pub proof fn law_no_place_is_missed(
    image: Seq<u8>,
    sig: Seq<u64>,
    at: int,
    limit: int,
    p: int,
) -> (i: int)
    requires
        at <= p,
        p + SIGNATURE_BYTES <= limit,
        (p - at) % 8 == 0,
        matches_at(image, sig, p),
    ensures
        0 <= i < places(image, sig, at, limit).len(),
        places(image, sig, at, limit)[i] <= p < places(image, sig, at, limit)[i]
            + SIGNATURE_BYTES,
    decreases limit - at,
{
    if matches_at(image, sig, at) {
        if p < at + SIGNATURE_BYTES {
            0
        } else {
            let k = law_no_place_is_missed(image, sig, at + SIGNATURE_BYTES, limit, p);
            k + 1
        }
    } else {
        law_no_place_is_missed(image, sig, at + 8, limit, p)
    }
}

/// The entry to put back when the hooks are removed, if one was patched; afterwards
/// nothing is installed.
pub fn uninstall(hooks: &mut PatchedSlots) -> (writes: Vec<SavedSlot>)
    ensures
        writes@ == crate::hooks::vtable::to_restore(old(hooks).slots@),
        final(hooks).slots@ == Seq::<SavedSlot>::empty(),
{
    let writes = hooks.uninstall();
    hooks.slots.clear();
    writes
}

} // verus!
