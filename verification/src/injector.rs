//! Where the hook library is looked for, and how the shared region of a process is named
//! and set up.

use vstd::prelude::*;
use vstd::string::*;

use crate::config::SM_NAME_PREFIX;
use crate::shared_mem;
use crate::shared_mem::{SharedRegion, SharedRing};
use crate::telemetry::RING_CAPACITY;
use crate::text;
use crate::text::decimal;

verus! {

/// The file name of the hook library for a process; one whose width is unknown gets the
/// 64-bit library.
pub fn dll_name(wow64: Option<bool>) -> (name: String)
    ensures
        name@ == if wow64 == Some(true) {
            "iframe_hook32.dll"@
        } else {
            "iframe_hook.dll"@
        },
{
    let narrow: bool = match wow64 {
        Some(w) => w,
        None => false,
    };
    if narrow {
        String::from_str("iframe_hook32.dll")
    } else {
        String::from_str("iframe_hook.dll")
    }
}

/// Where a file is looked for when it is not beside the running program, in order.
pub open spec fn places(name: Seq<char>) -> Seq<Seq<char>> {
    seq![
        "target/release/"@ + name,
        "target/debug/"@ + name,
        "target/i686-pc-windows-msvc/release/"@ + name,
        "target/i686-pc-windows-msvc/debug/"@ + name,
        name,
    ]
}

fn joined(dir: &str, name: &str) -> (path: String)
    ensures
        path@ == dir@ + name@,
{
    let mut path = String::from_str(dir);
    path.append(name);
    path
}

/// Where a file is looked for when it is not beside the running program, in order.
pub fn candidates(name: &str) -> (paths: Vec<String>)
    ensures
        paths@.len() == places(name@).len(),
        forall|i: int| 0 <= i < paths@.len() ==> (#[trigger] paths@[i])@ == places(name@)[i],
{
    let mut paths: Vec<String> = Vec::new();
    paths.push(joined("target/release/", name));
    paths.push(joined("target/debug/", name));
    paths.push(joined("target/i686-pc-windows-msvc/release/", name));
    paths.push(joined("target/i686-pc-windows-msvc/debug/", name));
    paths.push(String::from_str(name));
    paths
}

/// Which of the places is used.
#[derive(Debug, Clone, Copy, PartialEq, Eq, Structural)]
pub enum Place {
    /// Beside the running program.
    Beside,
    /// The candidate with this index.
    Candidate(usize),
}

/// The first of the places that exists.
pub open spec fn first_found(found: Seq<bool>) -> Option<int>
    decreases found.len(),
{
    if found.len() == 0 {
        None
    } else if found[0] {
        Some(0)
    } else {
        match first_found(found.drop_first()) {
            Some(i) => Some(i + 1),
            None => None,
        }
    }
}

/// Which place is used. `beside` says whether the file exists beside the running program
/// and is missing where that directory is not known; `found` says it of each candidate.
/// Without any, the place beside the program, or else the first candidate.
pub fn choose_place(beside: Option<bool>, found: &Vec<bool>) -> (p: Place)
    ensures
        p == if beside == Some(true) {
            Place::Beside
        } else {
            match first_found(found@) {
                Some(i) => Place::Candidate(i as usize),
                None => if beside is Some {
                    Place::Beside
                } else {
                    Place::Candidate(0)
                },
            }
        },
{
    if let Some(exists) = beside {
        if exists {
            return Place::Beside;
        }
    }
    let mut i: usize = 0;
    proof {
        if first_found(found@) is Some {
            lemma_first_found(found@);
        }
    }
    while i < found.len()
        invariant
            i <= found@.len(),
            beside != Some(true),
            forall|j: int| 0 <= j < i ==> !#[trigger] found@[j],
        decreases found@.len() - i,
    {
        if found[i] {
            proof {
                lemma_is_first(found@, i as int);
            }
            return Place::Candidate(i);
        }
        i = i + 1;
    }
    if beside.is_some() {
        Place::Beside
    } else {
        Place::Candidate(0)
    }
}

proof fn lemma_first_found(found: Seq<bool>)
    requires
        first_found(found) is Some,
    ensures
        0 <= first_found(found)->0 < found.len(),
        found[first_found(found)->0],
    decreases found.len(),
{
    if found.len() > 0 && !found[0] {
        lemma_first_found(found.drop_first());
    }
}

proof fn lemma_is_first(found: Seq<bool>, i: int)
    requires
        0 <= i < found.len(),
        found[i],
        forall|j: int| 0 <= j < i ==> !#[trigger] found[j],
    ensures
        first_found(found) == Some(i),
    decreases found.len(),
{
    if i > 0 {
        let rest = found.drop_first();
        assert(!found[0]);
        assert forall|j: int| 0 <= j < i - 1 implies !#[trigger] rest[j] by {
            assert(!found[j + 1]);
        }
        lemma_is_first(rest, i - 1);
    }
}

/// The name of the mapping that holds the shared region of a process.
pub fn mapping_name(pid: u32) -> (name: String)
    ensures
        name@ == SM_NAME_PREFIX@ + text::decimal_of(pid as int),
{
    let mut name = String::from_str(SM_NAME_PREFIX);
    let number = decimal(pid as u64);
    name.append(number.as_str());
    name
}

/// Sets up the shared region of a process: one that existed is taken over as it is, a
/// new one is initialised.
pub fn host_ring(region: SharedRegion, existed: bool) -> (ring: Option<SharedRing>)
    ensures
        existed ==> ring is Some == region.header.is_attachable(region.records@.len() as int),
        existed && ring is Some ==> {
            &&& ring->0@.header == (shared_mem::SharedHeader {
                tail: region.header.oldest() as u64,
                ..region.header
            })
            &&& ring->0@.pending == region.pending()
        },
        !existed ==> ring is Some == shared_mem::holds_ring(
            region.records@.len() as int,
            RING_CAPACITY as int,
        ),
        !existed && ring is Some ==> {
            &&& ring->0@.header == region.header.initialised(RING_CAPACITY as int)
            &&& ring->0@.pending == Seq::<shared_mem::TelemetryFrame>::empty()
        },
{
    if existed {
        SharedRing::attach(region)
    } else {
        SharedRing::init(region, RING_CAPACITY)
    }
}

/// The mappings of two processes have different names.
pub proof fn law_mapping_names_differ(a: u32, b: u32)
    requires
        a != b,
    ensures
        SM_NAME_PREFIX@ + text::decimal_of(a as int) != SM_NAME_PREFIX@ + text::decimal_of(b as int),
{
    text::law_decimal_reads_back(a as int, u32::MAX as int);
    text::law_decimal_reads_back(b as int, u32::MAX as int);
    let p = SM_NAME_PREFIX@;
    let x = p + text::decimal_of(a as int);
    let y = p + text::decimal_of(b as int);
    if x == y {
        assert(x.skip(p.len() as int) =~= text::decimal_of(a as int));
        assert(y.skip(p.len() as int) =~= text::decimal_of(b as int));
    }
}

} // verus!
