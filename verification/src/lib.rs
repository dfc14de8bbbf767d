//! Version-aware launcher core: resolves which locally installed runtime
//! version a working directory should use.
//!
//! The pipeline is: configuration discovery (an upward walk over directory
//! probes) yields an optional version pin; the pin parses into a range; the
//! inventory of installed versions comes from the store listing's directory
//! names; the selector picks the newest installed version satisfying the
//! range. Reading directories and files, and executing the chosen version,
//! is the caller's I/O; every decision in between lives here.

pub mod discovery;
pub mod inventory;
pub mod manifest;
pub mod range;
pub mod select;
pub mod version;

pub use discovery::{DirProbe, Pin, PinKind};
pub use inventory::LocalError;
pub use manifest::{Engines, PackageJson};
pub use range::VersionRange;
pub use select::LauncherError;
pub use version::SemVer;

use crate::discovery::{
    get_wanted_version, lemma_first_pin_exhausts, lemma_first_pin_stops, spec_first_pin,
    spec_pin_of,
};
use crate::inventory::{spec_inventory, versions_from_names};
use crate::range::{pin_digits_bounded, range_parses};
use crate::select::{find_best_match, spec_matches, spec_want};
use crate::version::{ver_le, ver_views};

use vstd::prelude::*;

verus! {

/// The pin string the walk's range is parsed from: the walk's pin where it
/// yields one that the range grammar accepts; no constraint where the walk
/// yields none or its pin does not parse — an unparsable pin counts exactly
/// like no pin at all.
pub open spec fn spec_resolved_want(probes: Seq<DirProbe>) -> Option<Seq<char>> {
    match spec_first_pin(probes) {
        Option::Some(p) => if pin_digits_bounded(p.value) && range_parses(p.value) {
            Option::Some(p.value)
        } else {
            Option::None
        },
        Option::None => Option::None,
    }
}

/// The whole resolution pipeline on one directory walk and one store
/// listing: discover the pin, parse it into a range, build the inventory,
/// select the best match.
///
/// The result is exactly the selector's on the walk's range and the
/// listing's inventory: `NoLocalVersionsFound` exactly where no listing
/// entry is a version, `NoMatchingVersion` exactly where versions are
/// installed but none is a candidate, and otherwise the maximum candidate
/// of the inventory.
pub fn resolve_version(probes: &Vec<DirProbe>, names: &Vec<String>) -> (r: Result<
    SemVer,
    LauncherError,
>)
    ensures
        (spec_inventory(names.deep_view()).len() == 0) <==> r == Result::<
            SemVer,
            LauncherError,
        >::Err(LauncherError::NoLocalVersionsFound()),
        r matches Ok(v) ==> spec_inventory(names.deep_view()).contains(v@),
        r matches Ok(v) ==> spec_matches(spec_resolved_want(probes@), v@),
        r matches Ok(v) ==> forall|j: int|
            0 <= j < spec_inventory(names.deep_view()).len() && spec_matches(
                spec_resolved_want(probes@),
                #[trigger] spec_inventory(names.deep_view())[j],
            ) ==> ver_le(spec_inventory(names.deep_view())[j], v@),
        (r == Result::<SemVer, LauncherError>::Err(LauncherError::NoMatchingVersion())) <==> (
        spec_inventory(names.deep_view()).len() > 0 && forall|j: int|
            0 <= j < spec_inventory(names.deep_view()).len() ==> !spec_matches(
                spec_resolved_want(probes@),
                #[trigger] spec_inventory(names.deep_view())[j],
            )),
{
    let pin = get_wanted_version(probes);
    proof {
        match &pin {
            Option::Some(p) => {
                let i = choose|i: int|
                    0 <= i < probes@.len() && #[trigger] spec_pin_of(probes@[i]@) == Option::Some(
                        p@,
                    ) && (forall|j: int|
                        0 <= j < i ==> spec_pin_of(#[trigger] probes@[j]@) is None);
                lemma_first_pin_stops(probes@, i);
            },
            Option::None => {
                lemma_first_pin_exhausts(probes@);
            },
        }
    }
    let want = match pin {
        Option::Some(p) => VersionRange::parse(p.value.as_str()),
        Option::None => None,
    };
    proof {
        assert(spec_want(want) == spec_resolved_want(probes@));
    }
    let inventory = versions_from_names(names);
    let ghost inv = spec_inventory(names.deep_view());
    let ghost stock = inventory@;
    proof {
        assert(ver_views(stock) == inv);
    }
    let r = find_best_match(want, inventory);
    proof {
        assert(stock.len() == inv.len());
        assert(forall|j: int| 0 <= j < stock.len() ==> #[trigger] stock[j]@ == inv[j]);
        if r is Ok {
            let v = r.unwrap();
            let i = choose|i: int| 0 <= i < stock.len() && stock[i] == v;
            assert(inv[i] == v@);
            assert(inv.contains(v@));
        }
    }
    r
}

} // verus!
