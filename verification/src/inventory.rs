//! The local-version inventory: which installed versions a store listing
//! yields.
//!
//! The store's runtime-versions directory holds one subdirectory per
//! installed version, named by its tag (with or without a leading `v`).
//! Listing the directory is the caller's I/O; this module holds the decision:
//! each name that parses as a semantic version joins the inventory, every
//! other entry (stray files, hidden directories, unrelated names) is silently
//! skipped — the inventory is a best-effort filter, not a validator.

use vstd::prelude::*;

use crate::version::{parsed_version, ver_views, SemVer, Ver};

verus! {

/// Why the version store could not be enumerated: it cannot be located
/// (canonicalization of its path failed — it does not exist at all), or it
/// exists but its versions directory cannot be listed. The payload is the
/// path that failed.
pub enum LocalError {
    UnableToResolve(String),
    UnableToReadDir(String),
}

impl LocalError {
    /// A diagnostic line naming the failure, for the caller to report.
    pub fn message(&self) -> (r: String)
        ensures
            self is UnableToResolve ==> r@ == "unable to resolve local path: "@
                + self->UnableToResolve_0@,
            self is UnableToReadDir ==> r@ == "unable to read directory: "@
                + self->UnableToReadDir_0@,
    {
        match self {
            LocalError::UnableToResolve(path) => {
                let mut m = String::from_str("unable to resolve local path: ");
                m.append(path.as_str());
                m
            },
            LocalError::UnableToReadDir(path) => {
                let mut m = String::from_str("unable to read directory: ");
                m.append(path.as_str());
                m
            },
        }
    }
}

/// The inventory a listing yields: the parse of each name that is a version,
/// in listing order.
pub open spec fn spec_inventory(names: Seq<Seq<char>>) -> Seq<Ver>
    decreases names.len(),
{
    if names.len() == 0 {
        Seq::empty()
    } else {
        let rest = spec_inventory(names.drop_last());
        match parsed_version(names.last()) {
            Option::Some(v) => rest.push(v),
            Option::None => rest,
        }
    }
}

/// The versions among a directory listing's entry names. Names that do not
/// parse as a semantic version are silently excluded, not reported.
pub fn versions_from_names(names: &Vec<String>) -> (r: Vec<SemVer>)
    ensures
        ver_views(r@) == spec_inventory(names.deep_view()),
{
    let mut out: Vec<SemVer> = Vec::new();
    let mut i: usize = 0;
    while i < names.len()
        invariant
            i <= names.len(),
            ver_views(out@) == spec_inventory(names.deep_view().take(i as int)),
        decreases names.len() - i,
    {
        let ghost pre = names.deep_view().take(i as int);
        let ghost cur = names.deep_view().take(i as int + 1);
        proof {
            assert(cur.drop_last() =~= pre);
            assert(cur.last() == names@[i as int]@);
        }
        let ghost old_out = out@;
        match SemVer::parse(names[i].as_str()) {
            Option::Some(v) => {
                out.push(v);
                proof {
                    assert(ver_views(out@) =~= ver_views(old_out).push(v@));
                }
            },
            Option::None => {},
        }
        i += 1;
    }
    proof {
        assert(names.deep_view().take(names@.len() as int) =~= names.deep_view());
    }
    out
}

} // verus!
