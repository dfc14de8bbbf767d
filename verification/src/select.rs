//! Best-match selection: the single policy decision of the launcher.
//!
//! Given the discovered range (or none) and the installed inventory, the
//! selector picks the newest installed version satisfying the range: with no
//! range every installed version is a candidate, with a range only the
//! versions it accepts are; among the candidates the maximum in
//! semantic-versioning precedence wins. An empty inventory fails before the
//! range is even considered — the more fundamental problem is reported.

use vstd::prelude::*;

use crate::range::{range_match, VersionRange};
use crate::version::{lemma_ver_total, lemma_ver_trans, ver_le, ver_lt, SemVer, Ver};

verus! {

/// Why selection failed: no version is installed at all, or versions are
/// installed but none satisfies the discovered range.
#[derive(Debug, PartialEq, Eq, Structural)]
pub enum LauncherError {
    NoLocalVersionsFound(),
    NoMatchingVersion(),
}

impl LauncherError {
    /// A diagnostic line naming the failure, for the caller to report.
    pub fn message(&self) -> (r: String)
        ensures
            self is NoLocalVersionsFound ==> r@ == "no local versions found"@,
            self is NoMatchingVersion ==> r@ == "no matching version found"@,
    {
        match self {
            LauncherError::NoLocalVersionsFound() => String::from_str("no local versions found"),
            LauncherError::NoMatchingVersion() => String::from_str("no matching version found"),
        }
    }
}

/// The pin string of the range in play, if one is.
pub open spec fn spec_want(want: Option<VersionRange>) -> Option<Seq<char>> {
    match want {
        Option::Some(r) => Option::Some(r@),
        Option::None => Option::None,
    }
}

/// Whether a version is a candidate: with no range every version is, with a
/// range exactly those the range accepts.
pub open spec fn spec_matches(want: Option<Seq<char>>, v: Ver) -> bool {
    match want {
        Option::None => true,
        Option::Some(pin) => range_match(pin, v),
    }
}

/// One step of the running maximum: the newcomer replaces the best so far
/// exactly where it strictly succeeds it; a tie keeps the incumbent.
pub fn select(version: SemVer, current_best: Option<SemVer>) -> (r: Option<SemVer>)
    ensures
        match current_best {
            Option::None => r == Option::Some(version),
            Option::Some(best) => (if ver_lt(best@, version@) {
                r == Option::Some(version)
            } else {
                r == Option::Some(best)
            }),
        },
{
    if let Option::Some(best_yet) = current_best {
        if best_yet.precedes(&version) {
            Some(version)
        } else {
            Some(best_yet)
        }
    } else {
        Some(version)
    }
}

/// Pick the best installed version.
///
/// Exactly on an empty inventory the result is `NoLocalVersionsFound`,
/// whatever the range. Exactly where versions are installed but none is a
/// candidate the result is `NoMatchingVersion`. Otherwise the result is an
/// element of the inventory, is a candidate, and no candidate in the
/// inventory succeeds it — the maximum candidate in semantic-versioning
/// precedence.
pub fn find_best_match(want: Option<VersionRange>, available: Vec<SemVer>) -> (r: Result<
    SemVer,
    LauncherError,
>)
    ensures
        (available@.len() == 0) <==> r == Result::<SemVer, LauncherError>::Err(
            LauncherError::NoLocalVersionsFound(),
        ),
        r matches Ok(v) ==> exists|i: int| 0 <= i < available@.len() && available@[i] == v,
        r matches Ok(v) ==> spec_matches(spec_want(want), v@),
        r matches Ok(v) ==> forall|j: int|
            0 <= j < available@.len() && spec_matches(spec_want(want), #[trigger] available@[j]@)
                ==> ver_le(available@[j]@, v@),
        (r == Result::<SemVer, LauncherError>::Err(LauncherError::NoMatchingVersion())) <==> (
        available@.len() > 0 && forall|j: int|
            0 <= j < available@.len() ==> !spec_matches(spec_want(want), #[trigger] available@[j]@)),
        r is Ok <==> (available@.len() > 0 && exists|j: int|
            0 <= j < available@.len() && spec_matches(spec_want(want), #[trigger] available@[j]@)),
        (want is None && available@.len() > 0) ==> r is Ok,
{
    if available.len() == 0 {
        return Err(LauncherError::NoLocalVersionsFound());
    }
    let ghost all = available@;
    let mut remaining = available;
    let mut current_best: Option<SemVer> = None;
    while remaining.len() > 0
        invariant
            remaining@ == all.take(remaining@.len() as int),
            remaining@.len() <= all.len(),
            match current_best {
                Option::Some(b) => {
                    &&& exists|i: int| remaining@.len() <= i < all.len() && all[i] == b
                    &&& spec_matches(spec_want(want), b@)
                    &&& forall|j: int|
                        remaining@.len() <= j < all.len() && spec_matches(
                            spec_want(want),
                            #[trigger] all[j]@,
                        ) ==> ver_le(all[j]@, b@)
                },
                Option::None => forall|j: int|
                    remaining@.len() <= j < all.len() ==> !spec_matches(
                        spec_want(want),
                        #[trigger] all[j]@,
                    ),
            },
        decreases remaining@.len(),
    {
        let ghost old_len = remaining@.len() as int;
        let version = remaining.pop().unwrap();
        proof {
            assert(all.take(old_len).drop_last() =~= all.take(old_len - 1));
            assert(version == all[old_len - 1]);
        }
        let candidate = match &want {
            Option::None => true,
            Option::Some(range) => range.test(&version),
        };
        if candidate {
            let ghost prior = current_best;
            let ghost v_new = version@;
            current_best = select(version, current_best);
            proof {
                match prior {
                    Option::None => (),
                    Option::Some(b) => {
                        if ver_lt(b@, v_new) {
                            assert forall|j: int|
                                old_len <= j < all.len() && spec_matches(
                                    spec_want(want),
                                    #[trigger] all[j]@,
                                ) implies ver_le(all[j]@, v_new) by {
                                if all[j]@ != b@ {
                                    lemma_ver_trans(all[j]@, b@, v_new);
                                }
                            }
                        } else {
                            lemma_ver_total(v_new, b@);
                        }
                    },
                }
            }
        }
    }
    proof {
        if current_best is None && all.len() > 0 {
            assert(!spec_matches(spec_want(want), all[0]@));
        }
    }
    match current_best {
        Option::Some(v) => Ok(v),
        Option::None => Err(LauncherError::NoMatchingVersion()),
    }
}

} // verus!
