//! Configuration discovery: which pin a directory walk finds.
//!
//! The launcher walks from the working directory up to the filesystem root.
//! In each directory three sources are probed in priority order: the project
//! manifest's engine constraint, then the `.node-version` file, then the
//! `.nvmrc` file. The first source found in the walk supplies the pin and the
//! walk stops there; a directory with none of the three is transparent. The
//! walk itself reads the filesystem and lives with the caller; this module
//! holds the decisions: what one directory's probe results yield, and which
//! probe of a walk wins.

use vstd::prelude::*;

use crate::manifest::{manifest_node_of, manifest_node_pin};

verus! {

/// Which configuration source a pin came from. The kind never affects how
/// the pin parses, only which source wins within one directory.
#[derive(Clone, Copy, PartialEq, Eq, Structural, Debug)]
pub enum PinKind {
    PackageConfig,
    VersionFile,
    RcFile,
}

/// A raw, not-yet-parsed version constraint found in project configuration.
pub struct Pin {
    pub value: String,
    pub kind: PinKind,
}

/// What probing one directory for the three configuration sources returned:
/// each field is the file's content where the file could be read.
pub struct DirProbe {
    pub manifest: Option<String>,
    pub version_file: Option<String>,
    pub rc_file: Option<String>,
}

pub ghost struct PinView {
    pub value: Seq<char>,
    pub kind: PinKind,
}

pub ghost struct ProbeView {
    pub manifest: Option<Seq<char>>,
    pub version_file: Option<Seq<char>>,
    pub rc_file: Option<Seq<char>>,
}

impl View for Pin {
    type V = PinView;

    open spec fn view(&self) -> PinView {
        PinView { value: self.value@, kind: self.kind }
    }
}

impl View for DirProbe {
    type V = ProbeView;

    open spec fn view(&self) -> ProbeView {
        ProbeView {
            manifest: self.manifest.deep_view(),
            version_file: self.version_file.deep_view(),
            rc_file: self.rc_file.deep_view(),
        }
    }
}

/// The pin one directory yields: the manifest's runtime constraint where it
/// declares one, else the `.node-version` content, else the `.nvmrc` content,
/// else none. A manifest that is present but declares no runtime constraint
/// falls through to the version files of the same directory.
pub open spec fn spec_pin_of(p: ProbeView) -> Option<PinView> {
    if p.manifest is Some && manifest_node_of(p.manifest.unwrap()) is Some {
        Option::Some(
            PinView {
                value: manifest_node_of(p.manifest.unwrap()).unwrap(),
                kind: PinKind::PackageConfig,
            },
        )
    } else if p.version_file is Some {
        Option::Some(PinView { value: p.version_file.unwrap(), kind: PinKind::VersionFile })
    } else if p.rc_file is Some {
        Option::Some(PinView { value: p.rc_file.unwrap(), kind: PinKind::RcFile })
    } else {
        Option::None
    }
}

/// The pin a walk yields: the first directory's pin, where it has one, else
/// whatever the rest of the walk yields.
pub open spec fn spec_first_pin(probes: Seq<DirProbe>) -> Option<PinView>
    decreases probes.len(),
{
    if probes.len() == 0 {
        Option::None
    } else {
        match spec_pin_of(probes[0]@) {
            Option::Some(p) => Option::Some(p),
            Option::None => spec_first_pin(probes.drop_first()),
        }
    }
}

/// Law: discovery stops at the first directory of the walk that yields a
/// pin. Where directory `i` yields a pin and every directory before it
/// yields none, the walk's pin is directory `i`'s — the sources of every
/// directory past `i` cannot affect the result.
pub proof fn lemma_first_pin_stops(probes: Seq<DirProbe>, i: int)
    requires
        0 <= i < probes.len(),
        spec_pin_of(probes[i]@) is Some,
        forall|j: int| 0 <= j < i ==> spec_pin_of(#[trigger] probes[j]@) is None,
    ensures
        spec_first_pin(probes) == spec_pin_of(probes[i]@),
    decreases i,
{
    if i > 0 {
        assert forall|j: int| 0 <= j < i - 1 implies spec_pin_of(
            #[trigger] probes.drop_first()[j]@,
        ) is None by {
            assert(probes.drop_first()[j] == probes[j + 1]);
        }
        assert(probes.drop_first()[i - 1] == probes[i]);
        lemma_first_pin_stops(probes.drop_first(), i - 1);
    }
}

/// Law: a walk in which no directory yields a pin — no ancestor holds any of
/// the three configuration sources — resolves to no pin at all.
pub proof fn lemma_first_pin_exhausts(probes: Seq<DirProbe>)
    requires
        forall|j: int| 0 <= j < probes.len() ==> spec_pin_of(#[trigger] probes[j]@) is None,
    ensures
        spec_first_pin(probes) is None,
    decreases probes.len(),
{
    if probes.len() > 0 {
        assert forall|j: int| 0 <= j < probes.len() - 1 implies spec_pin_of(
            #[trigger] probes.drop_first()[j]@,
        ) is None by {
            assert(probes.drop_first()[j] == probes[j + 1]);
        }
        lemma_first_pin_exhausts(probes.drop_first());
    }
}

/// The manifest probe: the pin the directory's manifest declares, if any.
pub fn read_package_json(probe: &DirProbe) -> (r: Option<Pin>)
    ensures
        match r {
            Option::Some(pin) => probe@.manifest is Some && manifest_node_of(
                probe@.manifest.unwrap(),
            ) == Option::Some(pin@.value) && pin@.kind == PinKind::PackageConfig,
            Option::None => probe@.manifest is None || manifest_node_of(
                probe@.manifest.unwrap(),
            ) is None,
        },
{
    match &probe.manifest {
        Option::Some(content) => match manifest_node_pin(content.as_str()) {
            Option::Some(value) => Some(Pin { value, kind: PinKind::PackageConfig }),
            Option::None => None,
        },
        Option::None => None,
    }
}

/// The `.node-version` probe: the file's content as the pin, if present.
pub fn read_node_version_file(probe: &DirProbe) -> (r: Option<Pin>)
    ensures
        match r {
            Option::Some(pin) => probe@.version_file == Option::Some(pin@.value) && pin@.kind
                == PinKind::VersionFile,
            Option::None => probe@.version_file is None,
        },
{
    match &probe.version_file {
        Option::Some(content) => Some(Pin { value: content.clone(), kind: PinKind::VersionFile }),
        Option::None => None,
    }
}

/// The `.nvmrc` probe: the file's content as the pin, if present.
pub fn read_nvmrc(probe: &DirProbe) -> (r: Option<Pin>)
    ensures
        match r {
            Option::Some(pin) => probe@.rc_file == Option::Some(pin@.value) && pin@.kind
                == PinKind::RcFile,
            Option::None => probe@.rc_file is None,
        },
{
    match &probe.rc_file {
        Option::Some(content) => Some(Pin { value: content.clone(), kind: PinKind::RcFile }),
        Option::None => None,
    }
}

/// The pin one directory yields, probing the three sources in priority
/// order: manifest constraint, then `.node-version`, then `.nvmrc`.
pub fn read_node_version(probe: &DirProbe) -> (r: Option<Pin>)
    ensures
        match r {
            Option::Some(pin) => spec_pin_of(probe@) == Option::Some(pin@),
            Option::None => spec_pin_of(probe@) is None,
        },
{
    if let Option::Some(pin) = read_package_json(probe) {
        return Some(pin);
    }
    if let Option::Some(pin) = read_node_version_file(probe) {
        return Some(pin);
    }
    if let Option::Some(pin) = read_nvmrc(probe) {
        return Some(pin);
    }
    None
}

/// The pin a whole walk yields: the first directory, from the start of the
/// walk, whose probe yields a pin, supplies it; every directory before it
/// yields none; a walk in which no directory yields a pin resolves to no
/// constraint at all — a valid outcome, not an error.
pub fn get_wanted_version(probes: &Vec<DirProbe>) -> (r: Option<Pin>)
    ensures
        match r {
            Option::Some(pin) => exists|i: int|
                0 <= i < probes@.len() && #[trigger] spec_pin_of(probes@[i]@) == Option::Some(pin@)
                    && (forall|j: int| 0 <= j < i ==> spec_pin_of(#[trigger] probes@[j]@) is None),
            Option::None => forall|i: int|
                0 <= i < probes@.len() ==> spec_pin_of(#[trigger] probes@[i]@) is None,
        },
{
    let mut i: usize = 0;
    while i < probes.len()
        invariant
            i <= probes.len(),
            forall|j: int| 0 <= j < i ==> spec_pin_of(#[trigger] probes@[j]@) is None,
        decreases probes.len() - i,
    {
        if let Option::Some(pin) = read_node_version(&probes[i]) {
            return Some(pin);
        }
        i += 1;
    }
    None
}

} // verus!
