//! The project manifest: the structured configuration source.
//!
//! A manifest is a JSON document whose `engines` object may pin the runtime
//! (`engines.node`) and the package manager (`engines.npm`). Everything else
//! in the document is ignored. A document that does not parse, or parses but
//! declares no runtime pin, is treated exactly like an absent manifest by
//! discovery — a malformed manifest must never abort the walk.

use vstd::prelude::*;

verus! {

/// The engine constraints a manifest declares.
pub struct Engines {
    pub node: Option<String>,
    pub npm: Option<String>,
}

/// The part of a project manifest this launcher reads.
pub struct PackageJson {
    pub engines: Option<Engines>,
}

pub ghost struct EnginesView {
    pub node: Option<Seq<char>>,
    pub npm: Option<Seq<char>>,
}

pub ghost struct PackageJsonView {
    pub engines: Option<EnginesView>,
}

impl View for Engines {
    type V = EnginesView;

    open spec fn view(&self) -> EnginesView {
        EnginesView { node: self.node.deep_view(), npm: self.npm.deep_view() }
    }
}

impl View for PackageJson {
    type V = PackageJsonView;

    open spec fn view(&self) -> PackageJsonView {
        PackageJsonView {
            engines: match self.engines {
                Option::Some(e) => Option::Some(e@),
                Option::None => Option::None,
            },
        }
    }
}

/// What reading the engine fields out of a manifest text yields: `None` where
/// the text is not a JSON document, otherwise the `engines` object with its
/// `node` and `npm` string fields, absent fields and non-string values read
/// as absent.
pub uninterp spec fn manifest_of(content: Seq<char>) -> Option<PackageJsonView>;

/// Relies on `serde_json::from_str::<serde_json::Value>`, `Value::get` and
/// `Value::as_str`: parsing is a pure function of the text, and the getters
/// copy the named fields out of the parsed document. The field path read
/// here, `engines.node` / `engines.npm`, is the manifest convention this
/// launcher consumes.
#[verifier::external_body]
fn parse_manifest_str(content: &str) -> (r: Option<PackageJson>)
    ensures
        match r {
            Option::Some(p) => manifest_of(content@) == Option::Some(p@),
            Option::None => manifest_of(content@) is None,
        },
{
    let value: serde_json::Value = match serde_json::from_str(content) {
        Ok(v) => v,
        Err(_) => return None,
    };
    let engines = value.get("engines").map(|e| Engines {
        node: e.get("node").and_then(|n| n.as_str()).map(|s| s.to_string()),
        npm: e.get("npm").and_then(|n| n.as_str()).map(|s| s.to_string()),
    });
    Some(PackageJson { engines })
}

/// The runtime pin a manifest text declares, if any.
pub open spec fn manifest_node_of(content: Seq<char>) -> Option<Seq<char>> {
    match manifest_of(content) {
        Option::Some(p) => match p.engines {
            Option::Some(e) => e.node,
            Option::None => Option::None,
        },
        Option::None => Option::None,
    }
}

impl PackageJson {
    /// Read the engine fields out of a manifest text. `None` where the text
    /// is not a JSON document.
    pub fn parse(content: &str) -> (r: Option<PackageJson>)
        ensures
            match r {
                Option::Some(p) => manifest_of(content@) == Option::Some(p@),
                Option::None => manifest_of(content@) is None,
            },
    {
        parse_manifest_str(content)
    }
}

/// The runtime pin a manifest text declares: the `engines.node` string, read
/// only where the text parses as JSON. Absent engines, an absent or
/// non-string `node` field, and unparsable text all yield `None`.
pub fn manifest_node_pin(content: &str) -> (r: Option<String>)
    ensures
        r.deep_view() == manifest_node_of(content@),
{
    match PackageJson::parse(content) {
        Option::Some(p) => match p.engines {
            Option::Some(e) => e.node,
            Option::None => None,
        },
        Option::None => None,
    }
}

} // verus!
