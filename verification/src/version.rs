//! Semantic versions and their total precedence order.
//!
//! A version is the triple `major.minor.patch` plus an optional prerelease
//! tag, a dot-separated list of identifiers. Precedence follows semantic
//! versioning: the numeric triple compares first; at an equal triple a
//! version with a prerelease tag precedes the one without; prerelease tags
//! compare identifier by identifier, numeric identifiers numerically and
//! before alphanumeric ones, alphanumeric ones byte-lexicographically, a
//! shorter tag that is a prefix of a longer one first.

use vstd::prelude::*;

verus! {

/// The mathematical model of a version: the parts the order reads.
/// A prerelease identifier is modelled as its byte sequence.
#[verifier::ext_equal]
pub ghost struct Ver {
    pub major: int,
    pub minor: int,
    pub patch: int,
    pub pre: Option<Seq<Seq<u8>>>,
}

/// A numeric prerelease identifier: nonempty, ASCII digits only.
pub open spec fn is_numeric_id(id: Seq<u8>) -> bool {
    id.len() > 0 && forall|k: int| 0 <= k < id.len() ==> 48 <= #[trigger] id[k] <= 57
}

/// Strict byte-lexicographic order; a proper prefix comes first.
pub open spec fn bytes_lex_lt(a: Seq<u8>, b: Seq<u8>) -> bool
    decreases a.len(),
{
    if b.len() == 0 {
        false
    } else if a.len() == 0 {
        true
    } else if a[0] == b[0] {
        bytes_lex_lt(a.drop_first(), b.drop_first())
    } else {
        a[0] < b[0]
    }
}

/// Order on single prerelease identifiers: numeric identifiers compare by
/// value (equal to length-then-lexicographic order, since the grammar admits
/// no leading zeros) and always precede alphanumeric ones; alphanumeric
/// identifiers compare byte-lexicographically.
pub open spec fn id_lt(a: Seq<u8>, b: Seq<u8>) -> bool {
    if is_numeric_id(a) && is_numeric_id(b) {
        if a.len() != b.len() {
            a.len() < b.len()
        } else {
            bytes_lex_lt(a, b)
        }
    } else if is_numeric_id(a) {
        true
    } else if is_numeric_id(b) {
        false
    } else {
        bytes_lex_lt(a, b)
    }
}

/// Order on whole prerelease tags: identifier by identifier, a shorter
/// prefix first.
pub open spec fn ids_lt(a: Seq<Seq<u8>>, b: Seq<Seq<u8>>) -> bool
    decreases a.len(),
{
    if b.len() == 0 {
        false
    } else if a.len() == 0 {
        true
    } else if a[0] == b[0] {
        ids_lt(a.drop_first(), b.drop_first())
    } else {
        id_lt(a[0], b[0])
    }
}

/// At an equal numeric triple, a version with a prerelease tag precedes the
/// version without one.
pub open spec fn pre_lt(a: Option<Seq<Seq<u8>>>, b: Option<Seq<Seq<u8>>>) -> bool {
    match (a, b) {
        (Option::Some(_), Option::None) => true,
        (Option::None, _) => false,
        (Option::Some(x), Option::Some(y)) => ids_lt(x, y),
    }
}

/// Strict semantic-versioning precedence.
pub open spec fn ver_lt(a: Ver, b: Ver) -> bool {
    if a.major != b.major {
        a.major < b.major
    } else if a.minor != b.minor {
        a.minor < b.minor
    } else if a.patch != b.patch {
        a.patch < b.patch
    } else {
        pre_lt(a.pre, b.pre)
    }
}

pub open spec fn ver_le(a: Ver, b: Ver) -> bool {
    ver_lt(a, b) || a == b
}

proof fn lemma_bytes_lex_irrefl(a: Seq<u8>)
    ensures
        !bytes_lex_lt(a, a),
    decreases a.len(),
{
    if a.len() > 0 {
        lemma_bytes_lex_irrefl(a.drop_first());
    }
}

proof fn lemma_bytes_lex_trans(a: Seq<u8>, b: Seq<u8>, c: Seq<u8>)
    requires
        bytes_lex_lt(a, b),
        bytes_lex_lt(b, c),
    ensures
        bytes_lex_lt(a, c),
    decreases a.len(),
{
    if a.len() > 0 && a[0] == b[0] && b[0] == c[0] {
        lemma_bytes_lex_trans(a.drop_first(), b.drop_first(), c.drop_first());
    }
}

proof fn lemma_bytes_lex_connex(a: Seq<u8>, b: Seq<u8>)
    requires
        !bytes_lex_lt(a, b),
        !bytes_lex_lt(b, a),
    ensures
        a == b,
    decreases a.len(),
{
    if b.len() == 0 {
        assert(a =~= b);
    } else if a.len() == 0 {
        assert(false);
    } else if a[0] == b[0] {
        lemma_bytes_lex_connex(a.drop_first(), b.drop_first());
        assert(a.drop_first().len() == b.drop_first().len());
        assert(a.len() == b.len());
        assert forall|i: int| 0 <= i < a.len() implies a[i] == b[i] by {
            if i > 0 {
                assert(a[i] == a.drop_first()[i - 1]);
                assert(b[i] == b.drop_first()[i - 1]);
            }
        }
        assert(a =~= b);
    } else {
        assert(false);
    }
}

proof fn lemma_id_irrefl(a: Seq<u8>)
    ensures
        !id_lt(a, a),
{
    lemma_bytes_lex_irrefl(a);
}

proof fn lemma_id_trans(a: Seq<u8>, b: Seq<u8>, c: Seq<u8>)
    requires
        id_lt(a, b),
        id_lt(b, c),
    ensures
        id_lt(a, c),
{
    if is_numeric_id(a) && is_numeric_id(b) && is_numeric_id(c) {
        if a.len() == b.len() && b.len() == c.len() {
            lemma_bytes_lex_trans(a, b, c);
        }
    } else if !is_numeric_id(a) && !is_numeric_id(b) && !is_numeric_id(c) {
        lemma_bytes_lex_trans(a, b, c);
    }
}

proof fn lemma_id_connex(a: Seq<u8>, b: Seq<u8>)
    requires
        !id_lt(a, b),
        !id_lt(b, a),
    ensures
        a == b,
{
    if is_numeric_id(a) == is_numeric_id(b) {
        lemma_bytes_lex_connex(a, b);
    } else {
        assert(false);
    }
}

proof fn lemma_ids_irrefl(a: Seq<Seq<u8>>)
    ensures
        !ids_lt(a, a),
    decreases a.len(),
{
    if a.len() > 0 {
        lemma_ids_irrefl(a.drop_first());
    }
}

proof fn lemma_ids_trans(a: Seq<Seq<u8>>, b: Seq<Seq<u8>>, c: Seq<Seq<u8>>)
    requires
        ids_lt(a, b),
        ids_lt(b, c),
    ensures
        ids_lt(a, c),
    decreases a.len(),
{
    if a.len() > 0 {
        if a[0] == b[0] {
            if b[0] == c[0] {
                lemma_ids_trans(a.drop_first(), b.drop_first(), c.drop_first());
            } else {
                if a[0] == c[0] {
                    lemma_id_irrefl(c[0]);
                }
            }
        } else {
            if b[0] == c[0] {
                assert(a[0] != c[0]);
            } else {
                lemma_id_trans(a[0], b[0], c[0]);
                if a[0] == c[0] {
                    lemma_id_irrefl(a[0]);
                }
            }
        }
    }
}

proof fn lemma_ids_connex(a: Seq<Seq<u8>>, b: Seq<Seq<u8>>)
    requires
        !ids_lt(a, b),
        !ids_lt(b, a),
    ensures
        a == b,
    decreases a.len(),
{
    if b.len() == 0 {
        assert(a =~= b);
    } else if a.len() == 0 {
        assert(false);
    } else if a[0] == b[0] {
        lemma_ids_connex(a.drop_first(), b.drop_first());
        assert(a.drop_first().len() == b.drop_first().len());
        assert(a.len() == b.len());
        assert forall|i: int| 0 <= i < a.len() implies a[i] == b[i] by {
            if i > 0 {
                assert(a[i] == a.drop_first()[i - 1]);
                assert(b[i] == b.drop_first()[i - 1]);
            }
        }
        assert(a =~= b);
    } else {
        lemma_id_connex(a[0], b[0]);
        assert(false);
    }
}

/// The decimal digits of a nonnegative number, as ASCII bytes.
pub open spec fn dec_bytes(n: int) -> Seq<u8>
    recommends
        n >= 0,
    decreases n,
{
    if n <= 9 {
        seq![(48 + n) as u8]
    } else {
        dec_bytes(n / 10).push((48 + n % 10) as u8)
    }
}

/// Prerelease identifiers joined by dots.
pub open spec fn ids_bytes(ids: Seq<Seq<u8>>) -> Seq<u8>
    decreases ids.len(),
{
    if ids.len() == 0 {
        Seq::empty()
    } else if ids.len() == 1 {
        ids[0]
    } else {
        ids[0] + seq![46u8] + ids_bytes(ids.drop_first())
    }
}

/// The canonical store tag of a version, as bytes: a `v`, the decimal
/// triple separated by dots, and for a prerelease a `-` and the identifiers
/// joined by dots. Build metadata never appears: a parsed version holds none.
pub open spec fn tag_bytes(v: Ver) -> Seq<u8> {
    let main = seq![118u8] + dec_bytes(v.major) + seq![46u8] + dec_bytes(v.minor) + seq![46u8]
        + dec_bytes(v.patch);
    match v.pre {
        Option::Some(ids) => main + seq![45u8] + ids_bytes(ids),
        Option::None => main,
    }
}

/// The views of a sequence of byte vectors.
pub open spec fn bytes_views(a: Seq<Vec<u8>>) -> Seq<Seq<u8>> {
    Seq::new(a.len(), |i: int| a[i]@)
}

/// The view of an optional prerelease tag.
pub open spec fn pre_view(p: Option<Vec<Vec<u8>>>) -> Option<Seq<Seq<u8>>> {
    match p {
        Option::Some(v) => Option::Some(bytes_views(v@)),
        Option::None => Option::None,
    }
}

/// No version precedes itself.
pub proof fn lemma_ver_irrefl(a: Ver)
    ensures
        !ver_lt(a, a),
{
    match a.pre {
        Option::Some(x) => lemma_ids_irrefl(x),
        Option::None => (),
    }
}

/// Precedence is transitive.
pub proof fn lemma_ver_trans(a: Ver, b: Ver, c: Ver)
    requires
        ver_lt(a, b),
        ver_lt(b, c),
    ensures
        ver_lt(a, c),
{
    if a.major == c.major && a.minor == c.minor && a.patch == c.patch && a.major == b.major
        && a.minor == b.minor && a.patch == b.patch {
        match (a.pre, b.pre, c.pre) {
            (Option::Some(x), Option::Some(y), Option::Some(z)) => lemma_ids_trans(x, y, z),
            _ => (),
        }
    }
}

/// Precedence is a total order: two versions that precede each other in
/// neither direction are equal.
pub proof fn lemma_ver_total(a: Ver, b: Ver)
    ensures
        ver_lt(a, b) || ver_lt(b, a) || a == b,
{
    if !ver_lt(a, b) && !ver_lt(b, a) {
        assert(a.major == b.major && a.minor == b.minor && a.patch == b.patch);
        match (a.pre, b.pre) {
            (Option::Some(x), Option::Some(y)) => {
                lemma_ids_connex(x, y);
                assert(a.pre == b.pre);
            },
            (Option::None, Option::None) => {
                assert(a.pre == b.pre);
            },
            _ => {
                assert(false);
            },
        }
        assert(a =~= b);
    }
}

#[verifier::external_type_specification]
#[verifier::external_body]
pub struct ExSemverVersion(semver_rs::Version);

/// An installed or requested runtime version.
///
/// The numeric fields and the prerelease identifiers are the parts the
/// verified order and the contracts read; the value the semantic-versioning
/// crate parsed rides along for the range-matching call back into it.
/// Values are only built by [`SemVer::parse`], which keeps the two in step.
#[derive(Debug)]
pub struct SemVer {
    major: u64,
    minor: u64,
    patch: u64,
    prerelease: Option<Vec<Vec<u8>>>,
    inner: semver_rs::Version,
}

impl View for SemVer {
    type V = Ver;

    closed spec fn view(&self) -> Ver {
        Ver {
            major: self.major as int,
            minor: self.minor as int,
            patch: self.patch as int,
            pre: pre_view(self.prerelease),
        }
    }
}

/// The views of a sequence of versions.
pub open spec fn ver_views(s: Seq<SemVer>) -> Seq<Ver> {
    Seq::new(s.len(), |i: int| s[i]@)
}

/// What parsing a version string yields: `None` where the string does not
/// match the semantic-versioning grammar, the parts otherwise.
pub uninterp spec fn parsed_version(s: Seq<char>) -> Option<Ver>;

/// Relies on `semver_rs::Version::parse` (strict grammar, as the crate's
/// `VERSION` expression defines it, with an optional leading `v` and build
/// metadata ignored): the result is a function of the string alone. A string
/// the grammar rejects comes back as the crate's empty placeholder value and
/// is mapped to `None` here, as is a numeric part too large for its field
/// (the grammar admits digits only, so the parts are never negative).
#[verifier::external_body]
fn parse_version_str(s: &str) -> (r: Option<SemVer>)
    ensures
        match r {
            Option::Some(v) => parsed_version(s@) == Option::Some(v@),
            Option::None => parsed_version(s@) is None,
        },
{
    match semver_rs::Version::new(s).parse() {
        Ok(v) => {
            if v.is_empty() || v.is_any() {
                return None;
            }
            let major = u64::try_from(v.major).ok()?;
            let minor = u64::try_from(v.minor).ok()?;
            let patch = u64::try_from(v.patch).ok()?;
            let prerelease = v.prerelease.as_ref().map(|ids| {
                ids.iter().map(|id| id.as_bytes().to_vec()).collect()
            });
            Some(SemVer { major, minor, patch, prerelease, inner: v })
        },
        Err(_) => None,
    }
}

fn bytes_eq(a: &Vec<u8>, b: &Vec<u8>) -> (r: bool)
    ensures
        r == (a@ == b@),
{
    if a.len() != b.len() {
        return false;
    }
    let mut i: usize = 0;
    while i < a.len()
        invariant
            i <= a.len(),
            a.len() == b.len(),
            forall|k: int| 0 <= k < i ==> a@[k] == b@[k],
        decreases a.len() - i,
    {
        if a[i] != b[i] {
            return false;
        }
        i += 1;
    }
    proof {
        assert(a@ =~= b@);
    }
    true
}

fn is_numeric_exec(a: &Vec<u8>) -> (r: bool)
    ensures
        r == is_numeric_id(a@),
{
    if a.len() == 0 {
        return false;
    }
    let mut i: usize = 0;
    while i < a.len()
        invariant
            i <= a.len(),
            forall|k: int| 0 <= k < i ==> 48 <= #[trigger] a@[k] <= 57,
        decreases a.len() - i,
    {
        let c = a[i];
        if c < 48 || c > 57 {
            return false;
        }
        i += 1;
    }
    true
}

fn bytes_lex_lt_from(a: &Vec<u8>, b: &Vec<u8>, k: usize) -> (r: bool)
    requires
        k <= a.len(),
        k <= b.len(),
    ensures
        r == bytes_lex_lt(a@.skip(k as int), b@.skip(k as int)),
    decreases a.len() - k,
{
    if k == b.len() {
        false
    } else if k == a.len() {
        true
    } else if a[k] == b[k] {
        proof {
            assert(a@.skip(k as int).drop_first() =~= a@.skip(k as int + 1));
            assert(b@.skip(k as int).drop_first() =~= b@.skip(k as int + 1));
        }
        bytes_lex_lt_from(a, b, k + 1)
    } else {
        a[k] < b[k]
    }
}

fn id_lt_exec(a: &Vec<u8>, b: &Vec<u8>) -> (r: bool)
    ensures
        r == id_lt(a@, b@),
{
    proof {
        assert(a@.skip(0) =~= a@);
        assert(b@.skip(0) =~= b@);
    }
    let a_num = is_numeric_exec(a);
    let b_num = is_numeric_exec(b);
    if a_num && b_num {
        if a.len() != b.len() {
            a.len() < b.len()
        } else {
            bytes_lex_lt_from(a, b, 0)
        }
    } else if a_num {
        true
    } else if b_num {
        false
    } else {
        bytes_lex_lt_from(a, b, 0)
    }
}

fn ids_lt_from(a: &Vec<Vec<u8>>, b: &Vec<Vec<u8>>, k: usize) -> (r: bool)
    requires
        k <= a.len(),
        k <= b.len(),
    ensures
        r == ids_lt(bytes_views(a@).skip(k as int), bytes_views(b@).skip(k as int)),
    decreases a.len() - k,
{
    if k == b.len() {
        false
    } else if k == a.len() {
        true
    } else if bytes_eq(&a[k], &b[k]) {
        proof {
            assert(bytes_views(a@).skip(k as int).drop_first() =~= bytes_views(a@).skip(
                k as int + 1,
            ));
            assert(bytes_views(b@).skip(k as int).drop_first() =~= bytes_views(b@).skip(
                k as int + 1,
            ));
        }
        ids_lt_from(a, b, k + 1)
    } else {
        id_lt_exec(&a[k], &b[k])
    }
}

fn pre_lt_exec(a: &Option<Vec<Vec<u8>>>, b: &Option<Vec<Vec<u8>>>) -> (r: bool)
    ensures
        r == pre_lt(pre_view(*a), pre_view(*b)),
{
    match a {
        Option::Some(x) => match b {
            Option::Some(y) => {
                proof {
                    assert(bytes_views(x@).skip(0) =~= bytes_views(x@));
                    assert(bytes_views(y@).skip(0) =~= bytes_views(y@));
                }
                ids_lt_from(x, y, 0)
            },
            Option::None => true,
        },
        Option::None => false,
    }
}

fn push_dec(out: &mut Vec<u8>, n: u64)
    ensures
        final(out)@ == old(out)@ + dec_bytes(n as int),
    decreases n,
{
    if n <= 9 {
        out.push(48 + n as u8);
        proof {
            assert(out@ =~= old(out)@ + dec_bytes(n as int));
        }
    } else {
        push_dec(out, n / 10);
        out.push(48 + (n % 10) as u8);
        proof {
            assert(out@ =~= old(out)@ + dec_bytes(n as int));
        }
    }
}

fn push_all(out: &mut Vec<u8>, bytes: &Vec<u8>)
    ensures
        final(out)@ == old(out)@ + bytes@,
{
    let mut i: usize = 0;
    while i < bytes.len()
        invariant
            i <= bytes.len(),
            out@ == old(out)@ + bytes@.take(i as int),
        decreases bytes.len() - i,
    {
        out.push(bytes[i]);
        proof {
            assert(bytes@.take(i as int + 1) =~= bytes@.take(i as int).push(bytes@[i as int]));
            assert(out@ =~= old(out)@ + bytes@.take(i as int + 1));
        }
        i += 1;
    }
    proof {
        assert(bytes@.take(bytes@.len() as int) =~= bytes@);
    }
}

fn push_ids_from(out: &mut Vec<u8>, ids: &Vec<Vec<u8>>, k: usize)
    requires
        k < ids.len(),
    ensures
        final(out)@ == old(out)@ + ids_bytes(bytes_views(ids@).skip(k as int)),
    decreases ids.len() - k,
{
    push_all(out, &ids[k]);
    if k + 1 < ids.len() {
        out.push(46);
        push_ids_from(out, ids, k + 1);
        proof {
            assert(bytes_views(ids@).skip(k as int).drop_first() =~= bytes_views(ids@).skip(
                k as int + 1,
            ));
            assert(out@ =~= old(out)@ + ids_bytes(bytes_views(ids@).skip(k as int)));
        }
    } else {
        proof {
            assert(bytes_views(ids@).skip(k as int).len() == 1);
            assert(out@ =~= old(out)@ + ids_bytes(bytes_views(ids@).skip(k as int)));
        }
    }
}

impl SemVer {
    /// Parse a version tag. Returns `None` where the tag is not a semantic
    /// version (such tags are skipped by the inventory, never reported).
    pub fn parse(s: &str) -> (r: Option<SemVer>)
        ensures
            match r {
                Option::Some(v) => parsed_version(s@) == Option::Some(v@),
                Option::None => parsed_version(s@) is None,
            },
    {
        parse_version_str(s)
    }

    pub fn major(&self) -> (r: u64)
        ensures
            r as int == self@.major,
    {
        self.major
    }

    pub fn minor(&self) -> (r: u64)
        ensures
            r as int == self@.minor,
    {
        self.minor
    }

    pub fn patch(&self) -> (r: u64)
        ensures
            r as int == self@.patch,
    {
        self.patch
    }

    /// The prerelease identifiers, each as its bytes; `None` for a release.
    pub fn prerelease_ids(&self) -> (r: &Option<Vec<Vec<u8>>>)
        ensures
            pre_view(*r) == self@.pre,
    {
        &self.prerelease
    }

    /// The parsed value this version was built from, for the range-matching
    /// call into the semantic-versioning crate.
    pub(crate) fn semver(&self) -> &semver_rs::Version {
        &self.inner
    }

    /// The canonical `v`-prefixed tag naming this version's store directory,
    /// as ASCII bytes.
    pub fn tag(&self) -> (r: Vec<u8>)
        ensures
            r@ == tag_bytes(self@),
    {
        let mut out: Vec<u8> = Vec::new();
        out.push(118);
        push_dec(&mut out, self.major);
        out.push(46);
        push_dec(&mut out, self.minor);
        out.push(46);
        push_dec(&mut out, self.patch);
        match &self.prerelease {
            Option::Some(ids) => {
                out.push(45);
                if ids.len() > 0 {
                    proof {
                        assert(bytes_views(ids@).skip(0) =~= bytes_views(ids@));
                    }
                    push_ids_from(&mut out, ids, 0);
                }
                proof {
                    assert(out@ =~= tag_bytes(self@));
                }
            },
            Option::None => {
                proof {
                    assert(out@ =~= tag_bytes(self@));
                }
            },
        }
        out
    }

    /// Whether `self` strictly precedes `other` in semantic-versioning order.
    pub fn precedes(&self, other: &SemVer) -> (r: bool)
        ensures
            r == ver_lt(self@, other@),
    {
        if self.major != other.major {
            self.major < other.major
        } else if self.minor != other.minor {
            self.minor < other.minor
        } else if self.patch != other.patch {
            self.patch < other.patch
        } else {
            pre_lt_exec(&self.prerelease, &other.prerelease)
        }
    }
}

} // verus!
