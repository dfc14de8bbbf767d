//! Version ranges: parsed pins and the match predicate over versions.
//!
//! A pin string (an exact version, an npm-style range expression, a wildcard)
//! parses into a [`VersionRange`]; `test` asks whether an installed version
//! satisfies it. Parsing is total: a string the range grammar rejects yields
//! `None`, never an error — a malformed pin must never stop the launcher.

use vstd::prelude::*;

use crate::version::{SemVer, Ver};

verus! {

/// Whether the range grammar accepts the pin string.
pub uninterp spec fn range_parses(pin: Seq<char>) -> bool;

/// Whether the range denoted by the pin string accepts the version: a
/// function of the pin and the version parts alone.
pub uninterp spec fn range_match(pin: Seq<char>, v: Ver) -> bool;

pub open spec fn is_digit_char(c: char) -> bool {
    '0' <= c && c <= '9'
}

/// Some character of the window of sixteen starting at `i` is not a digit.
pub open spec fn window_has_nondigit(s: Seq<char>, i: int) -> bool {
    exists|k: int| i <= k < i + 16 && !is_digit_char(#[trigger] s[k])
}

/// No run of sixteen or more consecutive digits: every numeric component of
/// such a pin fits comfortably in a machine word, which the range grammar's
/// desugaring of wildcard and operator forms requires.
pub open spec fn pin_digits_bounded(s: Seq<char>) -> bool {
    forall|i: int| 0 <= i && i + 16 <= s.len() ==> #[trigger] window_has_nondigit(s, i)
}

#[verifier::external_type_specification]
#[verifier::external_body]
pub struct ExSemverRange(semver_rs::Range);

/// A parsed version pin: a stateless predicate over versions.
///
/// The view is the pin string the range was parsed from; `test`'s contract
/// speaks of that string. Values are only built by [`VersionRange::parse`],
/// which keeps the parsed range and the string in step.
pub struct VersionRange {
    pin: String,
    inner: semver_rs::Range,
}

impl View for VersionRange {
    type V = Seq<char>;

    closed spec fn view(&self) -> Seq<char> {
        self.pin@
    }
}

/// Relies on `semver_rs::Range::parse` (strict grammar, default options): the
/// result is a function of the pin string alone, an error exactly where the
/// grammar rejects the string. The grammar's desugaring increments numeric
/// components, which aborts on components above the machine-word range; the
/// digit-run bound keeps every component far below that.
#[verifier::external_body]
fn parse_range_str(pin: &str) -> (r: Option<VersionRange>)
    requires
        pin_digits_bounded(pin@),
    ensures
        r is Some <==> range_parses(pin@),
        match r {
            Option::Some(vr) => vr@ == pin@,
            Option::None => true,
        },
{
    match semver_rs::Range::new(pin).parse() {
        Ok(inner) => Some(VersionRange { pin: pin.to_string(), inner }),
        Err(_) => None,
    }
}

/// Relies on `semver_rs::Range::test`: a pure function of the range (itself a
/// function of the pin string it was parsed from) and the version's parts.
#[verifier::external_body]
fn range_test_impl(range: &VersionRange, v: &SemVer) -> (r: bool)
    ensures
        r == range_match(range@, v@),
{
    range.inner.test(v.semver())
}

fn digit_runs_bounded(s: &str) -> (r: bool)
    ensures
        r == pin_digits_bounded(s@),
{
    let n = s.unicode_len();
    let mut i: usize = 0;
    let mut run: usize = 0;
    while i < n
        invariant
            n == s@.len(),
            i <= n,
            run <= 15,
            run <= i,
            forall|k: int| i - run <= k < i ==> is_digit_char(#[trigger] s@[k]),
            run == i || !is_digit_char(s@[i - run - 1]),
            forall|w: int| 0 <= w && w + 16 <= i ==> #[trigger] window_has_nondigit(s@, w),
        decreases n - i,
    {
        let c = s.get_char(i);
        if '0' <= c && c <= '9' {
            if run == 15 {
                proof {
                    assert(!window_has_nondigit(s@, i - 15));
                }
                return false;
            }
            run = run + 1;
            proof {
                if i >= 15 {
                    let w = i - 15;
                    assert(!is_digit_char(s@[i - run]) && w <= i - run < w + 16);
                    assert(window_has_nondigit(s@, w));
                }
            }
        } else {
            run = 0;
            proof {
                if i >= 15 {
                    let w = i - 15;
                    assert(!is_digit_char(s@[i as int]) && w <= i < w + 16);
                    assert(window_has_nondigit(s@, w));
                }
            }
        }
        i = i + 1;
    }
    true
}

impl VersionRange {
    /// Parse a pin string into a range. Total: returns `None` on any string
    /// the range grammar rejects (or whose numeric components overrun a
    /// machine word), so an arbitrary pin can never stop the launcher.
    pub fn parse(pin: &str) -> (r: Option<VersionRange>)
        ensures
            r is Some <==> (pin_digits_bounded(pin@) && range_parses(pin@)),
            match r {
                Option::Some(vr) => vr@ == pin@,
                Option::None => true,
            },
    {
        if !digit_runs_bounded(pin) {
            return None;
        }
        parse_range_str(pin)
    }

    /// Whether the version satisfies this range.
    pub fn test(&self, v: &SemVer) -> (r: bool)
        ensures
            r == range_match(self@, v@),
    {
        range_test_impl(self, v)
    }
}

} // verus!
