//! The calendar version model: a `YY.MM.PATCH` triple, lenient parsing,
//! rendering, and the bump rules.  The current calendar period comes from
//! one trusted call into the system clock; every rule about it is proved.

use vstd::prelude::*;
use vstd::utf8::encode_utf8;

use crate::bytes::{
    all_digits, lemma_dec_digits, lemma_split_nonempty, parse_u32_lenient, push_dec_u32, spec_dec,
    spec_parse_u32_lenient, spec_split, split_bytes,
};
use crate::edit::LineContext;
use crate::strutil::{ascii_to_string, str_to_bytes};

verus! {

/// A version in the format of YY.MM.PATCH: `major` is the two-digit year,
/// `minor` the month, `patch` a counter that resets each calendar period.
#[derive(Debug, Clone, Copy, PartialEq, Eq, Structural)]
pub struct Version {
    pub major: u32,
    pub minor: u32,
    pub patch: u32,
}

/// A version found in a manifest, the version a release would move to, and
/// the 1-based line the current version sits on.
#[derive(Debug, Clone)]
pub struct VersionContext {
    pub version: Version,
    pub next_version: Version,
    pub line_number: usize,
}

/// `patch + 1`, saturating at `u32::MAX` so that bumping is total.
pub open spec fn spec_inc_patch(p: u32) -> u32 {
    if p == u32::MAX {
        p
    } else {
        (p + 1) as u32
    }
}

/// The unconditional patch bump: same period, next patch.
pub open spec fn spec_bump_patch(v: Version) -> Version {
    Version { major: v.major, minor: v.minor, patch: spec_inc_patch(v.patch) }
}

/// The calendar bump at period (`year`, `month`): a new period resets the
/// patch to 0, the same period increments it.
pub open spec fn spec_bump_at(v: Version, year: u32, month: u32) -> Version {
    if v.major != year || v.minor != month {
        Version { major: year, minor: month, patch: 0 }
    } else {
        spec_bump_patch(v)
    }
}

/// `next` is the calendar bump of `v` at some valid month of some year:
/// all that is known of a bump taken at the (unknowable) current date.
pub open spec fn is_bump_of(next: Version, v: Version) -> bool {
    exists|y: u32, m: u32| 1 <= m <= 12 && next == spec_bump_at(v, y, m)
}

/// The rendered form `"{major}.{minor}.{patch}"`, as bytes.
pub open spec fn spec_version_bytes(v: Version) -> Seq<u8> {
    spec_dec(v.major as nat) + seq![46u8] + spec_dec(v.minor as nat) + seq![46u8] + spec_dec(
        v.patch as nat,
    )
}

/// Lenient parse of a dot-separated triple: each of the first three
/// dot-separated pieces that is a well-formed `u32` contributes its value,
/// every other (or missing) piece contributes 0.
pub open spec fn spec_parse_version(s: Seq<u8>) -> Version {
    let parts = spec_split(s, 46);
    Version {
        major: spec_parse_u32_lenient(parts[0]),
        minor: if parts.len() > 1 {
            spec_parse_u32_lenient(parts[1])
        } else {
            0
        },
        patch: if parts.len() > 2 {
            spec_parse_u32_lenient(parts[2])
        } else {
            0
        },
    }
}

/// Relies on `chrono::Utc::now` and `chrono::Datelike::{year, month}`:
/// `month` is always in `1..=12`; nothing else is promised of the clock.
#[verifier::external_body]
fn utc_year_month() -> (r: (i32, u32))
    ensures
        1 <= r.1 <= 12,
{
    let now = chrono::Utc::now();
    (chrono::Datelike::year(&now), chrono::Datelike::month(&now))
}

/// The current calendar period: (two-digit year, month in `1..=12`).
pub fn current_period() -> (r: (u32, u32))
    ensures
        1 <= r.1 <= 12,
{
    let (year, month) = utc_year_month();
    let major = if year >= 2000 {
        (year - 2000) as u32
    } else {
        0
    };
    (major, month)
}

impl Version {
    /// Lenient parse: any missing or unparsable segment defaults to 0;
    /// never fails.
    pub fn parse(version: &str) -> (r: Version)
        ensures
            r == spec_parse_version(encode_utf8(version@)),
    {
        let b = str_to_bytes(version);
        let parts = split_bytes(b.as_slice(), 46);
        proof {
            lemma_split_nonempty(b@, 46);
            assert(parts.deep_view()[0] == parts@[0]@);
        }
        let major = parse_u32_lenient(parts[0].as_slice());
        let minor = if parts.len() > 1 {
            proof {
                assert(parts.deep_view()[1] == parts@[1]@);
            }
            parse_u32_lenient(parts[1].as_slice())
        } else {
            0
        };
        let patch = if parts.len() > 2 {
            proof {
                assert(parts.deep_view()[2] == parts@[2]@);
            }
            parse_u32_lenient(parts[2].as_slice())
        } else {
            0
        };
        Version { major, minor, patch }
    }

    /// Bump version to the next monoversion at the current UTC date:
    /// a new calendar period resets the patch, the same period increments it.
    pub fn bump(&self) -> (r: Version)
        ensures
            is_bump_of(r, *self),
    {
        let (year, month) = current_period();
        let r = self.bump_at(year, month);
        proof {
            assert(1 <= month <= 12 && r == spec_bump_at(*self, year, month));
        }
        r
    }

    /// The calendar bump at an explicitly given period.
    pub fn bump_at(&self, year: u32, month: u32) -> (r: Version)
        ensures
            r == spec_bump_at(*self, year, month),
    {
        if year != self.major || month != self.minor {
            Version { major: year, minor: month, patch: 0 }
        } else {
            self.bump_patch()
        }
    }

    /// Bump patch version, ignoring the calendar.
    pub fn bump_patch(&self) -> (r: Version)
        ensures
            r == spec_bump_patch(*self),
    {
        let patch = if self.patch == u32::MAX {
            self.patch
        } else {
            self.patch + 1
        };
        Version { major: self.major, minor: self.minor, patch }
    }

    /// The rendered form `"{major}.{minor}.{patch}"`, no padding.
    pub fn render(&self) -> (r: String)
        ensures
            encode_utf8(r@) == spec_version_bytes(*self),
            r@ == spec_version_chars(*self),
    {
        let mut out: Vec<u8> = Vec::new();
        push_dec_u32(self.major, &mut out);
        out.push(46);
        push_dec_u32(self.minor, &mut out);
        out.push(46);
        push_dec_u32(self.patch, &mut out);
        proof {
            assert(out@ =~= spec_version_bytes(*self));
            lemma_dec_digits(self.major as nat);
            lemma_dec_digits(self.minor as nat);
            lemma_dec_digits(self.patch as nat);
            assert forall|i: int| 0 <= i < out@.len() implies #[trigger] out@[i] < 128 by {
                let a = spec_dec(self.major as nat).len() as int;
                let b = spec_dec(self.minor as nat).len() as int;
                if i < a {
                    assert(crate::bytes::is_digit(spec_dec(self.major as nat)[i]));
                } else if i == a {
                } else if i < a + 1 + b {
                    assert(crate::bytes::is_digit(spec_dec(self.minor as nat)[i - a - 1]));
                } else if i == a + 1 + b {
                } else {
                    assert(crate::bytes::is_digit(spec_dec(self.patch as nat)[i - a - b - 2]));
                }
            }
        }
        let r = ascii_to_string(out);
        proof {
            vstd::utf8::encode_utf8_decode_utf8(r@);
        }
        r
    }
}

impl VersionContext {
    /// A context for `version` at `line_number`, with the next version
    /// taken as the calendar bump at the current date.
    pub fn new(version: Version, line_number: usize) -> (r: Self)
        ensures
            r.version == version,
            r.line_number == line_number,
            is_bump_of(r.next_version, version),
    {
        let next_version = version.bump();
        VersionContext { version, next_version, line_number }
    }

    /// A context built from a queried scalar: the value is parsed leniently,
    /// the line number is kept.
    pub fn from_line_context(line_context: LineContext) -> (r: Self)
        ensures
            r.version == spec_parse_version(encode_utf8(line_context.value@)),
            r.line_number == line_context.line_number,
            is_bump_of(r.next_version, r.version),
    {
        let version = Version::parse(line_context.value.as_str());
        let next_version = version.bump();
        VersionContext { version, next_version, line_number: line_context.line_number }
    }
}

/// The rendered form as characters (the decoding of the rendered bytes,
/// which are ASCII).
pub open spec fn spec_version_chars(v: Version) -> Seq<char> {
    vstd::utf8::decode_utf8(spec_version_bytes(v))
}

/// Law (calendar bump): bumping a version whose period equals the current
/// (year, month) increments the patch by one; bumping in any other period
/// resets to (year, month, 0).  The one version left out is a patch of
/// `u32::MAX`, where the increment saturates instead.
pub proof fn lemma_bump_calendar(v: Version, year: u32, month: u32)
    requires
        v.patch < u32::MAX,
    ensures
        v.major == year && v.minor == month ==> spec_bump_at(v, year, month) == (Version {
            major: v.major,
            minor: v.minor,
            patch: (v.patch + 1) as u32,
        }),
        v.major != year || v.minor != month ==> spec_bump_at(v, year, month) == (Version {
            major: year,
            minor: month,
            patch: 0,
        }),
{
}

/// Lenient conversion of a string-like value into a [`Version`].
pub trait ToVersion {
    /// The bytes whose lenient parse the conversion returns.
    spec fn version_source(&self) -> Seq<u8>;

    fn to_version(&self) -> (r: Version)
        ensures
            r == spec_parse_version(self.version_source()),
    ;
}

impl ToVersion for &str {
    open spec fn version_source(&self) -> Seq<u8> {
        encode_utf8(self@)
    }

    fn to_version(&self) -> (r: Version)
        ensures
            r == spec_parse_version(self.version_source()),
    {
        Version::parse(self)
    }
}

impl ToVersion for String {
    open spec fn version_source(&self) -> Seq<u8> {
        encode_utf8(self@)
    }

    fn to_version(&self) -> (r: Version)
        ensures
            r == spec_parse_version(self.version_source()),
    {
        Version::parse(self.as_str())
    }
}

} // verus!
