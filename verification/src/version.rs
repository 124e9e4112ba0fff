//! Version numbers and the tag-bump step: parsing a release tag's numeric
//! triple through the semantic-versioning library, and computing the next
//! version for each bump kind.

use vstd::prelude::*;
use vstd::string::StringExecFns;

use crate::strutil::spec_strip_leading;
use crate::strutil::spec_trim;
use crate::strutil::spec_u64_str;
use crate::strutil::str_eq;
use crate::strutil::strip_leading;
use crate::strutil::trim_str;
use crate::strutil::u64_to_string;

verus! {

/// A version's numeric triple. Pre-release and build metadata play no part
/// in bumping: a bump always produces a plain numeric version.
#[derive(Clone, Copy, PartialEq, Eq, Structural, Debug)]
pub struct Version {
    /// Major component.
    pub major: u64,
    /// Minor component.
    pub minor: u64,
    /// Patch component.
    pub patch: u64,
}

/// Which component a bump raises.
#[derive(Clone, Copy, PartialEq, Eq, Structural, Debug)]
pub enum BumpType {
    /// Raise the major component, zeroing the others.
    Major,
    /// Raise the minor component, zeroing the patch.
    Minor,
    /// Raise the patch component.
    Patch,
}

/// The numeric triple that the semantic-versioning library reads out of a
/// version string, when the string is a valid semantic version.
pub uninterp spec fn semver_triple_of(s: Seq<char>) -> Option<(u64, u64, u64)>;

/// Relies on `semver::Version::parse`: the numeric triple of a semantic
/// version, `None` when the text is not one. The result depends on the text
/// alone.
#[verifier::external_body]
fn parse_semver_triple(s: &str) -> (r: Option<(u64, u64, u64)>)
    ensures
        r == semver_triple_of(s@),
{
    match semver::Version::parse(s) {
        Ok(v) => Some((v.major, v.minor, v.patch)),
        Err(_) => None,
    }
}

impl Version {
    /// Parses the numeric triple of a semantic-version string.
    pub fn parse(s: &str) -> (r: Option<Version>)
        ensures
            match r {
                Some(v) => semver_triple_of(s@) == Some((v.major, v.minor, v.patch)),
                None => semver_triple_of(s@) is None,
            },
    {
        match parse_semver_triple(s) {
            Some((major, minor, patch)) => Some(Version { major, minor, patch }),
            None => None,
        }
    }

    /// Parses a release tag: any leading `v` characters are stripped before
    /// the text is read as a semantic version.
    pub fn parse_tag(tag: &str) -> (r: Option<Version>)
        ensures
            match r {
                Some(v) => semver_triple_of(spec_strip_leading(tag@, 'v')) == Some(
                    (v.major, v.minor, v.patch),
                ),
                None => semver_triple_of(spec_strip_leading(tag@, 'v')) is None,
            },
    {
        let stripped = strip_leading(tag, 'v');
        Version::parse(stripped.as_str())
    }

    /// The next patch version: the patch component raised by one.
    pub fn bump_patch(&self) -> (r: Version)
        requires
            self.patch < u64::MAX,
        ensures
            r == (Version { major: self.major, minor: self.minor, patch: (self.patch + 1) as u64 }),
    {
        Version { major: self.major, minor: self.minor, patch: (self.patch + 1) as u64 }
    }

    /// The next minor version: the minor component raised by one, the patch
    /// zeroed.
    pub fn bump_minor(&self) -> (r: Version)
        requires
            self.minor < u64::MAX,
        ensures
            r == (Version { major: self.major, minor: (self.minor + 1) as u64, patch: 0 }),
    {
        Version { major: self.major, minor: (self.minor + 1) as u64, patch: 0 }
    }

    /// The next major version: the major component raised by one, the rest
    /// zeroed.
    pub fn bump_major(&self) -> (r: Version)
        requires
            self.major < u64::MAX,
        ensures
            r == (Version { major: (self.major + 1) as u64, minor: 0, patch: 0 }),
    {
        Version { major: (self.major + 1) as u64, minor: 0, patch: 0 }
    }

    /// The next version for the chosen bump kind.
    pub fn bump(&self, kind: BumpType) -> (r: Version)
        requires
            self.major < u64::MAX,
            self.minor < u64::MAX,
            self.patch < u64::MAX,
        ensures
            r == match kind {
                BumpType::Major => (Version { major: (self.major + 1) as u64, minor: 0, patch: 0 }),
                BumpType::Minor => (Version {
                    major: self.major,
                    minor: (self.minor + 1) as u64,
                    patch: 0,
                }),
                BumpType::Patch => (Version {
                    major: self.major,
                    minor: self.minor,
                    patch: (self.patch + 1) as u64,
                }),
            },
    {
        match kind {
            BumpType::Major => self.bump_major(),
            BumpType::Minor => self.bump_minor(),
            BumpType::Patch => self.bump_patch(),
        }
    }

    /// The dotted rendering of the triple.
    pub open spec fn spec_dotted(&self) -> Seq<char> {
        spec_u64_str(self.major as int) + "."@ + spec_u64_str(self.minor as int) + "."@
            + spec_u64_str(self.patch as int)
    }

    /// Renders the triple as `major.minor.patch`.
    pub fn dotted(&self) -> (r: String)
        ensures
            r@ == self.spec_dotted(),
    {
        let mut r = u64_to_string(self.major);
        r.append(".");
        let minor = u64_to_string(self.minor);
        r.append(minor.as_str());
        r.append(".");
        let patch = u64_to_string(self.patch);
        r.append(patch.as_str());
        proof {
            assert(r@ =~= self.spec_dotted());
        }
        r
    }

    /// Renders the tag for this version: a `v` before the dotted triple.
    pub fn tag(&self) -> (r: String)
        ensures
            r@ == "v"@ + self.spec_dotted(),
    {
        let mut r = String::from_str("v");
        let dotted = self.dotted();
        r.append(dotted.as_str());
        r
    }
}

/// Reads the interactive bump choice: `1`, `2` and `3` (after trimming)
/// pick the patch, minor and major bump; anything else is rejected.
pub fn parse_bump_choice(input: &str) -> (r: Option<BumpType>)
    ensures
        match r {
            Some(k) => match k {
                BumpType::Patch => spec_trim(input@) == "1"@,
                BumpType::Minor => spec_trim(input@) == "2"@,
                BumpType::Major => spec_trim(input@) == "3"@,
            },
            None => spec_trim(input@) != "1"@ && spec_trim(input@) != "2"@ && spec_trim(input@)
                != "3"@,
        },
{
    let t = trim_str(input);
    if str_eq(t.as_str(), "1") {
        Some(BumpType::Patch)
    } else if str_eq(t.as_str(), "2") {
        Some(BumpType::Minor)
    } else if str_eq(t.as_str(), "3") {
        Some(BumpType::Major)
    } else {
        None
    }
}

} // verus!
