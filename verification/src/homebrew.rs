//! Package-recipe bookkeeping: the formula model, the version already on
//! disk, whether an update is owed, the per-architecture artifact URLs, the
//! commit message for bumped recipes, and the artifact digest.

use vstd::prelude::*;
use vstd::string::StrSliceExecFns;
use vstd::string::StringExecFns;

use crate::strutil::contains_char;
use crate::strutil::find_char;
use crate::strutil::join_with;
use crate::strutil::lemma_after_first_at;
use crate::strutil::lemma_until_char_at;
use crate::strutil::spec_after_first_char;
use crate::strutil::spec_join;
use crate::strutil::spec_lines;
use crate::strutil::spec_starts_with;
use crate::strutil::spec_trim_start;
use crate::strutil::spec_until_char;
use crate::strutil::split_lines;
use crate::strutil::starts_with_str;
use crate::strutil::str_eq;
use crate::strutil::strip_prefix_str;
use crate::strutil::trim_start_str;

verus! {

/// One recipe of the tap: which repository it tracks and what the recipe
/// text says about it.
pub struct Formula {
    /// The repository, as `org/name`.
    pub repo: String,
    /// Home page named in the recipe.
    pub homepage: String,
    /// One-line description.
    pub desc: String,
    /// License identifier.
    pub license: String,
    /// The binaries the recipe installs.
    pub bins: Vec<String>,
    /// Extra dependencies, each `name` or `name#keyword`.
    pub deps: Vec<String>,
}

impl Formula {
    /// The organization part of the repository: everything before the first
    /// `/` (the whole text when there is none).
    pub fn org(&self) -> (r: String)
        ensures
            r@ == spec_until_char(self.repo@, '/'),
    {
        let s = self.repo.as_str();
        let n = s.unicode_len();
        match find_char(s, '/', 0) {
            Some(k) => {
                proof {
                    lemma_until_char_at(s@, '/', k as int);
                }
                s.substring_char(0, k).to_owned()
            },
            None => {
                proof {
                    lemma_until_char_at(s@, '/', n as int);
                    assert(s@.subrange(0, n as int) =~= s@);
                }
                s.to_owned()
            },
        }
    }

    /// The project part of the repository: what stands between the first
    /// `/` and the next one (or the end).
    pub fn name(&self) -> (r: String)
        requires
            contains_char(self.repo@, '/'),
        ensures
            r@ == spec_until_char(spec_after_first_char(self.repo@, '/'), '/'),
    {
        let s = self.repo.as_str();
        let n = s.unicode_len();
        let k = match find_char(s, '/', 0) {
            Some(k) => k,
            None => {
                return vstd::pervasive::unreached();
            },
        };
        proof {
            lemma_after_first_at(s@, '/', k as int);
        }
        let rest = s.substring_char(k + 1, n);
        proof {
            assert(rest@ =~= s@.skip(k + 1));
        }
        let m = rest.unicode_len();
        match find_char(rest, '/', 0) {
            Some(j) => {
                proof {
                    lemma_until_char_at(rest@, '/', j as int);
                }
                rest.substring_char(0, j).to_owned()
            },
            None => {
                proof {
                    lemma_until_char_at(rest@, '/', m as int);
                    assert(rest@.subrange(0, m as int) =~= rest@);
                }
                rest.to_owned()
            },
        }
    }

    /// Where the recipe is written on disk.
    pub fn disk_path(&self) -> (r: String)
        requires
            contains_char(self.repo@, '/'),
        ensures
            r@ == "Formula/"@ + spec_until_char(spec_after_first_char(self.repo@, '/'), '/')
                + ".rb"@,
    {
        let mut r = String::from_str("Formula/");
        let name = self.name();
        r.append(name.as_str());
        r.append(".rb");
        proof {
            assert(r@ =~= "Formula/"@ + spec_until_char(
                spec_after_first_char(self.repo@, '/'),
                '/',
            ) + ".rb"@);
        }
        r
    }
}

/// The version the recipe text on disk declares: on the first line whose
/// trimmed text starts with `version`, what stands between the first pair
/// of double quotes; nothing without such a line or such a quote.
pub open spec fn spec_formula_version(lines: Seq<Seq<char>>) -> Option<Seq<char>>
    decreases lines.len(),
{
    if lines.len() == 0 {
        None
    } else if spec_starts_with(spec_trim_start(lines[0]), "version"@) {
        if contains_char(lines[0], '"') {
            Some(spec_until_char(spec_after_first_char(lines[0], '"'), '"'))
        } else {
            None
        }
    } else {
        spec_formula_version(lines.drop_first())
    }
}

/// Reads the declared version out of recipe text.
pub fn extract_formula_version(content: &str) -> (r: Option<String>)
    ensures
        match r {
            Some(v) => spec_formula_version(spec_lines(content@)) == Some(v@),
            None => spec_formula_version(spec_lines(content@)) is None,
        },
{
    let lines = split_lines(content);
    let n = lines.len();
    let ghost dv = lines.deep_view();
    let mut i: usize = 0;
    proof {
        assert(dv.skip(0) =~~= dv);
    }
    while i < n
        invariant
            n == lines@.len(),
            n == dv.len(),
            dv == lines.deep_view(),
            dv == spec_lines(content@),
            0 <= i <= n,
            spec_formula_version(dv) == spec_formula_version(dv.skip(i as int)),
        decreases n - i,
    {
        proof {
            assert(dv.skip(i as int)[0] == dv[i as int]);
            assert(dv[i as int] == lines@[i as int]@);
            assert(dv.skip(i as int).drop_first() =~~= dv.skip(i + 1));
        }
        let line = lines[i].as_str();
        let trimmed = trim_start_str(line);
        if starts_with_str(trimmed.as_str(), "version") {
            let ln = line.unicode_len();
            match find_char(line, '"', 0) {
                Some(k) => {
                    proof {
                        assert(line@[k as int] == '"');
                        lemma_after_first_at(line@, '"', k as int);
                    }
                    let rest = line.substring_char(k + 1, ln);
                    proof {
                        assert(rest@ =~= line@.skip(k + 1));
                    }
                    let m = rest.unicode_len();
                    match find_char(rest, '"', 0) {
                        Some(j) => {
                            proof {
                                lemma_until_char_at(rest@, '"', j as int);
                            }
                            return Some(rest.substring_char(0, j).to_owned());
                        },
                        None => {
                            proof {
                                lemma_until_char_at(rest@, '"', m as int);
                                assert(rest@.subrange(0, m as int) =~= rest@);
                            }
                            return Some(rest.to_owned());
                        },
                    }
                },
                None => {
                    return None;
                },
            }
        }
        i += 1;
    }
    None
}

/// An update is owed unless the version on disk already equals the release
/// version.
pub fn needs_update(formula_version: &Option<String>, release_version: &str) -> (r: bool)
    ensures
        r == !(formula_version matches Some(v) && v@ == release_version@),
{
    match formula_version {
        Some(v) => !str_eq(v.as_str(), release_version),
        None => true,
    }
}

/// The release-asset URL for one architecture's artifact of this version.
pub fn package_artifact_url(org: &str, name: &str, version: &str, arch: &str) -> (r: String)
    ensures
        r@ == "https://github.com/"@ + org@ + "/"@ + name@ + "/releases/download/v"@ + version@
            + "/"@ + arch@ + ".tar.xz"@,
{
    let mut r = String::from_str("https://github.com/");
    r.append(org);
    r.append("/");
    r.append(name);
    r.append("/releases/download/v");
    r.append(version);
    r.append("/");
    r.append(arch);
    r.append(".tar.xz");
    proof {
        assert(r@ =~= "https://github.com/"@ + org@ + "/"@ + name@ + "/releases/download/v"@
            + version@ + "/"@ + arch@ + ".tar.xz"@);
    }
    r
}

/// The `name to version` parts of the commit message, one per bumped
/// recipe.
pub open spec fn spec_bump_parts(bumped: Seq<(Seq<char>, Seq<char>)>) -> Seq<Seq<char>>
    decreases bumped.len(),
{
    if bumped.len() == 0 {
        Seq::empty()
    } else {
        spec_bump_parts(bumped.drop_last()).push(
            bumped.last().0 + " to "@ + bumped.last().1,
        )
    }
}

/// The commit message recorded after bumping recipes: each bumped recipe as
/// `name to version`, comma-separated.
pub fn bump_commit_message(bumped: &Vec<(String, String)>) -> (r: String)
    ensures
        r@ == "Bump formulas: "@ + spec_join(spec_bump_parts(bumped.deep_view()), ", "@),
{
    let n = bumped.len();
    let mut parts: Vec<String> = Vec::new();
    let mut i: usize = 0;
    proof {
        assert(bumped.deep_view().subrange(0, 0) =~~= Seq::<(Seq<char>, Seq<char>)>::empty());
    }
    while i < n
        invariant
            n == bumped@.len(),
            0 <= i <= n,
            parts.deep_view() == spec_bump_parts(bumped.deep_view().subrange(0, i as int)),
        decreases n - i,
    {
        let mut part = bumped[i].0.clone();
        part.append(" to ");
        part.append(bumped[i].1.as_str());
        parts.push(part);
        proof {
            let dv = bumped.deep_view();
            assert(dv.subrange(0, i + 1).drop_last() =~~= dv.subrange(0, i as int));
            assert(dv.subrange(0, i + 1).last() == dv[i as int]);
            assert(dv[i as int].0 == bumped@[i as int].0@);
            assert(dv[i as int].1 == bumped@[i as int].1@);
            assert(parts.deep_view() =~~= spec_bump_parts(dv.subrange(0, i + 1)));
        }
        i += 1;
    }
    proof {
        assert(bumped.deep_view().subrange(0, n as int) =~~= bumped.deep_view());
    }
    let joined = join_with(&parts, ", ");
    let mut r = String::from_str("Bump formulas: ");
    r.append(joined.as_str());
    r
}

/// A push remote in SSH shorthand, rewritten to its HTTPS form; every other
/// remote is kept as it stands.
pub fn normalize_remote_url(url: &str) -> (r: String)
    ensures
        if spec_starts_with(url@, "git@github.com:"@) {
            r@ == "https://github.com/"@ + url@.skip("git@github.com:"@.len() as int)
        } else {
            r@ == url@
        },
{
    match strip_prefix_str(url, "git@github.com:") {
        Some(path) => {
            let mut r = String::from_str("https://github.com/");
            r.append(path.as_str());
            r
        },
        None => url.to_owned(),
    }
}

/// The lowercase hex digest that the hashing library computes for these
/// bytes. The digest depends on the bytes alone.
pub uninterp spec fn sha256_hex_of(bytes: Seq<u8>) -> Seq<char>;

/// Relies on `sha2::Sha256`: the SHA-256 digest of the bytes, rendered as
/// 64 lowercase hex digits.
#[verifier::external_body]
fn sha256_hex(bytes: &[u8]) -> (r: String)
    ensures
        r@ == sha256_hex_of(bytes@),
        r@.len() == 64,
{
    let mut hasher: sha2::Sha256 = sha2::digest::Digest::new();
    sha2::digest::Digest::update(&mut hasher, bytes);
    format!("{:x}", sha2::digest::Digest::finalize(hasher))
}

/// The digest recorded beside each artifact URL in the recipe.
pub fn artifact_digest_hex(bytes: &Vec<u8>) -> (r: String)
    ensures
        r@ == sha256_hex_of(bytes@),
        r@.len() == 64,
{
    sha256_hex(bytes.as_slice())
}

} // verus!
