//! Build configuration: the project's config file as a typed model with its
//! version gate, the build parameters resolved from the environment, and
//! the toolchain cache layout that every build step shares.

use vstd::prelude::*;
use vstd::string::StringExecFns;

use crate::strutil::contains_substr;
use crate::strutil::spec_contains_substr;
use crate::strutil::spec_split_runs;
use crate::strutil::spec_starts_with;
use crate::strutil::split_runs;
use crate::strutil::strip_prefix_str;

verus! {

/// The config-file version this library understands.
pub const CONFIG_VERSION: u64 = 3;

/// The value sent as the HTTP user agent.
pub const USER_AGENT: &'static str = "github.com/bearcove/beardist@1.0";

/// The build-tool part of the project configuration.
pub struct CargoConfig {
    /// Names of the binaries to package.
    pub bins: Vec<String>,
}

/// Custom build steps and extra data files.
pub struct CustomConfig {
    /// Commands to run after the main build, each as argv.
    pub steps: Vec<Vec<String>>,
    /// Extra files to include in the archive, relative to the source tree.
    pub files: Vec<String>,
}

/// The project configuration, read from the project's config file.
pub struct Config {
    /// Config-file version; only `CONFIG_VERSION` is accepted.
    pub version: u64,
    /// Organization or user name.
    pub org: String,
    /// Project name.
    pub name: String,
    /// Build-tool settings, when the project builds with the toolchain.
    pub cargo: Option<CargoConfig>,
    /// Custom steps and files, when the project has any.
    pub custom: Option<CustomConfig>,
}

/// A configuration is accepted only at the supported version.
pub fn config_version_ok(version: u64) -> (ok: bool)
    ensures
        ok == (version == CONFIG_VERSION),
{
    version == CONFIG_VERSION
}

/// The parameters of one build run, resolved from the environment before
/// any build work begins.
pub struct BuildParams {
    /// Persistent cache directory for toolchain homes and build output.
    pub cache_dir: String,
    /// API token; a placeholder during a dry run.
    pub token: String,
    /// The git tag being released; a placeholder during a dry run.
    pub tag: String,
    /// Whether this run may publish anything.
    pub is_dry_run: bool,
    /// The release server.
    pub server_url: String,
    /// The artifact (triple) name for the archive.
    pub artifact_name: String,
}

/// Which required input was missing.
#[derive(Debug)]
pub enum BuildParamsError {
    /// The cache-directory variable is not set.
    MissingCacheDir,
    /// No artifact name was given, and a CI run cannot guess one.
    MissingArtifactName,
    /// No artifact name was given and none could be derived from the
    /// toolchain.
    NoTriplet,
}

/// The tag named by the git reference, when the reference points at a tag.
pub open spec fn spec_tag_of(github_ref: Option<Seq<char>>) -> Option<Seq<char>> {
    match github_ref {
        Some(r) => if spec_starts_with(r, "refs/tags/"@) {
            Some(r.skip("refs/tags/"@.len() as int))
        } else {
            None
        },
        None => None,
    }
}

/// Resolves the build parameters from the environment values handed in: the
/// cache directory is required; a missing token or tag makes the run a dry
/// run with placeholders; the server falls back to the public host; and the
/// artifact name falls back to the toolchain-derived triple outside CI.
pub fn resolve_build_params(
    cache_dir: Option<String>,
    token: Option<String>,
    github_ref: Option<String>,
    server_url: Option<String>,
    artifact_name: Option<String>,
    in_ci: bool,
    fallback_triplet: Option<String>,
) -> (r: Result<BuildParams, BuildParamsError>)
    ensures
        match r {
            Ok(p) => {
                &&& cache_dir is Some && p.cache_dir == cache_dir->0
                &&& match token {
                    Some(t) => p.token == t,
                    None => p.token@ == "placeholder_token"@,
                }
                &&& match spec_tag_of(github_ref.deep_view()) {
                    Some(t) => p.tag@ == t,
                    None => p.tag@ == "vX.Y.Z"@,
                }
                &&& p.is_dry_run == (token is None || spec_tag_of(github_ref.deep_view()) is None)
                &&& match server_url {
                    Some(u) => p.server_url == u,
                    None => p.server_url@ == "https://github.com"@,
                }
                &&& match artifact_name {
                    Some(a) => p.artifact_name == a,
                    None => fallback_triplet is Some && p.artifact_name == fallback_triplet->0,
                }
                &&& (artifact_name is None ==> !in_ci)
            },
            Err(BuildParamsError::MissingCacheDir) => cache_dir is None,
            Err(BuildParamsError::MissingArtifactName) => cache_dir is Some && artifact_name
                is None && in_ci,
            Err(BuildParamsError::NoTriplet) => cache_dir is Some && artifact_name is None
                && !in_ci && fallback_triplet is None,
        },
{
    let cache_dir = match cache_dir {
        Some(d) => d,
        None => {
            return Err(BuildParamsError::MissingCacheDir);
        },
    };
    let mut is_dry_run = false;
    let token = match token {
        Some(t) => t,
        None => {
            is_dry_run = true;
            String::from_str("placeholder_token")
        },
    };
    let tag = match github_ref {
        Some(r) => {
            match strip_prefix_str(r.as_str(), "refs/tags/") {
                Some(t) => t,
                None => {
                    is_dry_run = true;
                    String::from_str("vX.Y.Z")
                },
            }
        },
        None => {
            is_dry_run = true;
            String::from_str("vX.Y.Z")
        },
    };
    let server_url = match server_url {
        Some(u) => u,
        None => String::from_str("https://github.com"),
    };
    let artifact_name = match artifact_name {
        Some(a) => a,
        None => {
            if in_ci {
                return Err(BuildParamsError::MissingArtifactName);
            }
            match fallback_triplet {
                Some(t) => t,
                None => {
                    return Err(BuildParamsError::NoTriplet);
                },
            }
        },
    };
    Ok(BuildParams { cache_dir, token, tag, is_dry_run, server_url, artifact_name })
}

/// The triple derived from the toolchain's library-directory path: the
/// first path segment that mentions the stable channel, with the channel
/// prefix removed; nothing when that segment is shaped otherwise.
pub open spec fn spec_triplet_of(segments: Seq<Seq<char>>) -> Option<Seq<char>>
    decreases segments.len(),
{
    if segments.len() == 0 {
        None
    } else if spec_contains_substr(segments[0], "stable-"@) {
        if spec_starts_with(segments[0], "stable-"@) {
            Some(segments[0].skip("stable-"@.len() as int))
        } else {
            None
        }
    } else {
        spec_triplet_of(segments.drop_first())
    }
}

/// Derives the artifact triple from the toolchain's library-directory path.
pub fn triplet_from_libdir(output: &str) -> (r: Option<String>)
    ensures
        match r {
            Some(t) => spec_triplet_of(spec_split_runs(output@, '/')) == Some(t@),
            None => spec_triplet_of(spec_split_runs(output@, '/')) is None,
        },
{
    let segments = split_runs(output, '/');
    let n = segments.len();
    let ghost dv = segments.deep_view();
    let mut i: usize = 0;
    proof {
        assert(dv.skip(0) =~~= dv);
    }
    while i < n
        invariant
            n == segments@.len(),
            n == dv.len(),
            dv == segments.deep_view(),
            dv == spec_split_runs(output@, '/'),
            0 <= i <= n,
            spec_triplet_of(dv) == spec_triplet_of(dv.skip(i as int)),
        decreases n - i,
    {
        proof {
            assert(dv.skip(i as int)[0] == dv[i as int]);
            assert(dv[i as int] == segments@[i as int]@);
            assert(dv.skip(i as int).drop_first() =~~= dv.skip(i + 1));
        }
        if contains_substr(segments[i].as_str(), "stable-") {
            proof {
                assert(spec_contains_substr(dv.skip(i as int)[0], "stable-"@));
            }
            match strip_prefix_str(segments[i].as_str(), "stable-") {
                Some(t) => {
                    proof {
                        assert(spec_triplet_of(dv.skip(i as int)) == Some(
                            dv[i as int].skip("stable-"@.len() as int),
                        ));
                    }
                    return Some(t);
                },
                None => {
                    proof {
                        assert(spec_triplet_of(dv.skip(i as int)) is None);
                    }
                    return None;
                },
            }
        }
        i += 1;
    }
    None
}

/// The persistent cache layout shared by the toolchain invocations.
pub struct BuildEnv {
    /// The cache directory every toolchain home lives under.
    pub cache_dir: String,
}

impl BuildEnv {
    /// The build tool's home directory inside the cache.
    pub fn cargo_home(&self) -> (r: String)
        ensures
            r@ == self.cache_dir@ + "/cargo"@,
    {
        let mut r = self.cache_dir.clone();
        r.append("/cargo");
        r
    }

    /// The toolchain manager's home directory inside the cache.
    pub fn rustup_home(&self) -> (r: String)
        ensures
            r@ == self.cache_dir@ + "/rustup"@,
    {
        let mut r = self.cache_dir.clone();
        r.append("/rustup");
        r
    }

    /// The package-manager cache directory inside the cache.
    pub fn pnpm_cache_folder(&self) -> (r: String)
        ensures
            r@ == self.cache_dir@ + "/pnpm"@,
    {
        let mut r = self.cache_dir.clone();
        r.append("/pnpm");
        r
    }

    /// The environment entries of every toolchain invocation, in order:
    /// the cache-homed directories, forced color output, and the flag that
    /// remaps the build directory for reproducible paths.
    pub fn get_env(&self) -> (r: Vec<(String, String)>)
        ensures
            r.deep_view() =~= seq![
                ("CARGO_HOME"@, self.cache_dir@ + "/cargo"@),
                ("RUSTUP_HOME"@, self.cache_dir@ + "/rustup"@),
                ("PNPM_CACHE_FOLDER"@, self.cache_dir@ + "/pnpm"@),
                ("CLICOLOR_FORCE"@, "1"@),
                ("FORCE_COLOR"@, "1"@),
                ("RUSTC_BOOTSTRAP"@, "1"@),
                ("RUSTFLAGS"@, "-Z remap-cwd-prefix=."@),
            ],
    {
        let mut r: Vec<(String, String)> = Vec::new();
        r.push((String::from_str("CARGO_HOME"), self.cargo_home()));
        r.push((String::from_str("RUSTUP_HOME"), self.rustup_home()));
        r.push((String::from_str("PNPM_CACHE_FOLDER"), self.pnpm_cache_folder()));
        r.push((String::from_str("CLICOLOR_FORCE"), String::from_str("1")));
        r.push((String::from_str("FORCE_COLOR"), String::from_str("1")));
        r.push((String::from_str("RUSTC_BOOTSTRAP"), String::from_str("1")));
        r.push((String::from_str("RUSTFLAGS"), String::from_str("-Z remap-cwd-prefix=.")));
        r
    }

    /// The environment of a build invocation: the shared entries followed
    /// by the per-target build directory.
    pub fn env_with_target_dir(&self, target_dir: &str) -> (r: Vec<(String, String)>)
        ensures
            r.deep_view() =~= self.get_env_spec().push(("CARGO_TARGET_DIR"@, target_dir@)),
    {
        let mut r = self.get_env();
        r.push((String::from_str("CARGO_TARGET_DIR"), target_dir.to_owned()));
        proof {
            assert(r.deep_view() =~~= self.get_env_spec().push(("CARGO_TARGET_DIR"@, target_dir@)));
        }
        r
    }

    /// The shared environment entries, as sequences.
    pub open spec fn get_env_spec(&self) -> Seq<(Seq<char>, Seq<char>)> {
        seq![
            ("CARGO_HOME"@, self.cache_dir@ + "/cargo"@),
            ("RUSTUP_HOME"@, self.cache_dir@ + "/rustup"@),
            ("PNPM_CACHE_FOLDER"@, self.cache_dir@ + "/pnpm"@),
            ("CLICOLOR_FORCE"@, "1"@),
            ("FORCE_COLOR"@, "1"@),
            ("RUSTC_BOOTSTRAP"@, "1"@),
            ("RUSTFLAGS"@, "-Z remap-cwd-prefix=."@),
        ]
    }
}

/// The per-target build directory: the cache's build-output tree, split by
/// organization, project and target triple.
pub fn cargo_target_dir(cache_dir: &str, org: &str, name: &str, triple: &str) -> (r: String)
    ensures
        r@ == cache_dir@ + "/target/"@ + org@ + "/"@ + name@ + "/"@ + triple@,
{
    let mut r = cache_dir.to_owned();
    r.append("/target/");
    r.append(org);
    r.append("/");
    r.append(name);
    r.append("/");
    r.append(triple);
    proof {
        assert(r@ =~= cache_dir@ + "/target/"@ + org@ + "/"@ + name@ + "/"@ + triple@);
    }
    r
}

/// The release-profile output directory under the per-target directory.
pub fn cargo_out_dir(target_dir: &str) -> (r: String)
    ensures
        r@ == target_dir@ + "/release"@,
{
    let mut r = target_dir.to_owned();
    r.append("/release");
    r
}

/// The resolved location of one configured binary in the output directory.
pub fn binary_path(out_dir: &str, bin: &str) -> (r: String)
    ensures
        r@ == out_dir@ + "/"@ + bin@,
{
    let mut r = out_dir.to_owned();
    r.append("/");
    r.append(bin);
    proof {
        assert(r@ =~= out_dir@ + "/"@ + bin@);
    }
    r
}

} // verus!
