//! The release host's endpoints: package kinds and the URLs that the
//! publisher talks to, including the host rewrites for the API and upload
//! endpoints, plus the extraction of a release's numeric identifier.

use vstd::prelude::*;
use vstd::string::StringExecFns;

use crate::json::json_u64_field;
use crate::json::json_u64_of;
use crate::strutil::contains_char;
use crate::strutil::replace_all;
use crate::strutil::spec_replace_all;
use crate::strutil::spec_u64_str;
use crate::strutil::u64_to_string;

verus! {

/// The kind of package registry entry being queried.
#[derive(Clone, Copy, PartialEq, Eq, Structural, Debug)]
pub enum PackageType {
    /// A generic (file) package.
    Generic,
    /// A container image package.
    Container,
}

impl PackageType {
    /// The registry's name for this package kind, as it appears in query
    /// parameters.
    pub fn name(&self) -> (r: String)
        ensures
            match self {
                PackageType::Generic => r@ == "generic"@,
                PackageType::Container => r@ == "container"@,
            },
    {
        match self {
            PackageType::Generic => String::from_str("generic"),
            PackageType::Container => String::from_str("container"),
        }
    }
}

/// The API host for a release server: the public host name is swapped for
/// its API host, any other host is used as it stands.
pub open spec fn spec_api_base(server_url: Seq<char>) -> Seq<char> {
    spec_replace_all(server_url, "github.com"@, "api.github.com"@)
}

/// The upload host for a release server: the public host name is swapped
/// for its upload host, any other host is used as it stands.
pub open spec fn spec_upload_base(server_url: Seq<char>) -> Seq<char> {
    spec_replace_all(server_url, "github.com"@, "uploads.github.com"@)
}

/// The endpoint that fetches a release by its tag; a missing release
/// reports itself by status, not by URL.
pub fn release_by_tag_url(server_url: &str, org: &str, name: &str, tag: &str) -> (r: String)
    ensures
        r@ == spec_api_base(server_url@) + "/repos/"@ + org@ + "/"@ + name@ + "/releases/tags/"@
            + tag@,
{
    proof {
        reveal_strlit("github.com");
    }
    let mut r = replace_all(server_url, "github.com", "api.github.com");
    r.append("/repos/");
    r.append(org);
    r.append("/");
    r.append(name);
    r.append("/releases/tags/");
    r.append(tag);
    proof {
        assert(r@ =~= spec_api_base(server_url@) + "/repos/"@ + org@ + "/"@ + name@
            + "/releases/tags/"@ + tag@);
    }
    r
}

/// The endpoint that creates a release.
pub fn create_release_url(server_url: &str, org: &str, name: &str) -> (r: String)
    ensures
        r@ == spec_api_base(server_url@) + "/repos/"@ + org@ + "/"@ + name@ + "/releases"@,
{
    proof {
        reveal_strlit("github.com");
    }
    let mut r = replace_all(server_url, "github.com", "api.github.com");
    r.append("/repos/");
    r.append(org);
    r.append("/");
    r.append(name);
    r.append("/releases");
    proof {
        assert(r@ =~= spec_api_base(server_url@) + "/repos/"@ + org@ + "/"@ + name@
            + "/releases"@);
    }
    r
}

/// The endpoint that uploads one named asset under a release. The asset
/// name is a bare file name: it carries no path separator.
pub fn upload_asset_url(
    server_url: &str,
    org: &str,
    name: &str,
    release_id: u64,
    asset_name: &str,
) -> (r: String)
    requires
        !contains_char(asset_name@, '/'),
    ensures
        r@ == spec_upload_base(server_url@) + "/repos/"@ + org@ + "/"@ + name@ + "/releases/"@
            + spec_u64_str(release_id as int) + "/assets?name="@ + asset_name@,
{
    proof {
        reveal_strlit("github.com");
    }
    let mut r = replace_all(server_url, "github.com", "uploads.github.com");
    r.append("/repos/");
    r.append(org);
    r.append("/");
    r.append(name);
    r.append("/releases/");
    let id = u64_to_string(release_id);
    r.append(id.as_str());
    r.append("/assets?name=");
    r.append(asset_name);
    proof {
        assert(r@ =~= spec_upload_base(server_url@) + "/repos/"@ + org@ + "/"@ + name@
            + "/releases/"@ + spec_u64_str(release_id as int) + "/assets?name="@ + asset_name@);
    }
    r
}

/// Reads the numeric identifier out of a release record; a record without
/// a `u64` under `id` is an unexpected response shape and yields nothing.
pub fn release_id_of(release: &serde_json::Value) -> (r: Option<u64>)
    ensures
        r == json_u64_of(*release, "id"@),
{
    json_u64_field(release, "id")
}

} // verus!
