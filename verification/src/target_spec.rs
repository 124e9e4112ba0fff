//! The compilation-target descriptor: a typed model of the toolchain's
//! target description and the canonical triple derived from it.

use vstd::prelude::*;
use vstd::string::StringExecFns;

use crate::json::json_doc_ok;
use crate::json::json_string_field;
use crate::json::json_string_field_of;
use crate::json::json_well_formed;
use crate::strutil::str_eq;

verus! {

/// The fields of the toolchain's target description that drive packaging
/// decisions. Built once per build and read-only afterward.
pub struct TargetSpec {
    /// Processor architecture, e.g. `aarch64` or `x86_64`.
    pub arch: String,
    /// Operating system by its common name, e.g. `macos` or `linux`.
    pub os: String,
    /// Vendor component of the triple, when the toolchain reports one.
    pub vendor: Option<String>,
    /// ABI environment, e.g. `gnu`, when the toolchain reports one.
    pub env: Option<String>,
    /// Suffix of dynamic libraries on this target, e.g. `.dylib` or `.so`.
    pub dll_suffix: String,
}

/// Why a target description was rejected.
#[derive(PartialEq, Eq, Structural, Debug)]
pub enum TargetSpecError {
    /// The input was not well-formed structured text.
    MalformedJson,
    /// The required `arch` field is absent or not a string.
    MissingArch,
    /// The required `os` field is absent or not a string.
    MissingOs,
}

/// The OS name as it is spelled in a target triple: the common macOS name
/// maps to the triple's historical name, all other names pass through.
pub open spec fn spec_normalized_os(os: Seq<char>) -> Seq<char> {
    if os == "macos"@ {
        "darwin"@
    } else {
        os
    }
}

/// The canonical target triple: `{arch}-{vendor-or-unknown}-{os-normalized}`,
/// with `-{env}` appended only when the environment is present and non-empty.
pub open spec fn spec_full_name(
    arch: Seq<char>,
    vendor: Option<Seq<char>>,
    os: Seq<char>,
    env: Option<Seq<char>>,
) -> Seq<char> {
    let v = match vendor {
        Some(v) => v,
        None => "unknown"@,
    };
    let base = arch + "-"@ + v + "-"@ + spec_normalized_os(os);
    match env {
        Some(e) => if e.len() > 0 {
            base + "-"@ + e
        } else {
            base
        },
        None => base,
    }
}

impl TargetSpec {
    /// The canonical triple name for this target, used to name the
    /// per-target build directory and the release artifact.
    pub fn full_name(&self) -> (r: String)
        ensures
            r@ == spec_full_name(self.arch@, self.vendor.deep_view(), self.os@, self.env.deep_view()),
    {
        let mut r = self.arch.clone();
        r.append("-");
        match &self.vendor {
            Some(v) => r.append(v.as_str()),
            None => r.append("unknown"),
        }
        r.append("-");
        if str_eq(self.os.as_str(), "macos") {
            r.append("darwin");
        } else {
            r.append(self.os.as_str());
        }
        match &self.env {
            Some(e) => {
                if !e.as_str().is_empty() {
                    r.append("-");
                    r.append(e.as_str());
                }
            },
            None => {},
        }
        proof {
            assert(r@ =~= spec_full_name(
                self.arch@,
                self.vendor.deep_view(),
                self.os@,
                self.env.deep_view(),
            ));
        }
        r
    }

    /// Builds the descriptor from the extracted fields of the toolchain's
    /// description: `arch` and `os` are required, the vendor and environment
    /// stay optional, and a missing dynamic-library suffix falls back to the
    /// platform default.
    pub fn from_parts(
        arch: Option<String>,
        os: Option<String>,
        vendor: Option<String>,
        env: Option<String>,
        dll_suffix: Option<String>,
    ) -> (r: Result<TargetSpec, TargetSpecError>)
        ensures
            match r {
                Ok(t) => {
                    &&& arch is Some
                    &&& os is Some
                    &&& t.arch == arch->0
                    &&& t.os == os->0
                    &&& t.vendor == vendor
                    &&& t.env == env
                    &&& match dll_suffix {
                        Some(d) => t.dll_suffix == d,
                        None => t.dll_suffix@ == ".so"@,
                    }
                },
                Err(TargetSpecError::MissingArch) => arch is None,
                Err(TargetSpecError::MissingOs) => arch is Some && os is None,
                Err(TargetSpecError::MalformedJson) => false,
            },
    {
        let arch = match arch {
            Some(a) => a,
            None => {
                return Err(TargetSpecError::MissingArch);
            },
        };
        let os = match os {
            Some(o) => o,
            None => {
                return Err(TargetSpecError::MissingOs);
            },
        };
        let dll_suffix = match dll_suffix {
            Some(d) => d,
            None => default_dll_suffix(),
        };
        Ok(TargetSpec { arch, os, vendor, env, dll_suffix })
    }

    /// Parses the toolchain's structured target description. Extra fields
    /// are tolerated; a malformed document or a missing required field is
    /// rejected. The field reads are delegated to the JSON library under
    /// their names, and the schema decision is made by `from_parts`.
    pub fn from_json(text: &str) -> (r: Result<TargetSpec, TargetSpecError>)
        ensures
            match r {
                Ok(t) => {
                    &&& json_doc_ok(text@)
                    &&& Some(t.arch@) == json_string_field_of(text@, "arch"@)
                    &&& Some(t.os@) == json_string_field_of(text@, "os"@)
                    &&& t.vendor.deep_view() == json_string_field_of(text@, "vendor"@)
                    &&& t.env.deep_view() == json_string_field_of(text@, "env"@)
                    &&& match json_string_field_of(text@, "dll-suffix"@) {
                        Some(d) => t.dll_suffix@ == d,
                        None => t.dll_suffix@ == ".so"@,
                    }
                },
                Err(TargetSpecError::MalformedJson) => !json_doc_ok(text@),
                Err(TargetSpecError::MissingArch) => json_doc_ok(text@) && json_string_field_of(
                    text@,
                    "arch"@,
                ) is None,
                Err(TargetSpecError::MissingOs) => json_doc_ok(text@) && json_string_field_of(
                    text@,
                    "arch"@,
                ) is Some && json_string_field_of(text@, "os"@) is None,
            },
    {
        if !json_well_formed(text) {
            return Err(TargetSpecError::MalformedJson);
        }
        let arch = json_string_field(text, "arch");
        let os = json_string_field(text, "os");
        let vendor = json_string_field(text, "vendor");
        let env = json_string_field(text, "env");
        let dll_suffix = json_string_field(text, "dll-suffix");
        TargetSpec::from_parts(arch, os, vendor, env, dll_suffix)
    }
}

/// The dynamic-library suffix assumed when the target description does not
/// name one.
pub fn default_dll_suffix() -> (r: String)
    ensures
        r@ == ".so"@,
{
    String::from_str(".so")
}

} // verus!
