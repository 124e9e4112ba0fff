//! Packaging: the files destined for the output archive, the rule that
//! every configured binary exists and is non-empty, the flat-archive
//! command assembly, and the minimum plausible size of a finished archive.

use vstd::prelude::*;
use vstd::string::StringExecFns;

use crate::strutil::after_last;
use crate::strutil::basename;
use crate::strutil::contains_char;
use crate::strutil::join_with;
use crate::strutil::parent_dir;
use crate::strutil::spec_join;

verus! {

/// Smallest plausible size, in bytes, for a package archive; anything below
/// this is treated as a truncated or empty build output.
pub const MIN_PACKAGE_SIZE: u64 = 10240;

/// A package archive is accepted only when it is at least `MIN_PACKAGE_SIZE`
/// bytes long.
pub fn package_size_ok(size: u64) -> (ok: bool)
    ensures
        ok == (size >= MIN_PACKAGE_SIZE),
{
    size >= MIN_PACKAGE_SIZE
}

/// What a packaged file is.
#[derive(Clone, Copy, PartialEq, Eq, Structural, Debug)]
pub enum PackagedFileKind {
    /// An executable binary.
    Bin,
    /// A shared library.
    Lib,
    /// Any other data file.
    Misc,
}

/// One file destined for the output archive.
#[derive(Clone)]
pub struct PackagedFile {
    /// What the file is.
    pub kind: PackagedFileKind,
    /// Its absolute location on disk; archives are flat, so only the base
    /// name survives packaging.
    pub path: String,
}

/// Why the packaging of the configured binaries failed.
#[derive(Debug)]
pub enum PackageBinError {
    /// This binary has no file in the build-output directory.
    Missing(String),
    /// This binary's file exists but is empty.
    Empty(String),
}

/// The probe result for one configured binary: its file size when the file
/// exists.
pub open spec fn bin_ok(probe: Option<u64>) -> bool {
    match probe {
        Some(size) => size > 0,
        None => false,
    }
}

impl PackageBinError {
    /// The offending path.
    pub open spec fn spec_path(&self) -> Seq<char> {
        match self {
            PackageBinError::Missing(p) => p@,
            PackageBinError::Empty(p) => p@,
        }
    }
}

/// Turns the configured binaries into packaged files, given each binary's
/// resolved path and the probed size of its file (`None` when there is no
/// such file). Succeeds only when every binary exists and is non-empty;
/// otherwise fails on the first offender, before packaging proceeds.
pub fn package_binaries(paths: &Vec<String>, probes: &Vec<Option<u64>>) -> (r: Result<
    Vec<PackagedFile>,
    PackageBinError,
>)
    requires
        paths@.len() == probes@.len(),
    ensures
        r is Ok <==> (forall|i: int| 0 <= i < probes@.len() ==> bin_ok(#[trigger] probes@[i])),
        match r {
            Ok(files) => {
                &&& files@.len() == paths@.len()
                &&& forall|i: int|
                    0 <= i < files@.len() ==> (#[trigger] files@[i]).kind
                        == PackagedFileKind::Bin && files@[i].path@ == paths.deep_view()[i]
            },
            Err(e) => exists|i: int|
                {
                    &&& 0 <= i < probes@.len()
                    &&& !bin_ok(#[trigger] probes@[i])
                    &&& (forall|j: int| 0 <= j < i ==> bin_ok(#[trigger] probes@[j]))
                    &&& e.spec_path() == paths.deep_view()[i]
                    &&& match probes@[i] {
                        None => e is Missing,
                        Some(_) => e is Empty,
                    }
                },
        },
{
    let n = paths.len();
    let mut files: Vec<PackagedFile> = Vec::new();
    let mut i: usize = 0;
    while i < n
        invariant
            n == paths@.len(),
            n == probes@.len(),
            0 <= i <= n,
            files@.len() == i,
            forall|j: int| 0 <= j < i ==> bin_ok(#[trigger] probes@[j]),
            forall|j: int|
                0 <= j < i ==> (#[trigger] files@[j]).kind == PackagedFileKind::Bin
                    && files@[j].path@ == paths.deep_view()[j],
        decreases n - i,
    {
        let path = paths[i].clone();
        match probes[i] {
            Some(size) => {
                if size == 0 {
                    return Err(PackageBinError::Empty(path));
                }
                files.push(PackagedFile { kind: PackagedFileKind::Bin, path });
            },
            None => {
                return Err(PackageBinError::Missing(path));
            },
        }
        i += 1;
    }
    Ok(files)
}

/// The archive's file name: the artifact name with the compressed-archive
/// extension.
pub fn archive_file_name(artifact_name: &str) -> (r: String)
    ensures
        r@ == artifact_name@ + ".tar.xz"@,
{
    let mut r = artifact_name.to_owned();
    r.append(".tar.xz");
    r
}

/// The parent directory recorded for one packaged path: what stands before
/// its last separator, or the filesystem root when the separator leads it.
pub open spec fn spec_parent_of(p: Seq<char>) -> Seq<char> {
    let bn = after_last(p, '/');
    if p.len() - bn.len() - 1 == 0 {
        "/"@
    } else {
        p.subrange(0, p.len() - bn.len() - 1)
    }
}

/// The per-file archiving arguments: for each file in order, a
/// change-directory flag, the file's parent directory, and its base name.
pub open spec fn spec_tar_args(files: Seq<PackagedFile>) -> Seq<Seq<char>>
    decreases files.len(),
{
    if files.len() == 0 {
        Seq::empty()
    } else {
        let p = files.last().path@;
        spec_tar_args(files.drop_last()) + seq!["-C"@, spec_parent_of(p), after_last(p, '/')]
    }
}

/// The per-file archiving arguments: for each file, a change-directory flag
/// with the file's parent directory followed by its base name, so that the
/// archive stays flat and holds base names only.
pub fn tar_file_args(files: &Vec<PackagedFile>) -> (r: Vec<String>)
    requires
        forall|i: int| 0 <= i < files@.len() ==> contains_char((#[trigger] files@[i]).path@, '/'),
    ensures
        r.deep_view() == spec_tar_args(files@),
{
    let n = files.len();
    let mut r: Vec<String> = Vec::new();
    let mut i: usize = 0;
    proof {
        assert(files@.subrange(0, 0) =~= Seq::<PackagedFile>::empty());
    }
    while i < n
        invariant
            n == files@.len(),
            forall|k: int|
                0 <= k < files@.len() ==> contains_char((#[trigger] files@[k]).path@, '/'),
            0 <= i <= n,
            r.deep_view() == spec_tar_args(files@.subrange(0, i as int)),
        decreases n - i,
    {
        let path = files[i].path.as_str();
        let parent = match parent_dir(path) {
            Some(d) => d,
            None => {
                proof {
                    assert(contains_char(files@[i as int].path@, '/'));
                }
                vstd::pervasive::unreached()
            },
        };
        let name = basename(path);
        r.push(String::from_str("-C"));
        r.push(parent);
        r.push(name);
        proof {
            assert(files@.subrange(0, i + 1).drop_last() =~= files@.subrange(0, i as int));
            assert(files@.subrange(0, i + 1).last() == files@[i as int]);
            assert(r.deep_view() =~~= spec_tar_args(files@.subrange(0, i + 1)));
        }
        i += 1;
    }
    proof {
        assert(files@.subrange(0, n as int) =~= files@);
    }
    r
}

/// The shell pipeline that packs the files into a flat compressed archive
/// at `package_file`: the fixed tar invocation over exactly the per-file
/// arguments, piped through the compressor into the archive.
pub fn archive_command(files: &Vec<PackagedFile>, package_file: &str) -> (r: String)
    requires
        forall|i: int| 0 <= i < files@.len() ==> contains_char((#[trigger] files@[i]).path@, '/'),
    ensures
        r@ == "tar --create --verbose --file=- "@ + spec_join(spec_tar_args(files@), " "@)
            + " | xz -2 --threads=0 --stdout > "@ + package_file@,
{
    let args = tar_file_args(files);
    let joined = join_with(&args, " ");
    let mut r = String::from_str("tar --create --verbose --file=- ");
    r.append(joined.as_str());
    r.append(" | xz -2 --threads=0 --stdout > ");
    r.append(package_file);
    proof {
        assert(r@ =~= "tar --create --verbose --file=- "@ + spec_join(args.deep_view(), " "@)
            + " | xz -2 --threads=0 --stdout > "@ + package_file@);
    }
    r
}

} // verus!
