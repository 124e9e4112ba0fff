//! The link-reference rewriter: decides which of a binary's declared
//! shared-library dependencies are owned by this build and what each one is
//! rewritten to, so that the packaged bundle resolves them relative to the
//! loader rather than through absolute build-tree paths.

use vstd::prelude::*;
use vstd::string::StrSliceExecFns;
use vstd::string::StringExecFns;

use crate::strutil::after_last;
use crate::strutil::basename;
use crate::strutil::contains_char;
use crate::strutil::ends_with_str;
use crate::strutil::lemma_after_last_concat;
use crate::strutil::spec_ends_with;
use crate::strutil::spec_lines;
use crate::strutil::spec_second_token;
use crate::strutil::spec_starts_with;
use crate::strutil::spec_trim_start;
use crate::strutil::second_token;
use crate::strutil::split_lines;
use crate::strutil::starts_with_str;
use crate::strutil::str_eq;
use crate::strutil::trim_start_str;

verus! {

/// Whether this OS's binary format records dependencies as rewritable load
/// commands. Where it does not, the whole rewrite step is skipped, and that
/// is success, not an error.
pub fn rewrite_supported(os: &str) -> (r: bool)
    ensures
        r == (os@ == "macos"@),
{
    str_eq(os, "macos")
}

/// `n` is one of the names in `names`.
pub open spec fn name_in(names: Seq<Seq<char>>, n: Seq<char>) -> bool {
    exists|i: int| 0 <= i < names.len() && names[i] == n
}

/// No name in `names` holds a path separator.
pub open spec fn names_slash_free(names: Seq<Seq<char>>) -> bool {
    forall|i: int| 0 <= i < names.len() ==> !contains_char(#[trigger] names[i], '/')
}

/// The loader-relative prefix used for rewritten references.
pub open spec fn spec_rpath(name: Seq<char>) -> Seq<char> {
    "@rpath/"@ + name
}

/// `name` follows the project's shared-library naming convention:
/// the `lib` prefix and the target's dynamic-library suffix.
pub open spec fn spec_is_owned_library_name(name: Seq<char>, suffix: Seq<char>) -> bool {
    spec_starts_with(name, "lib"@) && spec_ends_with(name, suffix)
}

/// Does `name` follow the library naming convention for `suffix`?
pub fn is_owned_library_name(name: &str, suffix: &str) -> (r: bool)
    ensures
        r == spec_is_owned_library_name(name@, suffix@),
{
    starts_with_str(name, "lib") && ends_with_str(name, suffix)
}

/// `name` is the standard library's shared object for this target: the
/// `libstd-` prefix, then at least the target's dynamic-library suffix.
pub open spec fn spec_is_libstd_name(name: Seq<char>, suffix: Seq<char>) -> bool {
    &&& spec_starts_with(name, "libstd-"@)
    &&& spec_ends_with(name, suffix)
    &&& name.len() >= "libstd-"@.len() + suffix.len()
}

/// Does `name` name the standard library's shared object?
pub fn is_libstd_name(name: &str, suffix: &str) -> (r: bool)
    ensures
        r == spec_is_libstd_name(name@, suffix@),
{
    proof {
        reveal_strlit("libstd-");
    }
    let nn = name.unicode_len();
    let ns = suffix.unicode_len();
    starts_with_str(name, "libstd-") && ends_with_str(name, suffix) && nn >= 7 && nn - 7 >= ns
}

/// What one dependency reference is replaced by: the loader-relative form
/// when its final path component is an owned name, nothing otherwise.
pub open spec fn spec_plan_one(dep: Seq<char>, names: Seq<Seq<char>>) -> Option<Seq<char>> {
    if name_in(names, after_last(dep, '/')) {
        Some(spec_rpath(after_last(dep, '/')))
    } else {
        None
    }
}

/// The value of one dependency reference after a rewrite pass.
pub open spec fn spec_rewrite_ref(dep: Seq<char>, names: Seq<Seq<char>>) -> Seq<char> {
    match spec_plan_one(dep, names) {
        Some(n) => n,
        None => dep,
    }
}

/// The set of shared-library names this build produced, used as the
/// membership oracle during rewriting. Matching is by base file name only.
pub struct OwnedLibrarySet {
    /// The owned base file names; none holds a path separator.
    pub names: Vec<String>,
}

impl OwnedLibrarySet {
    /// The names never hold a path separator: they are base file names.
    pub open spec fn wf(&self) -> bool {
        names_slash_free(self.names.deep_view())
    }

    /// An empty set.
    pub fn new() -> (r: OwnedLibrarySet)
        ensures
            r.wf(),
            r.names.deep_view() == Seq::<Seq<char>>::empty(),
    {
        OwnedLibrarySet { names: Vec::new() }
    }

    /// Records one owned base file name.
    pub fn insert(&mut self, name: String)
        requires
            old(self).wf(),
            !contains_char(name@, '/'),
        ensures
            final(self).wf(),
            final(self).names.deep_view() == old(self).names.deep_view().push(name@),
    {
        self.names.push(name);
        proof {
            assert(self.names.deep_view() =~= old(self).names.deep_view().push(
                self.names@.last()@,
            ));
        }
    }

    /// Is `name` a member, by exact comparison?
    pub fn contains(&self, name: &str) -> (r: bool)
        ensures
            r == name_in(self.names.deep_view(), name@),
    {
        let n = self.names.len();
        let mut i: usize = 0;
        while i < n
            invariant
                n == self.names@.len(),
                0 <= i <= n,
                forall|j: int| 0 <= j < i ==> self.names.deep_view()[j] != name@,
            decreases n - i,
        {
            if str_eq(self.names[i].as_str(), name) {
                proof {
                    assert(self.names.deep_view()[i as int] == name@);
                }
                return true;
            }
            i += 1;
        }
        false
    }
}

/// The loader-relative reference for `name`.
pub fn rpath_reference(name: &str) -> (r: String)
    ensures
        r@ == spec_rpath(name@),
{
    let mut r = String::from_str("@rpath/");
    r.append(name);
    r
}

/// Decides whether one dependency reference must be rewritten: the final
/// path component is taken as the candidate library name, and only a
/// reference whose candidate name is owned gets the loader-relative form.
/// References to system or third-party libraries come back `None` and are
/// left untouched.
pub fn rewrite_ref(dep: &str, owned: &OwnedLibrarySet) -> (r: Option<String>)
    ensures
        r.deep_view() == spec_plan_one(dep@, owned.names.deep_view()),
{
    let name = basename(dep);
    if owned.contains(name.as_str()) {
        Some(rpath_reference(name.as_str()))
    } else {
        None
    }
}

/// The rewrite decision for every extracted reference of one file,
/// position by position.
pub fn plan_rewrites(deps: &Vec<String>, owned: &OwnedLibrarySet) -> (r: Vec<Option<String>>)
    ensures
        r@.len() == deps@.len(),
        forall|i: int|
            0 <= i < deps@.len() ==> r.deep_view()[i] == spec_plan_one(
                #[trigger] deps.deep_view()[i],
                owned.names.deep_view(),
            ),
{
    let n = deps.len();
    let mut r: Vec<Option<String>> = Vec::new();
    let mut i: usize = 0;
    while i < n
        invariant
            n == deps@.len(),
            0 <= i <= n,
            r@.len() == i,
            forall|j: int|
                0 <= j < i ==> r.deep_view()[j] == spec_plan_one(
                    #[trigger] deps.deep_view()[j],
                    owned.names.deep_view(),
                ),
        decreases n - i,
    {
        let one = rewrite_ref(deps[i].as_str(), owned);
        r.push(one);
        i += 1;
    }
    r
}

/// A rewrite pass is idempotent: every reference the pass produces is left
/// unchanged by a second pass, because matching is on the final path
/// component and the loader-relative prefix is stable.
pub proof fn lemma_rewrite_idempotent(dep: Seq<char>, names: Seq<Seq<char>>)
    requires
        names_slash_free(names),
    ensures
        spec_rewrite_ref(spec_rewrite_ref(dep, names), names) == spec_rewrite_ref(dep, names),
{
    let bn = after_last(dep, '/');
    if name_in(names, bn) {
        let i = choose|i: int| 0 <= i < names.len() && names[i] == bn;
        assert(!contains_char(bn, '/'));
        proof_rpath_shape();
        lemma_after_last_concat("@rpath/"@, bn, '/');
        assert(after_last(spec_rpath(bn), '/') == bn);
    }
}

/// All of a file's references after one rewrite pass, position by position.
pub open spec fn spec_rewrite_all(deps: Seq<Seq<char>>, names: Seq<Seq<char>>) -> Seq<Seq<char>> {
    deps.map_values(|d: Seq<char>| spec_rewrite_ref(d, names))
}

/// A whole rewrite pass is idempotent: running it again over the references
/// it produced changes none of them.
pub proof fn lemma_rewrite_all_idempotent(deps: Seq<Seq<char>>, names: Seq<Seq<char>>)
    requires
        names_slash_free(names),
    ensures
        spec_rewrite_all(spec_rewrite_all(deps, names), names) == spec_rewrite_all(deps, names),
{
    let once = spec_rewrite_all(deps, names);
    let twice = spec_rewrite_all(once, names);
    assert forall|i: int| 0 <= i < deps.len() implies twice[i] == once[i] by {
        lemma_rewrite_idempotent(deps[i], names);
    }
    assert(twice =~~= once);
}

/// The characters of the loader-relative prefix: non-empty and ends with
/// the path separator.
proof fn proof_rpath_shape()
    ensures
        "@rpath/"@.len() > 0,
        "@rpath/"@.last() == '/',
{
    reveal_strlit("@rpath/");
}

/// One entry of the build-output directory, as discovered by the caller:
/// its base file name, whether the entry is a symbolic link, the canonical
/// (symlink-free) path when canonicalization succeeded, and the path as
/// discovered.
pub struct LibraryCandidate {
    /// Base file name of the entry, with no path separator in it.
    pub name: String,
    /// Whether the entry is a symbolic link.
    pub is_symlink: bool,
    /// The canonical path, when it could be resolved.
    pub canonical: Option<String>,
    /// The path of the entry as discovered.
    pub path: String,
}

/// The owned names among `entries`: every entry whose base name follows the
/// library naming convention, symbolic link or not.
pub open spec fn spec_owned_names(entries: Seq<LibraryCandidate>, suffix: Seq<char>) -> Seq<
    Seq<char>,
>
    decreases entries.len(),
{
    if entries.len() == 0 {
        Seq::empty()
    } else {
        let rest = spec_owned_names(entries.drop_last(), suffix);
        if spec_is_owned_library_name(entries.last().name@, suffix) {
            rest.push(entries.last().name@)
        } else {
            rest
        }
    }
}

/// The rewrite worklist among `entries`: every owned entry that is not a
/// symbolic link, under its canonical path when one was resolved, and under
/// its original path otherwise.
pub open spec fn spec_rewrite_worklist(entries: Seq<LibraryCandidate>, suffix: Seq<char>) -> Seq<
    Seq<char>,
>
    decreases entries.len(),
{
    if entries.len() == 0 {
        Seq::empty()
    } else {
        let rest = spec_rewrite_worklist(entries.drop_last(), suffix);
        let e = entries.last();
        if spec_is_owned_library_name(e.name@, suffix) && !e.is_symlink {
            rest.push(
                match e.canonical {
                    Some(c) => c@,
                    None => e.path@,
                },
            )
        } else {
            rest
        }
    }
}

/// Scans the discovered entries for owned shared libraries. Every matching
/// name becomes a member of the owned set; a symbolic link contributes its
/// name for membership only, while a real file also joins the rewrite
/// worklist under its canonical (or else original) path. Configured binary
/// executables are appended to the worklist by the caller once resolved.
pub fn collect_owned(entries: &Vec<LibraryCandidate>, dll_suffix: &str) -> (r: (
    OwnedLibrarySet,
    Vec<String>,
))
    requires
        forall|i: int|
            0 <= i < entries@.len() ==> !contains_char(#[trigger] entries@[i].name@, '/'),
    ensures
        r.0.wf(),
        r.0.names.deep_view() == spec_owned_names(entries@, dll_suffix@),
        r.1.deep_view() == spec_rewrite_worklist(entries@, dll_suffix@),
{
    let n = entries.len();
    let mut owned = OwnedLibrarySet::new();
    let mut worklist: Vec<String> = Vec::new();
    let mut i: usize = 0;
    proof {
        assert(entries@.subrange(0, 0) =~= Seq::<LibraryCandidate>::empty());
    }
    while i < n
        invariant
            n == entries@.len(),
            0 <= i <= n,
            forall|k: int|
                0 <= k < entries@.len() ==> !contains_char(#[trigger] entries@[k].name@, '/'),
            owned.wf(),
            owned.names.deep_view() == spec_owned_names(
                entries@.subrange(0, i as int),
                dll_suffix@,
            ),
            worklist.deep_view() == spec_rewrite_worklist(
                entries@.subrange(0, i as int),
                dll_suffix@,
            ),
        decreases n - i,
    {
        let e = &entries[i];
        proof {
            assert(entries@.subrange(0, i + 1).drop_last() =~= entries@.subrange(0, i as int));
            assert(entries@.subrange(0, i + 1).last() == entries@[i as int]);
        }
        if is_owned_library_name(e.name.as_str(), dll_suffix) {
            owned.insert(e.name.clone());
            if !e.is_symlink {
                let target = match &e.canonical {
                    Some(c) => c.clone(),
                    None => e.path.clone(),
                };
                worklist.push(target);
                proof {
                    assert(worklist.deep_view() =~= spec_rewrite_worklist(
                        entries@.subrange(0, i + 1),
                        dll_suffix@,
                    ));
                }
            }
        }
        i += 1;
    }
    proof {
        assert(entries@.subrange(0, n as int) =~= entries@);
    }
    (owned, worklist)
}

/// The self-identity record for one worklist file: a shared library gets
/// the loader-relative form of its own name so that other binaries can load
/// it by the same convention; an executable has no identity to set.
pub fn self_identity(file_name: &str, dll_suffix: &str) -> (r: Option<String>)
    ensures
        match r {
            Some(id) => spec_is_owned_library_name(file_name@, dll_suffix@) && id@ == spec_rpath(
                file_name@,
            ),
            None => !spec_is_owned_library_name(file_name@, dll_suffix@),
        },
{
    if is_owned_library_name(file_name, dll_suffix) {
        Some(rpath_reference(file_name))
    } else {
        None
    }
}

/// Everything to be done to one worklist file: the rewrite decision for
/// each of its extracted references, in order, and its own new identity
/// when the file is itself an owned-style library.
pub struct FileRewritePlan {
    /// For each reference, the loader-relative replacement, or nothing when
    /// the reference is not ours.
    pub changes: Vec<Option<String>>,
    /// The new self-identity, for shared libraries only.
    pub set_id: Option<String>,
}

/// Plans the rewrite of one file: which references change, to what, and
/// what the file's own identity becomes.
pub fn plan_for_file(
    file_name: &str,
    deps: &Vec<String>,
    owned: &OwnedLibrarySet,
    dll_suffix: &str,
) -> (p: FileRewritePlan)
    ensures
        p.changes@.len() == deps@.len(),
        forall|i: int|
            0 <= i < deps@.len() ==> p.changes.deep_view()[i] == spec_plan_one(
                #[trigger] deps.deep_view()[i],
                owned.names.deep_view(),
            ),
        match p.set_id {
            Some(id) => spec_is_owned_library_name(file_name@, dll_suffix@) && id@ == spec_rpath(
                file_name@,
            ),
            None => !spec_is_owned_library_name(file_name@, dll_suffix@),
        },
{
    FileRewritePlan {
        changes: plan_rewrites(deps, owned),
        set_id: self_identity(file_name, dll_suffix),
    }
}

/// The dependency references named by `LC_LOAD_DYLIB` load commands, in the
/// order the lines report them: after a line whose trimmed text starts with
/// `cmd LC_LOAD_DYLIB`, the next line whose trimmed text starts with `name`
/// contributes its second token.
pub open spec fn spec_load_refs(lines: Seq<Seq<char>>, in_load: bool) -> Seq<Seq<char>>
    decreases lines.len(),
{
    if lines.len() == 0 {
        Seq::empty()
    } else {
        let l = lines[0];
        let rest = lines.drop_first();
        if spec_starts_with(spec_trim_start(l), "cmd LC_LOAD_DYLIB"@) {
            spec_load_refs(rest, true)
        } else if in_load && spec_starts_with(spec_trim_start(l), "name"@) {
            match spec_second_token(l) {
                Some(t) => seq![t] + spec_load_refs(rest, false),
                None => spec_load_refs(rest, false),
            }
        } else {
            spec_load_refs(rest, in_load)
        }
    }
}

/// Extracts the declared shared-library dependency references from the
/// output of the platform's load-command listing tool.
pub fn parse_load_commands(output: &str) -> (deps: Vec<String>)
    ensures
        deps.deep_view() == spec_load_refs(spec_lines(output@), false),
{
    let lines = split_lines(output);
    let n = lines.len();
    let mut deps: Vec<String> = Vec::new();
    let mut in_load = false;
    let mut i: usize = 0;
    proof {
        assert(lines.deep_view().skip(0) =~~= lines.deep_view());
        assert(deps.deep_view() + spec_load_refs(lines.deep_view(), false) =~~= spec_load_refs(
            spec_lines(output@),
            false,
        ));
    }
    while i < n
        invariant
            n == lines@.len(),
            n == lines.deep_view().len(),
            0 <= i <= n,
            deps.deep_view() + spec_load_refs(lines.deep_view().skip(i as int), in_load)
                == spec_load_refs(spec_lines(output@), false),
        decreases n - i,
    {
        let line = &lines[i];
        proof {
            assert(lines.deep_view().skip(i as int)[0] == lines.deep_view()[i as int]);
            assert(lines.deep_view()[i as int] == lines@[i as int]@);
            assert(lines.deep_view().skip(i as int).drop_first() =~~= lines.deep_view().skip(
                i + 1,
            ));
        }
        let trimmed = trim_start_str(line.as_str());
        let ghost old_deps = deps.deep_view();
        if starts_with_str(trimmed.as_str(), "cmd LC_LOAD_DYLIB") {
            in_load = true;
        } else if in_load && starts_with_str(trimmed.as_str(), "name") {
            match second_token(line.as_str()) {
                Some(t) => {
                    deps.push(t);
                    proof {
                        assert(deps.deep_view() =~~= old_deps.push(deps@.last()@));
                        assert(old_deps.push(deps@.last()@) + spec_load_refs(
                            lines.deep_view().skip(i + 1),
                            false,
                        ) =~~= old_deps + (seq![deps@.last()@] + spec_load_refs(
                            lines.deep_view().skip(i + 1),
                            false,
                        )));
                    }
                },
                None => {},
            }
            in_load = false;
        }
        i += 1;
    }
    proof {
        assert(lines.deep_view().skip(n as int) =~~= Seq::<Seq<char>>::empty());
        assert(deps.deep_view() + Seq::<Seq<char>>::empty() =~~= deps.deep_view());
    }
    deps
}

} // verus!
