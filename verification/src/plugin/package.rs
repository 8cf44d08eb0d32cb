//! Plugin packages held in memory, and the rules for reading their files.

use vstd::prelude::*;

use crate::plugin::digest::{bundle_digest, package_message, sha256, BundleDigest};
use crate::plugin::error::PluginPackageError;
use crate::plugin::manifest::{ManifestView, PluginManifest};

verus! {

/// The program beside the application that runs plugins.
pub const PLUGIN_HOST_EXECUTABLE_NAME: &'static str = "cterm-plugin-host";

/// The same on Windows.
pub const PLUGIN_HOST_EXECUTABLE_NAME_WINDOWS: &'static str = "cterm-plugin-host.exe";

/// Largest files that a package may hold.
#[derive(Debug, Clone, Copy, PartialEq, Eq)]
pub struct BundleLimits {
    pub manifest_bytes: usize,
    pub module_bytes: usize,
}

impl Default for BundleLimits {
    fn default() -> (limits: Self)
        ensures
            limits.manifest_bytes == 64 * 1024,
            limits.module_bytes == 32 * 1024 * 1024,
    {
        BundleLimits { manifest_bytes: 65536, module_bytes: 33554432 }
    }
}

/// The first bytes of every WebAssembly module of version 1.
pub open spec fn wasm_header() -> Seq<u8> {
    seq![0u8, 97, 115, 109, 1, 0, 0, 0]
}

/// The components of a path as values.
pub open spec fn components(path: Seq<Vec<u8>>) -> Seq<Seq<u8>> {
    path.map_values(|component: Vec<u8>| component@)
}

/// A path lies inside a directory if the components of the directory come first.
pub open spec fn lies_inside(directory: Seq<Seq<u8>>, path: Seq<Seq<u8>>) -> bool {
    directory.is_prefix_of(path)
}

fn same_component(left: &Vec<u8>, right: &Vec<u8>) -> (same: bool)
    ensures
        same == (left@ == right@),
{
    if left.len() != right.len() {
        return false;
    }
    let mut index: usize = 0;
    while index < left.len()
        invariant
            left@.len() == right@.len(),
            index <= left@.len(),
            forall|i: int| 0 <= i < index ==> left@[i] == right@[i],
        decreases left@.len() - index,
    {
        if left[index] != right[index] {
            return false;
        }
        index += 1;
    }
    proof {
        assert(left@ =~= right@);
    }
    true
}

/// Whether a path lies inside a directory, component by component.
pub fn is_inside(directory: &Vec<Vec<u8>>, path: &Vec<Vec<u8>>) -> (inside: bool)
    ensures
        inside == lies_inside(components(directory@), components(path@)),
{
    let ghost outer = components(directory@);
    let ghost inner = components(path@);
    if directory.len() > path.len() {
        return false;
    }
    let mut index: usize = 0;
    while index < directory.len()
        invariant
            outer == components(directory@),
            inner == components(path@),
            directory@.len() <= path@.len(),
            index <= directory@.len(),
            forall|i: int| 0 <= i < index ==> outer[i] == inner[i],
        decreases directory@.len() - index,
    {
        if !same_component(&directory[index], &path[index]) {
            proof {
                assert(outer[index as int] != inner[index as int]);
                if lies_inside(outer, inner) {
                    assert(inner.subrange(0, outer.len() as int)[index as int]
                        == outer[index as int]);
                }
            }
            return false;
        }
        index += 1;
    }
    proof {
        assert(outer =~= inner.subrange(0, outer.len() as int));
    }
    true
}

/// Whether a file found at a package path may be used: it lies inside the package
/// root and is a regular file. `root` and `place` are the components of the package
/// root and of the file, both without links.
pub fn checked_file(
    path: &str,
    canonical: &str,
    root: &Vec<Vec<u8>>,
    place: &Vec<Vec<u8>>,
    is_file: bool,
) -> (result: Result<(), PluginPackageError>)
    ensures
        ({
            let inside = lies_inside(components(root@), components(place@));
            match result {
                Ok(()) => inside && is_file,
                Err(PluginPackageError::PathEscapesBundle(refused)) => !inside && refused@ == path@,
                Err(PluginPackageError::NotRegularFile(refused)) => inside && !is_file && refused@
                    == canonical@,
                Err(_) => false,
            }
        }),
{
    if !is_inside(root, place) {
        return Err(PluginPackageError::PathEscapesBundle(path.to_owned()));
    }
    if !is_file {
        return Err(PluginPackageError::NotRegularFile(canonical.to_owned()));
    }
    Ok(())
}

/// The most bytes to read of a file with a limit.
pub open spec fn budget_for(limit: nat) -> int {
    if limit < u64::MAX {
        limit + 1int
    } else {
        u64::MAX as int
    }
}

/// One byte more than the limit is read, so that a file that is too long is noticed and
/// one at the limit is read whole.
pub proof fn law_longer_files_are_noticed(limit: nat)
    ensures
        limit < u64::MAX ==> budget_for(limit) == limit + 1,
        limit <= u64::MAX ==> limit <= budget_for(limit) <= u64::MAX,
{
}

/// The reading of one package file of bounded size.
#[derive(Debug, Clone, Copy, PartialEq, Eq)]
pub struct LimitedRead {
    /// How the file is called in errors.
    pub kind: &'static str,
    pub limit: usize,
}

/// A file of a length is within a limit.
pub open spec fn fits(length: nat, limit: nat) -> bool {
    length <= limit
}

/// A file has the length that it had before, and is within a limit.
pub open spec fn unchanged_at(before: nat, now: nat, limit: nat) -> bool {
    before == now && fits(now, limit)
}

/// A file at the limit is read, one byte more is too much, and a file that grew or shrank
/// between two looks is not the file that was looked at.
pub proof fn law_changed_files_are_not_read(limit: nat, before: nat, now: nat)
    ensures
        fits(limit, limit),
        !fits((limit + 1) as nat, limit),
        fits(now, limit) ==> unchanged_at(now, now, limit),
        before < now ==> !unchanged_at(before, now, limit),
        before > now ==> !unchanged_at(before, now, limit),
        now > limit ==> !unchanged_at(before, now, limit),
{
}

/// A file that is too large is refused under its own kind and limit.
pub proof fn law_refusals_name_kind_and_limit(read: LimitedRead, error: PluginPackageError)
    ensures
        read.too_large(error) ==> (error matches PluginPackageError::FileTooLarge { kind, limit }
            && kind@ == read.kind@ && limit == read.limit),
{
}

impl LimitedRead {
    pub open spec fn too_large(&self, error: PluginPackageError) -> bool {
        error matches PluginPackageError::FileTooLarge { kind, limit } && kind == self.kind
            && limit == self.limit
    }

    /// Before the file is opened: its advertised length may not exceed the limit.
    pub fn before_open(&self, advertised: u64) -> (result: Result<(), PluginPackageError>)
        ensures
            match result {
                Ok(()) => fits(advertised as nat, self.limit as nat),
                Err(error) => !fits(advertised as nat, self.limit as nat) && self.too_large(error),
            },
    {
        if advertised > self.limit as u64 {
            return Err(PluginPackageError::FileTooLarge { kind: self.kind, limit: self.limit });
        }
        Ok(())
    }

    /// After the file was opened: it is a regular file within the limit, as long as
    /// advertised. Gives how many bytes to set aside for it.
    pub fn after_open(&self, path: &str, advertised: u64, is_file: bool, opened: u64) -> (result:
        Result<usize, PluginPackageError>)
        ensures
            match result {
                Ok(capacity) => {
                    &&& is_file
                    &&& unchanged_at(advertised as nat, opened as nat, self.limit as nat)
                    &&& capacity == opened
                },
                Err(PluginPackageError::NotRegularFile(refused)) => !is_file && refused@ == path@,
                Err(PluginPackageError::FileChangedDuringRead(refused)) => {
                    &&& is_file
                    &&& opened <= self.limit
                    &&& advertised != opened
                    &&& refused@ == path@
                },
                Err(error) => is_file && opened > self.limit && self.too_large(error),
            },
    {
        if !is_file {
            return Err(PluginPackageError::NotRegularFile(path.to_owned()));
        }
        if opened > self.limit as u64 {
            return Err(PluginPackageError::FileTooLarge { kind: self.kind, limit: self.limit });
        }
        if advertised != opened {
            return Err(PluginPackageError::FileChangedDuringRead(path.to_owned()));
        }
        Ok(opened as usize)
    }

    /// The most bytes to read: one more than the limit, to notice a longer file.
    pub fn read_budget(&self) -> (budget: u64)
        ensures
            budget == budget_for(self.limit as nat),
    {
        (self.limit as u64).saturating_add(1)
    }

    /// After the file was read: as many bytes came out as were there when it was
    /// opened and are there still.
    pub fn after_read(&self, path: &str, opened: u64, read: usize, final_length: u64) -> (result:
        Result<(), PluginPackageError>)
        ensures
            match result {
                Ok(()) => {
                    &&& unchanged_at(opened as nat, final_length as nat, self.limit as nat)
                    &&& unchanged_at(final_length as nat, read as nat, self.limit as nat)
                },
                Err(PluginPackageError::FileChangedDuringRead(refused)) => {
                    &&& read <= self.limit
                    &&& final_length != opened || read != final_length
                    &&& refused@ == path@
                },
                Err(error) => read > self.limit && self.too_large(error),
            },
    {
        if read > self.limit {
            return Err(PluginPackageError::FileTooLarge { kind: self.kind, limit: self.limit });
        }
        if final_length != opened || read as u64 != final_length {
            return Err(PluginPackageError::FileChangedDuringRead(path.to_owned()));
        }
        Ok(())
    }
}

/// A verified package held in memory so its module cannot change between
/// authorization and runner launch.
#[derive(Debug)]
pub struct PluginBundle {
    root: String,
    manifest: PluginManifest,
    module: Vec<u8>,
    digest: BundleDigest,
}

/// The model of a package.
pub ghost struct BundleView {
    pub root: Seq<char>,
    pub manifest: ManifestView,
    pub module: Seq<u8>,
    pub digest: Seq<u8>,
}

impl View for PluginBundle {
    type V = BundleView;

    closed spec fn view(&self) -> BundleView {
        BundleView {
            root: self.root@,
            manifest: self.manifest@,
            module: self.module@,
            digest: self.digest@,
        }
    }
}

fn starts_with_wasm_header(module: &Vec<u8>) -> (starts: bool)
    ensures
        starts == wasm_header().is_prefix_of(module@),
{
    let starts = module.len() >= 8 && module[0] == 0 && module[1] == 97 && module[2] == 115
        && module[3] == 109 && module[4] == 1 && module[5] == 0 && module[6] == 0 && module[7] == 0;
    proof {
        if starts {
            assert(wasm_header() =~= module@.subrange(0, 8));
        }
        if wasm_header().is_prefix_of(module@) {
            assert(forall|i: int| 0 <= i < 8 ==> module@[i] == wasm_header()[i]);
        }
    }
    starts
}

impl PluginBundle {
    pub closed spec fn wf(&self) -> bool {
        self.manifest.wf()
    }

    /// Puts a package together from its admitted manifest, the exact bytes that the
    /// manifest was read from, and its module. The module must be WebAssembly; the
    /// digest covers both files.
    pub fn seal(
        root: String,
        manifest: PluginManifest,
        manifest_bytes: &[u8],
        module: Vec<u8>,
    ) -> (result: Result<PluginBundle, PluginPackageError>)
        requires
            manifest.wf(),
        ensures
            match result {
                Ok(bundle) => {
                    &&& wasm_header().is_prefix_of(module@)
                    &&& bundle.wf()
                    &&& bundle@.root == root@
                    &&& bundle@.manifest == manifest@
                    &&& bundle@.module == module@
                    &&& bundle@.digest == sha256(package_message(manifest_bytes@, module@))
                },
                Err(error) => !wasm_header().is_prefix_of(module@) && error
                    == PluginPackageError::InvalidWasmModule,
            },
    {
        if !starts_with_wasm_header(&module) {
            return Err(PluginPackageError::InvalidWasmModule);
        }
        let digest = bundle_digest(manifest_bytes, module.as_slice());
        Ok(PluginBundle { root, manifest, module, digest })
    }

    pub fn root(&self) -> (root: &str)
        ensures
            root@ == self@.root,
    {
        self.root.as_str()
    }

    pub fn manifest(&self) -> (manifest: &PluginManifest)
        ensures
            manifest@ == self@.manifest,
            self.wf() ==> manifest.wf(),
    {
        &self.manifest
    }

    pub fn module(&self) -> (module: &[u8])
        ensures
            module@ == self@.module,
    {
        self.module.as_slice()
    }

    pub fn digest(&self) -> (digest: BundleDigest)
        ensures
            digest@ == self@.digest,
    {
        self.digest
    }
}

/// Everything below a directory lies inside it, as does the directory itself; a path that
/// parts from it in any component does not, however alike the names begin.
pub proof fn law_paths_below_a_directory_lie_inside(
    directory: Seq<Seq<u8>>,
    rest: Seq<Seq<u8>>,
    path: Seq<Seq<u8>>,
    index: int,
)
    ensures
        lies_inside(directory, directory + rest),
        lies_inside(directory, directory),
        lies_inside(Seq::empty(), path),
        0 <= index < directory.len() && index < path.len() && directory[index] != path[index]
            ==> !lies_inside(directory, path),
        path.len() < directory.len() ==> !lies_inside(directory, path),
{
    let below = directory + rest;
    assert(directory =~= below.subrange(0, directory.len() as int));
    assert(directory =~= directory.subrange(0, directory.len() as int));
    assert(Seq::<Seq<u8>>::empty() =~= path.subrange(0, 0));
    if lies_inside(directory, path) && 0 <= index < directory.len() && index < path.len() {
        assert(path.subrange(0, directory.len() as int)[index] == path[index]);
    }
}

/// A module begins with a zero byte, `asm`, and the version one in four bytes.
pub proof fn law_modules_begin_with_their_header()
    ensures
        wasm_header().len() == 8,
        wasm_header()[0] == 0,
        wasm_header()[1] == 'a' as u8,
        wasm_header()[2] == 's' as u8,
        wasm_header()[3] == 'm' as u8,
        wasm_header()[4] == 1,
        wasm_header()[5] == 0,
        wasm_header()[6] == 0,
        wasm_header()[7] == 0,
{
}

/// The program that runs plugins has one name, to which Windows adds its extension.
pub proof fn law_the_host_has_one_name()
    ensures
        PLUGIN_HOST_EXECUTABLE_NAME@ == "cterm-plugin-host"@,
        PLUGIN_HOST_EXECUTABLE_NAME_WINDOWS@ == PLUGIN_HOST_EXECUTABLE_NAME@ + ".exe"@,
{
    reveal_strlit("cterm-plugin-host");
    reveal_strlit("cterm-plugin-host.exe");
    reveal_strlit(".exe");
    assert("cterm-plugin-host.exe"@ =~= "cterm-plugin-host"@ + ".exe"@);
}

} // verus!
