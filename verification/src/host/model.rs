//! A model: the crate that defines a shape, and the files that belong to it.

use vstd::prelude::*;
use crate::host::error::Error;
use crate::host::paths::{join, replace_char, replaced, strip_prefix};

verus! {

/// The platform that the host runs on.
#[derive(Clone, Copy, Debug, PartialEq, Eq, Structural)]
pub enum Platform {
    Windows,
    MacOs,
    Unix,
}

impl Platform {
    /// What the file of a dynamic library is called on the platform.
    pub open spec fn spec_lib_file_name(&self, name: Seq<char>) -> Seq<char> {
        match self {
            Platform::Windows => name + ".dll"@,
            Platform::MacOs => "lib"@ + name + ".dylib"@,
            Platform::Unix => "lib"@ + name + ".so"@,
        }
    }

    /// The name of the file of the dynamic library `name`.
    pub fn lib_file_name(&self, name: &str) -> (r: String)
        ensures
            r@ == self.spec_lib_file_name(name@),
    {
        match self {
            Platform::Windows => {
                let mut file = String::from_str(name);
                file.append(".dll");
                file
            },
            Platform::MacOs => {
                let mut file = String::from_str("lib");
                file.append(name);
                file.append(".dylib");
                file
            },
            Platform::Unix => {
                let mut file = String::from_str("lib");
                file.append(name);
                file.append(".so");
                file
            },
        }
    }
}

/// What is known of one package of a workspace.
#[derive(Debug)]
pub struct Package {
    pub name: String,
    /// The path of the manifest of the package.
    pub manifest_path: String,
    /// The directory that holds the manifest.
    pub crate_dir: String,
    /// That directory in canonical form, where the file system could
    /// resolve it.
    pub canonical_dir: Option<String>,
}

/// What is known of a workspace.
#[derive(Debug)]
pub struct Metadata {
    /// The packages that are members of the workspace.
    pub packages: Vec<Package>,
    pub workspace_root: String,
    pub target_directory: String,
}

/// Whether the package lies in the directory.
pub open spec fn lies_in(package: Package, dir: Seq<char>) -> bool {
    package.canonical_dir matches Some(own) && own@ == dir
}

/// Whether the package at `place` is the first of the packages that lies in
/// the directory.
pub open spec fn is_first_package_in(packages: Seq<Package>, dir: Seq<char>, place: int) -> bool {
    &&& 0 <= place < packages.len()
    &&& lies_in(packages[place], dir)
    &&& forall|j: int| 0 <= j < place ==> !lies_in(#[trigger] packages[j], dir)
}

/// Whether none of the packages lies in the directory.
pub open spec fn none_lies_in(packages: Seq<Package>, dir: Seq<char>) -> bool {
    forall|j: int| 0 <= j < packages.len() ==> !lies_in(#[trigger] packages[j], dir)
}

/// Whether the error says that `dir` is no crate directory of a workspace of
/// `count` packages.
pub open spec fn is_ambiguous_path(error: Error, dir: Seq<char>, count: nat) -> bool {
    &&& error matches Error::AmbiguousPath { dir: named, possible_paths }
    &&& named@ == dir
    &&& possible_paths@.len() == count
}

/// The directory of a crate as it is shown to the user: relative to the root
/// of the workspace where it lies below it, and else as it is.
pub fn simplified_path(crate_dir: String, relative: Option<String>) -> (r: String)
    ensures
        r@ == match relative {
            Some(path) => path@,
            None => crate_dir@,
        },
{
    match relative {
        Some(path) => path,
        None => crate_dir,
    }
}

/// The error for a directory that holds no crate of the workspace. It names
/// the directory, and the directory of each crate of the workspace, made
/// relative to the root of the workspace where the platform can do so.
pub fn ambiguous_path_error(metadata: &Metadata, dir: &String) -> (r: Error)
    ensures
        is_ambiguous_path(r, dir@, metadata.packages@.len()),
{
    let mut possible_paths: Vec<String> = Vec::new();
    let mut i: usize = 0;
    while i < metadata.packages.len()
        invariant
            i <= metadata.packages@.len(),
            possible_paths@.len() == i,
        decreases metadata.packages@.len() - i,
    {
        let crate_dir = &metadata.packages[i].crate_dir;
        let relative = strip_prefix(crate_dir, &metadata.workspace_root);
        possible_paths.push(simplified_path(crate_dir.clone(), relative));
        i += 1;
    }
    Error::AmbiguousPath { dir: dir.clone(), possible_paths }
}

/// The place of the package that lies in the directory: the first whose
/// canonical directory is `dir`. Where there is none, the error names the
/// directory and the crates that the workspace does have.
pub fn package_associated_with_directory(metadata: &Metadata, dir: &String) -> (r: Result<
    usize,
    Error,
>)
    ensures
        match r {
            Ok(place) => is_first_package_in(metadata.packages@, dir@, place as int),
            Err(error) => none_lies_in(metadata.packages@, dir@) && is_ambiguous_path(
                error,
                dir@,
                metadata.packages@.len(),
            ),
        },
{
    let mut i: usize = 0;
    while i < metadata.packages.len()
        invariant
            i <= metadata.packages@.len(),
            forall|j: int| 0 <= j < i ==> !lies_in(#[trigger] metadata.packages@[j], dir@),
        decreases metadata.packages@.len() - i,
    {
        let here = match &metadata.packages[i].canonical_dir {
            Some(own) => *own == *dir,
            None => false,
        };
        if here {
            return Ok(i);
        }
        i += 1;
    }
    Err(ambiguous_path_error(metadata, dir))
}

/// The name of the library that a package is built into: the name of the
/// package with underscores for its dashes.
pub fn library_name(package_name: &str) -> (r: String)
    ensures
        r@ == replaced(package_name@, '-', '_'),
{
    replace_char(package_name, '-', '_')
}

/// A model: a crate that defines a shape.
#[derive(Debug)]
pub struct Model {
    /// Where the sources of the model lie.
    pub src_path: String,
    /// Where the dynamic library lies that the model is built into.
    pub lib_path: String,
    /// Where the manifest of the model lies.
    pub manifest_path: String,
}

impl Model {
    /// The model with the given paths.
    pub fn new(src_path: String, lib_path: String, manifest_path: String) -> (r: Self)
        ensures
            r.src_path == src_path,
            r.lib_path == lib_path,
            r.manifest_path == manifest_path,
    {
        Model { src_path, lib_path, manifest_path }
    }

    /// The model whose crate lies in `crate_dir`, from what is known of its
    /// workspace. The crate is the package of the workspace that lies in
    /// that directory; without one there is no model. The library is looked
    /// for among the debug builds, below `target_dir` where one is given and
    /// below the target directory of the workspace where none is.
    pub fn from_metadata(
        crate_dir: &String,
        metadata: &Metadata,
        target_dir: Option<String>,
        platform: Platform,
    ) -> (r: Result<Self, Error>)
        ensures
            match r {
                Ok(model) => exists|place: int|
                    is_first_package_in(metadata.packages@, crate_dir@, place)
                        && model.manifest_path@ == (#[trigger] metadata.packages@[place]).manifest_path@,
                Err(error) => none_lies_in(metadata.packages@, crate_dir@) && is_ambiguous_path(
                    error,
                    crate_dir@,
                    metadata.packages@.len(),
                ),
            },
    {
        let place = match package_associated_with_directory(metadata, crate_dir) {
            Ok(place) => place,
            Err(error) => {
                return Err(error);
            },
        };
        let package = &metadata.packages[place];
        let src_path = join(crate_dir, "src");
        let name = library_name(package.name.as_str());
        let file = platform.lib_file_name(name.as_str());
        let target_dir = match target_dir {
            Some(dir) => dir,
            None => metadata.target_directory.clone(),
        };
        let lib_path = join(&join(&target_dir, "debug"), file.as_str());
        Ok(Model { src_path, lib_path, manifest_path: package.manifest_path.clone() })
    }

    /// The arguments with which the build tool builds the model.
    pub fn build_arguments(&self) -> (r: Vec<String>)
        ensures
            r@.len() == 3,
            r@[0]@ == "build"@,
            r@[1]@ == "--manifest-path"@,
            r@[2]@ == self.manifest_path@,
    {
        let mut arguments: Vec<String> = Vec::new();
        arguments.push(String::from_str("build"));
        arguments.push(String::from_str("--manifest-path"));
        arguments.push(self.manifest_path.clone());
        arguments
    }

    /// What a finished build means for loading the model: a build that did
    /// not succeed is a compile error.
    pub fn check_build(succeeded: bool) -> (r: Result<(), Error>)
        ensures
            r is Ok == succeeded,
            r matches Err(error) ==> error is Compile,
    {
        if succeeded {
            Ok(())
        } else {
            Err(Error::Compile)
        }
    }
}

} // verus!
