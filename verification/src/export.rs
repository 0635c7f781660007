//! The export of a mesh as a package of parts: where the model is kept in
//! it.

use vstd::prelude::*;
use crate::host::paths::file_stem;

verus! {

/// An error that can occur when a mesh is exported.
#[derive(Debug)]
pub enum Error {
    /// The path that was given names no file.
    NoFileName(String),
    /// An input or output error occurred, kept by its message.
    Io(String),
    /// The package could not be written, for the reason that the message
    /// gives.
    Zip(String),
}

impl Error {
    /// What the message of the error says.
    pub open spec fn spec_message(&self) -> Seq<char> {
        match self {
            Error::NoFileName(path) => "Expected path to file, got `"@ + path@ + "`"@,
            Error::Io(_) => "I/O error"@,
            Error::Zip(_) => "Zip error"@,
        }
    }

    /// The message of the error.
    pub fn message(&self) -> (r: String)
        ensures
            r@ == self.spec_message(),
    {
        match self {
            Error::NoFileName(path) => {
                let mut out = String::from_str("Expected path to file, got `");
                out.append(path.as_str());
                out.append("`");
                out
            },
            Error::Io(_) => String::from_str("I/O error"),
            Error::Zip(_) => String::from_str("Zip error"),
        }
    }
}

/// Where the model called `name` is kept in the package.
pub open spec fn spec_model_part(name: Seq<char>) -> Seq<char> {
    "3D/"@ + name + ".model"@
}

/// Where the model called `name` is kept in the package.
pub fn model_part(name: &str) -> (r: String)
    ensures
        r@ == spec_model_part(name@),
{
    let mut part = String::from_str("3D/");
    part.append(name);
    part.append(".model");
    part
}

/// Where the model is kept in the package that is written to `path`, given
/// the name that the path gives its file, without the extension. A path that
/// names no file is an error.
pub fn model_part_for(path: &String, stem: Option<String>) -> (r: Result<String, Error>)
    ensures
        match stem {
            Some(name) => r matches Ok(part) && part@ == spec_model_part(name@),
            None => r matches Err(Error::NoFileName(named)) && named@ == path@,
        },
{
    match stem {
        Some(name) => Ok(model_part(name.as_str())),
        None => Err(Error::NoFileName(path.clone())),
    }
}

/// Where the model is kept in the package that is written to `path`. The
/// model is called as the file is, without the extension: which part of the
/// path that is, the platform decides.
pub fn model_part_of(path: &String) -> (r: Result<String, Error>)
    ensures
        match r {
            Ok(part) => exists|name: Seq<char>| part@ == spec_model_part(name),
            Err(error) => error matches Error::NoFileName(named) && named@ == path@,
        },
{
    let stem = file_stem(path);
    let ghost found = stem;
    let r = model_part_for(path, stem);
    proof {
        if found is Some {
            assert(r.unwrap()@ == spec_model_part(found.unwrap()@));
        }
    }
    r
}

} // verus!
