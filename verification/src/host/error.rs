//! What can go wrong when a model is loaded.

use vstd::prelude::*;

verus! {

/// An error that can occur when loading or reloading a model.
///
/// Failures of the file system, of the loader, of the watcher and of the
/// reading of the workspace are kept by their messages.
#[derive(Debug)]
pub enum Error {
    /// The model failed to compile.
    Compile,
    /// An input or output error occurred while the model was loaded.
    Io(String),
    /// The dynamic library of the model could not be loaded.
    LibLoading(String),
    /// The sources of the model could not be watched for changes.
    Notify(String),
    /// The workspace of the model could not be read.
    CargoMetadata(String),
    /// The directory that was given does not hold a crate of the workspace.
    /// `possible_paths` holds the directory of each crate that the workspace
    /// does have.
    AmbiguousPath { dir: String, possible_paths: Vec<String> },
}

/// The first `count` of the texts, joined by `separator`.
pub open spec fn joined(texts: Seq<String>, separator: Seq<char>, count: nat) -> Seq<char>
    decreases count,
{
    if count == 0 {
        Seq::empty()
    } else if count == 1 {
        texts[0]@
    } else {
        joined(texts, separator, (count - 1) as nat) + separator + texts[count - 1]@
    }
}

/// The texts, joined by `separator`.
pub fn join_texts(texts: &Vec<String>, separator: &str) -> (r: String)
    ensures
        r@ == joined(texts@, separator@, texts@.len()),
{
    let mut out = String::new();
    let mut i: usize = 0;
    while i < texts.len()
        invariant
            i <= texts@.len(),
            out@ == joined(texts@, separator@, i as nat),
        decreases texts@.len() - i,
    {
        if i > 0 {
            out.append(separator);
        }
        out.append(texts[i].as_str());
        proof {
            if i == 0 {
                assert(out@ =~= texts@[0]@);
            }
        }
        i += 1;
    }
    out
}

impl Error {
    /// What the message of the error says.
    pub open spec fn spec_message(&self) -> Seq<char> {
        match self {
            Error::Compile => "Error compiling model"@,
            Error::Io(_) => "I/O error while loading model"@,
            Error::LibLoading(_) => "Error loading model from dynamic library"@,
            Error::Notify(_) => "Error watching model for changes"@,
            Error::CargoMetadata(_) => "Unable to determine the crate's metadata"@,
            Error::AmbiguousPath { dir, possible_paths } => "It doesn't look like \""@ + dir@
                + "\" is a crate directory. Did you mean one of "@ + joined(
                possible_paths@,
                ", "@,
                possible_paths@.len(),
            ) + "?"@,
        }
    }

    /// The message of the error.
    pub fn message(&self) -> (r: String)
        ensures
            r@ == self.spec_message(),
    {
        match self {
            Error::Compile => String::from_str("Error compiling model"),
            Error::Io(_) => String::from_str("I/O error while loading model"),
            Error::LibLoading(_) => String::from_str("Error loading model from dynamic library"),
            Error::Notify(_) => String::from_str("Error watching model for changes"),
            Error::CargoMetadata(_) => String::from_str("Unable to determine the crate's metadata"),
            Error::AmbiguousPath { dir, possible_paths } => {
                let mut out = String::from_str("It doesn't look like \"");
                out.append(dir.as_str());
                out.append("\" is a crate directory. Did you mean one of ");
                let paths = join_texts(possible_paths, ", ");
                out.append(paths.as_str());
                out.append("?");
                out
            },
        }
    }
}

} // verus!
