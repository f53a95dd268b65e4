//! The outputs that a loaded book can be handed to.

use vstd::prelude::*;

verus! {

/// The output that was asked for.
#[derive(Debug, PartialEq, Eq)]
pub enum Frontend {
    /// A structured dump of the book, written to the file `output`.
    Yaml { output: String },
    /// A static site, written below the directory `output`.
    Html { output: String },
    /// Nothing: the book is only checked for errors.
    Check,
}

/// What has to be done with a loaded book.
#[derive(Debug, PartialEq, Eq)]
pub enum Emission {
    /// Write the structured dump of the book to the file at `path`.
    WriteDump { path: String },
    /// Create the directory at `path`, with those above it.
    CreateDirectory { path: String },
    /// Report that the book was built.
    Report,
}

impl Frontend {
    /// What this output asks to be done with the book.
    pub fn emission(&self) -> (r: Emission)
        ensures
            match *self {
                Frontend::Yaml { output } => r matches Emission::WriteDump { path } && path@
                    == output@,
                Frontend::Html { output } => r matches Emission::CreateDirectory { path } && path@
                    == output@,
                Frontend::Check => r == Emission::Report,
            },
    {
        match self {
            Frontend::Yaml { output } => Emission::WriteDump { path: output.clone() },
            Frontend::Html { output } => Emission::CreateDirectory { path: output.clone() },
            Frontend::Check => Emission::Report,
        }
    }
}

} // verus!
