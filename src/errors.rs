//! The closed set of errors that parsing and sanitizing report.

use vstd::prelude::*;

verus! {

/// Every error is fatal to a run.
#[derive(Clone, Copy, Debug, PartialEq, Eq, Structural)]
pub enum Errors {
    /// A folder name that sanitizes to nothing.
    EmptyCreatedFileError,
    /// A token in the language section that names no known language.
    IllegalLanguageError,
    /// No language was given.
    NoLanguageError,
    /// No directory was given.
    NoDirectoryError,
    /// A flag opened twice, or a token outside any open section.
    IllegalInputError,
    /// No folder name was given.
    NoFolderNameError,
    /// The number of languages is neither one nor the number of folders.
    UnbalancedLanguagesError,
}

} // verus!
