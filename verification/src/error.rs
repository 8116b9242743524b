//! What can go wrong, before the tests run and in each of them.

use vstd::prelude::*;

verus! {

/// A failure of the run's preparation or of one test.
#[derive(Debug)]
pub enum Error {
    /// The build tool could not be started at all.
    Cargo { message: String },
    /// A test that should pass did not build.
    CargoFail { diagnostics: String },
    /// A directory could not be read while a pattern was resolved.
    Glob { message: String },
    /// The diagnostics differ from the stored ones.
    Mismatch { expected: String, actual: String },
    /// The source file of a test is not there.
    Open { path: String, message: String },
    /// A path pattern is malformed.
    Pattern { message: String },
    /// The surroundings do not tell the name of the package under test.
    PkgName,
    /// The surroundings do not tell the directory of the package under test.
    ProjectDir,
    /// The stored diagnostics exist but could not be read.
    ReadStderr { message: String },
    /// A test built but its program ended in failure.
    RunFailed,
    /// A test that should fail to build was built.
    ShouldNotHaveCompiled { warnings: String },
}

/// An [`Error`] with its texts as character sequences.
pub enum ErrorView {
    Cargo { message: Seq<char> },
    CargoFail { diagnostics: Seq<char> },
    Glob { message: Seq<char> },
    Mismatch { expected: Seq<char>, actual: Seq<char> },
    Open { path: Seq<char>, message: Seq<char> },
    Pattern { message: Seq<char> },
    PkgName,
    ProjectDir,
    ReadStderr { message: Seq<char> },
    RunFailed,
    ShouldNotHaveCompiled { warnings: Seq<char> },
}

impl View for Error {
    type V = ErrorView;

    open spec fn view(&self) -> ErrorView {
        match self {
            Error::Cargo { message } => ErrorView::Cargo { message: message@ },
            Error::CargoFail { diagnostics } => ErrorView::CargoFail { diagnostics: diagnostics@ },
            Error::Glob { message } => ErrorView::Glob { message: message@ },
            Error::Mismatch { expected, actual } => ErrorView::Mismatch {
                expected: expected@,
                actual: actual@,
            },
            Error::Open { path, message } => ErrorView::Open { path: path@, message: message@ },
            Error::Pattern { message } => ErrorView::Pattern { message: message@ },
            Error::PkgName => ErrorView::PkgName,
            Error::ProjectDir => ErrorView::ProjectDir,
            Error::ReadStderr { message } => ErrorView::ReadStderr { message: message@ },
            Error::RunFailed => ErrorView::RunFailed,
            Error::ShouldNotHaveCompiled { warnings } => ErrorView::ShouldNotHaveCompiled {
                warnings: warnings@,
            },
        }
    }
}

impl DeepView for Error {
    type V = ErrorView;

    open spec fn deep_view(&self) -> ErrorView {
        self@
    }
}

impl Clone for Error {
    fn clone(&self) -> (copy: Error)
        ensures
            copy@ == self@,
    {
        match self {
            Error::Cargo { message } => Error::Cargo { message: message.clone() },
            Error::CargoFail { diagnostics } => Error::CargoFail { diagnostics: diagnostics.clone() },
            Error::Glob { message } => Error::Glob { message: message.clone() },
            Error::Mismatch { expected, actual } => Error::Mismatch {
                expected: expected.clone(),
                actual: actual.clone(),
            },
            Error::Open { path, message } => Error::Open {
                path: path.clone(),
                message: message.clone(),
            },
            Error::Pattern { message } => Error::Pattern { message: message.clone() },
            Error::PkgName => Error::PkgName,
            Error::ProjectDir => Error::ProjectDir,
            Error::ReadStderr { message } => Error::ReadStderr { message: message.clone() },
            Error::RunFailed => Error::RunFailed,
            Error::ShouldNotHaveCompiled { warnings } => Error::ShouldNotHaveCompiled {
                warnings: warnings.clone(),
            },
        }
    }
}

} // verus!
