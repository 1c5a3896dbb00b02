//! The issues that an evaluation reports.

use crate::message::IssueSeverity;
use crate::path::{AssetIdent, FileSystemPath};
use vstd::prelude::*;

verus! {

/// Why an issue has no description. `F` is the failure of the file system.
#[derive(Debug, PartialEq, Eq)]
pub enum DescriptionError<F> {
    /// The root of the file system could not be looked up, or the error could not
    /// be printed.
    Failed(F),
    /// The root of the file system does not lie on a disk.
    NotOnDisk,
}

impl<F> DescriptionError<F> {
    /// The text of the error, where it is not that of another failure.
    pub fn message(&self) -> (message: Option<String>)
        ensures
            message is Some <==> self is NotOnDisk,
            message matches Some(text) ==> text@ == "Must have path on disk"@,
    {
        match self {
            DescriptionError::Failed(_) => None,
            DescriptionError::NotOnDisk => Some("Must have path on disk".to_owned()),
        }
    }
}

/// An error to be printed in the default format, with the directory that it is
/// printed relative to. The printed text is the description of the issue.
#[derive(Debug, PartialEq, Eq)]
pub struct PrintRequest<'a, E> {
    pub error: &'a E,
    pub root: String,
}

impl<'a, E> PrintRequest<'a, E> {
    /// The description, once the error has been printed.
    pub fn printed<F>(self, text: Result<String, F>) -> (description: Result<
        String,
        DescriptionError<F>,
    >)
        ensures
            match text {
                Ok(t) => description == Ok::<String, DescriptionError<F>>(t),
                Err(failure) => description == Err::<String, DescriptionError<F>>(
                    DescriptionError::Failed(failure),
                ),
            },
    {
        match text {
            Ok(text) => Ok(text),
            Err(failure) => Err(DescriptionError::Failed(failure)),
        }
    }
}

/// What is printed for `error`, given the place on disk of the root of the file
/// system.
pub open spec fn print_request<E, F>(error: &E, root: Result<Option<String>, F>) -> Result<
    PrintRequest<'_, E>,
    DescriptionError<F>,
> {
    match root {
        Ok(Some(root)) => Ok(PrintRequest { error, root }),
        Ok(None) => Err(DescriptionError::NotOnDisk),
        Err(failure) => Err(DescriptionError::Failed(failure)),
    }
}

fn make_print_request<'a, E, F>(error: &'a E, root: Result<Option<String>, F>) -> (request: Result<
    PrintRequest<'a, E>,
    DescriptionError<F>,
>)
    ensures
        request == print_request(error, root),
{
    match root {
        Ok(Some(root)) => Ok(PrintRequest { error, root }),
        Ok(None) => Err(DescriptionError::NotOnDisk),
        Err(failure) => Err(DescriptionError::Failed(failure)),
    }
}

/// An issue that occurred while evaluating node code.
#[derive(Debug)]
pub struct EvaluationIssue<E> {
    pub context_ident: AssetIdent,
    pub cwd: FileSystemPath,
    pub error: E,
}

impl<E> EvaluationIssue<E> {
    /// A one-line summary.
    pub fn title(&self) -> (title: String)
        ensures
            title@ == "Error evaluating Node.js code"@,
    {
        "Error evaluating Node.js code".to_owned()
    }

    /// The kind of the issue.
    pub fn category(&self) -> (category: String)
        ensures
            category@ == "build"@,
    {
        "build".to_owned()
    }

    /// The path that the issue is about: that of the evaluated asset.
    pub fn context(&self) -> (context: FileSystemPath)
        ensures
            context@ == self.context_ident@,
    {
        self.context_ident.path()
    }

    /// The path whose file system is looked up on disk, by its root, for the
    /// description.
    pub fn disk_root_of(&self) -> (path: &FileSystemPath)
        ensures
            path@ == self.cwd@,
    {
        &self.cwd
    }

    /// What is to be printed as the description, once the root of the file
    /// system of `cwd` has been looked up on disk.
    pub fn description<F>(&self, root: Result<Option<String>, F>) -> (request: Result<
        PrintRequest<'_, E>,
        DescriptionError<F>,
    >)
        ensures
            request == print_request(&self.error, root),
            root matches Ok(Some(place)) ==> (request matches Ok(r) && *r.error == self.error
                && r.root == place),
            root matches Ok(None) ==> (request matches Err(e) && e is NotOnDisk),
            root matches Err(failure) ==> (request matches Err(DescriptionError::Failed(f)) && f
                == failure),
    {
        make_print_request(&self.error, root)
    }
}

/// The evaluation depends on a file in a way that is not tracked.
#[derive(Debug)]
pub struct BuildDependencyIssue {
    pub context_ident: AssetIdent,
    pub path: FileSystemPath,
}

impl BuildDependencyIssue {
    /// How serious the issue is.
    pub fn severity(&self) -> (severity: IssueSeverity)
        ensures
            severity == IssueSeverity::Warning,
    {
        IssueSeverity::Warning
    }

    /// A one-line summary.
    pub fn title(&self) -> (title: String)
        ensures
            title@ == "Build dependencies are not yet supported"@,
    {
        "Build dependencies are not yet supported".to_owned()
    }

    /// The kind of the issue.
    pub fn category(&self) -> (category: String)
        ensures
            category@ == "build"@,
    {
        "build".to_owned()
    }

    /// The path that the issue is about: that of the evaluated asset.
    pub fn context(&self) -> (context: FileSystemPath)
        ensures
            context@ == self.context_ident@,
    {
        self.context_ident.path()
    }

    /// The path that is written out for the description.
    pub fn described_path(&self) -> (path: &FileSystemPath)
        ensures
            path@ == self.path@,
    {
        &self.path
    }

    /// The description, once `path` has been written out.
    pub fn description<F>(&self, path: Result<String, F>) -> (description: Result<String, F>)
        ensures
            match path {
                Ok(text) => description matches Ok(d) && d@ == "The file at "@ + text@
                    + " is a build dependency, which is not yet implemented.\nChanging this file or any dependency will not be recognized and might require restarting the server"@,
                Err(failure) => description == Err::<String, F>(failure),
            },
    {
        match path {
            Ok(text) => {
                let description = "The file at ".to_owned().concat(text.as_str()).concat(
                    " is a build dependency, which is not yet implemented.\nChanging this file or any dependency will not be recognized and might require restarting the server",
                );
                Ok(description)
            },
            Err(failure) => Err(failure),
        }
    }
}

/// An error that the evaluated code reported without failing.
#[derive(Debug)]
pub struct EvaluateEmittedErrorIssue<E> {
    pub context: FileSystemPath,
    pub cwd: FileSystemPath,
    pub severity: IssueSeverity,
    pub error: E,
}

impl<E> EvaluateEmittedErrorIssue<E> {
    /// The path that the issue is about.
    pub fn context(&self) -> (context: FileSystemPath)
        ensures
            context@ == self.context@,
    {
        self.context.clone()
    }

    /// How serious the issue is: as serious as the code said.
    pub fn severity(&self) -> (severity: IssueSeverity)
        ensures
            severity == self.severity,
    {
        self.severity
    }

    /// The kind of the issue.
    pub fn category(&self) -> (category: String)
        ensures
            category@ == "loaders"@,
    {
        "loaders".to_owned()
    }

    /// A one-line summary.
    pub fn title(&self) -> (title: String)
        ensures
            title@ == "Issue while running loader"@,
    {
        "Issue while running loader".to_owned()
    }

    /// The path whose file system is looked up on disk, by its root, for the
    /// description.
    pub fn disk_root_of(&self) -> (path: &FileSystemPath)
        ensures
            path@ == self.cwd@,
    {
        &self.cwd
    }

    /// What is to be printed as the description, once the root of the file
    /// system of `cwd` has been looked up on disk.
    pub fn description<F>(&self, root: Result<Option<String>, F>) -> (request: Result<
        PrintRequest<'_, E>,
        DescriptionError<F>,
    >)
        ensures
            request == print_request(&self.error, root),
            root matches Ok(Some(place)) ==> (request matches Ok(r) && *r.error == self.error
                && r.root == place),
            root matches Ok(None) ==> (request matches Err(e) && e is NotOnDisk),
            root matches Err(failure) ==> (request matches Err(DescriptionError::Failed(f)) && f
                == failure),
    {
        make_print_request(&self.error, root)
    }
}

/// An error is printed exactly when the root of the file system has a place on
/// disk: then that very error, relative to that place. A root without a place and a
/// failure to look it up are told apart.
pub proof fn law_error_is_printed_relative_to_the_root<E, F>(
    error: &E,
    root: Result<Option<String>, F>,
)
    ensures
        print_request(error, root) is Ok <==> (root matches Ok(place) && place is Some),
        print_request(error, root) matches Ok(request) ==> request.error == error && root == Ok::<
            Option<String>,
            F,
        >(Some(request.root)),
        print_request(error, root) matches Err(DescriptionError::NotOnDisk) <==> (
        root matches Ok(place) && place is None),
        print_request(error, root) matches Err(DescriptionError::Failed(failure)) ==> root == Err::<
            Option<String>,
            F,
        >(failure),
{
}

} // verus!
