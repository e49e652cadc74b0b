//! The errors of the parser.
use vstd::prelude::*;
use crate::text::{decimal_string, spec_decimal};

verus! {

/// Why a path was refused.
#[derive(Debug)]
pub enum PathProblem {
    /// A section entry that is an absolute path.
    NotRelative,
    /// A section entry with a `..` component (or a root or prefix).
    InvalidComponents,
    /// A section entry component that file-name sanitisation would change
    /// (other than by marking a name that Windows reserves for a device).
    InvalidCharacters { name: String },
    /// A section entry without any name component.
    Empty,
    /// A path without a parent directory.
    NoParent,
    /// A path without a file name.
    NoFileName,
    /// A section entry that, with links resolved, lies outside the notebook
    /// directory.
    EscapesBase,
    /// A path whose links could not be resolved; `reason` says why.
    Unresolved { reason: String },
}

/// The kinds of errors that parsing reports.
#[derive(Debug)]
pub enum ErrorKind {
    /// A `GlobalIdTableEntry2FNDX` refers to an index that the global
    /// identification table of the dependency revision lacks.
    MissingDependencyIndex { index: u32 },
    /// A `GlobalIdTableEntry3FNDX` entry, which the parser does not support.
    UnsupportedGlobalIdEntry,
    /// A node that does not belong in a global identification table.
    UnexpectedGlobalIdNode,
    /// A compact ID whose index the global identification table lacks.
    UnresolvedCompactId { index: u32 },
    /// A revision that does not open with a revision manifest start node.
    InvalidRevisionStart,
    /// A root object reference with an unknown root role.
    InvalidRootRole { value: u32 },
    /// A `RootObjectReference2FNDX` before any global identification table.
    MissingGlobalIdTable,
    /// A node that does not belong in a revision manifest.
    UnexpectedRevisionNode,
    /// A revision manifest whose parsing did not advance.
    RevisionNotAdvancing,
    /// A file that was expected to be a notebook table of contents.
    NotATocFile { file: String },
    /// A file that was expected to be a section.
    NotASectionFile { file: String },
    /// A section group directory without a table of contents.
    TocFileMissing { dir: String },
    /// A path that cannot be used.
    InvalidPath { problem: PathProblem },
}

/// The result type of the parser.
pub type Result<T> = core::result::Result<T, ErrorKind>;

/// The text of a path problem.
pub open spec fn spec_path_problem_message(p: PathProblem) -> Seq<char> {
    match p {
        PathProblem::NotRelative => "section entry must be a relative path"@,
        PathProblem::InvalidComponents => "section entry contains invalid path components"@,
        PathProblem::InvalidCharacters { name } => "section entry contains invalid characters: "@
            + name@,
        PathProblem::Empty => "section entry is empty"@,
        PathProblem::NoParent => "path has no parent directory"@,
        PathProblem::NoFileName => "path has no file name"@,
        PathProblem::EscapesBase => "section entry escapes base directory"@,
        PathProblem::Unresolved { reason } => reason@,
    }
}

/// The text of an error.
pub open spec fn spec_error_message(e: ErrorKind) -> Seq<char> {
    match e {
        ErrorKind::MissingDependencyIndex { index } => "malformed OneStore data: GlobalIdTableEntry2FNDX references index "@
            + spec_decimal(index as nat)
            + " that is not present in the dependency revision's global ID table"@,
        ErrorKind::UnsupportedGlobalIdEntry => "malformed OneStore data: FileNodeData::GlobalIdTableEntry3FNDX has not been implemented yet"@,
        ErrorKind::UnexpectedGlobalIdNode => "malformed OneStore data: unexpected node encountered while parsing global ID table"@,
        ErrorKind::UnresolvedCompactId { index } => "malformed OneStore data: global ID table does not contain index "@
            + spec_decimal(index as nat),
        ErrorKind::InvalidRevisionStart => "malformed OneStore data: invalid start node for revision"@,
        ErrorKind::InvalidRootRole { value } => "malformed OneStore data: invalid root role: "@
            + spec_decimal(value as nat),
        ErrorKind::MissingGlobalIdTable => "malformed OneStore data: unable to resolve RootObjectReference2FNDX ID: no global ID table found"@,
        ErrorKind::UnexpectedRevisionNode => "malformed OneStore data: unexpected node (parsing Revision)"@,
        ErrorKind::RevisionNotAdvancing => "malformed OneStore data: parser did not advance while parsing Revision entry"@,
        ErrorKind::NotATocFile { file } => "file is not a table of contents file: "@ + file@,
        ErrorKind::NotASectionFile { file } => "file is not a section file: "@ + file@,
        ErrorKind::TocFileMissing { dir } => "table of contents file is missing in dir "@ + dir@,
        ErrorKind::InvalidPath { problem } => "invalid path: "@ + spec_path_problem_message(problem),
    }
}

impl PathProblem {
    /// The text of this path problem.
    pub fn message(&self) -> (s: String)
        ensures
            s@ == spec_path_problem_message(*self),
    {
        match self {
            PathProblem::NotRelative => "section entry must be a relative path".to_owned(),
            PathProblem::InvalidComponents => "section entry contains invalid path components".to_owned(),
            PathProblem::InvalidCharacters { name } => {
                let mut s = "section entry contains invalid characters: ".to_owned();
                s.append(name.as_str());
                s
            },
            PathProblem::Empty => "section entry is empty".to_owned(),
            PathProblem::NoParent => "path has no parent directory".to_owned(),
            PathProblem::NoFileName => "path has no file name".to_owned(),
            PathProblem::EscapesBase => "section entry escapes base directory".to_owned(),
            PathProblem::Unresolved { reason } => reason.clone(),
        }
    }
}

impl ErrorKind {
    /// The text of this error.
    pub fn message(&self) -> (s: String)
        ensures
            s@ == spec_error_message(*self),
    {
        match self {
            ErrorKind::MissingDependencyIndex { index } => {
                let mut s = "malformed OneStore data: GlobalIdTableEntry2FNDX references index ".to_owned();
                let n = decimal_string(*index as u64);
                s.append(n.as_str());
                s.append(" that is not present in the dependency revision's global ID table");
                s
            },
            ErrorKind::UnsupportedGlobalIdEntry => "malformed OneStore data: FileNodeData::GlobalIdTableEntry3FNDX has not been implemented yet".to_owned(),
            ErrorKind::UnexpectedGlobalIdNode => "malformed OneStore data: unexpected node encountered while parsing global ID table".to_owned(),
            ErrorKind::UnresolvedCompactId { index } => {
                let mut s = "malformed OneStore data: global ID table does not contain index ".to_owned();
                let n = decimal_string(*index as u64);
                s.append(n.as_str());
                s
            },
            ErrorKind::InvalidRevisionStart => "malformed OneStore data: invalid start node for revision".to_owned(),
            ErrorKind::InvalidRootRole { value } => {
                let mut s = "malformed OneStore data: invalid root role: ".to_owned();
                let n = decimal_string(*value as u64);
                s.append(n.as_str());
                s
            },
            ErrorKind::MissingGlobalIdTable => "malformed OneStore data: unable to resolve RootObjectReference2FNDX ID: no global ID table found".to_owned(),
            ErrorKind::UnexpectedRevisionNode => "malformed OneStore data: unexpected node (parsing Revision)".to_owned(),
            ErrorKind::RevisionNotAdvancing => "malformed OneStore data: parser did not advance while parsing Revision entry".to_owned(),
            ErrorKind::NotATocFile { file } => {
                let mut s = "file is not a table of contents file: ".to_owned();
                s.append(file.as_str());
                s
            },
            ErrorKind::NotASectionFile { file } => {
                let mut s = "file is not a section file: ".to_owned();
                s.append(file.as_str());
                s
            },
            ErrorKind::TocFileMissing { dir } => {
                let mut s = "table of contents file is missing in dir ".to_owned();
                s.append(dir.as_str());
                s
            },
            ErrorKind::InvalidPath { problem } => {
                let mut s = "invalid path: ".to_owned();
                let p = problem.message();
                s.append(p.as_str());
                s
            },
        }
    }
}

} // verus!
