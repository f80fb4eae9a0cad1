//! Package archives and the bookkeeping of installed packages: AR, TAR and
//! gzip framing, Debian control files, the package database and the
//! operations of the package manager.

use vstd::prelude::*;

pub mod text;
pub mod types;
pub mod archive;
pub mod compression;
pub mod database;
pub mod adapters;
pub mod manager;
pub mod api;
pub mod syscalls;

pub use types::{
    Dependency, ExtractedPackage, PackageInfo, PackageMetadata, PackageStatus, Repository, RepositoryType,
};
pub use database::{PackageCache, PackageDatabase};
pub use manager::PackageManager;
pub use adapters::{PackageAdapter, DebAdapter, RpmAdapter, ApkAdapter};

verus! {

/// Errors of package operations, each with a message.
#[derive(Debug, Clone)]
pub enum PackageError {
    NotFound(String),
    InvalidFormat(String),
    DependencyError(String),
    IoError(String),
    ExtractionError(String),
    InstallError(String),
    NotImplemented(String),
    InvalidOperation(String),
}

/// Result type of package operations.
pub type PackageResult<T> = Result<T, PackageError>;

/// A package error as values: its kind and message.
pub enum ErrorSpec {
    NotFound(Seq<char>),
    InvalidFormat(Seq<char>),
    DependencyError(Seq<char>),
    IoError(Seq<char>),
    ExtractionError(Seq<char>),
    InstallError(Seq<char>),
    NotImplemented(Seq<char>),
    InvalidOperation(Seq<char>),
}

impl View for PackageError {
    type V = ErrorSpec;

    open spec fn view(&self) -> ErrorSpec {
        match self {
            PackageError::NotFound(m) => ErrorSpec::NotFound(m@),
            PackageError::InvalidFormat(m) => ErrorSpec::InvalidFormat(m@),
            PackageError::DependencyError(m) => ErrorSpec::DependencyError(m@),
            PackageError::IoError(m) => ErrorSpec::IoError(m@),
            PackageError::ExtractionError(m) => ErrorSpec::ExtractionError(m@),
            PackageError::InstallError(m) => ErrorSpec::InstallError(m@),
            PackageError::NotImplemented(m) => ErrorSpec::NotImplemented(m@),
            PackageError::InvalidOperation(m) => ErrorSpec::InvalidOperation(m@),
        }
    }
}

/// `e` is `InvalidFormat` with message `msg`.
pub open spec fn invalid_format(e: PackageError, msg: Seq<char>) -> bool {
    e matches PackageError::InvalidFormat(m) && m@ == msg
}

/// `e` is `ExtractionError` with message `msg`.
pub open spec fn extraction_error(e: PackageError, msg: Seq<char>) -> bool {
    e matches PackageError::ExtractionError(m) && m@ == msg
}

/// `e` is `NotImplemented` with message `msg`.
pub open spec fn not_implemented(e: PackageError, msg: Seq<char>) -> bool {
    e matches PackageError::NotImplemented(m) && m@ == msg
}

/// `e` is `NotFound` with message `msg`.
pub open spec fn not_found(e: PackageError, msg: Seq<char>) -> bool {
    e matches PackageError::NotFound(m) && m@ == msg
}

/// `e` is `InvalidOperation` with message `msg`.
pub open spec fn invalid_operation(e: PackageError, msg: Seq<char>) -> bool {
    e matches PackageError::InvalidOperation(m) && m@ == msg
}

impl PackageError {
    /// An `InvalidFormat` error with the given message.
    pub fn format_error(msg: &str) -> (r: Self)
        ensures
            invalid_format(r, msg@),
    {
        PackageError::InvalidFormat(msg.to_owned())
    }

    /// An `ExtractionError` with the given message.
    pub fn extraction(msg: &str) -> (r: Self)
        ensures
            extraction_error(r, msg@),
    {
        PackageError::ExtractionError(msg.to_owned())
    }

    /// A `NotImplemented` error with the given message.
    pub fn not_implemented(msg: &str) -> (r: Self)
        ensures
            not_implemented(r, msg@),
    {
        PackageError::NotImplemented(msg.to_owned())
    }

    /// The message of the error.
    pub fn message(&self) -> (r: &String)
        ensures
            match self {
                PackageError::NotFound(m) => r == m,
                PackageError::InvalidFormat(m) => r == m,
                PackageError::DependencyError(m) => r == m,
                PackageError::IoError(m) => r == m,
                PackageError::ExtractionError(m) => r == m,
                PackageError::InstallError(m) => r == m,
                PackageError::NotImplemented(m) => r == m,
                PackageError::InvalidOperation(m) => r == m,
            },
    {
        match self {
            PackageError::NotFound(m) => m,
            PackageError::InvalidFormat(m) => m,
            PackageError::DependencyError(m) => m,
            PackageError::IoError(m) => m,
            PackageError::ExtractionError(m) => m,
            PackageError::InstallError(m) => m,
            PackageError::NotImplemented(m) => m,
            PackageError::InvalidOperation(m) => m,
        }
    }
}

/// Operations of the package manager.
#[derive(Debug, Clone, Copy, PartialEq, Eq, Structural)]
pub enum PackageOperation {
    Install,
    Remove,
    Update,
    Search,
    Info,
    List,
    Upgrade,
}

/// Package manager back ends.
#[derive(Debug, Clone, Copy, PartialEq, Eq, Structural)]
pub enum PackageManagerType {
    Apt,
    Dnf,
    Pacman,
    Apk,
    Native,
    Unknown,
}

impl PackageManagerType {
    /// The name under which the back end is shown.
    pub fn label(&self) -> (r: &'static str)
        ensures
            r@ == package_manager_label(*self),
    {
        match self {
            PackageManagerType::Apt => "APT",
            PackageManagerType::Dnf => "DNF",
            PackageManagerType::Pacman => "Pacman",
            PackageManagerType::Apk => "APK",
            PackageManagerType::Native => "RustOS Native",
            PackageManagerType::Unknown => "Unknown",
        }
    }
}

/// The name under which a back end is shown.
pub open spec fn package_manager_label(t: PackageManagerType) -> Seq<char> {
    match t {
        PackageManagerType::Apt => "APT"@,
        PackageManagerType::Dnf => "DNF"@,
        PackageManagerType::Pacman => "Pacman"@,
        PackageManagerType::Apk => "APK"@,
        PackageManagerType::Native => "RustOS Native"@,
        PackageManagerType::Unknown => "Unknown"@,
    }
}

} // verus!
