//! The ways in which grouping metadata fails.

use crate::metadata::{Metadata, MetadataView};
use vstd::prelude::*;

verus! {

/// Why a metadata item could not be placed in its library's group.
#[derive(Debug, Clone, PartialEq, Eq)]
pub enum GroupError {
    /// No namespace was declared for the library `crate_name`.
    UnknownNamespace { crate_name: String },
    /// The item is already present in its group.
    DuplicateItem { item: Metadata },
    /// The item belongs to the library `crate_name`, not to the group's
    /// library `library`.
    ItemOutsideLibrary { crate_name: String, library: String },
    /// A callback interface of another library is referred to, which is not
    /// supported.
    ExternalCallbackInterface { mod_path: String, name: String },
    /// An external type arrived with its namespace already filled in.
    ExternalAlreadyResolved { mod_path: String, name: String },
}

/// The view of [`GroupError`].
pub enum GroupErrorView {
    UnknownNamespace { crate_name: Seq<char> },
    DuplicateItem { item: MetadataView },
    ItemOutsideLibrary { crate_name: Seq<char>, library: Seq<char> },
    ExternalCallbackInterface { mod_path: Seq<char>, name: Seq<char> },
    ExternalAlreadyResolved { mod_path: Seq<char>, name: Seq<char> },
}

impl View for GroupError {
    type V = GroupErrorView;

    open spec fn view(&self) -> GroupErrorView {
        match self {
            GroupError::UnknownNamespace { crate_name } => GroupErrorView::UnknownNamespace {
                crate_name: crate_name@,
            },
            GroupError::DuplicateItem { item } => GroupErrorView::DuplicateItem { item: item@ },
            GroupError::ItemOutsideLibrary { crate_name, library } => {
                GroupErrorView::ItemOutsideLibrary { crate_name: crate_name@, library: library@ }
            },
            GroupError::ExternalCallbackInterface { mod_path, name } => {
                GroupErrorView::ExternalCallbackInterface { mod_path: mod_path@, name: name@ }
            },
            GroupError::ExternalAlreadyResolved { mod_path, name } => {
                GroupErrorView::ExternalAlreadyResolved { mod_path: mod_path@, name: name@ }
            },
        }
    }
}

/// Why the sources of a library could not be put together.
#[derive(Debug, Clone, PartialEq, Eq)]
pub enum LibraryModeError {
    /// Not exactly one package has a target for the library `crate_name`.
    PackagesFound { count: usize, crate_name: String },
    /// The only interface definition file of the group is declared for the
    /// library `udl_crate`, not for `crate_name`.
    UdlCrateMismatch { udl_crate: String, crate_name: String },
    /// The group of the library `crate_name` declares more than one interface
    /// definition file.
    UdlFilesFound { count: usize, crate_name: String },
}

/// The view of [`LibraryModeError`].
pub enum LibraryModeErrorView {
    PackagesFound { count: nat, crate_name: Seq<char> },
    UdlCrateMismatch { udl_crate: Seq<char>, crate_name: Seq<char> },
    UdlFilesFound { count: nat, crate_name: Seq<char> },
}

impl View for LibraryModeError {
    type V = LibraryModeErrorView;

    open spec fn view(&self) -> LibraryModeErrorView {
        match self {
            LibraryModeError::PackagesFound { count, crate_name } => {
                LibraryModeErrorView::PackagesFound { count: *count as nat, crate_name: crate_name@ }
            },
            LibraryModeError::UdlCrateMismatch { udl_crate, crate_name } => {
                LibraryModeErrorView::UdlCrateMismatch {
                    udl_crate: udl_crate@,
                    crate_name: crate_name@,
                }
            },
            LibraryModeError::UdlFilesFound { count, crate_name } => {
                LibraryModeErrorView::UdlFilesFound { count: *count as nat, crate_name: crate_name@ }
            },
        }
    }
}

} // verus!
