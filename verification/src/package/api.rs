//! Repository and app store adapters. None of them can reach a network
//! yet: every query answers `NotImplemented`.

use vstd::prelude::*;
use vstd::string::StringExecFns;
use crate::package::{PackageError, PackageResult, ErrorSpec};
use crate::package::types::{PackageMetadata, Repository, RepositoryType};

verus! {

/// A package repository reached over its API.
pub trait RepositoryAdapter {
    /// Packages that match `query`.
    fn search(&self, query: &str) -> PackageResult<Vec<PackageMetadata>>;

    /// The metadata of a package.
    fn get_metadata(&self, name: &str, version: Option<&str>) -> PackageResult<PackageMetadata>;

    /// The bytes of a package file.
    fn download(&self, name: &str, version: &str) -> PackageResult<Vec<u8>>;

    /// Refreshes the index of the repository.
    fn update_index(&self) -> PackageResult<()>;

    /// The repository.
    fn get_repository_info(&self) -> &Repository;
}

/// An APT repository.
pub struct AptRepositoryAdapter {
    repository: Repository,
}

impl AptRepositoryAdapter {
    /// The repository.
    pub closed spec fn repository_spec(&self) -> Repository {
        self.repository
    }

    /// An enabled APT repository named "APT Repository" at `url`.
    pub fn new(url: String) -> (r: Self)
        ensures
            r.repository_spec().name@ == "APT Repository"@,
            r.repository_spec().url == url,
            r.repository_spec().repo_type == RepositoryType::Apt,
            r.repository_spec().enabled,
    {
        AptRepositoryAdapter {
            repository: Repository {
                name: String::from_str("APT Repository"),
                url,
                repo_type: RepositoryType::Apt,
                enabled: true,
            },
        }
    }
}

impl RepositoryAdapter for AptRepositoryAdapter {
    fn search(&self, query: &str) -> (r: PackageResult<Vec<PackageMetadata>>)
        ensures
            r matches Err(e) && e@ == ErrorSpec::NotImplemented(
                "APT repository search requires network stack integration"@,
            ),
    {
        Err(PackageError::not_implemented("APT repository search requires network stack integration"))
    }

    fn get_metadata(&self, name: &str, version: Option<&str>) -> (r: PackageResult<PackageMetadata>)
        ensures
            r matches Err(e) && e@ == ErrorSpec::NotImplemented(
                "APT metadata retrieval requires network stack integration"@,
            ),
    {
        Err(PackageError::not_implemented("APT metadata retrieval requires network stack integration"))
    }

    fn download(&self, name: &str, version: &str) -> (r: PackageResult<Vec<u8>>)
        ensures
            r matches Err(e) && e@ == ErrorSpec::NotImplemented(
                "APT package download requires network stack integration"@,
            ),
    {
        Err(PackageError::not_implemented("APT package download requires network stack integration"))
    }

    fn update_index(&self) -> (r: PackageResult<()>)
        ensures
            r matches Err(e) && e@ == ErrorSpec::NotImplemented("APT index update requires network stack integration"@),
    {
        Err(PackageError::not_implemented("APT index update requires network stack integration"))
    }

    fn get_repository_info(&self) -> (r: &Repository)
        ensures
            *r == self.repository_spec(),
    {
        &self.repository
    }
}

/// A DNF repository.
pub struct DnfRepositoryAdapter {
    repository: Repository,
}

impl DnfRepositoryAdapter {
    /// The repository.
    pub closed spec fn repository_spec(&self) -> Repository {
        self.repository
    }

    /// An enabled DNF repository named "DNF Repository" at `url`.
    pub fn new(url: String) -> (r: Self)
        ensures
            r.repository_spec().name@ == "DNF Repository"@,
            r.repository_spec().url == url,
            r.repository_spec().repo_type == RepositoryType::Dnf,
            r.repository_spec().enabled,
    {
        DnfRepositoryAdapter {
            repository: Repository {
                name: String::from_str("DNF Repository"),
                url,
                repo_type: RepositoryType::Dnf,
                enabled: true,
            },
        }
    }
}

impl RepositoryAdapter for DnfRepositoryAdapter {
    fn search(&self, query: &str) -> (r: PackageResult<Vec<PackageMetadata>>)
        ensures
            r matches Err(e) && e@ == ErrorSpec::NotImplemented("DNF repository search not yet implemented"@),
    {
        Err(PackageError::not_implemented("DNF repository search not yet implemented"))
    }

    fn get_metadata(&self, name: &str, version: Option<&str>) -> (r: PackageResult<PackageMetadata>)
        ensures
            r matches Err(e) && e@ == ErrorSpec::NotImplemented("DNF metadata retrieval not yet implemented"@),
    {
        Err(PackageError::not_implemented("DNF metadata retrieval not yet implemented"))
    }

    fn download(&self, name: &str, version: &str) -> (r: PackageResult<Vec<u8>>)
        ensures
            r matches Err(e) && e@ == ErrorSpec::NotImplemented("DNF package download not yet implemented"@),
    {
        Err(PackageError::not_implemented("DNF package download not yet implemented"))
    }

    fn update_index(&self) -> (r: PackageResult<()>)
        ensures
            r matches Err(e) && e@ == ErrorSpec::NotImplemented("DNF index update not yet implemented"@),
    {
        Err(PackageError::not_implemented("DNF index update not yet implemented"))
    }

    fn get_repository_info(&self) -> (r: &Repository)
        ensures
            *r == self.repository_spec(),
    {
        &self.repository
    }
}

/// An app store reached over its API.
pub trait AppStoreAdapter {
    /// Apps that match `query`.
    fn search_apps(&self, query: &str) -> PackageResult<Vec<PackageMetadata>>;

    /// The metadata of an app.
    fn get_app_details(&self, app_id: &str) -> PackageResult<PackageMetadata>;

    /// The bytes of an app package.
    fn download_app(&self, app_id: &str) -> PackageResult<Vec<u8>>;

    /// The featured apps.
    fn get_featured(&self) -> PackageResult<Vec<PackageMetadata>>;
}

/// An app store with a name and an API address.
pub struct GenericAppStoreAdapter {
    name: String,
    api_url: String,
}

impl GenericAppStoreAdapter {
    /// The name of the store.
    pub closed spec fn name_spec(&self) -> Seq<char> {
        self.name@
    }

    /// The API address of the store.
    pub closed spec fn api_url_spec(&self) -> Seq<char> {
        self.api_url@
    }

    /// A store with the given name and API address.
    pub fn new(name: String, api_url: String) -> (r: Self)
        ensures
            r.name_spec() == name@,
            r.api_url_spec() == api_url@,
    {
        GenericAppStoreAdapter { name, api_url }
    }
}

impl AppStoreAdapter for GenericAppStoreAdapter {
    fn search_apps(&self, query: &str) -> (r: PackageResult<Vec<PackageMetadata>>)
        ensures
            r matches Err(e) && e@ == ErrorSpec::NotImplemented(
                "App store integration requires network and API support"@,
            ),
    {
        Err(PackageError::not_implemented("App store integration requires network and API support"))
    }

    fn get_app_details(&self, app_id: &str) -> (r: PackageResult<PackageMetadata>)
        ensures
            r matches Err(e) && e@ == ErrorSpec::NotImplemented(
                "App store integration requires network and API support"@,
            ),
    {
        Err(PackageError::not_implemented("App store integration requires network and API support"))
    }

    fn download_app(&self, app_id: &str) -> (r: PackageResult<Vec<u8>>)
        ensures
            r matches Err(e) && e@ == ErrorSpec::NotImplemented(
                "App store integration requires network and API support"@,
            ),
    {
        Err(PackageError::not_implemented("App store integration requires network and API support"))
    }

    fn get_featured(&self) -> (r: PackageResult<Vec<PackageMetadata>>)
        ensures
            r matches Err(e) && e@ == ErrorSpec::NotImplemented(
                "App store integration requires network and API support"@,
            ),
    {
        Err(PackageError::not_implemented("App store integration requires network and API support"))
    }
}

} // verus!
