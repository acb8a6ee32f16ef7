//! Model storages: where the data of a model lives.

use vstd::prelude::*;
use vstd::string::*;

verus! {

/// A database. One that lives elsewhere is reached at its address; one that
/// is deployed on demand has none to give.
#[derive(Debug, PartialEq, Eq)]
pub struct ModelStorageDatabaseSpec {
    pub url: Option<String>,
}

/// The cluster itself as a storage. There is nothing to reach.
#[derive(Clone, Copy, Debug, Default, PartialEq, Eq)]
pub struct ModelStorageKubernetesSpec {}

/// An object storage.
#[derive(Debug, PartialEq, Eq)]
pub enum ModelStorageObjectSpec {
    /// One that lives elsewhere, reached at its own address. Others may use
    /// it too.
    Borrowed { endpoint: String },
    /// One that is deployed as a service of the namespace that asks for it.
    /// Nobody else has it.
    Owned { service: String },
}

/// What kind of storage a model storage is, with what that kind needs.
#[derive(Debug, PartialEq, Eq)]
pub enum ModelStorageKindSpec {
    Database(ModelStorageDatabaseSpec),
    Kubernetes(ModelStorageKubernetesSpec),
    ObjectStorage(ModelStorageObjectSpec),
}

/// The kinds of storage.
#[derive(Copy, Clone, Debug, PartialEq, Eq, PartialOrd, Ord, Hash, Structural)]
pub enum ModelStorageKind {
    Database,
    Kubernetes,
    ObjectStorage,
}

/// How far a model storage has come.
#[derive(Copy, Clone, Debug, PartialEq, Eq, PartialOrd, Ord, Hash, Structural)]
pub enum ModelStorageState {
    Pending,
    Ready,
    Deleting,
}

impl Default for ModelStorageState {
    fn default() -> (state: Self)
        ensures
            state == ModelStorageState::Pending,
    {
        ModelStorageState::Pending
    }
}

/// A model storage: its kind, and whether it is the one to use where none is
/// named.
#[derive(Debug, PartialEq, Eq)]
pub struct ModelStorageSpec {
    pub kind: ModelStorageKindSpec,
    pub default: bool,
}

/// An optional address as a mathematical value.
pub open spec fn address_view(address: Option<String>) -> Option<Seq<char>> {
    match address {
        Some(address) => Some(address@),
        None => None,
    }
}

/// The address of a service of a namespace inside the cluster.
pub open spec fn service_address(service: Seq<char>, namespace: Seq<char>) -> Seq<char> {
    "http://"@ + service + "."@ + namespace + ".svc"@
}

/// Where an object storage is reached from a namespace.
pub open spec fn object_endpoint(spec: ModelStorageObjectSpec, namespace: Seq<char>) -> Option<
    Seq<char>,
> {
    match spec {
        ModelStorageObjectSpec::Borrowed { endpoint } => Some(endpoint@),
        ModelStorageObjectSpec::Owned { service } => Some(service_address(service@, namespace)),
    }
}

/// Where a storage is reached from a namespace, if it is reached at all.
pub open spec fn endpoint_of(spec: ModelStorageKindSpec, namespace: Seq<char>) -> Option<
    Seq<char>,
> {
    match spec {
        ModelStorageKindSpec::Database(spec) => address_view(spec.url),
        ModelStorageKindSpec::Kubernetes(_) => None,
        ModelStorageKindSpec::ObjectStorage(spec) => object_endpoint(spec, namespace),
    }
}

/// Whether a storage belongs to the one that declares it alone.
pub open spec fn unique(spec: ModelStorageKindSpec) -> bool {
    match spec {
        ModelStorageKindSpec::Database(_) => false,
        ModelStorageKindSpec::Kubernetes(_) => true,
        ModelStorageKindSpec::ObjectStorage(spec) => spec is Owned,
    }
}

/// The kind of a storage.
pub open spec fn kind_of_spec(spec: ModelStorageKindSpec) -> ModelStorageKind {
    match spec {
        ModelStorageKindSpec::Database(_) => ModelStorageKind::Database,
        ModelStorageKindSpec::Kubernetes(_) => ModelStorageKind::Kubernetes,
        ModelStorageKindSpec::ObjectStorage(_) => ModelStorageKind::ObjectStorage,
    }
}

impl ModelStorageDatabaseSpec {
    /// The address of the database, where it has one.
    pub fn endpoint(&self) -> (address: Option<String>)
        ensures
            address_view(address) == address_view(self.url),
    {
        match &self.url {
            Some(url) => Some(url.clone()),
            None => None,
        }
    }
}

impl ModelStorageKubernetesSpec {
    /// The cluster has no address of its own.
    pub fn endpoint(&self) -> (address: Option<String>)
        ensures
            address is None,
    {
        None
    }
}

impl ModelStorageObjectSpec {
    /// Where the storage is reached from a namespace.
    pub fn endpoint(&self, namespace: &str) -> (address: Option<String>)
        ensures
            address_view(address) == object_endpoint(*self, namespace@),
    {
        match self {
            ModelStorageObjectSpec::Borrowed { endpoint } => Some(endpoint.clone()),
            ModelStorageObjectSpec::Owned { service } => {
                let mut address = "http://".to_owned();
                address.append(service.as_str());
                address.append(".");
                address.append(namespace);
                address.append(".svc");
                Some(address)
            },
        }
    }

    /// Whether the storage belongs to the one that declares it alone.
    pub fn is_unique(&self) -> (b: bool)
        ensures
            b == (*self is Owned),
    {
        match self {
            ModelStorageObjectSpec::Borrowed { .. } => false,
            ModelStorageObjectSpec::Owned { .. } => true,
        }
    }
}

impl ModelStorageKindSpec {
    /// Where the storage is reached from a namespace, if it is reached at all.
    pub fn endpoint(&self, namespace: &str) -> (address: Option<String>)
        ensures
            address_view(address) == endpoint_of(*self, namespace@),
    {
        match self {
            ModelStorageKindSpec::Database(spec) => spec.endpoint(),
            ModelStorageKindSpec::Kubernetes(spec) => spec.endpoint(),
            ModelStorageKindSpec::ObjectStorage(spec) => spec.endpoint(namespace),
        }
    }

    /// Whether the storage belongs to the one that declares it alone.
    pub fn is_unique(&self) -> (b: bool)
        ensures
            b == unique(*self),
    {
        match self {
            ModelStorageKindSpec::Database(_) => false,
            ModelStorageKindSpec::Kubernetes(_) => true,
            ModelStorageKindSpec::ObjectStorage(spec) => spec.is_unique(),
        }
    }

    /// The kind of the storage.
    pub fn to_kind(&self) -> (kind: ModelStorageKind)
        ensures
            kind == kind_of_spec(*self),
    {
        match self {
            ModelStorageKindSpec::Database(_) => ModelStorageKind::Database,
            ModelStorageKindSpec::Kubernetes(_) => ModelStorageKind::Kubernetes,
            ModelStorageKindSpec::ObjectStorage(_) => ModelStorageKind::ObjectStorage,
        }
    }
}

} // verus!
